//! Signatures of policy revisions: HMAC-SHA256, written in hexadecimal.
use crate::text::{blank, chars_of, is_space, trim, trimmed};
use hmac::Mac;
use sha2::Digest;
use vstd::prelude::*;
use vstd::string::*;
use vstd::utf8::encode_utf8;

verus! {

// ---------------------------------------------------------------- hexadecimal

/// The lower-case hexadecimal digit of a value below sixteen.
pub open spec fn hex_char(n: int) -> char {
    if n < 10 {
        ((48 + n) as u8) as char
    } else {
        ((87 + n) as u8) as char
    }
}

/// Two digits for each byte.
pub open spec fn hex_text(bytes: Seq<u8>) -> Seq<char> {
    Seq::new(
        bytes.len() * 2,
        |i: int|
            if i % 2 == 0 {
                hex_char(bytes[i / 2] as int / 16)
            } else {
                hex_char(bytes[i / 2] as int % 16)
            },
    )
}

/// The value of a hexadecimal digit of either case.
pub open spec fn hex_value(c: char) -> Option<int> {
    if '0' <= c && c <= '9' {
        Some(c as int - 48)
    } else if 'a' <= c && c <= 'f' {
        Some(c as int - 87)
    } else if 'A' <= c && c <= 'F' {
        Some(c as int - 55)
    } else {
        None
    }
}

/// Whether `s` is a whole number of digit pairs, and at least one.
pub open spec fn is_hex(s: Seq<char>) -> bool {
    &&& s.len() > 0
    &&& s.len() % 2 == 0
    &&& forall|i: int| 0 <= i < s.len() ==> hex_value(#[trigger] s[i]) is Some
}

/// The bytes that the digit pairs of `s` stand for.
pub open spec fn hex_pairs(s: Seq<char>) -> Seq<u8> {
    Seq::new(
        (s.len() / 2) as nat,
        |i: int| (hex_value(s[2 * i])->0 * 16 + hex_value(s[2 * i + 1])->0) as u8,
    )
}

/// The bytes of a hexadecimal text, which may have blanks at its ends.
pub open spec fn hex_bytes(s: Seq<char>) -> Option<Seq<u8>> {
    if is_hex(trimmed(s)) {
        Some(hex_pairs(trimmed(s)))
    } else {
        None
    }
}

fn hex_digit(n: u8) -> (c: char)
    requires
        n < 16,
    ensures
        c == hex_char(n as int),
{
    if n < 10 {
        (48 + n) as char
    } else {
        (87 + n) as char
    }
}

/// The bytes in lower-case hexadecimal.
pub fn hex_encode(bytes: &[u8]) -> (r: String)
    ensures
        r@ == hex_text(bytes@),
{
    let mut out = String::new();
    let mut i: usize = 0;
    while i < bytes.len()
        invariant
            i <= bytes.len(),
            out@ =~= hex_text(bytes@).take(2 * i),
        decreases bytes.len() - i,
    {
        out.push(hex_digit(bytes[i] / 16));
        out.push(hex_digit(bytes[i] % 16));
        assert(hex_text(bytes@)[2 * i] == hex_char(bytes@[i as int] as int / 16)) by {
            assert((2 * i) / 2 == i);
        }
        assert(hex_text(bytes@)[2 * i + 1] == hex_char(bytes@[i as int] as int % 16)) by {
            assert((2 * i + 1) / 2 == i);
        }
        i += 1;
    }
    assert(hex_text(bytes@).take(2 * i) =~= hex_text(bytes@));
    out
}

fn hex_nibble(c: char) -> (r: Option<u8>)
    ensures
        match r {
            Some(v) => hex_value(c) == Some(v as int) && v < 16,
            None => hex_value(c) is None,
        },
{
    if '0' <= c && c <= '9' {
        Some(c as u8 - 48)
    } else if 'a' <= c && c <= 'f' {
        Some(c as u8 - 87)
    } else if 'A' <= c && c <= 'F' {
        Some(c as u8 - 55)
    } else {
        None
    }
}

/// The bytes of a hexadecimal text; `None` where it is empty or no whole
/// number of digit pairs.
pub fn decode_hex(value: &str) -> (r: Option<Vec<u8>>)
    ensures
        match r {
            Some(bytes) => hex_bytes(value@) == Some(bytes@),
            None => hex_bytes(value@) is None,
        },
{
    let raw = chars_of(trim(value));
    if raw.len() == 0 || raw.len() % 2 != 0 {
        return None;
    }
    let mut out: Vec<u8> = Vec::new();
    let mut i: usize = 0;
    let n: usize = raw.len() / 2;
    while i < n
        invariant
            i <= n,
            n * 2 == raw.len(),
            raw@ == trimmed(value@),
            forall|k: int| 0 <= k < 2 * i ==> hex_value(#[trigger] raw@[k]) is Some,
            out@ =~= hex_pairs(raw@).take(i as int),
        decreases n - i,
    {
        let high = hex_nibble(raw[2 * i]);
        let low = hex_nibble(raw[2 * i + 1]);
        match (high, low) {
            (Some(high), Some(low)) => {
                out.push(high * 16 + low);
            },
            _ => {
                return None;
            },
        }
        i += 1;
    }
    assert(hex_pairs(raw@).take(i as int) =~= hex_pairs(raw@));
    Some(out)
}

proof fn hex_char_value(n: int)
    requires
        0 <= n < 16,
    ensures
        hex_value(hex_char(n)) == Some(n),
        !is_space(hex_char(n)),
{
}

proof fn untrimmed(s: Seq<char>)
    requires
        forall|i: int| 0 <= i < s.len() ==> !is_space(#[trigger] s[i]),
    ensures
        trimmed(s) == s,
{
}

/// Hexadecimal text is not blank and holds no comma: it can stand in a list.
pub proof fn hex_is_one_word(s: Seq<char>)
    requires
        is_hex(s),
    ensures
        trimmed(s) == s,
        !blank(s),
        !s.contains(','),
{
    assert forall|i: int| 0 <= i < s.len() implies !is_space(#[trigger] s[i]) && s[i] != ',' by {
        assert(hex_value(s[i]) is Some);
    }
    untrimmed(s);
}

/// Bytes are written in digits, without blanks.
proof fn hex_untrimmed(bytes: Seq<u8>)
    requires
        bytes.len() > 0,
    ensures
        is_hex(hex_text(bytes)),
        trimmed(hex_text(bytes)) == hex_text(bytes),
{
    let s = hex_text(bytes);
    assert forall|i: int| 0 <= i < s.len() implies !is_space(#[trigger] s[i])
        && hex_value(s[i]) is Some by {
        hex_char_value(bytes[i / 2] as int / 16);
        hex_char_value(bytes[i / 2] as int % 16);
    }
    untrimmed(s);
}

/// Decoding gives back the bytes that were encoded, where there are any.
pub proof fn hex_round_trip(bytes: Seq<u8>)
    requires
        bytes.len() > 0,
    ensures
        hex_bytes(hex_text(bytes)) == Some(bytes),
{
    let s = hex_text(bytes);
    hex_untrimmed(bytes);
    assert forall|i: int| 0 <= i < bytes.len() implies hex_pairs(s)[i] == #[trigger] bytes[i] by {
        hex_char_value(bytes[i] as int / 16);
        hex_char_value(bytes[i] as int % 16);
        assert((2 * i) / 2 == i && (2 * i + 1) / 2 == i);
        assert(s[2 * i] == hex_char(bytes[i] as int / 16));
        assert(s[2 * i + 1] == hex_char(bytes[i] as int % 16));
    }
    assert(hex_pairs(s) =~= bytes);
}

// ---------------------------------------------------------------- comparing

/// Whether the two hold the same bytes. Every byte of equally long arguments
/// is looked at, whatever the others are.
pub fn constant_time_eq(a: &[u8], b: &[u8]) -> (r: bool)
    ensures
        r == (a@ == b@),
{
    if a.len() != b.len() {
        return false;
    }
    let mut diff: u8 = 0;
    let mut i: usize = 0;
    while i < a.len()
        invariant
            i <= a.len(),
            a.len() == b.len(),
            diff == 0 <==> forall|k: int| 0 <= k < i ==> a@[k] == b@[k],
        decreases a.len() - i,
    {
        let x: u8 = a[i];
        let y: u8 = b[i];
        let next: u8 = diff | (x ^ y);
        assert(next == 0 <==> diff == 0 && x == y) by (bit_vector)
            requires
                next == diff | (x ^ y),
        ;
        diff = next;
        i += 1;
    }
    assert(diff == 0 ==> a@ =~= b@);
    diff == 0
}

// ---------------------------------------------------------------- signatures

/// HMAC-SHA256 of a message under a key.
pub uninterp spec fn hmac_sha256(key: Seq<u8>, message: Seq<u8>) -> Seq<u8>;

/// The SHA-256 digest of a message.
pub uninterp spec fn sha256(message: Seq<u8>) -> Seq<u8>;

/// `Hmac::<Sha256>` of the `hmac` and `sha2` crates: keyed with `key`, fed
/// `message`, finalized. `new_from_slice` takes a key of any length, and the
/// code has 32 bytes.
#[verifier::external_body]
fn hmac_sha256_code(key: &[u8], message: &[u8]) -> (r: Option<Vec<u8>>)
    ensures
        r is Some,
        r->0@ == hmac_sha256(key@, message@),
        r->0@.len() == 32,
{
    let mut mac = hmac::Hmac::<sha2::Sha256>::new_from_slice(key).ok()?;
    mac.update(message);
    Some(mac.finalize().into_bytes().to_vec())
}

/// `Sha256::digest` of the `sha2` crate, whose result has 32 bytes.
#[verifier::external_body]
fn sha256_digest(message: &[u8]) -> (r: Vec<u8>)
    ensures
        r@ == sha256(message@),
        r@.len() == 32,
{
    sha2::Sha256::digest(message).to_vec()
}

/// The signature of `revision` under `key`.
pub open spec fn signature_text(revision: Seq<char>, key: Seq<char>) -> Seq<char> {
    hex_text(hmac_sha256(encode_utf8(key), encode_utf8(revision)))
}

/// The revision of a document: its SHA-256 digest in hexadecimal.
pub open spec fn digest_text(document: Seq<char>) -> Seq<char> {
    hex_text(sha256(encode_utf8(document)))
}

/// Signs a policy revision. A signature has 64 digits, and it is found good
/// under the key that it was made with.
pub fn sign_policy_revision_hmac_sha256(revision: &str, key: &str) -> (r: Option<String>)
    ensures
        r is Some,
        r->0@ == signature_text(revision@, key@),
        r->0@.len() == 64,
        verification(revision@, r->0@, key@) == Some(true),
{
    match hmac_sha256_code(key.as_bytes(), revision.as_bytes()) {
        Some(code) => {
            proof {
                hex_round_trip(code@);
            }
            Some(hex_encode(code.as_slice()))
        },
        None => None,
    }
}

/// The digest of a document in hexadecimal.
pub fn digest_hex(document: &str) -> (r: String)
    ensures
        r@ == digest_text(document@),
        r@.len() == 64,
        is_hex(r@),
{
    let digest = sha256_digest(document.as_bytes());
    proof {
        hex_untrimmed(digest@);
    }
    hex_encode(digest.as_slice())
}

/// What verification says: nothing where the signature is no hexadecimal text.
pub open spec fn verification(
    revision: Seq<char>,
    signature: Seq<char>,
    key: Seq<char>,
) -> Option<bool> {
    match hex_bytes(signature) {
        Some(received) => Some(received == hmac_sha256(encode_utf8(key), encode_utf8(revision))),
        None => None,
    }
}

/// Checks a signature; `None` where it is no hexadecimal text.
pub fn verify_policy_revision_hmac_sha256(
    revision: &str,
    signature_hex: &str,
    key: &str,
) -> (r: Option<bool>)
    ensures
        r == verification(revision@, signature_hex@, key@),
{
    let expected = hmac_sha256_code(key.as_bytes(), revision.as_bytes());
    match (expected, decode_hex(signature_hex)) {
        (Some(expected), Some(received)) => {
            Some(constant_time_eq(received.as_slice(), expected.as_slice()))
        },
        _ => None,
    }
}

/// A value is written in digits and lower-case letters, and read in either case.
pub proof fn digits_are_lower_case(n: int)
    requires
        0 <= n < 16,
    ensures
        n < 10 ==> hex_char(n) as int == '0' as int + n,
        n >= 10 ==> hex_char(n) as int == 'a' as int + n - 10,
        hex_value(hex_char(n)) == Some(n),
        n >= 10 ==> hex_value(('A' as int + n - 10) as u8 as char) == Some(n),
        hex_value('g') is None && hex_value('G') is None && hex_value('/') is None && hex_value(':')
            is None && hex_value('@') is None && hex_value('`') is None,
{
}

/// Each byte is written in two digits, the higher half first.
pub proof fn bytes_are_two_digits(bytes: Seq<u8>, i: int)
    requires
        0 <= i < bytes.len(),
    ensures
        hex_text(bytes).len() == 2 * bytes.len(),
        hex_text(bytes)[2 * i] == hex_char(bytes[i] as int / 16),
        hex_text(bytes)[2 * i + 1] == hex_char(bytes[i] as int % 16),
{
}

/// Blanks round a hexadecimal text do not count; a text that is none has no bytes.
pub proof fn hex_may_have_blanks(s: Seq<char>)
    ensures
        is_hex(trimmed(s)) ==> hex_bytes(s) == Some(hex_pairs(trimmed(s))),
        !is_hex(trimmed(s)) ==> hex_bytes(s) is None,
        is_hex(s) <==> s.len() >= 2 && s.len() % 2 == 0 && forall|i: int|
            0 <= i < s.len() ==> hex_value(#[trigger] s[i]) is Some,
{
}

} // verus!
