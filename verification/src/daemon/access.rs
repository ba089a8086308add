//! Who may ask, on whose behalf, and whether an answer is still current.
use crate::daemon::flows::opt_refusal;
use crate::daemon::sessions::{refuse, Refusal, RefusalView};
use crate::text::{
    after_prefix, blank, cat3, lowered, matches_at, opt_str, opt_text, same, split, split_by,
    strip_prefix, texts, to_lower, trim, trim_end_by, trim_end_shape, trim_idempotent,
    trim_start_by, trim_start_shape, trimmed, CharSet,
};
use vstd::prelude::*;
use vstd::string::*;

pub mod laws;

verus! {

// ---------------------------------------------------------------- etags

/// The etag of a revision: the revision in double quotes.
pub open spec fn etag_of(revision: Seq<char>) -> Seq<char> {
    "\""@ + trimmed(revision) + "\""@
}

pub fn etag_value(revision: &str) -> (r: String)
    ensures
        r@ == etag_of(revision@),
{
    cat3("\"", trim(revision), "\"")
}

/// What stands between the double quotes that `s` starts and ends with.
pub open spec fn between_quotes(s: Seq<char>) -> Option<Seq<char>> {
    if s.len() >= 2 && s[0] == '"' && s.last() == '"' {
        Some(s.subrange(1, s.len() - 1))
    } else {
        None
    }
}

/// The revision in an etag, which may be marked as weak.
pub open spec fn etag_revision_of(raw: Seq<char>) -> Option<Seq<char>> {
    let t = trimmed(raw);
    let tag = match after_prefix(t, "W/"@) {
        Some(rest) => trimmed(rest),
        None => t,
    };
    match between_quotes(tag) {
        Some(inner) => if blank(inner) {
            None
        } else {
            Some(trimmed(inner))
        },
        None => None,
    }
}

pub fn unquote<'a>(text: &'a str) -> (r: Option<&'a str>)
    ensures
        opt_str(r) == between_quotes(text@),
{
    let n: usize = text.unicode_len();
    if n >= 2 && text.get_char(0) == '"' && text.get_char(n - 1) == '"' {
        Some(text.substring_char(1, n - 1))
    } else {
        None
    }
}

/// The revision in an etag.
pub fn normalize_etag_value(raw_etag: &str) -> (r: Option<String>)
    ensures
        opt_text(r) == etag_revision_of(raw_etag@),
{
    let t = trim(raw_etag);
    let tag = match strip_prefix(t, "W/") {
        Some(rest) => trim(rest),
        None => t,
    };
    match unquote(tag) {
        Some(inner) => {
            let revision = trim(inner);
            if revision.is_empty() {
                None
            } else {
                Some(revision.to_owned())
            }
        },
        None => None,
    }
}

/// Whether a candidate of an etag header is the revision; `*` is every one.
pub open spec fn etag_is(candidate: Seq<char>, revision: Seq<char>) -> bool {
    trimmed(candidate) == "*"@ || etag_revision_of(trimmed(candidate)) == Some(trimmed(revision))
}

/// Whether one of the candidates is the revision.
pub open spec fn any_etag_is(candidates: Seq<Seq<char>>, revision: Seq<char>) -> bool {
    exists|i: int| 0 <= i < candidates.len() && etag_is(#[trigger] candidates[i], revision)
}

/// Whether an etag header, a list between commas, names the revision.
pub open spec fn header_names(raw: Seq<char>, revision: Seq<char>) -> bool {
    any_etag_is(split_by(raw, CharSet::Only(',')), revision)
}

pub fn etag_header_matches_value(raw: &str, revision: &str) -> (r: bool)
    ensures
        r == header_names(raw@, revision@),
{
    let wanted = trim(revision);
    let candidates = split(raw, CharSet::Only(','));
    let ghost all = texts(candidates@);
    let mut i: usize = 0;
    while i < candidates.len()
        invariant
            i <= candidates.len(),
            all == texts(candidates@),
            all == split_by(raw@, CharSet::Only(',')),
            wanted@ == trimmed(revision@),
            forall|j: int| 0 <= j < i ==> !etag_is(#[trigger] all[j], revision@),
        decreases candidates.len() - i,
    {
        let candidate = trim(candidates[i].as_str());
        let named = match normalize_etag_value(candidate) {
            Some(tag) => same(tag.as_str(), wanted),
            None => false,
        };
        if same(candidate, "*") || named {
            assert(etag_is(all[i as int], revision@));
            assert(any_etag_is(all, revision@));
            return true;
        }
        i += 1;
    }
    false
}

/// Whether `If-None-Match` says that the caller has this revision.
pub fn if_none_match_matches(header: Option<&str>, revision: &str) -> (r: bool)
    ensures
        r == (header is Some && header_names(header->0@, revision@)),
{
    match header {
        Some(raw) => etag_header_matches_value(raw, revision),
        None => false,
    }
}

/// Whether `If-Match` allows this revision; without it every one is allowed.
pub fn if_match_allows(header: Option<&str>, revision: &str) -> (r: bool)
    ensures
        r == (header is None || header_names(header->0@, revision@)),
{
    match header {
        Some(raw) => etag_header_matches_value(raw, revision),
        None => true,
    }
}

/// What a request for the policy is answered.
#[derive(Clone, Copy, Debug, PartialEq, Eq, Structural)]
pub enum Freshness {
    /// The caller asked for another revision.
    PreconditionFailed,
    /// The caller has this revision.
    NotModified,
    /// The caller gets the answer.
    Answer,
}

/// What a request with these headers is answered at this revision.
pub open spec fn freshness_of(
    if_match: Option<Seq<char>>,
    if_none_match: Option<Seq<char>>,
    revision: Seq<char>,
) -> Freshness {
    if if_match matches Some(raw) && !header_names(raw, revision) {
        Freshness::PreconditionFailed
    } else if if_none_match matches Some(raw) && header_names(raw, revision) {
        Freshness::NotModified
    } else {
        Freshness::Answer
    }
}

/// What a request with these headers is answered at this revision.
pub fn freshness(if_match: Option<&str>, if_none_match: Option<&str>, revision: &str) -> (r:
    Freshness)
    ensures
        r == freshness_of(opt_str(if_match), opt_str(if_none_match), revision@),
{
    if !if_match_allows(if_match, revision) {
        return Freshness::PreconditionFailed;
    }
    if if_none_match_matches(if_none_match, revision) {
        return Freshness::NotModified;
    }
    Freshness::Answer
}

proof fn no_separator_one_piece(s: Seq<char>, set: CharSet)
    requires
        forall|i: int| 0 <= i < s.len() ==> !set.has(#[trigger] s[i]),
    ensures
        split_by(s, set) =~= seq![s],
    decreases s.len(),
{
    if s.len() > 0 {
        no_separator_one_piece(s.drop_last(), set);
        assert(s.drop_last().push(s.last()) =~= s);
    } else {
        assert(s =~= Seq::empty());
    }
}

proof fn etag_is_quoted(revision: Seq<char>)
    ensures
        etag_of(revision).len() == trimmed(revision).len() + 2,
        etag_of(revision)[0] == '"',
        etag_of(revision).last() == '"',
        trimmed(etag_of(revision)) == etag_of(revision),
{
    let tag = etag_of(revision);
    let space = CharSet::Space;
    reveal_strlit("\"");
    assert(!space.has('"'));
    assert(trim_start_by(tag, space) == tag);
    assert(trim_end_by(tag, space) == tag);
}

/// The etag that a revision is given holds that revision.
pub proof fn etag_holds_revision(revision: Seq<char>)
    requires
        !blank(revision),
    ensures
        etag_revision_of(etag_of(revision)) == Some(trimmed(revision)),
{
    let tag = etag_of(revision);
    reveal_strlit("\"");
    reveal_strlit("W/");
    trim_idempotent(revision, CharSet::Space);
    etag_is_quoted(revision);
    assert(!matches_at(tag, "W/"@, 0)) by {
        if matches_at(tag, "W/"@, 0) {
            assert(tag.subrange(0, 2)[0] == tag[0]);
        }
    }
    assert(tag.subrange(1, tag.len() - 1) =~= trimmed(revision));
}

/// The etag that a revision is given is recognised as that revision: a caller
/// that sends it back with `If-None-Match` is told that nothing has changed,
/// and with `If-Match` is let through. A header is a list between commas, so this
/// holds of a revision without one.
pub proof fn own_etag_matches(revision: Seq<char>)
    requires
        !blank(revision),
        !revision.contains(','),
    ensures
        header_names(etag_of(revision), revision),
        freshness_of(None, Some(etag_of(revision)), revision) == Freshness::NotModified,
        freshness_of(Some(etag_of(revision)), None, revision) == Freshness::Answer,
{
    let t = trimmed(revision);
    let tag = etag_of(revision);
    let space = CharSet::Space;
    reveal_strlit("\"");
    trim_start_shape(revision, space);
    trim_end_shape(trim_start_by(revision, space), space);
    etag_is_quoted(revision);
    etag_holds_revision(revision);
    assert forall|i: int| 0 <= i < tag.len() implies !CharSet::Only(',').has(#[trigger] tag[i]) by {
        if 0 < i < tag.len() - 1 {
            assert(tag[i] == t[i - 1]);
            let a = trim_start_by(revision, space);
            assert(t[i - 1] == a[i - 1]);
            assert(revision.contains(a[i - 1])) by {
                let k = revision.len() - a.len() + (i - 1);
                assert(revision[k] == a[i - 1]);
            }
        }
    }
    no_separator_one_piece(tag, CharSet::Only(','));
    let all = split_by(tag, CharSet::Only(','));
    assert(all[0] == tag);
    assert(etag_is(all[0], revision));
    assert(any_etag_is(all, revision));
}

// ---------------------------------------------------------------- tokens

/// Whether the headers of a request bear the token.
pub open spec fn bears_token(
    authorization: Option<Seq<char>>,
    anna_token: Option<Seq<char>>,
    expected: Seq<char>,
) -> bool {
    ||| match authorization {
        Some(raw) => {
            let t = trimmed(raw);
            ||| t == expected
            ||| match after_prefix(t, "Bearer "@) {
                Some(token) => trimmed(token) == expected,
                None => false,
            }
        },
        None => false,
    }
    ||| anna_token is Some && trimmed(anna_token->0) == expected
}

/// Whether the request bears the token: in `Authorization`, with or without
/// `Bearer`, or in `X-Anna-Token`.
pub fn is_authorized(authorization: Option<&str>, anna_token: Option<&str>, expected: &str) -> (r:
    bool)
    ensures
        r == bears_token(opt_str(authorization), opt_str(anna_token), expected@),
{
    if let Some(raw) = authorization {
        let t = trim(raw);
        if let Some(token) = strip_prefix(t, "Bearer ") {
            if same(trim(token), expected) {
                return true;
            }
        }
        if same(t, expected) {
            return true;
        }
    }
    match anna_token {
        Some(token) => same(trim(token), expected),
        None => false,
    }
}

/// Why a request is turned away at the door: it does not bear the token that
/// the daemon asks for, where it asks for one.
pub fn unauthorized(
    expected: &Option<String>,
    authorization: Option<&str>,
    anna_token: Option<&str>,
) -> (r: Option<Refusal>)
    ensures
        opt_refusal(r) == match opt_text(*expected) {
            None => None,
            Some(expected) => if bears_token(opt_str(authorization), opt_str(anna_token), expected) {
                None
            } else {
                Some(RefusalView { status: 401, message: "unauthorized"@ })
            },
        },
{
    match expected {
        None => None,
        Some(expected) => {
            if is_authorized(authorization, anna_token, expected.as_str()) {
                None
            } else {
                Some(refuse(401, "unauthorized"))
            }
        },
    }
}

/// Who a request is made for: the caller, else the role.
pub open spec fn caller_of(caller: Option<Seq<char>>, role: Option<Seq<char>>) -> Option<
    Seq<char>,
> {
    let named = match caller {
        Some(caller) => Some(caller),
        None => role,
    };
    match named {
        Some(name) => if blank(name) {
            None
        } else {
            Some(lowered(trimmed(name)))
        },
        None => None,
    }
}

/// Who a request is made for, from `X-Anna-Caller` and `X-Anna-Role`.
pub fn request_caller(caller: Option<&str>, role: Option<&str>) -> (r: Option<String>)
    ensures
        opt_text(r) == caller_of(opt_str(caller), opt_str(role)),
{
    let named = match caller {
        Some(caller) => Some(caller),
        None => role,
    };
    match named {
        Some(name) => {
            let name = trim(name);
            if name.is_empty() {
                None
            } else {
                Some(to_lower(name))
            }
        },
        None => None,
    }
}

} // verus!
