use anna_rs::policy_crypto::{
    constant_time_eq, decode_hex, digest_hex, hex_encode, sign_policy_revision_hmac_sha256,
    verify_policy_revision_hmac_sha256,
};

#[test]
fn sign_is_stable_and_keyed() {
    let first = sign_policy_revision_hmac_sha256("rev-1", "secret-a").expect("signature");
    let same = sign_policy_revision_hmac_sha256("rev-1", "secret-a").expect("signature");
    let different = sign_policy_revision_hmac_sha256("rev-1", "secret-b").expect("signature");
    assert_eq!(first, same);
    assert_ne!(first, different);
    assert_eq!(first.len(), 64);
}

#[test]
fn decode_hex_and_constant_time_eq_work_for_mixed_case_input() {
    let mixed = decode_hex("Aa10").expect("mixed case hex");
    let lower = decode_hex("aa10").expect("lower hex");
    assert!(constant_time_eq(&mixed, &lower));
    assert!(decode_hex("xyz").is_none());
}

#[test]
fn verify_hmac_signature_returns_boolean_result() {
    let signature = sign_policy_revision_hmac_sha256("rev-1", "secret-a").expect("signature");
    let ok = verify_policy_revision_hmac_sha256("rev-1", &signature, "secret-a")
        .expect("verification should parse");
    assert!(ok);
    let not_ok = verify_policy_revision_hmac_sha256("rev-1", &signature, "secret-b")
        .expect("verification should parse");
    assert!(!not_ok);
    assert!(verify_policy_revision_hmac_sha256("rev-1", "zz", "secret-a").is_none());
}

#[test]
fn known_digest_and_code() {
    assert_eq!(
        digest_hex("abc"),
        "ba7816bf8f01cfea414140de5dae2223b00361a396177a9cb410ff61f20015ad"
    );
    assert_eq!(
        sign_policy_revision_hmac_sha256("The quick brown fox jumps over the lazy dog", "key")
            .expect("signature"),
        "f7bc83f430538424b13298e6aa6fb143ef4d59a14946175997479dbc2d1a3cd8"
    );
}

#[test]
fn hex_comes_back() {
    let bytes = vec![0u8, 1, 15, 16, 171, 255];
    let text = hex_encode(&bytes);
    assert_eq!(text, "00010f10abff");
    assert_eq!(decode_hex(&text), Some(bytes));
    assert_eq!(decode_hex(""), None);
    assert_eq!(decode_hex("abc"), None);
    assert_eq!(decode_hex(" aa "), Some(vec![0xaa]));
}

#[test]
fn equal_bytes_are_found_equal() {
    assert!(constant_time_eq(&[1, 2, 3], &[1, 2, 3]));
    assert!(!constant_time_eq(&[1, 2, 3], &[1, 2, 4]));
    assert!(!constant_time_eq(&[1, 2], &[1, 2, 3]));
    assert!(constant_time_eq(&[], &[]));
}
