use authcore::crypto::{
    b64std_decode, b64std_encode, b64url_encode, constant_time_eq, constant_time_eq_bytes,
    generate_pkce_challenge, generate_secure_random_string, seal, sha256, unseal,
    verify_pkce_challenge,
};
use base64::Engine;
use sha2::Digest;

const NOW: i64 = 1_700_000_000_000;

fn is_unreserved(c: char) -> bool {
    c.is_ascii_alphanumeric() || c == '-' || c == '.' || c == '_' || c == '~'
}

#[test]
fn pkce_challenge_verifies() {
    let p = generate_pkce_challenge(NOW).unwrap();
    assert_eq!(p.method, "S256");
    assert_eq!(p.expires_at, NOW + 600_000);
    assert_eq!(p.verifier.chars().count(), 64);
    assert!(p.verifier.chars().all(is_unreserved));
    assert_eq!(verify_pkce_challenge(&p.verifier, &p.challenge).unwrap(), true);
}

#[test]
fn pkce_challenge_matches_direct_computation() {
    // The challenge must be the unpadded URL-safe base64 of the
    // verifier's SHA-256 digest, computed here without the library.
    let p = generate_pkce_challenge(NOW).unwrap();
    let digest = sha2::Sha256::digest(p.verifier.as_bytes());
    let expect = base64::engine::general_purpose::URL_SAFE_NO_PAD.encode(digest);
    assert_eq!(p.challenge, expect);
}

#[test]
fn pkce_mutated_verifier_fails() {
    let p = generate_pkce_challenge(NOW).unwrap();
    let mut verifier = p.verifier.clone().into_bytes();
    verifier[0] ^= 1;
    let mutated = String::from_utf8(verifier).unwrap();
    assert_eq!(verify_pkce_challenge(&mutated, &p.challenge).unwrap(), false);
}

#[test]
fn pkce_mutated_challenge_fails() {
    let p = generate_pkce_challenge(NOW).unwrap();
    let mut challenge = p.challenge.clone().into_bytes();
    challenge[0] ^= 1;
    let mutated = String::from_utf8(challenge).unwrap();
    assert_eq!(verify_pkce_challenge(&p.verifier, &mutated).unwrap(), false);
}

#[test]
fn constant_time_eq_equal_strings() {
    assert!(constant_time_eq("same-content", "same-content"));
    assert!(constant_time_eq("", ""));
}

#[test]
fn constant_time_eq_unequal_same_length() {
    assert!(!constant_time_eq("abcdef", "abcdeg"));
    assert!(!constant_time_eq("Xbcdef", "abcdef"));
}

#[test]
fn constant_time_eq_unequal_length() {
    assert!(!constant_time_eq("short", "shorter"));
    assert!(!constant_time_eq("x", ""));
}

#[test]
fn constant_time_eq_bytes_cases() {
    assert!(constant_time_eq_bytes(&[1, 2, 3], &[1, 2, 3]));
    assert!(!constant_time_eq_bytes(&[1, 2, 3], &[1, 2, 4]));
    assert!(!constant_time_eq_bytes(&[1, 2, 3], &[1, 2]));
}

#[test]
fn random_string_length_and_charset() {
    let s = generate_secure_random_string(64).unwrap();
    assert_eq!(s.chars().count(), 64);
    assert!(s.chars().all(is_unreserved));
    let t = generate_secure_random_string(32).unwrap();
    assert_eq!(t.chars().count(), 32);
    // Two draws are overwhelmingly unlikely to collide.
    assert_ne!(s[..32], t[..]);
}

#[test]
fn sha256_known_value() {
    // SHA-256 of the empty input, a published constant.
    let d = sha256(&[]);
    let hex: String = d.iter().map(|b| format!("{b:02x}")).collect();
    assert_eq!(hex, "e3b0c44298fc1c149afbf4c8996fb92427ae41e4649b934ca495991b7852b855");
}

#[test]
fn base64_known_values() {
    assert_eq!(b64std_encode(&[1, 2, 3]), "AQID");
    assert_eq!(b64std_decode("AQID").unwrap(), vec![1, 2, 3]);
    assert!(b64std_decode("!!!not base64!!!").is_none());
    // URL-safe without padding: 0xfb 0xff encodes with - and _ and no =.
    assert_eq!(b64url_encode(&[0xfb, 0xef, 0xff]), "--__");
}

#[test]
fn seal_unseal_round_trip() {
    let key = vec![7u8; 32];
    let nonce = vec![9u8; 16];
    let msg = b"a message worth keeping".to_vec();
    let blob = seal(&key, &nonce, &msg);
    assert_eq!(unseal(&key, &blob).unwrap(), msg);
}

#[test]
fn seal_tampered_blob_rejected() {
    let key = vec![7u8; 32];
    let nonce = vec![9u8; 16];
    let msg = b"a message worth keeping".to_vec();
    let mut blob = seal(&key, &nonce, &msg);
    let last = blob.len() - 1;
    blob[last] ^= 1;
    assert!(unseal(&key, &blob).is_none());
}

#[test]
fn seal_wrong_key_rejected() {
    let key = vec![7u8; 32];
    let other = vec![8u8; 32];
    let nonce = vec![9u8; 16];
    let msg = b"a message worth keeping".to_vec();
    let blob = seal(&key, &nonce, &msg);
    assert!(unseal(&other, &blob).is_none());
}

#[test]
fn seal_short_blob_rejected() {
    let key = vec![7u8; 32];
    assert!(unseal(&key, &vec![0u8; 47]).is_none());
}
