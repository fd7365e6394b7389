use authcore::manager::{
    clear_all_auth_sessions, clear_auth_session, complete_auth_session, generate_auth_session,
    get_auth_session, handle_auth_callback, make_passphrase, session_doc_key, AuthManager,
};
use authcore::session::{AuthSession, AuthToken, DeviceInfo};
use authcore::AuthError;
use base64::Engine;
use sha2::Digest;

const NOW: i64 = 1_700_000_000_000;

fn device() -> DeviceInfo {
    DeviceInfo {
        device_id: "dev-1".to_string(),
        device_name: "Test".to_string(),
        platform: "linux".to_string(),
        user_agent: None,
    }
}

fn fresh_manager() -> AuthManager {
    AuthManager::new(Vec::new()).unwrap()
}

fn assert_same_session(a: &AuthSession, b: &AuthSession) {
    assert_eq!(a.id, b.id);
    assert_eq!(a.user_id, b.user_id);
    assert_eq!(a.email, b.email);
    assert_eq!(a.wallet_address, b.wallet_address);
    assert_eq!(a.state, b.state);
    assert_eq!(a.created_at, b.created_at);
    assert_eq!(a.expires_at, b.expires_at);
    assert_eq!(a.device_info.device_id, b.device_info.device_id);
    assert_eq!(a.pkce.is_some(), b.pkce.is_some());
    if let (Some(x), Some(y)) = (&a.pkce, &b.pkce) {
        assert_eq!(x.verifier, y.verifier);
        assert_eq!(x.challenge, y.challenge);
    }
    assert_eq!(a.tokens.is_some(), b.tokens.is_some());
    if let (Some(x), Some(y)) = (&a.tokens, &b.tokens) {
        assert_eq!(x.access_token, y.access_token);
        assert_eq!(x.refresh_token, y.refresh_token);
    }
}

#[test]
fn create_store_retrieve_scenario() {
    // Create a session for dev-1, check the challenge shape and the
    // ten-minute expiry, retrieve under the right passphrase, and watch
    // a wrong passphrase fail.
    let mut mgr = fresh_manager();
    let session = generate_auth_session(&mut mgr, device(), NOW).unwrap();
    let pkce = session.pkce.as_ref().expect("challenge attached");
    assert_eq!(pkce.method, "S256");
    assert_eq!(pkce.expires_at, NOW + 600_000);
    assert_eq!(session.expires_at, NOW + 600_000);
    assert_eq!(session.created_at, NOW);
    assert!(session.expires_at > session.created_at);
    assert_eq!(session.state.chars().count(), 32);

    let good = make_passphrase("dev-1", &session.state);
    assert_eq!(good, format!("dev-1-{}", session.state));
    let got = mgr.retrieve_session_encrypted(&session.id, &good).unwrap().unwrap();
    assert_same_session(&session, &got);

    let bad = make_passphrase("dev-1", "wrongstate");
    match mgr.retrieve_session_encrypted(&session.id, &bad) {
        Err(AuthError::CryptoError(m)) => assert_eq!(m, "authentication failed"),
        other => panic!("wrong passphrase must not retrieve: {other:?}"),
    }
}

#[test]
fn store_retrieve_round_trip_explicit() {
    let mut mgr = fresh_manager();
    let s = AuthSession {
        id: "fixed-id".to_string(),
        user_id: Some("u".to_string()),
        email: None,
        wallet_address: None,
        tokens: None,
        pkce: None,
        state: "q".repeat(32),
        created_at: NOW,
        expires_at: NOW + 1000,
        device_info: device(),
    };
    mgr.store_session_encrypted(&s, "a passphrase").unwrap();
    let got = mgr.retrieve_session_encrypted("fixed-id", "a passphrase").unwrap().unwrap();
    assert_same_session(&s, &got);
}

#[test]
fn retrieve_absent_id_is_none_not_error() {
    let mgr = fresh_manager();
    assert!(mgr.retrieve_session_encrypted("nobody", "any").unwrap().is_none());
}

#[test]
fn clear_session_idempotent() {
    let mut mgr = fresh_manager();
    // Clearing an absent id succeeds with no error.
    assert!(clear_auth_session(&mut mgr, "ghost").is_ok());
    let session = generate_auth_session(&mut mgr, device(), NOW).unwrap();
    let pass = make_passphrase("dev-1", &session.state);
    assert!(mgr.retrieve_session_encrypted(&session.id, &pass).unwrap().is_some());
    // Clearing twice is equivalent to once.
    assert!(clear_auth_session(&mut mgr, &session.id).is_ok());
    assert!(clear_auth_session(&mut mgr, &session.id).is_ok());
    assert!(mgr.retrieve_session_encrypted(&session.id, &pass).unwrap().is_none());
}

#[test]
fn clear_all_keeps_salt_only() {
    let mut mgr = fresh_manager();
    let salt_before = mgr.get_raw("key_derivation_salt").expect("salt persisted");
    let a = generate_auth_session(&mut mgr, device(), NOW).unwrap();
    let b = generate_auth_session(&mut mgr, device(), NOW).unwrap();
    clear_all_auth_sessions(&mut mgr).unwrap();
    assert!(mgr.get_raw(&session_doc_key(&a.id)).is_none());
    assert!(mgr.get_raw(&session_doc_key(&b.id)).is_none());
    assert_eq!(mgr.get_raw("key_derivation_salt").unwrap(), salt_before);
}

#[test]
fn expired_session_rejected_on_read() {
    let mut mgr = fresh_manager();
    let session = generate_auth_session(&mut mgr, device(), NOW).unwrap();
    // Within its lifetime it is handed out ...
    let live = get_auth_session(&mgr, &session.id, "dev-1", &session.state, NOW + 1).unwrap();
    assert!(live.is_some());
    // ... but past its expiry it is never returned as valid, though the
    // store still holds it.
    let after = NOW + 600_001;
    let expired = get_auth_session(&mgr, &session.id, "dev-1", &session.state, after).unwrap();
    assert!(expired.is_none());
    assert!(!session.is_still_valid(after));
    assert!(mgr.get_raw(&session_doc_key(&session.id)).is_some());
}

#[test]
fn salt_survives_reload_and_sessions_stay_readable() {
    // Persisting the document and loading it into a new manager keeps
    // the salt, so sessions stored before the reload still decrypt.
    let mut mgr = fresh_manager();
    let session = generate_auth_session(&mut mgr, device(), NOW).unwrap();
    let salt = mgr.get_raw("key_derivation_salt").unwrap();
    let key = session_doc_key(&session.id);
    let blob = mgr.get_raw(&key).unwrap();
    let entries = vec![
        ("key_derivation_salt".to_string(), salt.clone()),
        (key.clone(), blob),
    ];
    let mgr2 = AuthManager::new(entries).unwrap();
    assert_eq!(mgr2.get_raw("key_derivation_salt").unwrap(), salt);
    let pass = make_passphrase("dev-1", &session.state);
    let got = mgr2.retrieve_session_encrypted(&session.id, &pass).unwrap().unwrap();
    assert_same_session(&session, &got);
}

#[test]
fn corrupted_blob_is_storage_or_crypto_error() {
    let entries = vec![("session_x".to_string(), "!!!not base64!!!".to_string())];
    let mgr = AuthManager::new(entries).unwrap();
    match mgr.retrieve_session_encrypted("x", "any") {
        Err(AuthError::StorageError(_)) => {},
        other => panic!("expected StorageError, got {other:?}"),
    }
}

#[test]
fn callback_flow_completes_session() {
    let mut mgr = fresh_manager();
    let session = generate_auth_session(&mut mgr, device(), NOW).unwrap();
    let url = format!("https://app/auth/callback?code=abc&state={}", session.state);
    let found = handle_auth_callback(&mgr, &url, NOW + 5).unwrap();
    assert_eq!(found.state, session.state);
    assert_eq!(found.id, session.id);
    // The external exchange returns a token bundle; attaching it
    // consumes the challenge and re-persists.
    let token = AuthToken {
        access_token: "at".to_string(),
        refresh_token: "rt".to_string(),
        expires_at: NOW + 86_400_000,
        token_type: "Bearer".to_string(),
        scope: None,
    };
    let done = complete_auth_session(&mut mgr, found, token).unwrap();
    assert!(done.tokens.is_some());
    assert!(done.pkce.is_none());
    let pass = make_passphrase("dev-1", &done.state);
    let got = mgr.retrieve_session_encrypted(&done.id, &pass).unwrap().unwrap();
    assert_same_session(&done, &got);
}

#[test]
fn callback_missing_code_is_invalid() {
    let mgr = fresh_manager();
    match handle_auth_callback(&mgr, "https://app/auth/callback?state=xyz", NOW) {
        Err(AuthError::InvalidCode) => {},
        other => panic!("expected InvalidCode, got {other:?}"),
    }
}

#[test]
fn callback_missing_state_is_invalid() {
    let mgr = fresh_manager();
    match handle_auth_callback(&mgr, "https://app/auth/callback?code=abc", NOW) {
        Err(AuthError::InvalidCode) => {},
        other => panic!("expected InvalidCode, got {other:?}"),
    }
}

#[test]
fn callback_unknown_state_is_invalid() {
    let mut mgr = fresh_manager();
    let _ = generate_auth_session(&mut mgr, device(), NOW).unwrap();
    match handle_auth_callback(&mgr, "https://app/auth/callback?code=abc&state=forged", NOW) {
        Err(AuthError::InvalidCode) => {},
        other => panic!("expected InvalidCode, got {other:?}"),
    }
}

#[test]
fn callback_expired_session_is_expired_code() {
    let mut mgr = fresh_manager();
    let session = generate_auth_session(&mut mgr, device(), NOW).unwrap();
    let url = format!("https://app/auth/callback?code=abc&state={}", session.state);
    match handle_auth_callback(&mgr, &url, NOW + 600_001) {
        Err(AuthError::ExpiredCode) => {},
        other => panic!("expected ExpiredCode, got {other:?}"),
    }
}

#[test]
fn callback_after_clear_is_rejected() {
    // A cleared session cannot be resurrected by a late callback.
    let mut mgr = fresh_manager();
    let session = generate_auth_session(&mut mgr, device(), NOW).unwrap();
    clear_auth_session(&mut mgr, &session.id).unwrap();
    let url = format!("https://app/auth/callback?code=abc&state={}", session.state);
    match handle_auth_callback(&mgr, &url, NOW + 5) {
        Err(AuthError::InvalidCode) => {},
        other => panic!("expected InvalidCode, got {other:?}"),
    }
}

#[test]
fn get_with_wrong_device_id_fails() {
    let mut mgr = fresh_manager();
    let session = generate_auth_session(&mut mgr, device(), NOW).unwrap();
    match get_auth_session(&mgr, &session.id, "other-device", &session.state, NOW + 1) {
        Err(AuthError::CryptoError(_)) => {},
        other => panic!("wrong device id must not retrieve: {other:?}"),
    }
}

#[test]
fn callback_malformed_url_is_invalid_url() {
    let mgr = fresh_manager();
    match handle_auth_callback(&mgr, "::nope::", NOW) {
        Err(AuthError::InvalidUrl(_)) => {},
        other => panic!("expected InvalidUrl, got {other:?}"),
    }
}

#[test]
fn error_messages() {
    assert_eq!(AuthError::InvalidCode.message(), "Invalid authentication code");
    assert_eq!(AuthError::ExpiredCode.message(), "Authentication code expired");
    assert_eq!(AuthError::PKCEFailed.message(), "PKCE verification failed");
    assert_eq!(
        AuthError::StorageError("x".to_string()).message(),
        "Token storage error: x"
    );
    assert_eq!(AuthError::CryptoError("y".to_string()).message(), "Crypto error: y");
    assert_eq!(AuthError::InvalidUrl("z".to_string()).message(), "Invalid URL: z");
    assert_eq!(
        AuthError::DeepLinkError("w".to_string()).message(),
        "Deep link registration failed: w"
    );
}

#[test]
fn stored_blob_decrypts_with_independent_crypto() {
    // Reproduce the whole decryption path with the outside crates
    // directly, without the library: the stored blob must be exactly
    // what the contracts describe.
    let mut mgr = fresh_manager();
    let session = generate_auth_session(&mut mgr, device(), NOW).unwrap();
    let salt_b64 = mgr.get_raw("key_derivation_salt").unwrap();
    let blob_b64 = mgr.get_raw(&session_doc_key(&session.id)).unwrap();
    let salt = base64::engine::general_purpose::STANDARD.decode(&salt_b64).unwrap();
    let blob = base64::engine::general_purpose::STANDARD.decode(&blob_b64).unwrap();
    // The key: Argon2id with default parameters over "device_id-state"
    // and the stored salt.
    let pass = format!("dev-1-{}", session.state);
    let mut key = [0u8; 32];
    argon2::Argon2::default().hash_password_into(pass.as_bytes(), &salt, &mut key).unwrap();
    // Blob layout: 16-byte nonce, 32-byte nested keyed-hash tag
    // sha256(key || sha256(key || nonce || cipher)), then the ciphertext.
    let (nonce, rest) = blob.split_at(16);
    let (tag, cipher) = rest.split_at(32);
    let mut inner_mat = Vec::new();
    inner_mat.extend_from_slice(&key);
    inner_mat.extend_from_slice(nonce);
    inner_mat.extend_from_slice(cipher);
    let inner = sha2::Sha256::digest(&inner_mat);
    let mut outer_mat = Vec::new();
    outer_mat.extend_from_slice(&key);
    outer_mat.extend_from_slice(&inner);
    assert_eq!(tag, sha2::Sha256::digest(&outer_mat).as_slice());
    // Strip the SHA-256 counter-mode keystream and decode the record.
    let mut plain = Vec::with_capacity(cipher.len());
    for (i, chunk) in cipher.chunks(32).enumerate() {
        let mut m = Vec::new();
        m.extend_from_slice(&key);
        m.extend_from_slice(nonce);
        m.extend_from_slice(&(i as u64).to_le_bytes());
        let ks = sha2::Sha256::digest(&m);
        for (j, b) in chunk.iter().enumerate() {
            plain.push(b ^ ks[j]);
        }
    }
    let back = authcore::codec::decode_session(&plain).expect("plaintext decodes");
    assert_eq!(back.id, session.id);
    assert_eq!(back.state, session.state);
}

#[test]
fn distinct_sessions_have_distinct_ids_and_states() {
    let mut mgr = fresh_manager();
    let a = generate_auth_session(&mut mgr, device(), NOW).unwrap();
    let b = generate_auth_session(&mut mgr, device(), NOW).unwrap();
    assert_ne!(a.id, b.id);
    assert_ne!(a.state, b.state);
    assert_eq!(a.id.len(), 36);
}
