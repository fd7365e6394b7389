use authcore::codec::{decode_session, encode_session};
use authcore::session::{AuthSession, AuthToken, DeviceInfo, PKCEChallenge};

fn full_session() -> AuthSession {
    AuthSession {
        id: "0a1b2c3d".to_string(),
        user_id: Some("user_42".to_string()),
        email: Some("someone@example.com".to_string()),
        wallet_address: Some("0xabc".to_string()),
        tokens: Some(AuthToken {
            access_token: "acc-tok".to_string(),
            refresh_token: "ref-tok".to_string(),
            expires_at: 1_700_000_600_000,
            token_type: "Bearer".to_string(),
            scope: Some("openid profile".to_string()),
        }),
        pkce: Some(PKCEChallenge {
            verifier: "v".repeat(64),
            challenge: "c".repeat(43),
            method: "S256".to_string(),
            expires_at: 1_700_000_600_000,
        }),
        state: "s".repeat(32),
        created_at: 1_700_000_000_000,
        expires_at: 1_700_000_600_000,
        device_info: DeviceInfo {
            device_id: "dev-1".to_string(),
            device_name: "Ünïcode nâme 🚀".to_string(),
            platform: "linux".to_string(),
            user_agent: Some("agent/1.0".to_string()),
        },
    }
}

fn minimal_session() -> AuthSession {
    AuthSession {
        id: String::new(),
        user_id: None,
        email: None,
        wallet_address: None,
        tokens: None,
        pkce: None,
        state: String::new(),
        created_at: -5,
        expires_at: 0,
        device_info: DeviceInfo {
            device_id: String::new(),
            device_name: String::new(),
            platform: String::new(),
            user_agent: None,
        },
    }
}

fn assert_sessions_equal(a: &AuthSession, b: &AuthSession) {
    assert_eq!(a.id, b.id);
    assert_eq!(a.user_id, b.user_id);
    assert_eq!(a.email, b.email);
    assert_eq!(a.wallet_address, b.wallet_address);
    assert_eq!(a.state, b.state);
    assert_eq!(a.created_at, b.created_at);
    assert_eq!(a.expires_at, b.expires_at);
    assert_eq!(a.device_info.device_id, b.device_info.device_id);
    assert_eq!(a.device_info.device_name, b.device_info.device_name);
    assert_eq!(a.device_info.platform, b.device_info.platform);
    assert_eq!(a.device_info.user_agent, b.device_info.user_agent);
    match (&a.tokens, &b.tokens) {
        (None, None) => {},
        (Some(x), Some(y)) => {
            assert_eq!(x.access_token, y.access_token);
            assert_eq!(x.refresh_token, y.refresh_token);
            assert_eq!(x.expires_at, y.expires_at);
            assert_eq!(x.token_type, y.token_type);
            assert_eq!(x.scope, y.scope);
        },
        _ => panic!("token presence differs"),
    }
    match (&a.pkce, &b.pkce) {
        (None, None) => {},
        (Some(x), Some(y)) => {
            assert_eq!(x.verifier, y.verifier);
            assert_eq!(x.challenge, y.challenge);
            assert_eq!(x.method, y.method);
            assert_eq!(x.expires_at, y.expires_at);
        },
        _ => panic!("pkce presence differs"),
    }
}

#[test]
fn codec_round_trip_full_record() {
    let s = full_session();
    let bytes = encode_session(&s);
    let back = decode_session(&bytes).expect("decodes");
    assert_sessions_equal(&s, &back);
}

#[test]
fn codec_round_trip_minimal_record() {
    let s = minimal_session();
    let bytes = encode_session(&s);
    let back = decode_session(&bytes).expect("decodes");
    assert_sessions_equal(&s, &back);
}

#[test]
fn codec_rejects_truncation() {
    let s = full_session();
    let mut bytes = encode_session(&s);
    bytes.pop();
    assert!(decode_session(&bytes).is_none());
}

#[test]
fn codec_rejects_trailing_bytes() {
    let s = full_session();
    let mut bytes = encode_session(&s);
    bytes.push(0);
    assert!(decode_session(&bytes).is_none());
}

#[test]
fn codec_rejects_garbage() {
    assert!(decode_session(&vec![0xffu8; 40]).is_none());
    assert!(decode_session(&Vec::new()).is_none());
}
