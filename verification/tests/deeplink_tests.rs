use authcore::deeplink::{
    contains_substring, lookup_query, parse_url_parts, route_deep_link, validate_auth_url,
};
use authcore::AuthError;

const NOW: i64 = 1_700_000_000_000;

#[test]
fn callback_url_parses_to_code_and_state() {
    let r = route_deep_link("https://app/auth/callback?code=abc&state=xyz", NOW).unwrap();
    let cb = r.callback.expect("classified as auth callback");
    assert_eq!(cb.code.as_deref(), Some("abc"));
    assert_eq!(cb.state.as_deref(), Some("xyz"));
    assert_eq!(cb.error, None);
    assert_eq!(cb.error_description, None);
    assert_eq!(r.event.url, "https://app/auth/callback?code=abc&state=xyz");
    assert_eq!(r.event.timestamp, NOW);
    assert_eq!(
        r.event.parsed_params,
        vec![("code".to_string(), "abc".to_string()), ("state".to_string(), "xyz".to_string())]
    );
}

#[test]
fn callback_marker_in_path_suffices() {
    let r = route_deep_link("myapp://host/auth/callback?error=denied&error_description=no", NOW)
        .unwrap();
    let cb = r.callback.expect("path marker classifies it");
    assert_eq!(cb.code, None);
    assert_eq!(cb.error.as_deref(), Some("denied"));
    assert_eq!(cb.error_description.as_deref(), Some("no"));
}

#[test]
fn code_parameter_alone_suffices() {
    let r = route_deep_link("https://app/other?code=abc", NOW).unwrap();
    assert!(r.callback.is_some());
}

#[test]
fn generic_link_emits_event_only() {
    let r = route_deep_link("https://app/welcome?page=2", NOW).unwrap();
    assert!(r.callback.is_none());
    assert_eq!(r.event.parsed_params, vec![("page".to_string(), "2".to_string())]);
}

#[test]
fn malformed_url_is_invalid() {
    match route_deep_link("::not a url::", NOW) {
        Err(AuthError::InvalidUrl(_)) => {},
        Err(other) => panic!("expected InvalidUrl, got {other:?}"),
        Ok(_) => panic!("malformed URL must not route"),
    }
}

#[test]
fn query_percent_decoding_and_last_wins() {
    let parts = parse_url_parts("https://app/cb?name=a%20b&name=second").unwrap();
    assert_eq!(lookup_query(&parts, "name").as_deref(), Some("second"));
    assert_eq!(parts.query[0].1, "a b");
    assert_eq!(lookup_query(&parts, "missing"), None);
}

#[test]
fn substring_search_cases() {
    assert!(contains_substring("/auth/callback", "/auth/callback"));
    assert!(contains_substring("/x/auth/callback/y", "/auth/callback"));
    assert!(!contains_substring("/auth/call", "/auth/callback"));
    assert!(contains_substring("anything", ""));
    assert!(!contains_substring("", "a"));
}

#[test]
fn open_url_ftp_rejected() {
    match validate_auth_url("ftp://example.com") {
        Err(AuthError::InvalidUrl(_)) => {},
        other => panic!("expected InvalidUrl, got {other:?}"),
    }
}

#[test]
fn open_url_localhost_http_allowed() {
    assert!(validate_auth_url("http://localhost:3000/cb").is_ok());
    assert!(validate_auth_url("http://127.0.0.1:8080/cb").is_ok());
}

#[test]
fn open_url_http_remote_rejected() {
    match validate_auth_url("http://evil.com") {
        Err(AuthError::InvalidUrl(_)) => {},
        other => panic!("expected InvalidUrl, got {other:?}"),
    }
}

#[test]
fn open_url_https_allowed() {
    assert!(validate_auth_url("https://id.example.com/authorize?x=1").is_ok());
}

#[test]
fn open_url_unparseable_rejected() {
    assert!(matches!(validate_auth_url("not a url"), Err(AuthError::InvalidUrl(_))));
}
