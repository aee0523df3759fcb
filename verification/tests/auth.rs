use codex_a2a::auth::{
    authorized, constant_time_eq, expected_auth_token, token_sources, TokenSource,
};
use codex_a2a::config::{Config, RawConfig};

fn raw() -> RawConfig {
    RawConfig {
        backend: None,
        host: None,
        port: None,
        public_url: "http://h".to_string(),
        sessions_dir: "/s".to_string(),
        default_working_directory: "/w".to_string(),
        codex_bin: None,
        auth_token_env: Some("TOKEN".to_string()),
        auth_token_file: Some("/token".to_string()),
        auth_token_keychain_service: Some("service".to_string()),
        write_roots: None,
        write_mode_sandbox_permissions: None,
        allowed_sources: None,
        max_body_bytes: None,
        max_concurrent_tasks: None,
        read_timeout_secs: None,
        expose_local_sessions: None,
    }
}

#[test]
fn bytes_are_compared_whole() {
    assert!(constant_time_eq(b"abc", b"abc"));
    assert!(!constant_time_eq(b"abc", b"abd"));
    assert!(!constant_time_eq(b"abc", b"ab"));
    assert!(constant_time_eq(b"", b""));
}

#[test]
fn the_sources_come_in_order() {
    let config = Config::from_raw(raw()).expect("a configuration");
    let sources = token_sources(&config);
    assert_eq!(sources.len(), 3);
    assert!(matches!(&sources[0], TokenSource::Environment(name) if name == "TOKEN"));
    assert!(matches!(&sources[1], TokenSource::File(path) if path == "/token"));
    assert!(matches!(&sources[2], TokenSource::Keychain(service) if service == "service"));
}

#[test]
fn the_first_source_that_is_not_blank_wins() {
    let readings = vec![
        None,
        Some(" \n".to_string()),
        Some(" secret\n".to_string()),
        Some("other".to_string()),
    ];
    assert_eq!(expected_auth_token(&readings), Some("secret".to_string()));
}

#[test]
fn without_a_token_nobody_is_authorized() {
    let readings = vec![None, Some("".to_string())];
    let expected = expected_auth_token(&readings);
    assert_eq!(expected, None);
    assert!(!authorized(Some("Bearer "), None));
    assert!(!authorized(Some("Bearer x"), None));
    assert!(!authorized(None, None));
}

#[test]
fn the_header_carries_the_token() {
    assert!(authorized(Some("Bearer secret"), Some("secret")));
    assert!(!authorized(Some("Bearer secret "), Some("secret")));
    assert!(!authorized(Some("bearer secret"), Some("secret")));
    assert!(!authorized(Some("secret"), Some("secret")));
    assert!(!authorized(None, Some("secret")));
}
