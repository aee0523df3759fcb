use codex_a2a::config::{
    config_file_error, config_path, gather_sources, BackendKind, Config, RawConfig,
};
use codex_a2a::net::{allowed_source, Address, Network};

fn test_path(name: &str) -> String {
    format!("/tmp/{name}")
}

fn text(table: &toml::Table, key: &str) -> Option<String> {
    table.get(key).and_then(|v| v.as_str()).map(|s| s.to_string())
}

fn list(table: &toml::Table, key: &str) -> Option<Vec<String>> {
    table.get(key).and_then(|v| v.as_array()).map(|items| {
        items
            .iter()
            .map(|v| v.as_str().expect("a text").to_string())
            .collect()
    })
}

fn number(table: &toml::Table, key: &str) -> Option<i64> {
    table.get(key).and_then(|v| v.as_integer())
}

fn parse(content: &str) -> RawConfig {
    let table = toml::from_str::<toml::Table>(content).expect("parse raw config");
    RawConfig {
        backend: text(&table, "backend").map(|name| match name.as_str() {
            "cli" => BackendKind::Cli,
            "native" => BackendKind::Native,
            other => panic!("unknown backend {other}"),
        }),
        host: text(&table, "host"),
        port: number(&table, "port").map(|n| n as u16),
        public_url: text(&table, "public_url").expect("public_url"),
        sessions_dir: text(&table, "sessions_dir").expect("sessions_dir"),
        default_working_directory: text(&table, "default_working_directory")
            .expect("default_working_directory"),
        codex_bin: text(&table, "codex_bin"),
        auth_token_env: text(&table, "auth_token_env"),
        auth_token_file: text(&table, "auth_token_file"),
        auth_token_keychain_service: text(&table, "auth_token_keychain_service"),
        write_roots: list(&table, "write_roots"),
        write_mode_sandbox_permissions: list(&table, "write_mode_sandbox_permissions"),
        allowed_sources: list(&table, "allowed_sources"),
        max_body_bytes: number(&table, "max_body_bytes").map(|n| n as usize),
        max_concurrent_tasks: number(&table, "max_concurrent_tasks").map(|n| n as usize),
        read_timeout_secs: number(&table, "read_timeout_secs").map(|n| n as u64),
        expose_local_sessions: table.get("expose_local_sessions").and_then(|v| v.as_bool()),
    }
}

#[test]
fn raw_config_defaults_backend_to_cli_when_missing() {
    let sessions_dir = test_path("codex-a2a-test-sessions");
    let workspace = test_path("codex-a2a-test-workspace");
    let raw = parse(&format!(
        r#"
public_url = "http://127.0.0.1:18081"
sessions_dir = "{sessions_dir}"
default_working_directory = "{workspace}"
"#,
    ));

    assert_eq!(raw.backend.unwrap_or(BackendKind::Cli), BackendKind::Cli);
    let config = Config::from_raw(raw).expect("a configuration");
    assert_eq!(config.backend, BackendKind::Cli);
}

#[test]
fn raw_config_parses_native_backend() {
    let sessions_dir = test_path("codex-a2a-test-sessions");
    let workspace = test_path("codex-a2a-test-workspace");
    let raw = parse(&format!(
        r#"
backend = "native"
public_url = "http://127.0.0.1:18081"
sessions_dir = "{sessions_dir}"
default_working_directory = "{workspace}"
"#,
    ));

    assert_eq!(raw.backend, Some(BackendKind::Native));
    let config = Config::from_raw(raw).expect("a configuration");
    assert_eq!(config.backend.as_str(), "native");
}

#[test]
fn raw_config_parses_write_mode_sandbox_permissions() {
    let sessions_dir = test_path("codex-a2a-test-sessions");
    let workspace = test_path("codex-a2a-test-workspace");
    let raw = parse(&format!(
        r#"
public_url = "http://127.0.0.1:18081"
sessions_dir = "{sessions_dir}"
default_working_directory = "{workspace}"
write_mode_sandbox_permissions = ["disk-full-read-access"]
"#,
    ));

    assert_eq!(
        raw.write_mode_sandbox_permissions,
        Some(vec!["disk-full-read-access".to_string()])
    );
    let config = Config::from_raw(raw).expect("a configuration");
    assert_eq!(
        config.write_mode_sandbox_permissions,
        vec!["disk-full-read-access".to_string()]
    );
}

#[test]
fn raw_config_parses_public_hardening_options() {
    let sessions_dir = test_path("codex-a2a-test-sessions");
    let workspace = test_path("codex-a2a-test-workspace");
    let token_file = test_path("codex-a2a-test-token");
    let raw = parse(&format!(
        r#"
public_url = "http://127.0.0.1:18081"
sessions_dir = "{sessions_dir}"
default_working_directory = "{workspace}"
auth_token_env = "A2A_AUTH_TOKEN"
auth_token_file = "{token_file}"
auth_token_keychain_service = "A2A_AUTH_TOKEN"
max_concurrent_tasks = 2
read_timeout_secs = 10
expose_local_sessions = true
"#,
    ));

    assert_eq!(raw.auth_token_env, Some("A2A_AUTH_TOKEN".to_string()));
    assert_eq!(raw.auth_token_file, Some(token_file.clone()));
    assert_eq!(
        raw.auth_token_keychain_service,
        Some("A2A_AUTH_TOKEN".to_string())
    );
    assert_eq!(raw.max_concurrent_tasks, Some(2));
    assert_eq!(raw.read_timeout_secs, Some(10));
    assert_eq!(raw.expose_local_sessions, Some(true));

    let config = Config::from_raw(raw).expect("a configuration");
    assert_eq!(config.auth_token_file, Some(token_file));
    assert_eq!(config.max_concurrent_tasks, 2);
    assert_eq!(config.read_timeout_secs, 10);
    assert!(config.expose_local_sessions);
}

fn minimal(sources: Option<Vec<String>>) -> RawConfig {
    RawConfig {
        backend: None,
        host: None,
        port: None,
        public_url: "http://h".to_string(),
        sessions_dir: "/s".to_string(),
        default_working_directory: "/w".to_string(),
        codex_bin: None,
        auth_token_env: None,
        auth_token_file: None,
        auth_token_keychain_service: None,
        write_roots: None,
        write_mode_sandbox_permissions: None,
        allowed_sources: sources,
        max_body_bytes: None,
        max_concurrent_tasks: None,
        read_timeout_secs: None,
        expose_local_sessions: None,
    }
}

#[test]
fn settings_that_are_left_out_have_defaults() {
    let config = Config::from_raw(minimal(None)).expect("a configuration");
    assert_eq!(config.host, "0.0.0.0");
    assert_eq!(config.port, 18081);
    assert_eq!(config.bind_address(), "0.0.0.0:18081");
    assert_eq!(config.codex_bin, "codex");
    assert_eq!(config.auth_token_env, Some("A2A_AUTH_TOKEN".to_string()));
    assert_eq!(config.auth_token_file, None);
    assert_eq!(
        config.auth_token_keychain_service,
        Some("A2A_AUTH_TOKEN".to_string())
    );
    assert!(config.write_roots.is_empty());
    assert_eq!(config.max_body_bytes, 1_048_576);
    assert_eq!(config.max_concurrent_tasks, 4);
    assert_eq!(config.read_timeout_secs, 30);
    assert!(!config.expose_local_sessions);
}

#[test]
fn sources_default_to_tailscale() {
    let config = Config::from_raw(minimal(None)).expect("a configuration");
    // 100.64.0.1 and 100.127.255.255 are inside, 100.128.0.0 is outside.
    assert!(allowed_source(Address::V4(0x6440_0001), &config.allowed_sources));
    assert!(allowed_source(Address::V4(0x647f_ffff), &config.allowed_sources));
    assert!(!allowed_source(Address::V4(0x6480_0000), &config.allowed_sources));
    assert!(allowed_source(
        Address::V6(0xfd7a_115c_a1e0_ffff_0000_0000_0000_0001),
        &config.allowed_sources
    ));
    assert!(!allowed_source(
        Address::V6(0xfd7a_115c_a1e1_0000_0000_0000_0000_0001),
        &config.allowed_sources
    ));
}

#[test]
fn sources_are_read_as_networks() {
    let sources = vec!["10.1.2.3/8".to_string(), "fd00::/16".to_string()];
    let config = Config::from_raw(minimal(Some(sources))).expect("a configuration");
    assert_eq!(config.allowed_sources.len(), 2);
    assert!(matches!(config.allowed_sources[0], Network::V4(0x0a01_0203, 8)));
    assert!(allowed_source(Address::V4(0x0aff_ffff), &config.allowed_sources));
    assert!(!allowed_source(Address::V4(0x0b00_0000), &config.allowed_sources));
    assert!(allowed_source(
        Address::V6(0xfd00_ffff_0000_0000_0000_0000_0000_0000),
        &config.allowed_sources
    ));
    assert!(!allowed_source(
        Address::V6(0xfd01_0000_0000_0000_0000_0000_0000_0000),
        &config.allowed_sources
    ));
    // Addresses of the machine itself need no entry.
    assert!(allowed_source(Address::V4(0x7f00_0001), &Vec::new()));
    assert!(allowed_source(Address::V6(1), &Vec::new()));
    assert!(!allowed_source(Address::V4(0x0a00_0001), &Vec::new()));
}

#[test]
fn a_source_that_is_no_network_is_an_error() {
    let sources = vec!["10.0.0.0/8".to_string(), "somewhere".to_string()];
    match Config::from_raw(minimal(Some(sources))) {
        Ok(_) => panic!("a configuration"),
        Err(message) => assert_eq!(
            message,
            "invalid allowed_sources entry somewhere: invalid IP address syntax"
        ),
    }
}

#[test]
fn the_configuration_file_can_be_set() {
    assert_eq!(config_path(None), "config.toml");
    assert_eq!(config_path(Some("/etc/a2a.toml".to_string())), "/etc/a2a.toml");
    assert_eq!(config_file_error("config.toml", "not found"), "config.toml: not found");
}

#[test]
fn the_first_bad_source_is_named() {
    let sources = vec!["a".to_string(), "b".to_string(), "c".to_string()];
    let read = vec![
        Ok(Network::V4(1, 32)),
        Err("first".to_string()),
        Err("second".to_string()),
    ];
    match gather_sources(&sources, &read) {
        Ok(_) => panic!("networks"),
        Err(message) => assert_eq!(message, "invalid allowed_sources entry b: first"),
    }
    let config = Config::with_networks(minimal(None), vec![Network::V4(1, 32)]);
    assert_eq!(config.allowed_sources.len(), 1);
}
