use windbgr_mcp::config::defaults::{
    default_attach_timeout, default_bind, default_command_timeout, default_idle_secs,
    default_max_sessions, default_output_ring_bytes, CDB_ENV_VAR, WILDCARD_BIND,
};
use windbgr_mcp::config::model::{Config, ServerConfig};
use windbgr_mcp::error::Error;

#[test]
fn resolved_token_inline() {
    let mut cfg = Config::default();
    cfg.auth.bearer_token = Some("hello".into());
    assert_eq!(cfg.resolved_token(None).as_deref(), Some("hello"));
}

#[test]
fn resolved_allowed_hosts_default_includes_loopback_and_bind() {
    let cfg = ServerConfig {
        bind: "192.168.1.10:8765".into(),
        ..Default::default()
    };
    let hosts = cfg.resolved_allowed_hosts();
    assert!(hosts.contains(&"localhost".to_string()));
    assert!(hosts.contains(&"127.0.0.1".to_string()));
    assert!(hosts.contains(&"::1".to_string()));
    assert!(hosts.contains(&"192.168.1.10".to_string()));
}

#[test]
fn resolved_allowed_hosts_skips_wildcard_bind() {
    let cfg = ServerConfig {
        bind: "0.0.0.0:8765".into(),
        ..Default::default()
    };
    let hosts = cfg.resolved_allowed_hosts();
    assert!(!hosts.contains(&"0.0.0.0".to_string()));
}

#[test]
fn resolved_allowed_hosts_explicit_overrides() {
    let mut cfg = ServerConfig {
        allowed_hosts: Some(vec!["only.example.com".into()]),
        ..Default::default()
    };
    assert_eq!(cfg.resolved_allowed_hosts(), vec!["only.example.com"]);
    cfg.allowed_hosts = Some(Vec::new());
    assert!(cfg.resolved_allowed_hosts().is_empty());
}

#[test]
fn allowed_hosts_exact_list_for_ip_bind() {
    let cfg = ServerConfig {
        bind: "192.168.1.10:8765".into(),
        ..Default::default()
    };
    assert_eq!(
        cfg.resolved_allowed_hosts(),
        vec!["localhost", "127.0.0.1", "::1", "192.168.1.10"]
    );
}

#[test]
fn allowed_hosts_default_bind_adds_nothing_new() {
    let cfg = ServerConfig::default();
    assert_eq!(cfg.resolved_allowed_hosts(), vec!["localhost", "127.0.0.1", "::1"]);
}

#[test]
fn allowed_hosts_strip_ipv6_brackets() {
    let cfg = ServerConfig {
        bind: "[fe80::1]:8765".into(),
        ..Default::default()
    };
    assert_eq!(
        cfg.resolved_allowed_hosts(),
        vec!["localhost", "127.0.0.1", "::1", "fe80::1"]
    );
}

#[test]
fn allowed_hosts_without_port_keep_loopback_only() {
    let cfg = ServerConfig {
        bind: "myhost".into(),
        ..Default::default()
    };
    assert_eq!(cfg.resolved_allowed_hosts(), vec!["localhost", "127.0.0.1", "::1"]);
}

#[test]
fn resolved_token_from_env_when_inline_blank() {
    let mut cfg = Config::default();
    cfg.auth.bearer_token = Some(String::new());
    cfg.auth.bearer_token_env = Some("MY_TOKEN".into());
    assert_eq!(cfg.resolved_token(Some("from-env".into())).as_deref(), Some("from-env"));
    assert_eq!(cfg.resolved_token(Some(String::new())), None);
    assert_eq!(cfg.resolved_token(None), None);
}

#[test]
fn resolved_token_ignores_env_without_variable_name() {
    let cfg = Config::default();
    assert_eq!(cfg.resolved_token(Some("from-env".into())), None);
}

#[test]
fn inline_token_wins_over_env() {
    let mut cfg = Config::default();
    cfg.auth.bearer_token = Some("inline".into());
    cfg.auth.bearer_token_env = Some("MY_TOKEN".into());
    assert_eq!(cfg.resolved_token(Some("env".into())).as_deref(), Some("inline"));
}

#[test]
fn defaults_are_restrictive() {
    let cfg = Config::default();
    assert_eq!(cfg.server.bind, "127.0.0.1:8765");
    assert_eq!(cfg.server.max_sessions, 4);
    assert_eq!(cfg.server.session_idle_timeout_secs, 900);
    assert!(cfg.server.allowed_hosts.is_none());
    assert!(cfg.auth.bearer_token.is_none());
    assert!(cfg.auth.bearer_token_env.is_none());
    assert!(cfg.debugger.cdb_path.is_none());
    assert_eq!(cfg.debugger.attach_timeout_ms, 15_000);
    assert_eq!(cfg.debugger.launch_timeout_ms, 15_000);
    assert_eq!(cfg.debugger.command_timeout_ms, 30_000);
    assert_eq!(cfg.debugger.output_ring_bytes, 512 * 1024);
    assert!(cfg.audit.jsonl_path.is_none());
    assert_eq!(default_bind(), "127.0.0.1:8765");
    assert_eq!(default_max_sessions(), 4);
    assert_eq!(default_idle_secs(), 900);
    assert_eq!(default_attach_timeout(), 15_000);
    assert_eq!(default_command_timeout(), 30_000);
    assert_eq!(default_output_ring_bytes(), 524_288);
    assert_eq!(CDB_ENV_VAR, "WINDBG_CDB_PATH");
    assert_eq!(WILDCARD_BIND, "0.0.0.0");
}

#[test]
fn cdb_path_reports_missing() {
    let mut cfg = Config::default();
    match cfg.cdb_path() {
        Err(Error::CdbNotFound(m)) => assert_eq!(m, "no cdb path configured or autodetected"),
        other => panic!("unexpected: {other:?}"),
    }
    cfg.debugger.cdb_path = Some("C:/cdb/cdb.exe".into());
    assert_eq!(cfg.cdb_path().unwrap(), "C:/cdb/cdb.exe");
}

#[test]
fn finalize_prefers_configured_then_env_then_detected() {
    let mut cfg = Config::default();
    cfg.debugger.cdb_path = Some("C:/configured/cdb.exe".into());
    cfg.finalize(Some("C:/env/cdb.exe".into()), Some("C:/detected/cdb.exe".into()));
    assert_eq!(cfg.debugger.cdb_path.as_deref(), Some("C:/configured/cdb.exe"));

    let mut cfg = Config::default();
    cfg.finalize(Some("C:/env/cdb.exe".into()), Some("C:/detected/cdb.exe".into()));
    assert_eq!(cfg.debugger.cdb_path.as_deref(), Some("C:/env/cdb.exe"));

    let mut cfg = Config::default();
    cfg.finalize(Some("   ".into()), Some("C:/detected/cdb.exe".into()));
    assert_eq!(cfg.debugger.cdb_path.as_deref(), Some("C:/detected/cdb.exe"));

    let mut cfg = Config::default();
    cfg.finalize(None, None);
    assert!(cfg.debugger.cdb_path.is_none());
    assert_eq!(cfg.server.bind, "127.0.0.1:8765");
}
