use hyerix_natsfixture::manifest::{
    default_version, AuthMode, LogFormat, LogLevel, Manifest, UserCredential, UserPermissions,
};
use hyerix_natsfixture::server::bundled::Resolution;
use hyerix_natsfixture::server::{
    render_server_config, server_args, shutdown_plan, CONFIG_FILE_NAME, size_or_default, start_plan, ServerOptions, WaitOutcome,
    DRAIN_TIMEOUT_SECS, READY_TIMEOUT_SECS,
};

fn manifest() -> Manifest {
    let mut m = Manifest::default();
    m.version = default_version();
    m
}

const HEAD: &str = "server_name: hyerix-natsfixture\nhost: \"127.0.0.1\"\nport: 4222\nhttp: 0\njetstream {\n  store_dir: \"/tmp/js\"\n";

#[test]
fn config_of_default_manifest() {
    let m = manifest();
    let cfg = render_server_config(&m, "127.0.0.1", 4222, "/tmp/js");
    let expected = format!(
        "{HEAD}  max_memory_store: 1G\n  max_file_store: 10G\n}}\nlogtime: true\n# log level (informational): WARN\n"
    );
    assert_eq!(cfg, expected);
}

#[test]
fn config_uses_storage_limits_unless_blank() {
    let mut m = manifest();
    m.storage.jetstream_max_memory = "256M".to_string();
    m.storage.jetstream_max_file = "  ".to_string();
    let cfg = render_server_config(&m, "127.0.0.1", 4222, "/tmp/js");
    assert!(cfg.contains("  max_memory_store: 256M\n"));
    assert!(cfg.contains("  max_file_store: 10G\n"));
}

#[test]
fn config_log_settings() {
    let mut m = manifest();
    m.log.level = LogLevel::Trace;
    m.log.format = LogFormat::Json;
    m.log.destination = "/var/log/nats.log".to_string();
    let cfg = render_server_config(&m, "127.0.0.1", 4222, "/tmp/js");
    assert!(cfg.ends_with(
        "logtime: true\ndebug: true\ntrace: true\n# log level (informational): TRACE\n# (json log format requested; nats-server has no native JSON log; using text)\nlog_file: \"/var/log/nats.log\"\n"
    ), "{cfg}");

    m.log.level = LogLevel::Off;
    m.log.format = LogFormat::Text;
    m.log.destination = "stdout".to_string();
    let cfg = render_server_config(&m, "127.0.0.1", 4222, "/tmp/js");
    assert!(cfg.ends_with("logtime: true\n# log level (informational): WARN\n"), "{cfg}");

    m.log.level = LogLevel::Debug;
    let cfg = render_server_config(&m, "127.0.0.1", 4222, "/tmp/js");
    assert!(cfg.ends_with("logtime: true\ndebug: true\n# log level (informational): DEBUG\n"), "{cfg}");
}

#[test]
fn config_token_auth() {
    let mut m = manifest();
    m.auth.mode = AuthMode::Token;
    m.auth.token = "fixture-secret".to_string();
    let cfg = render_server_config(&m, "0.0.0.0", 1, "d");
    assert!(cfg.starts_with("server_name: hyerix-natsfixture\nhost: \"0.0.0.0\"\nport: 1\n"));
    assert!(cfg.ends_with("authorization {\n  token: \"fixture-secret\"\n}\n"), "{cfg}");
}

#[test]
fn config_user_password_auth() {
    let mut m = manifest();
    m.auth.mode = AuthMode::UserPassword;
    m.auth.users.push(UserCredential {
        user: "testuser".to_string(),
        password: "testpass".to_string(),
        permissions: Some(UserPermissions {
            publish: vec!["orders.>".to_string(), "a".to_string()],
            subscribe: vec!["events.>".to_string()],
        }),
    });
    m.auth.users.push(UserCredential {
        user: "u2".to_string(),
        password: "p2".to_string(),
        permissions: None,
    });
    let cfg = render_server_config(&m, "127.0.0.1", 4222, "/tmp/js");
    assert!(cfg.ends_with(
        "authorization {\n  users: [\n    { user: \"testuser\", password: \"testpass\", permissions: { publish: [\"orders.>\", \"a\"], subscribe: [\"events.>\"] } }\n    { user: \"u2\", password: \"p2\" }\n  ]\n}\n"
    ), "{cfg}");
}

#[test]
fn config_without_auth_block_for_reserved_modes() {
    let mut m = manifest();
    m.auth.mode = AuthMode::Nkey;
    let cfg = render_server_config(&m, "127.0.0.1", 4222, "/tmp/js");
    assert!(!cfg.contains("authorization"));
}

#[test]
fn size_or_default_picks_default_for_blank() {
    assert_eq!(size_or_default("", "1G"), "1G");
    assert_eq!(size_or_default(" ", "1G"), "1G");
    assert_eq!(size_or_default("2G", "1G"), "2G");
}

fn opts(host: Option<&str>, port: Option<u16>) -> ServerOptions {
    ServerOptions {
        bundled_strategy: Resolution::SystemFirst,
        override_binary: None,
        host_override: host.map(|h| h.to_string()),
        port_override: port,
        keep_storage: false,
    }
}

#[test]
fn start_plan_prefers_overrides() {
    let mut m = manifest();
    m.listen.port = 4333;
    let p = start_plan(&m, &opts(None, None));
    assert_eq!(p.host, "127.0.0.1");
    assert_eq!(p.port, 4333);
    assert_eq!(p.storage_dir, None);
    assert!(!p.pick_free_port);
    let p = start_plan(&m, &opts(Some("0.0.0.0"), Some(0)));
    assert_eq!(p.host, "0.0.0.0");
    assert_eq!(p.port, 0);
    assert!(p.pick_free_port);
    m.storage.dir = "/data/js".to_string();
    let p = start_plan(&m, &opts(None, None));
    assert_eq!(p.storage_dir.as_deref(), Some("/data/js"));
}

#[test]
fn shutdown_plan_steps() {
    let p = shutdown_plan(WaitOutcome::TimedOut, false);
    assert!(p.kill_server && p.remove_storage_dir && p.remove_config_file);
    let p = shutdown_plan(WaitOutcome::Exited, true);
    assert!(!p.kill_server && !p.remove_storage_dir && p.remove_config_file);
    let p = shutdown_plan(WaitOutcome::Failed, false);
    assert!(!p.kill_server && p.remove_storage_dir);
    assert_eq!(DRAIN_TIMEOUT_SECS, 2);
    assert_eq!(READY_TIMEOUT_SECS, 5);
}

#[test]
fn server_is_started_with_its_config_file() {
    assert_eq!(CONFIG_FILE_NAME, "nats-server.conf");
    assert_eq!(server_args("/tmp/js/nats-server.conf"), vec!["-c", "/tmp/js/nats-server.conf"]);
}
