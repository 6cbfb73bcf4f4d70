use hyerix_natsfixture::cli::{
    boot_failure_exit, connect_auth, default_log_filter, explicit_port, manifest_dir, LOG_FILTER_ENV, port_check, full_version_string, parse_pid, pid_file_contents,
    quiet_flag, server_options, spawn_run_args, BootFailure, Cli, Command, CommonRunArgs,
    ConnectAuth, KillArgs, RunArgs, ValidateArgs,
};
use hyerix_natsfixture::exit_codes;
use hyerix_natsfixture::manifest::{AuthMode, Manifest, UserCredential};
use hyerix_natsfixture::server::bundled::Resolution;

fn common() -> CommonRunArgs {
    CommonRunArgs {
        manifest: "fixture.yaml".to_string(),
        port: None,
        host: None,
        nats_server: None,
        prefer_system_nats_server: false,
        url_file: None,
        keep_storage: false,
        quiet: false,
    }
}

#[test]
fn version_string_names_both_versions() {
    let s = full_version_string("0.1.0", Some("2.10.20".to_string()));
    assert_eq!(s, "0.1.0 (bundled nats-server: 2.10.20)");
    assert!(s.contains("bundled nats-server"));
    assert_eq!(
        full_version_string("0.1.0", None),
        "0.1.0 (bundled nats-server: unknown)"
    );
}

#[test]
fn quiet_only_for_fixture_commands() {
    let mut c = common();
    c.quiet = true;
    assert!(quiet_flag(&Cli { command: Command::Run(RunArgs { common: c }) }));
    assert!(!quiet_flag(&Cli {
        command: Command::Validate(ValidateArgs { manifest: "m".to_string() })
    }));
    assert!(!quiet_flag(&Cli {
        command: Command::Kill(KillArgs { pid_file: "p".to_string() })
    }));
}

#[test]
fn server_options_from_flags() {
    let mut c = common();
    c.prefer_system_nats_server = true;
    c.port = Some(4222);
    c.host = Some("0.0.0.0".to_string());
    c.nats_server = Some("/opt/nats-server".to_string());
    c.keep_storage = true;
    let o = server_options(&c);
    assert_eq!(o.bundled_strategy, Resolution::SystemFirst);
    assert_eq!(o.port_override, Some(4222));
    assert_eq!(o.host_override.as_deref(), Some("0.0.0.0"));
    assert_eq!(o.override_binary.as_deref(), Some("/opt/nats-server"));
    assert!(o.keep_storage);
    assert_eq!(server_options(&common()).bundled_strategy, Resolution::BundledFirst);
}

#[test]
fn spawn_args_repeat_the_options() {
    assert_eq!(spawn_run_args(&common()), vec!["run", "--manifest", "fixture.yaml"]);
    let mut c = common();
    c.port = Some(4222);
    c.host = Some("h".to_string());
    c.nats_server = Some("/b".to_string());
    c.prefer_system_nats_server = true;
    c.url_file = Some("/u".to_string());
    c.keep_storage = true;
    c.quiet = true;
    assert_eq!(
        spawn_run_args(&c),
        vec![
            "run",
            "--manifest",
            "fixture.yaml",
            "--port",
            "4222",
            "--host",
            "h",
            "--nats-server",
            "/b",
            "--prefer-system-nats-server",
            "--url-file",
            "/u",
            "--keep-storage",
            "--quiet"
        ]
    );
}

#[test]
fn pid_file_round_trip() {
    assert_eq!(pid_file_contents(4242), "4242\n");
    for pid in [0u32, 1, 4242, 2147483647] {
        assert_eq!(parse_pid(&pid_file_contents(pid)), Some(pid as i32));
    }
    assert_eq!(parse_pid(&pid_file_contents(2147483648)), None);
}

#[test]
fn parse_pid_reads_trimmed_integer() {
    assert_eq!(parse_pid("  -12\r\n"), Some(-12));
    assert_eq!(parse_pid("+7"), Some(7));
    assert_eq!(parse_pid("-2147483648"), Some(i32::MIN));
    assert_eq!(parse_pid(""), None);
    assert_eq!(parse_pid("12 3"), None);
    assert_eq!(parse_pid("-"), None);
    assert_eq!(parse_pid("abc"), None);
}

#[test]
fn connect_auth_per_mode() {
    let mut m = Manifest::default();
    assert!(matches!(connect_auth(&m), Ok(ConnectAuth::Anonymous)));
    m.auth.mode = AuthMode::Token;
    m.auth.token = "fixture-secret".to_string();
    assert!(matches!(connect_auth(&m), Ok(ConnectAuth::Token(t)) if t == "fixture-secret"));
    m.auth.mode = AuthMode::UserPassword;
    assert_eq!(
        connect_auth(&m).unwrap_err(),
        "auth.mode=user_password but no users defined"
    );
    m.auth.users.push(UserCredential {
        user: "testuser".to_string(),
        password: "testpass".to_string(),
        permissions: None,
    });
    m.auth.users.push(UserCredential {
        user: "other".to_string(),
        password: "x".to_string(),
        permissions: None,
    });
    match connect_auth(&m) {
        Ok(ConnectAuth::UserPassword { user, password }) => {
            assert_eq!(user, "testuser");
            assert_eq!(password, "testpass");
        }
        other => panic!("{other:?}"),
    }
    m.auth.mode = AuthMode::Jwt;
    assert_eq!(connect_auth(&m).unwrap_err(), "auth.mode nkey/jwt not supported in v0.1");
}

#[test]
fn boot_failures_map_to_documented_exit_codes() {
    assert_eq!(exit_codes::OK, 0);
    assert_eq!(boot_failure_exit(BootFailure::Manifest).code, 1);
    assert_eq!(boot_failure_exit(BootFailure::PortInUse).code, 2);
    assert_eq!(exit_codes::PORT_IN_USE, 2);
    assert!(!boot_failure_exit(BootFailure::PortInUse).shutdown_first);
    assert_eq!(boot_failure_exit(BootFailure::ServerStart).code, 3);
    assert_eq!(boot_failure_exit(BootFailure::Apply).code, 4);
    assert_eq!(boot_failure_exit(BootFailure::Connect).code, 3);
    assert_eq!(boot_failure_exit(BootFailure::UrlFile).code, 3);
    assert_eq!(boot_failure_exit(BootFailure::Banner).code, 3);
    assert!(!boot_failure_exit(BootFailure::Manifest).shutdown_first);
    assert!(!boot_failure_exit(BootFailure::ServerStart).shutdown_first);
    assert!(boot_failure_exit(BootFailure::Apply).shutdown_first);
}

#[test]
fn explicit_port_in_use_is_a_boot_failure() {
    let mut c = common();
    assert_eq!(explicit_port(&c), None);
    c.port = Some(0);
    assert_eq!(explicit_port(&c), None);
    c.port = Some(4222);
    assert_eq!(explicit_port(&c), Some(4222));
    assert_eq!(port_check(true, true), Some(BootFailure::PortInUse));
    assert_eq!(port_check(true, false), None);
    assert_eq!(port_check(false, true), None);
}

#[test]
fn log_filter_follows_quiet() {
    assert_eq!(default_log_filter(true), "hyerix_natsfixture=error");
    assert_eq!(default_log_filter(false), "hyerix_natsfixture=info,warn");
    assert_eq!(LOG_FILTER_ENV, "HYERIX_NATSFIXTURE_LOG");
}

#[test]
fn manifest_dir_is_parent_or_current_directory() {
    assert_eq!(manifest_dir(Some("/etc/fixtures".to_string())), "/etc/fixtures");
    assert_eq!(manifest_dir(Some(String::new())), "");
    assert_eq!(manifest_dir(None), ".");
}
