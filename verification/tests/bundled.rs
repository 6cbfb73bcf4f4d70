use hyerix_natsfixture::server::bundled::{
    binary_filename, binary_filename_for, parse_version_line, resolve, system_binary_name,
    trim_suffix_str, Resolution, ResolveError,
};

#[test]
fn binary_filename_matches_platform() {
    if std::path::MAIN_SEPARATOR == '\\' {
        assert_eq!(binary_filename(), "nats-server.exe");
    } else {
        assert_eq!(binary_filename(), "nats-server");
    }
}

#[test]
fn parse_version_handles_standard_output() {
    let out = "nats-server: v2.10.20\n";
    assert_eq!(parse_version_line(out).as_deref(), Some("2.10.20"));
}

#[test]
fn binary_filename_for_each_platform() {
    assert_eq!(binary_filename_for(true), "nats-server.exe");
    assert_eq!(binary_filename_for(false), "nats-server");
}

#[test]
fn parse_version_skips_words_that_are_not_versions() {
    let out = "nats-server version 1 2.x-beta\r\nrelease: v2.11.0-1, built\n";
    assert_eq!(parse_version_line(out).as_deref(), Some("2.11.0-1"));
}

#[test]
fn parse_version_strips_leading_vs_and_trailing_punctuation() {
    assert_eq!(parse_version_line("vv3.0.1.,").as_deref(), Some("3.0.1"));
}

#[test]
fn parse_version_none_without_a_version() {
    assert_eq!(parse_version_line(""), None);
    assert_eq!(parse_version_line("nats-server unknown"), None);
    assert_eq!(parse_version_line("version 12"), None);
    assert_eq!(parse_version_line("v.1.2"), None);
    assert_eq!(parse_version_line("2.10x"), None);
}

#[test]
fn resolve_uses_override_when_it_is_a_file() {
    let r = resolve(
        Some("/opt/nats-server"),
        true,
        Resolution::BundledFirst,
        Some("/bundled/nats-server".to_string()),
        None,
    );
    assert_eq!(r.unwrap(), "/opt/nats-server");
}

#[test]
fn resolve_rejects_override_that_is_not_a_file() {
    let r = resolve(
        Some("/nope"),
        false,
        Resolution::BundledFirst,
        Some("/bundled/nats-server".to_string()),
        Some("/usr/bin/nats-server".to_string()),
    );
    match r {
        Err(ResolveError::OverrideMissing(p)) => assert_eq!(p, "/nope"),
        other => panic!("unexpected: {other:?}"),
    }
}

#[test]
fn resolve_follows_strategy_order() {
    let bundled = Some("/bundled/nats-server".to_string());
    let system = Some("/usr/bin/nats-server".to_string());
    assert_eq!(
        resolve(None, false, Resolution::BundledFirst, bundled.clone(), system.clone()).unwrap(),
        "/bundled/nats-server"
    );
    assert_eq!(
        resolve(None, false, Resolution::SystemFirst, bundled.clone(), system.clone()).unwrap(),
        "/usr/bin/nats-server"
    );
    assert_eq!(
        resolve(None, false, Resolution::SystemFirst, bundled.clone(), None).unwrap(),
        "/bundled/nats-server"
    );
    assert_eq!(
        resolve(None, false, Resolution::BundledFirst, None, system).unwrap(),
        "/usr/bin/nats-server"
    );
}

#[test]
fn resolve_not_found_without_candidates() {
    let r = resolve(None, false, Resolution::BundledFirst, None, None);
    assert!(matches!(r, Err(ResolveError::NotFound)));
    let msg = r.unwrap_err().message();
    assert!(msg.starts_with("nats-server binary not found."), "{msg}");
}

#[test]
fn resolve_error_messages() {
    assert_eq!(
        ResolveError::OverrideMissing("/x/y".to_string()).message(),
        "--nats-server '/x/y' is not a file"
    );
}

#[test]
fn system_binary_name_has_no_exe_suffix() {
    assert_eq!(system_binary_name(), "nats-server");
}

#[test]
fn trim_suffix_removes_every_trailing_copy() {
    assert_eq!(trim_suffix_str("nats-server.exe", ".exe"), "nats-server");
    assert_eq!(trim_suffix_str("nats-server", ".exe"), "nats-server");
    assert_eq!(trim_suffix_str("a.exe.exe", ".exe"), "a");
    assert_eq!(trim_suffix_str(".exe", ".exe"), "");
    assert_eq!(trim_suffix_str("a.exe.bin", ".exe"), "a.exe.bin");
    assert_eq!(trim_suffix_str("abc", ""), "abc");
    assert_eq!(trim_suffix_str("nats-server.exe", ".exe"), "nats-server.exe".trim_end_matches(".exe"));
}
