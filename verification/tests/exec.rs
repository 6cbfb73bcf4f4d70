use hyerix_natsfixture::url::{server_url, split_host_port};
use hyerix_natsfixture::exec::{child_command, exec_exit_code, exit_code_of, ExecOutcome};
use hyerix_natsfixture::server::healthz::{probe_step, HealthzError, ProbeStep, PROBE_INTERVAL_MILLIS};
use hyerix_natsfixture::manifest::Timespan;

#[test]
fn child_command_sets_fixture_env() {
    let argv = vec!["sh".to_string(), "-c".to_string(), "exit 42".to_string()];
    let c = child_command(&argv, "127.0.0.1", 4222, "nats://127.0.0.1:4222").unwrap();
    assert_eq!(c.program, "sh");
    assert_eq!(c.args, vec!["-c".to_string(), "exit 42".to_string()]);
    assert_eq!(
        c.env,
        vec![
            ("NATS_URL".to_string(), "nats://127.0.0.1:4222".to_string()),
            ("NATS_HOST".to_string(), "127.0.0.1".to_string()),
            ("NATS_PORT".to_string(), "4222".to_string()),
        ]
    );
}

#[test]
fn child_command_requires_a_program() {
    let argv: Vec<String> = Vec::new();
    assert_eq!(
        child_command(&argv, "h", 1, "u").unwrap_err(),
        "exec mode requires a command after `--`"
    );
}

#[test]
fn exit_code_propagates() {
    assert_eq!(exit_code_of(Some(42)), 42);
    assert_eq!(exit_code_of(Some(0)), 0);
    assert_eq!(exit_code_of(None), 1);
    let o = ExecOutcome { exit_code: exit_code_of(Some(7)) };
    assert_eq!(o.exit_code, 7);
}

#[test]
fn probe_decisions() {
    let total = Timespan { secs: 5, nanos: 0 };
    assert!(matches!(probe_step(true, true, "h", 1, total), ProbeStep::Ready));
    assert!(matches!(
        probe_step(false, false, "h", 1, total),
        ProbeStep::RetryAfterMillis(25)
    ));
    assert_eq!(PROBE_INTERVAL_MILLIS, 25);
    match probe_step(false, true, "127.0.0.1", 4222, total) {
        ProbeStep::Fail(HealthzError::Timeout { host, port, waited }) => {
            assert_eq!(host, "127.0.0.1");
            assert_eq!(port, 4222);
            assert_eq!(waited, total);
        }
        other => panic!("{other:?}"),
    }
}

#[test]
fn fixture_env_describes_one_server() {
    let url = server_url("127.0.0.1", 4555);
    let argv = vec!["true".to_string()];
    let c = child_command(&argv, "127.0.0.1", 4555, &url).unwrap();
    let (host, port) = split_host_port(&c.env[0].1).unwrap();
    assert_eq!(host, c.env[1].1);
    assert_eq!(port, c.env[2].1.parse::<u16>().unwrap());
}

#[test]
fn exec_exit_code_is_one_when_the_command_cannot_run() {
    assert_eq!(exec_exit_code(Some(ExecOutcome { exit_code: 42 })), 42);
    assert_eq!(exec_exit_code(None), 1);
}
