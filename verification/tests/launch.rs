use hyerix_natsfixture::manifest::{default_version, Manifest};
use hyerix_natsfixture::server::bundled::{Resolution, ResolveError};
use hyerix_natsfixture::server::launch::{
    start_step, StartAction, StartEvent, StartFailure, StartStage, TEMP_DIR_PREFIX,
};
use hyerix_natsfixture::server::{
    render_server_config, ServerOptions, CONFIG_FILE_NAME, READY_TIMEOUT_SECS,
};

fn manifest(port: u16, dir: &str) -> Manifest {
    let mut m = Manifest::default();
    m.version = default_version();
    m.listen.host = "127.0.0.1".to_string();
    m.listen.port = port;
    m.storage.dir = dir.to_string();
    m
}

fn options(override_binary: Option<&str>) -> ServerOptions {
    ServerOptions {
        bundled_strategy: Resolution::BundledFirst,
        override_binary: override_binary.map(str::to_string),
        host_override: None,
        port_override: None,
        keep_storage: false,
    }
}

fn probed(bundled: Option<&str>, system: Option<&str>) -> StartEvent {
    StartEvent::BinaryProbed {
        override_is_file: false,
        bundled: bundled.map(str::to_string),
        system: system.map(str::to_string),
    }
}

#[test]
fn start_goes_port_binary_storage_config_process() {
    let m = manifest(4222, "/data/js");
    let o = options(None);

    let (stage, action) = start_step(&m, &o, StartStage::Begun, StartEvent::Begin);
    assert!(matches!(action, StartAction::ProbeBinary));
    assert!(matches!(stage, StartStage::PortChosen { port: 4222 }));

    let (stage, action) =
        start_step(&m, &o, stage, probed(Some("/opt/nats-server"), Some("/usr/bin/nats-server")));
    match action {
        StartAction::CreateStorage { dir } => assert_eq!(dir.as_deref(), Some("/data/js")),
        other => panic!("unexpected {other:?}"),
    }

    let (stage, action) =
        start_step(&m, &o, stage, StartEvent::StorageCreated("/data/js".to_string()));
    match action {
        StartAction::WriteConfig { storage_dir, file_name, text } => {
            assert_eq!(storage_dir, "/data/js");
            assert_eq!(file_name, CONFIG_FILE_NAME);
            assert_eq!(text, render_server_config(&m, "127.0.0.1", 4222, "/data/js"));
        }
        other => panic!("unexpected {other:?}"),
    }

    let (stage, action) = start_step(
        &m,
        &o,
        stage,
        StartEvent::ConfigWritten("/data/js/nats-server.conf".to_string()),
    );
    match action {
        StartAction::Spawn { binary, args } => {
            assert_eq!(binary, "/opt/nats-server");
            assert_eq!(args, vec!["-c".to_string(), "/data/js/nats-server.conf".to_string()]);
        }
        other => panic!("unexpected {other:?}"),
    }

    let (stage, action) = start_step(&m, &o, stage, StartEvent::Spawned);
    match action {
        StartAction::WaitReady { host, port, timeout_secs } => {
            assert_eq!(host, "127.0.0.1");
            assert_eq!(port, 4222);
            assert_eq!(timeout_secs, READY_TIMEOUT_SECS);
        }
        other => panic!("unexpected {other:?}"),
    }
    assert!(matches!(stage, StartStage::Started));
}

#[test]
fn port_zero_picks_a_free_port_and_blank_dir_asks_for_a_temporary_one() {
    let m = manifest(0, "");
    let o = options(None);
    let (stage, action) = start_step(&m, &o, StartStage::Begun, StartEvent::Begin);
    match action {
        StartAction::PickFreePort { host } => assert_eq!(host, "127.0.0.1"),
        other => panic!("unexpected {other:?}"),
    }
    let (stage, action) = start_step(&m, &o, stage, StartEvent::PortPicked(40123));
    assert!(matches!(action, StartAction::ProbeBinary));
    assert!(matches!(stage, StartStage::PortChosen { port: 40123 }));
    let (stage, action) = start_step(&m, &o, stage, probed(None, Some("/usr/bin/nats-server")));
    assert!(matches!(action, StartAction::CreateStorage { dir: None }));
    let (_, action) = start_step(&m, &o, stage, StartEvent::StorageCreated("/tmp/x".to_string()));
    match action {
        StartAction::WriteConfig { text, .. } => {
            assert_eq!(text, render_server_config(&m, "127.0.0.1", 40123, "/tmp/x"));
            assert!(text.contains("port: 40123\n"));
        }
        other => panic!("unexpected {other:?}"),
    }
    assert_eq!(TEMP_DIR_PREFIX, "hyerix-natsfixture-");
}

#[test]
fn options_override_host_and_port() {
    let m = manifest(4222, "");
    let mut o = options(None);
    o.host_override = Some("0.0.0.0".to_string());
    o.port_override = Some(0);
    let (_, action) = start_step(&m, &o, StartStage::Begun, StartEvent::Begin);
    match action {
        StartAction::PickFreePort { host } => assert_eq!(host, "0.0.0.0"),
        other => panic!("unexpected {other:?}"),
    }
}

#[test]
fn override_binary_that_is_not_a_file_gives_the_start_up() {
    let m = manifest(4222, "");
    let o = options(Some("/nope/nats-server"));
    let (stage, _) = start_step(&m, &o, StartStage::Begun, StartEvent::Begin);
    let event = StartEvent::BinaryProbed {
        override_is_file: false,
        bundled: Some("/opt/nats-server".to_string()),
        system: None,
    };
    let (stage, action) = start_step(&m, &o, stage, event);
    match action {
        StartAction::Fail(StartFailure::Resolve(ResolveError::OverrideMissing(p))) => {
            assert_eq!(p, "/nope/nats-server")
        }
        other => panic!("unexpected {other:?}"),
    }
    assert!(matches!(stage, StartStage::Failed));
    let (stage, action) = start_step(&m, &o, stage, StartEvent::Spawned);
    assert!(matches!(action, StartAction::Fail(StartFailure::UnexpectedEvent)));
    assert!(matches!(stage, StartStage::Failed));
}

#[test]
fn override_binary_that_is_a_file_is_spawned() {
    let m = manifest(4222, "/d");
    let o = options(Some("/custom/nats-server"));
    let (stage, _) = start_step(&m, &o, StartStage::Begun, StartEvent::Begin);
    let event = StartEvent::BinaryProbed { override_is_file: true, bundled: None, system: None };
    let (stage, _) = start_step(&m, &o, stage, event);
    let (stage, _) = start_step(&m, &o, stage, StartEvent::StorageCreated("/d".to_string()));
    let (_, action) =
        start_step(&m, &o, stage, StartEvent::ConfigWritten("/d/nats-server.conf".to_string()));
    match action {
        StartAction::Spawn { binary, .. } => assert_eq!(binary, "/custom/nats-server"),
        other => panic!("unexpected {other:?}"),
    }
}

#[test]
fn no_binary_found_gives_the_start_up() {
    let m = manifest(4222, "");
    let o = options(None);
    let (stage, _) = start_step(&m, &o, StartStage::Begun, StartEvent::Begin);
    let (_, action) = start_step(&m, &o, stage, probed(None, None));
    assert!(matches!(action, StartAction::Fail(StartFailure::Resolve(ResolveError::NotFound))));
}

#[test]
fn events_out_of_order_give_the_start_up() {
    let m = manifest(4222, "");
    let o = options(None);
    let (stage, action) =
        start_step(&m, &o, StartStage::Begun, StartEvent::ConfigWritten("/x".to_string()));
    assert!(matches!(stage, StartStage::Failed));
    assert!(matches!(action, StartAction::Fail(StartFailure::UnexpectedEvent)));
    let (_, action) = start_step(&m, &o, StartStage::PortChosen { port: 1 }, StartEvent::Spawned);
    assert!(matches!(action, StartAction::Fail(StartFailure::UnexpectedEvent)));
}
