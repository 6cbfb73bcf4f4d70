use hyerix_natsfixture::manifest::string_map::StringMap;
use hyerix_natsfixture::manifest::{
    default_ack_wait, default_duplicate_window, default_history, default_host,
    default_js_max_file, default_js_max_memory, default_log_destination, default_max_bytes,
    default_max_deliver, default_max_msgs, default_replicas, default_version, validate, AckPolicy,
    Auth, AuthMode, Consumer, DeliverPolicy, Discard, KvBucket, Manifest, ManifestError,
    ObjectBucket, Retention, SeedMessage, StorageBackend, Stream, Timespan, UserCredential,
    SUPPORTED_SCHEMA_VERSION,
};

fn content_type_json() -> StringMap {
    let mut h = StringMap::new();
    h.insert("Content-Type".to_string(), "application/json".to_string());
    h
}

fn manifest() -> Manifest {
    let mut m = Manifest::default();
    m.version = default_version();
    m
}

fn stream(name: &str, subjects: &[&str]) -> Stream {
    Stream {
        name: name.to_string(),
        subjects: subjects.iter().map(|s| s.to_string()).collect(),
        retention: Retention::Limits,
        storage: StorageBackend::File,
        replicas: default_replicas(),
        max_msgs: default_max_msgs(),
        max_bytes: default_max_bytes(),
        max_age: None,
        discard: Discard::Old,
        duplicate_window: default_duplicate_window(),
        seed: Vec::new(),
    }
}

fn consumer(stream: &str, name: &str) -> Consumer {
    Consumer {
        stream: stream.to_string(),
        name: name.to_string(),
        deliver_policy: DeliverPolicy::All,
        ack_policy: AckPolicy::Explicit,
        max_deliver: default_max_deliver(),
        ack_wait: default_ack_wait(),
        filter_subject: None,
    }
}

fn kv(bucket: &str) -> KvBucket {
    KvBucket {
        bucket: bucket.to_string(),
        history: default_history(),
        ttl: None,
        storage: StorageBackend::File,
        seed: StringMap::new(),
    }
}

fn object(bucket: &str) -> ObjectBucket {
    ObjectBucket { bucket: bucket.to_string(), storage: StorageBackend::File, ttl: None }
}

fn invalid_message(m: &Manifest) -> String {
    match validate(m) {
        Err(ManifestError::Invalid(s)) => s,
        other => panic!("expected an invalid manifest, got {other:?}"),
    }
}

#[test]
fn consumer_referencing_missing_stream_rejected() {
    let mut m = manifest();
    m.consumers.push(consumer("NOPE", "bogus"));
    let err = validate(&m).unwrap_err();
    let s = err.message();
    assert!(s.contains("NOPE") || s.contains("not defined"), "got: {s}");
}

#[test]
fn seed_with_both_payload_and_file_rejected() {
    let mut m = manifest();
    let mut s = stream("S", &["s.>"]);
    s.seed.push(SeedMessage {
        subject: "s.x".to_string(),
        payload: Some("hi".to_string()),
        payload_file: Some("./missing.txt".to_string()),
        headers: StringMap::new(),
    });
    m.streams.push(s);
    let err = validate(&m).unwrap_err();
    let s = err.message();
    assert!(s.contains("payload"), "got: {s}");
}

#[test]
fn replicas_other_than_one_rejected() {
    let mut m = manifest();
    let mut s = stream("S", &["s.>"]);
    s.replicas = 3;
    m.streams.push(s);
    let err = validate(&m).unwrap_err();
    let s = err.message();
    assert!(s.contains("replicas") || s.contains("single-node"), "got: {s}");
}

#[test]
fn defaults_of_absent_fields() {
    assert_eq!(default_version(), "1");
    assert_eq!(SUPPORTED_SCHEMA_VERSION, "1");
    assert_eq!(default_host(), "127.0.0.1");
    assert_eq!(default_js_max_memory(), "1G");
    assert_eq!(default_js_max_file(), "10G");
    assert_eq!(default_replicas(), 1);
    assert_eq!(default_max_msgs(), -1);
    assert_eq!(default_max_bytes(), -1);
    assert_eq!(default_duplicate_window(), Some(Timespan { secs: 120, nanos: 0 }));
    assert_eq!(default_max_deliver(), -1);
    assert_eq!(default_ack_wait(), Some(Timespan { secs: 30, nanos: 0 }));
    assert_eq!(default_history(), 1);
    assert_eq!(default_log_destination(), "stderr");
}

#[test]
fn default_manifest_listens_on_loopback_port_zero() {
    let m = Manifest::default();
    assert_eq!(m.listen.host, "127.0.0.1");
    assert_eq!(m.listen.port, 0);
    assert_eq!(m.version, "");
    assert_eq!(m.auth.mode, AuthMode::NoAuth);
}

#[test]
fn minimal_manifest_is_valid() {
    let mut m = manifest();
    m.streams.push(stream("ORDERS", &["orders.>"]));
    assert!(validate(&m).is_ok());
}

#[test]
fn full_manifest_is_valid() {
    let mut m = manifest();
    let mut s = stream("ORDERS", &["orders.>"]);
    s.seed.push(SeedMessage {
        subject: "orders.us.created".to_string(),
        payload: Some("{\"id\": \"test-1\", \"amount\": 100}".to_string()),
        payload_file: None,
        headers: content_type_json(),
    });
    m.streams.push(s);
    let mut c = consumer("ORDERS", "order-processor");
    c.max_deliver = 5;
    c.filter_subject = Some("orders.us.>".to_string());
    m.consumers.push(c);
    let mut b = kv("feature-flags");
    b.history = 10;
    b.seed.insert("payments_v2".to_string(), "true".to_string());
    m.kv.push(b);
    m.object_store.push(object("invoices"));
    assert!(validate(&m).is_ok());
}

#[test]
fn empty_default_manifest_has_unsupported_version() {
    let m = Manifest::default();
    match validate(&m) {
        Err(ManifestError::UnsupportedVersion { found }) => assert_eq!(found, ""),
        other => panic!("unexpected: {other:?}"),
    }
}

#[test]
fn wrong_version_rejected_with_message() {
    let mut m = manifest();
    m.version = "2".to_string();
    let err = validate(&m).unwrap_err();
    assert_eq!(
        err.message(),
        "unsupported manifest version '2'. This fixture only understands version '1'."
    );
}

#[test]
fn blank_listen_host_rejected() {
    let mut m = manifest();
    m.listen.host = " \t".to_string();
    assert_eq!(invalid_message(&m), "listen.host must not be empty");
}

#[test]
fn stream_rules_in_order() {
    let mut m = manifest();
    m.streams.push(stream("  ", &["a"]));
    assert_eq!(invalid_message(&m), "stream.name must not be empty");

    let mut m = manifest();
    m.streams.push(stream("A", &["a"]));
    m.streams.push(stream("A", &["b"]));
    assert_eq!(invalid_message(&m), "duplicate stream name 'A'");

    let mut m = manifest();
    let mut s = stream("A", &["a"]);
    s.replicas = 3;
    m.streams.push(s);
    assert_eq!(
        invalid_message(&m),
        "stream 'A' specifies replicas=3; this fixture is single-node, only replicas=1 is supported in v0.1"
    );

    let mut m = manifest();
    m.streams.push(stream("A", &[]));
    assert_eq!(invalid_message(&m), "stream 'A' must declare at least one subject");
}

#[test]
fn seed_conflict_message() {
    let mut m = manifest();
    let mut s = stream("S", &["s.>"]);
    s.seed.push(SeedMessage {
        subject: "s.ok".to_string(),
        payload: None,
        payload_file: Some("f.bin".to_string()),
        headers: StringMap::new(),
    });
    s.seed.push(SeedMessage {
        subject: "s.x".to_string(),
        payload: Some("hi".to_string()),
        payload_file: Some("f.bin".to_string()),
        headers: StringMap::new(),
    });
    m.streams.push(s);
    assert_eq!(
        invalid_message(&m),
        "stream 'S' seed for subject 's.x' has both `payload` and `payload_file` — choose one"
    );
}

#[test]
fn consumer_rules_in_order() {
    let mut m = manifest();
    m.streams.push(stream("S", &["s"]));
    m.consumers.push(consumer("S", ""));
    assert_eq!(invalid_message(&m), "consumer.name must not be empty");

    let mut m = manifest();
    m.streams.push(stream("S", &["s"]));
    m.consumers.push(consumer(" ", "c"));
    assert_eq!(invalid_message(&m), "consumer 'c' must reference a stream");

    let mut m = manifest();
    m.streams.push(stream("S", &["s"]));
    m.consumers.push(consumer("T", "c"));
    assert_eq!(
        invalid_message(&m),
        "consumer 'c' references stream 'T' that is not defined in this manifest"
    );

    let mut m = manifest();
    m.streams.push(stream("S", &["s"]));
    m.streams.push(stream("T", &["t"]));
    m.consumers.push(consumer("S", "c"));
    m.consumers.push(consumer("T", "c"));
    assert!(validate(&m).is_ok());
    m.consumers.push(consumer("S", "c"));
    assert_eq!(invalid_message(&m), "duplicate consumer 'c' on stream 'S'");
}

#[test]
fn bucket_rules() {
    let mut m = manifest();
    m.kv.push(kv(""));
    assert_eq!(invalid_message(&m), "kv.bucket must not be empty");

    let mut m = manifest();
    m.kv.push(kv("b"));
    m.kv.push(kv("b"));
    assert_eq!(invalid_message(&m), "duplicate KV bucket 'b'");

    let mut m = manifest();
    m.object_store.push(object("\n"));
    assert_eq!(invalid_message(&m), "object_store.bucket must not be empty");

    let mut m = manifest();
    m.kv.push(kv("b"));
    m.object_store.push(object("b"));
    assert!(validate(&m).is_ok());
    m.object_store.push(object("b"));
    assert_eq!(invalid_message(&m), "duplicate object_store bucket 'b'");
}

#[test]
fn auth_rules() {
    let mut m = manifest();
    m.auth = Auth { mode: AuthMode::Token, token: String::new(), users: Vec::new() };
    assert_eq!(invalid_message(&m), "auth.mode=token requires a non-empty auth.token");
    m.auth.token = "fixture-secret".to_string();
    assert!(validate(&m).is_ok());

    let mut m = manifest();
    m.auth.mode = AuthMode::UserPassword;
    assert_eq!(
        invalid_message(&m),
        "auth.mode=user_password requires at least one entry in auth.users"
    );
    m.auth.users.push(UserCredential {
        user: "testuser".to_string(),
        password: String::new(),
        permissions: None,
    });
    assert_eq!(
        invalid_message(&m),
        "auth.users entries must have non-empty user and password"
    );
    m.auth.users[0].password = "testpass".to_string();
    assert!(validate(&m).is_ok());

    let mut m = manifest();
    m.auth.mode = AuthMode::Nkey;
    assert_eq!(
        invalid_message(&m),
        "auth.mode=Nkey is reserved in the schema but not implemented in v0.1"
    );
    m.auth.mode = AuthMode::Jwt;
    assert_eq!(
        invalid_message(&m),
        "auth.mode=Jwt is reserved in the schema but not implemented in v0.1"
    );
}

#[test]
fn streams_are_checked_before_consumers_and_buckets() {
    let mut m = manifest();
    m.consumers.push(consumer("NOPE", "c"));
    m.kv.push(kv(""));
    m.streams.push(stream("A", &[]));
    assert_eq!(invalid_message(&m), "stream 'A' must declare at least one subject");
}

#[test]
fn error_messages() {
    assert_eq!(
        ManifestError::Invalid("x".to_string()).message(),
        "manifest validation failed: x"
    );
    assert_eq!(
        ManifestError::Io { path: "m.yaml".to_string(), message: "gone".to_string() }.message(),
        "failed to read manifest file 'm.yaml': gone"
    );
    assert_eq!(
        ManifestError::Parse { path: "m.yaml".to_string(), message: "bad".to_string() }.message(),
        "failed to parse manifest YAML 'm.yaml': bad"
    );
}
