use hyerix_natsfixture::manifest::apply::{
    apply_plan, payload_file, ApplyStep, ConsumerStart, PayloadFile, SeedPayload,
};
use hyerix_natsfixture::manifest::string_map::StringMap;
use hyerix_natsfixture::manifest::{
    default_version, AckPolicy, Consumer, DeliverPolicy, Discard, KvBucket, Manifest,
    ObjectBucket, Retention, SeedMessage, StorageBackend, Stream, Timespan,
};

fn stream(name: &str, seeds: Vec<SeedMessage>) -> Stream {
    Stream {
        name: name.to_string(),
        subjects: vec![format!("{}.>", name.to_lowercase())],
        retention: Retention::Workqueue,
        storage: StorageBackend::Memory,
        replicas: 1,
        max_msgs: 10,
        max_bytes: -1,
        max_age: None,
        discard: Discard::New,
        duplicate_window: Some(Timespan { secs: 120, nanos: 0 }),
        seed: seeds,
    }
}

fn seed(subject: &str, payload: Option<&str>, file: Option<&str>) -> SeedMessage {
    SeedMessage {
        subject: subject.to_string(),
        payload: payload.map(|s| s.to_string()),
        payload_file: file.map(|s| s.to_string()),
        headers: StringMap::new(),
    }
}

fn consumer(stream: &str, name: &str, p: DeliverPolicy) -> Consumer {
    Consumer {
        stream: stream.to_string(),
        name: name.to_string(),
        deliver_policy: p,
        ack_policy: AckPolicy::NoAck,
        max_deliver: 5,
        ack_wait: None,
        filter_subject: Some("orders.us.>".to_string()),
    }
}

fn kv_seed(entries: &[(&str, &str)]) -> StringMap {
    let mut m = StringMap::new();
    for (k, v) in entries {
        m.insert(k.to_string(), v.to_string());
    }
    m
}

fn full() -> Manifest {
    let mut m = Manifest::default();
    m.version = default_version();
    m.streams.push(stream(
        "ORDERS",
        vec![seed("orders.a", Some("x"), None), seed("orders.b", None, Some("p.bin"))],
    ));
    m.streams.push(stream("EVENTS", vec![seed("events.a", None, None)]));
    m.consumers.push(consumer("ORDERS", "c1", DeliverPolicy::ByStartSequence));
    m.consumers.push(consumer("EVENTS", "c2", DeliverPolicy::ByStartTime));
    m.kv.push(KvBucket {
        bucket: "feature-flags".to_string(),
        history: 10,
        ttl: Some(Timespan { secs: 5, nanos: 0 }),
        storage: StorageBackend::File,
        seed: kv_seed(&[("shadow_writes", "false"), ("payments_v2", "true")]),
    });
    m.object_store.push(ObjectBucket {
        bucket: "invoices".to_string(),
        storage: StorageBackend::File,
        ttl: None,
    });
    m
}

fn kind(s: &ApplyStep) -> String {
    match s {
        ApplyStep::CreateStream(st) => format!("stream {}", st.name),
        ApplyStep::PublishSeed(p) => format!("seed {} {}", p.stream, p.subject),
        ApplyStep::CreateConsumer(c) => format!("consumer {} {}", c.stream, c.name),
        ApplyStep::CreateKv(k) => format!("kv {}", k.bucket),
        ApplyStep::PutKv { bucket, key, value } => format!("put {bucket} {key}={value}"),
        ApplyStep::CreateObjectStore(o) => format!("object {}", o.bucket),
    }
}

#[test]
fn plan_orders_steps() {
    let steps = apply_plan(&full());
    let kinds: Vec<String> = steps.iter().map(kind).collect();
    assert_eq!(
        kinds,
        vec![
            "stream ORDERS",
            "seed ORDERS orders.a",
            "seed ORDERS orders.b",
            "stream EVENTS",
            "seed EVENTS events.a",
            "consumer ORDERS c1",
            "consumer EVENTS c2",
            "kv feature-flags",
            "put feature-flags payments_v2=true",
            "put feature-flags shadow_writes=false",
            "object invoices",
        ]
    );
}

#[test]
fn plan_configurations() {
    let steps = apply_plan(&full());
    match &steps[0] {
        ApplyStep::CreateStream(st) => {
            assert_eq!(st.subjects, vec!["orders.>".to_string()]);
            assert_eq!(st.num_replicas, 1);
            assert_eq!(st.retention, Retention::Workqueue);
            assert_eq!(st.storage, StorageBackend::Memory);
            assert_eq!(st.max_messages, 10);
            assert_eq!(st.max_age, Timespan { secs: 0, nanos: 0 });
            assert_eq!(st.discard, Discard::New);
            assert_eq!(st.duplicate_window, Timespan { secs: 120, nanos: 0 });
        }
        other => panic!("{other:?}"),
    }
    match &steps[1] {
        ApplyStep::PublishSeed(p) => assert!(matches!(&p.payload, SeedPayload::Inline(x) if x == "x")),
        other => panic!("{other:?}"),
    }
    match &steps[2] {
        ApplyStep::PublishSeed(p) => assert!(matches!(&p.payload, SeedPayload::File(x) if x == "p.bin")),
        other => panic!("{other:?}"),
    }
    match &steps[4] {
        ApplyStep::PublishSeed(p) => assert!(matches!(p.payload, SeedPayload::Empty)),
        other => panic!("{other:?}"),
    }
    match &steps[5] {
        ApplyStep::CreateConsumer(c) => {
            assert_eq!(c.deliver_policy, ConsumerStart::ByStartSequence(1));
            assert_eq!(c.durable_name, "c1");
            assert_eq!(c.ack_policy, AckPolicy::NoAck);
            assert_eq!(c.ack_wait, Timespan { secs: 0, nanos: 0 });
            assert_eq!(c.filter_subject, "orders.us.>");
        }
        other => panic!("{other:?}"),
    }
    match &steps[6] {
        ApplyStep::CreateConsumer(c) => assert_eq!(c.deliver_policy, ConsumerStart::New),
        other => panic!("{other:?}"),
    }
    match &steps[7] {
        ApplyStep::CreateKv(k) => {
            assert_eq!(k.history, 10);
            assert_eq!(k.max_age, Timespan { secs: 5, nanos: 0 });
        }
        other => panic!("{other:?}"),
    }
}

#[test]
fn plan_marks_conflicting_seed() {
    let mut m = full();
    m.streams[1].seed.push(seed("events.b", Some("x"), Some("f")));
    let steps = apply_plan(&m);
    match &steps[5] {
        ApplyStep::PublishSeed(p) => match &p.payload {
            SeedPayload::Conflict(msg) => assert_eq!(
                msg,
                "seed for stream 'EVENTS' subject 'events.b' declares both payload and payload_file"
            ),
            other => panic!("{other:?}"),
        },
        other => panic!("{other:?}"),
    }
}

#[test]
fn empty_manifest_plans_nothing() {
    assert!(apply_plan(&Manifest::default()).is_empty());
}

#[test]
fn kv_entries_are_put_in_ascending_key_order_once_each() {
    let mut m = Manifest::default();
    m.kv.push(KvBucket {
        bucket: "b".to_string(),
        history: 1,
        ttl: None,
        storage: StorageBackend::File,
        seed: kv_seed(&[("b", "1"), ("a", "2"), ("c", "3"), ("a", "4")]),
    });
    let kinds: Vec<String> = apply_plan(&m).iter().map(kind).collect();
    assert_eq!(kinds, vec!["kv b", "put b a=4", "put b b=1", "put b c=3"]);
}

#[test]
fn seed_headers_decide_publishing_with_headers() {
    let mut m = full();
    let mut h = StringMap::new();
    h.insert("Z".to_string(), "1".to_string());
    h.insert("A".to_string(), "2".to_string());
    m.streams[0].seed[0].headers = h;
    let steps = apply_plan(&m);
    match &steps[1] {
        ApplyStep::PublishSeed(p) => {
            assert!(p.with_headers);
            assert_eq!(
                p.headers,
                vec![("A".to_string(), "2".to_string()), ("Z".to_string(), "1".to_string())]
            );
        }
        other => panic!("{other:?}"),
    }
    match &steps[2] {
        ApplyStep::PublishSeed(p) => assert!(!p.with_headers),
        other => panic!("{other:?}"),
    }
}

#[test]
fn string_map_keeps_keys_sorted_and_unique() {
    let mut m = StringMap::new();
    m.insert("b".to_string(), "1".to_string());
    m.insert("a".to_string(), "2".to_string());
    m.insert("ab".to_string(), "3".to_string());
    m.insert("b".to_string(), "4".to_string());
    m.insert("B".to_string(), "5".to_string());
    assert_eq!(m.len(), 4);
    let keys: Vec<&str> = m.entries().iter().map(|(k, _)| k.as_str()).collect();
    assert_eq!(keys, vec!["B", "a", "ab", "b"]);
    assert_eq!(m.entries()[3].1, "4");
    let c = m.clone();
    assert_eq!(c.entries(), m.entries());
}

#[test]
fn payload_files_are_taken_from_the_manifest_directory_unless_absolute() {
    match payload_file("/srv/payload.json", true, "/etc/fixtures") {
        PayloadFile::AsGiven(p) => assert_eq!(p, "/srv/payload.json"),
        other => panic!("unexpected {other:?}"),
    }
    match payload_file("data/payload.json", false, "/etc/fixtures") {
        PayloadFile::InManifestDir { dir, path } => {
            assert_eq!(dir, "/etc/fixtures");
            assert_eq!(path, "data/payload.json");
        }
        other => panic!("unexpected {other:?}"),
    }
}
