//! What applying a manifest to a running server does, as an ordered list of
//! steps: each stream is created and then seeded, then the consumers are
//! created, then the KV buckets are created and filled, then the object store
//! buckets are created.

use super::string_map::keys_ascending;
use super::{
    defines_stream, lemma_accepted_manifest_is_sound, manifest_rejection, AckPolicy, Consumer, DeliverPolicy, Discard, KvBucket, Manifest, ObjectBucket, Retention,
    SeedMessage, StorageBackend, Stream, Timespan,
};
use crate::cli::opt_view;
use crate::text::{copy_pairs, copy_str, pairs_view, push_str, strings_view};
use vstd::prelude::*;

verus! {

/// Where a consumer starts delivering.
#[derive(Debug, Clone, Copy, PartialEq, Eq, Structural)]
pub enum ConsumerStart {
    All,
    Last,
    New,
    ByStartSequence(u64),
}

/// The configuration a stream is created with.
#[derive(Debug, Clone)]
pub struct StreamSetup {
    pub name: String,
    pub subjects: Vec<String>,
    pub retention: Retention,
    pub storage: StorageBackend,
    pub num_replicas: usize,
    pub max_messages: i64,
    pub max_bytes: i64,
    pub max_age: Timespan,
    pub discard: Discard,
    pub duplicate_window: Timespan,
}

/// Where the payload of a seed message comes from.
#[derive(Debug, Clone)]
pub enum SeedPayload {
    /// The payload text itself.
    Inline(String),
    /// A file to read; a relative path is taken from the manifest's directory.
    File(String),
    /// No payload.
    Empty,
    /// Both an inline payload and a file were given: the step fails with this
    /// message.
    Conflict(String),
}

/// Where the payload file of a seed message is read from.
#[derive(Debug)]
pub enum PayloadFile {
    /// The path as written (it is absolute).
    AsGiven(String),
    /// The path taken from the manifest's directory `dir`.
    InManifestDir { dir: String, path: String },
}

/// Where a seed's payload file `path` is read from: an absolute path
/// (`path_is_absolute`) as written, a relative one from the manifest's
/// directory `manifest_dir`.
pub fn payload_file(path: &str, path_is_absolute: bool, manifest_dir: &str) -> (f: PayloadFile)
    ensures
        path_is_absolute ==> (f matches PayloadFile::AsGiven(p) && p@ == path@),
        !path_is_absolute ==> (f matches PayloadFile::InManifestDir { dir, path: p } && dir@
            == manifest_dir@ && p@ == path@),
{
    if path_is_absolute {
        PayloadFile::AsGiven(copy_str(path))
    } else {
        PayloadFile::InManifestDir { dir: copy_str(manifest_dir), path: copy_str(path) }
    }
}

/// A message to publish into a stream.
#[derive(Debug, Clone)]
pub struct SeedPublish {
    pub stream: String,
    pub subject: String,
    pub payload: SeedPayload,
    pub headers: Vec<(String, String)>,
    /// Publish with headers (there are some).
    pub with_headers: bool,
}

/// The configuration a durable pull consumer is created with.
#[derive(Debug, Clone)]
pub struct ConsumerSetup {
    pub stream: String,
    pub durable_name: String,
    pub name: String,
    pub deliver_policy: ConsumerStart,
    pub ack_policy: AckPolicy,
    pub max_deliver: i64,
    pub ack_wait: Timespan,
    pub filter_subject: String,
}

/// The configuration a KV bucket is created with.
#[derive(Debug, Clone)]
pub struct KvSetup {
    pub bucket: String,
    pub history: i64,
    pub max_age: Timespan,
    pub storage: StorageBackend,
}

/// The configuration an object store bucket is created with.
#[derive(Debug, Clone)]
pub struct ObjectStoreSetup {
    pub bucket: String,
    pub max_age: Timespan,
    pub storage: StorageBackend,
}

/// One step of applying a manifest.
#[derive(Debug, Clone)]
pub enum ApplyStep {
    CreateStream(StreamSetup),
    PublishSeed(SeedPublish),
    CreateConsumer(ConsumerSetup),
    CreateKv(KvSetup),
    PutKv { bucket: String, key: String, value: String },
    CreateObjectStore(ObjectStoreSetup),
}

/// The manifest entry that a step comes from.
pub enum StepSource {
    /// The `i`-th stream.
    Stream(int),
    /// The `k`-th seed message of the `i`-th stream.
    Seed(int, int),
    /// The `i`-th consumer.
    Consumer(int),
    /// The `i`-th KV bucket.
    Kv(int),
    /// The `k`-th seed entry of the `i`-th KV bucket.
    KvPut(int, int),
    /// The `i`-th object store bucket.
    ObjectStore(int),
}

/// The steps of the first `n` streams: each stream, then its seed messages.
pub open spec fn stream_sources(ss: Seq<Stream>, n: int) -> Seq<StepSource>
    decreases n,
{
    if n <= 0 {
        Seq::empty()
    } else {
        stream_sources(ss, n - 1) + seq![StepSource::Stream(n - 1)] + Seq::new(
            ss[n - 1].seed@.len(),
            |k: int| StepSource::Seed(n - 1, k),
        )
    }
}

/// The steps of the first `n` KV buckets: each bucket, then its entries.
pub open spec fn kv_sources(bs: Seq<KvBucket>, n: int) -> Seq<StepSource>
    decreases n,
{
    if n <= 0 {
        Seq::empty()
    } else {
        kv_sources(bs, n - 1) + seq![StepSource::Kv(n - 1)] + Seq::new(
            bs[n - 1].seed@.len(),
            |k: int| StepSource::KvPut(n - 1, k),
        )
    }
}

/// The order of the steps of applying `m`.
pub open spec fn plan_sources(m: Manifest) -> Seq<StepSource> {
    stream_sources(m.streams@, m.streams@.len() as int) + Seq::new(
        m.consumers@.len(),
        |i: int| StepSource::Consumer(i),
    ) + kv_sources(m.kv@, m.kv@.len() as int) + Seq::new(
        m.object_store@.len(),
        |i: int| StepSource::ObjectStore(i),
    )
}

/// An absent duration counts as zero.
pub open spec fn or_zero(t: Option<Timespan>) -> Timespan {
    match t {
        Some(x) => x,
        None => Timespan { secs: 0, nanos: 0 },
    }
}

/// Where a consumer with a delivery policy starts: from the first sequence
/// for `by_start_sequence`, and with new messages for `by_start_time`.
pub open spec fn start_for(p: DeliverPolicy) -> ConsumerStart {
    match p {
        DeliverPolicy::All => ConsumerStart::All,
        DeliverPolicy::Last => ConsumerStart::Last,
        DeliverPolicy::New => ConsumerStart::New,
        DeliverPolicy::ByStartSequence => ConsumerStart::ByStartSequence(1),
        DeliverPolicy::ByStartTime => ConsumerStart::New,
    }
}

pub open spec fn stream_setup_of(st: StreamSetup, s: Stream) -> bool {
    &&& st.name@ == s.name@
    &&& strings_view(st.subjects@) == strings_view(s.subjects@)
    &&& st.retention == s.retention
    &&& st.storage == s.storage
    &&& st.num_replicas == 1
    &&& st.max_messages == s.max_msgs
    &&& st.max_bytes == s.max_bytes
    &&& st.max_age == or_zero(s.max_age)
    &&& st.discard == s.discard
    &&& st.duplicate_window == or_zero(s.duplicate_window)
}

/// The payload source of a seed message.
pub open spec fn seed_payload_of(p: SeedPayload, stream: Seq<char>, seed: SeedMessage) -> bool {
    match (seed.payload, seed.payload_file) {
        (Some(text), None) => p matches SeedPayload::Inline(x) && x@ == text@,
        (None, Some(path)) => p matches SeedPayload::File(x) && x@ == path@,
        (None, None) => p matches SeedPayload::Empty,
        (Some(_), Some(_)) => p matches SeedPayload::Conflict(x) && x@ == "seed for stream '"@
            + stream + "' subject '"@ + seed.subject@
            + "' declares both payload and payload_file"@,
    }
}

pub open spec fn seed_publish_of(p: SeedPublish, s: Stream, seed: SeedMessage) -> bool {
    &&& p.stream@ == s.name@
    &&& p.subject@ == seed.subject@
    &&& seed_payload_of(p.payload, s.name@, seed)
    &&& pairs_view(p.headers@) == seed.headers@
    &&& p.with_headers == (seed.headers@.len() > 0)
}

pub open spec fn consumer_setup_of(cs: ConsumerSetup, c: Consumer) -> bool {
    &&& cs.stream@ == c.stream@
    &&& cs.durable_name@ == c.name@
    &&& cs.name@ == c.name@
    &&& cs.deliver_policy == start_for(c.deliver_policy)
    &&& cs.ack_policy == c.ack_policy
    &&& cs.max_deliver == c.max_deliver
    &&& cs.ack_wait == or_zero(c.ack_wait)
    &&& cs.filter_subject@ == match c.filter_subject {
        Some(f) => f@,
        None => Seq::<char>::empty(),
    }
}

pub open spec fn kv_setup_of(k: KvSetup, b: KvBucket) -> bool {
    &&& k.bucket@ == b.bucket@
    &&& k.history == b.history as i64
    &&& k.max_age == or_zero(b.ttl)
    &&& k.storage == b.storage
}

pub open spec fn object_setup_of(o: ObjectStoreSetup, b: ObjectBucket) -> bool {
    &&& o.bucket@ == b.bucket@
    &&& o.max_age == or_zero(b.ttl)
    &&& o.storage == b.storage
}

/// `step` is what the manifest entry `src` of `m` calls for.
pub open spec fn step_of(step: ApplyStep, m: Manifest, src: StepSource) -> bool {
    match src {
        StepSource::Stream(i) => step matches ApplyStep::CreateStream(st) && stream_setup_of(
            st,
            m.streams@[i],
        ),
        StepSource::Seed(i, k) => step matches ApplyStep::PublishSeed(p) && seed_publish_of(
            p,
            m.streams@[i],
            m.streams@[i].seed@[k],
        ),
        StepSource::Consumer(i) => step matches ApplyStep::CreateConsumer(c) && consumer_setup_of(
            c,
            m.consumers@[i],
        ),
        StepSource::Kv(i) => step matches ApplyStep::CreateKv(k) && kv_setup_of(k, m.kv@[i]),
        StepSource::KvPut(i, k) => step matches ApplyStep::PutKv { bucket, key, value }
            && bucket@ == m.kv@[i].bucket@ && key@ == m.kv@[i].seed@[k].0 && value@
            == m.kv@[i].seed@[k].1,
        StepSource::ObjectStore(i) => step matches ApplyStep::CreateObjectStore(o)
            && object_setup_of(o, m.object_store@[i]),
    }
}

/// The steps built so far are those of `srcs`, in order.
pub open spec fn steps_follow(steps: Seq<ApplyStep>, m: Manifest, srcs: Seq<StepSource>) -> bool {
    &&& steps.len() == srcs.len()
    &&& forall|j: int| 0 <= j < srcs.len() ==> step_of(#[trigger] steps[j], m, srcs[j])
}

fn copy_strings(v: &Vec<String>) -> (r: Vec<String>)
    ensures
        strings_view(r@) == strings_view(v@),
{
    let mut r: Vec<String> = Vec::new();
    let mut i: usize = 0;
    while i < v.len()
        invariant
            i <= v@.len(),
            r@.len() == i,
            forall|j: int| 0 <= j < i ==> (#[trigger] r@[j])@ == v@[j]@,
        decreases v.len() - i,
    {
        r.push(copy_str(v[i].as_str()));
        i = i + 1;
    }
    assert(strings_view(r@) =~= strings_view(v@));
    r
}

fn or_zero_exec(t: Option<Timespan>) -> (r: Timespan)
    ensures
        r == or_zero(t),
{
    match t {
        Some(x) => x,
        None => Timespan::zero(),
    }
}

/// The configuration of stream `s`.
pub fn stream_setup(s: &Stream) -> (st: StreamSetup)
    ensures
        stream_setup_of(st, *s),
{
    StreamSetup {
        name: copy_str(s.name.as_str()),
        subjects: copy_strings(&s.subjects),
        retention: s.retention,
        storage: s.storage,
        num_replicas: 1,
        max_messages: s.max_msgs,
        max_bytes: s.max_bytes,
        max_age: or_zero_exec(s.max_age),
        discard: s.discard,
        duplicate_window: or_zero_exec(s.duplicate_window),
    }
}

/// The publication of `seed` into `stream`.
pub fn seed_publish(stream: &str, seed: &SeedMessage) -> (p: SeedPublish)
    ensures
        p.stream@ == stream@,
        p.subject@ == seed.subject@,
        seed_payload_of(p.payload, stream@, *seed),
        pairs_view(p.headers@) == seed.headers@,
        p.with_headers == (seed.headers@.len() > 0),
        keys_ascending(seed.headers@),
{
    let payload = match (&seed.payload, &seed.payload_file) {
        (Some(text), None) => SeedPayload::Inline(copy_str(text.as_str())),
        (None, Some(path)) => SeedPayload::File(copy_str(path.as_str())),
        (None, None) => SeedPayload::Empty,
        (Some(_), Some(_)) => {
            let mut e = copy_str("seed for stream '");
            push_str(&mut e, stream);
            push_str(&mut e, "' subject '");
            push_str(&mut e, seed.subject.as_str());
            push_str(&mut e, "' declares both payload and payload_file");
            SeedPayload::Conflict(e)
        },
    };
    SeedPublish {
        stream: copy_str(stream),
        subject: copy_str(seed.subject.as_str()),
        payload,
        headers: copy_pairs(seed.headers.entries()),
        with_headers: seed.headers.len() > 0,
    }
}

/// Where a consumer with delivery policy `p` starts.
pub fn consumer_start(p: DeliverPolicy) -> (s: ConsumerStart)
    ensures
        s == start_for(p),
{
    match p {
        DeliverPolicy::All => ConsumerStart::All,
        DeliverPolicy::Last => ConsumerStart::Last,
        DeliverPolicy::New => ConsumerStart::New,
        DeliverPolicy::ByStartSequence => ConsumerStart::ByStartSequence(1),
        DeliverPolicy::ByStartTime => ConsumerStart::New,
    }
}

/// The configuration of consumer `c`.
pub fn consumer_setup(c: &Consumer) -> (cs: ConsumerSetup)
    ensures
        consumer_setup_of(cs, *c),
{
    let filter_subject = match &c.filter_subject {
        Some(f) => copy_str(f.as_str()),
        None => String::new(),
    };
    ConsumerSetup {
        stream: copy_str(c.stream.as_str()),
        durable_name: copy_str(c.name.as_str()),
        name: copy_str(c.name.as_str()),
        deliver_policy: consumer_start(c.deliver_policy),
        ack_policy: c.ack_policy,
        max_deliver: c.max_deliver,
        ack_wait: or_zero_exec(c.ack_wait),
        filter_subject,
    }
}

/// The configuration of KV bucket `b`.
pub fn kv_setup(b: &KvBucket) -> (k: KvSetup)
    ensures
        kv_setup_of(k, *b),
{
    KvSetup {
        bucket: copy_str(b.bucket.as_str()),
        history: b.history as i64,
        max_age: or_zero_exec(b.ttl),
        storage: b.storage,
    }
}

/// The configuration of object store bucket `b`.
pub fn object_store_setup(b: &ObjectBucket) -> (o: ObjectStoreSetup)
    ensures
        object_setup_of(o, *b),
{
    ObjectStoreSetup {
        bucket: copy_str(b.bucket.as_str()),
        max_age: or_zero_exec(b.ttl),
        storage: b.storage,
    }
}

/// The steps of applying `manifest`, in the order they are taken: each
/// stream followed by its seed messages, then the consumers, then each KV
/// bucket followed by its entries, then the object store buckets.
pub fn apply_plan(manifest: &Manifest) -> (steps: Vec<ApplyStep>)
    ensures
        steps_follow(steps@, *manifest, plan_sources(*manifest)),
        forall|i: int, k: int|
            0 <= i < manifest.streams@.len() && 0 <= k < manifest.streams@[i].seed@.len()
                ==> keys_ascending(#[trigger] manifest.streams@[i].seed@[k].headers@),
        forall|i: int|
            0 <= i < manifest.kv@.len() ==> keys_ascending(#[trigger] manifest.kv@[i].seed@),
{
    let ghost m = *manifest;
    let mut steps: Vec<ApplyStep> = Vec::new();
    let ghost mut srcs: Seq<StepSource> = Seq::empty();
    let ss = &manifest.streams;
    let mut i: usize = 0;
    while i < ss.len()
        invariant
            m == *manifest,
            ss == &manifest.streams,
            i <= ss@.len(),
            srcs == stream_sources(ss@, i as int),
            steps_follow(steps@, m, srcs),
            forall|q: int, k: int|
                0 <= q < i && 0 <= k < ss@[q].seed@.len() ==> keys_ascending(
                    #[trigger] ss@[q].seed@[k].headers@,
                ),
        decreases ss.len() - i,
    {
        let s = &ss[i];
        steps.push(ApplyStep::CreateStream(stream_setup(s)));
        proof {
            srcs = srcs.push(StepSource::Stream(i as int));
        }
        let ghost base = srcs;
        let mut k: usize = 0;
        while k < s.seed.len()
            invariant
                m == *manifest,
                ss == &manifest.streams,
                i < ss@.len(),
                s == ss@[i as int],
                k <= s.seed@.len(),
                srcs == base + Seq::new(k as nat, |q: int| StepSource::Seed(i as int, q)),
                steps_follow(steps@, m, srcs),
                forall|q: int, kk: int|
                    0 <= q < i && 0 <= kk < ss@[q].seed@.len() ==> keys_ascending(
                        #[trigger] ss@[q].seed@[kk].headers@,
                    ),
                forall|kk: int| 0 <= kk < k ==> keys_ascending(#[trigger] s.seed@[kk].headers@),
            decreases s.seed.len() - k,
        {
            steps.push(ApplyStep::PublishSeed(seed_publish(s.name.as_str(), &s.seed[k])));
            proof {
                srcs = srcs.push(StepSource::Seed(i as int, k as int));
                assert(srcs =~= base + Seq::new((k + 1) as nat, |q: int| StepSource::Seed(i as int, q)));
            }
            k = k + 1;
        }
        proof {
            assert(srcs =~= stream_sources(ss@, i + 1));
        }
        i = i + 1;
    }
    let ghost after_streams = srcs;
    let cs = &manifest.consumers;
    let mut i: usize = 0;
    while i < cs.len()
        invariant
            m == *manifest,
            cs == &manifest.consumers,
            i <= cs@.len(),
            srcs == after_streams + Seq::new(i as nat, |q: int| StepSource::Consumer(q)),
            steps_follow(steps@, m, srcs),
        decreases cs.len() - i,
    {
        steps.push(ApplyStep::CreateConsumer(consumer_setup(&cs[i])));
        proof {
            srcs = srcs.push(StepSource::Consumer(i as int));
            assert(srcs =~= after_streams + Seq::new((i + 1) as nat, |q: int| StepSource::Consumer(q)));
        }
        i = i + 1;
    }
    let ghost after_consumers = srcs;
    assert(srcs =~= after_consumers + kv_sources(m.kv@, 0));
    let bs = &manifest.kv;
    let mut i: usize = 0;
    while i < bs.len()
        invariant
            m == *manifest,
            bs == &manifest.kv,
            i <= bs@.len(),
            srcs == after_consumers + kv_sources(bs@, i as int),
            steps_follow(steps@, m, srcs),
            forall|q: int| 0 <= q < i ==> keys_ascending(#[trigger] bs@[q].seed@),
        decreases bs.len() - i,
    {
        let b = &bs[i];
        steps.push(ApplyStep::CreateKv(kv_setup(b)));
        proof {
            srcs = srcs.push(StepSource::Kv(i as int));
        }
        let ghost base = srcs;
        let entries = b.seed.entries();
        let mut k: usize = 0;
        while k < entries.len()
            invariant
                m == *manifest,
                bs == &manifest.kv,
                i < bs@.len(),
                b == bs@[i as int],
                pairs_view(entries@) == b.seed@,
                keys_ascending(b.seed@),
                forall|q: int| 0 <= q < i ==> keys_ascending(#[trigger] bs@[q].seed@),
                k <= b.seed@.len(),
                srcs == base + Seq::new(k as nat, |q: int| StepSource::KvPut(i as int, q)),
                steps_follow(steps@, m, srcs),
            decreases entries.len() - k,
        {
            let entry = &entries[k];
            assert(b.seed@[k as int] == (entry.0@, entry.1@));
            steps.push(
                ApplyStep::PutKv {
                    bucket: copy_str(b.bucket.as_str()),
                    key: copy_str(entry.0.as_str()),
                    value: copy_str(entry.1.as_str()),
                },
            );
            proof {
                srcs = srcs.push(StepSource::KvPut(i as int, k as int));
                assert(srcs =~= base + Seq::new((k + 1) as nat, |q: int| StepSource::KvPut(i as int, q)));
            }
            k = k + 1;
        }
        proof {
            assert(srcs =~= after_consumers + kv_sources(bs@, i + 1));
        }
        i = i + 1;
    }
    let ghost after_kv = srcs;
    let os = &manifest.object_store;
    let mut i: usize = 0;
    while i < os.len()
        invariant
            m == *manifest,
            os == &manifest.object_store,
            i <= os@.len(),
            srcs == after_kv + Seq::new(i as nat, |q: int| StepSource::ObjectStore(q)),
            steps_follow(steps@, m, srcs),
        decreases os.len() - i,
    {
        steps.push(ApplyStep::CreateObjectStore(object_store_setup(&os[i])));
        proof {
            srcs = srcs.push(StepSource::ObjectStore(i as int));
            assert(srcs =~= after_kv + Seq::new((i + 1) as nat, |q: int| StepSource::ObjectStore(q)));
        }
        i = i + 1;
    }
    assert(srcs =~= plan_sources(m));
    steps
}

/// The position of the `i`-th consumer's step among the steps of applying
/// `m`.
pub open spec fn consumer_position(m: Manifest, i: int) -> int {
    stream_sources(m.streams@, m.streams@.len() as int).len() + i
}

proof fn lemma_stream_step_present(ss: Seq<Stream>, n: int, j: int)
    requires
        0 <= j < n,
    ensures
        exists|p: int|
            0 <= p < stream_sources(ss, n).len() && #[trigger] stream_sources(ss, n)[p]
                == StepSource::Stream(j),
    decreases n,
{
    let prev = stream_sources(ss, n - 1);
    let cur = stream_sources(ss, n);
    if j == n - 1 {
        assert(cur[prev.len() as int] == StepSource::Stream(j));
    } else {
        lemma_stream_step_present(ss, n - 1, j);
        let p = choose|p: int| 0 <= p < prev.len() && #[trigger] prev[p] == StepSource::Stream(j);
        assert(cur[p] == prev[p]);
    }
}

/// Applying a valid manifest creates each consumer after the stream it
/// consumes from.
pub proof fn lemma_consumer_created_after_its_stream(m: Manifest, i: int)
    requires
        manifest_rejection(m) is None,
        0 <= i < m.consumers@.len(),
    ensures
        plan_sources(m)[consumer_position(m, i)] == StepSource::Consumer(i),
        exists|p: int, j: int|
            #![trigger plan_sources(m)[p], m.streams@[j]]
            0 <= p < consumer_position(m, i) && 0 <= j < m.streams@.len() && plan_sources(m)[p]
                == StepSource::Stream(j) && m.streams@[j].name@ == m.consumers@[i].stream@,
{
    lemma_accepted_manifest_is_sound(m);
    let ss = m.streams@;
    let c = m.consumers@[i];
    assert(defines_stream(ss, c.stream@));
    let j = choose|j: int| 0 <= j < ss.len() && (#[trigger] ss[j]).name@ == c.stream@;
    lemma_stream_step_present(ss, ss.len() as int, j);
    let st = stream_sources(ss, ss.len() as int);
    let p = choose|p: int| 0 <= p < st.len() && #[trigger] st[p] == StepSource::Stream(j);
    assert(plan_sources(m)[p] == st[p]);
    assert(m.streams@[j].name@ == c.stream@);
}

/// Applying a manifest creates every one of its streams with the settings the
/// manifest gives it: its name and subjects, its retention and storage, a
/// single replica, its message and byte limits, its discard policy, and its
/// age limit and duplicate window (zero where the manifest gives none).
pub proof fn lemma_streams_created_as_declared(m: Manifest, steps: Seq<ApplyStep>, i: int)
    requires
        steps_follow(steps, m, plan_sources(m)),
        0 <= i < m.streams@.len(),
    ensures
        exists|p: int|
            0 <= p < steps.len() && (#[trigger] steps[p] matches ApplyStep::CreateStream(st) && {
                let s = m.streams@[i];
                &&& s.name@ == st.name@
                &&& strings_view(s.subjects@) == strings_view(st.subjects@)
                &&& s.retention == st.retention
                &&& s.storage == st.storage
                &&& st.num_replicas == 1
                &&& s.max_msgs == st.max_messages
                &&& s.max_bytes == st.max_bytes
                &&& s.discard == st.discard
                &&& st.max_age == match s.max_age {
                    Some(t) => t,
                    None => Timespan { secs: 0, nanos: 0 },
                }
                &&& st.duplicate_window == match s.duplicate_window {
                    Some(t) => t,
                    None => Timespan { secs: 0, nanos: 0 },
                }
            }),
{
    let ss = m.streams@;
    lemma_stream_step_present(ss, ss.len() as int, i);
    let st = stream_sources(ss, ss.len() as int);
    let p = choose|p: int| 0 <= p < st.len() && #[trigger] st[p] == StepSource::Stream(i);
    assert(plan_sources(m)[p] == st[p]);
    assert(step_of(steps[p], m, plan_sources(m)[p]));
}

/// The steps of the first `a` streams begin the steps of the first `b`.
proof fn lemma_stream_sources_grow(ss: Seq<Stream>, a: int, b: int)
    requires
        0 <= a <= b,
    ensures
        stream_sources(ss, a).len() <= stream_sources(ss, b).len(),
        forall|p: int|
            0 <= p < stream_sources(ss, a).len() ==> #[trigger] stream_sources(ss, b)[p]
                == stream_sources(ss, a)[p],
    decreases b - a,
{
    if a < b {
        lemma_stream_sources_grow(ss, a, b - 1);
    }
}

/// The steps of the first `a` KV buckets begin the steps of the first `b`.
proof fn lemma_kv_sources_grow(bs: Seq<KvBucket>, a: int, b: int)
    requires
        0 <= a <= b,
    ensures
        kv_sources(bs, a).len() <= kv_sources(bs, b).len(),
        forall|p: int|
            0 <= p < kv_sources(bs, a).len() ==> #[trigger] kv_sources(bs, b)[p] == kv_sources(
                bs,
                a,
            )[p],
    decreases b - a,
{
    if a < b {
        lemma_kv_sources_grow(bs, a, b - 1);
    }
}

/// Applying a manifest publishes every seed message of every stream into
/// that stream, to its subject, with its headers (and with headers exactly
/// when it has some), and with its inline text, the file it names, nothing,
/// or, where it names both, a failure.
pub proof fn lemma_seeds_published_as_declared(m: Manifest, steps: Seq<ApplyStep>, i: int, k: int)
    requires
        steps_follow(steps, m, plan_sources(m)),
        0 <= i < m.streams@.len(),
        0 <= k < m.streams@[i].seed@.len(),
    ensures
        exists|p: int|
            0 <= p < steps.len() && (#[trigger] steps[p] matches ApplyStep::PublishSeed(pb) && {
                let s = m.streams@[i];
                let seed = s.seed@[k];
                &&& s.name@ == pb.stream@
                &&& seed.subject@ == pb.subject@
                &&& seed.headers@ == pairs_view(pb.headers@)
                &&& pb.with_headers <==> seed.headers@.len() != 0
                &&& seed.payload is Some && seed.payload_file is None ==> (pb.payload matches SeedPayload::Inline(x) && Some(x@) == opt_view(seed.payload))
                &&& seed.payload is None && seed.payload_file is Some ==> (pb.payload matches SeedPayload::File(x) && Some(x@) == opt_view(seed.payload_file))
                &&& seed.payload is None && seed.payload_file is None ==> pb.payload is Empty
                &&& seed.payload is Some && seed.payload_file is Some ==> pb.payload is Conflict
            }),
{
    let ss = m.streams@;
    let n = ss.len() as int;
    lemma_stream_sources_grow(ss, i + 1, n);
    let q: int = stream_sources(ss, i).len() + 1 + k;
    assert(stream_sources(ss, i + 1)[q] == StepSource::Seed(i, k));
    assert(plan_sources(m)[q] == stream_sources(ss, n)[q]);
    assert(step_of(steps[q], m, plan_sources(m)[q]));
}

/// Applying a manifest creates every consumer on the stream it names, as a
/// durable consumer under its own name, with its acknowledgement policy,
/// delivery limit, acknowledgement wait (zero where absent) and subject
/// filter (empty where absent), starting where its delivery policy says.
pub proof fn lemma_consumers_created_as_declared(m: Manifest, steps: Seq<ApplyStep>, i: int)
    requires
        steps_follow(steps, m, plan_sources(m)),
        0 <= i < m.consumers@.len(),
    ensures
        ({
            let p = stream_sources(m.streams@, m.streams@.len() as int).len() + i;
            let c = m.consumers@[i];
            &&& 0 <= p < steps.len()
            &&& steps[p] matches ApplyStep::CreateConsumer(cs)
            &&& c.stream@ == cs.stream@
            &&& c.name@ == cs.name@
            &&& c.name@ == cs.durable_name@
            &&& c.ack_policy == cs.ack_policy
            &&& c.max_deliver == cs.max_deliver
            &&& cs.ack_wait == match c.ack_wait {
                Some(t) => t,
                None => Timespan { secs: 0, nanos: 0 },
            }
            &&& cs.filter_subject@ == match c.filter_subject {
                Some(f) => f@,
                None => Seq::<char>::empty(),
            }
            &&& c.deliver_policy == DeliverPolicy::All ==> cs.deliver_policy == ConsumerStart::All
            &&& c.deliver_policy == DeliverPolicy::Last ==> cs.deliver_policy == ConsumerStart::Last
            &&& c.deliver_policy == DeliverPolicy::New ==> cs.deliver_policy == ConsumerStart::New
            &&& c.deliver_policy == DeliverPolicy::ByStartSequence ==> cs.deliver_policy
                == ConsumerStart::ByStartSequence(1)
            &&& c.deliver_policy == DeliverPolicy::ByStartTime ==> cs.deliver_policy
                == ConsumerStart::New
        }),
{
    let p = stream_sources(m.streams@, m.streams@.len() as int).len() + i;
    assert(plan_sources(m)[p] == StepSource::Consumer(i));
    assert(step_of(steps[p], m, plan_sources(m)[p]));
}

/// Applying a manifest creates every KV bucket under its name, with its
/// history, storage and entry age limit (zero where absent).
pub proof fn lemma_kv_created_as_declared(m: Manifest, steps: Seq<ApplyStep>, i: int)
    requires
        steps_follow(steps, m, plan_sources(m)),
        0 <= i < m.kv@.len(),
    ensures
        exists|p: int|
            0 <= p < steps.len() && (#[trigger] steps[p] matches ApplyStep::CreateKv(k) && {
                let b = m.kv@[i];
                &&& b.bucket@ == k.bucket@
                &&& b.history as i64 == k.history
                &&& b.storage == k.storage
                &&& k.max_age == match b.ttl {
                    Some(t) => t,
                    None => Timespan { secs: 0, nanos: 0 },
                }
            }),
{
    let bs = m.kv@;
    let n = bs.len() as int;
    let base: int = (stream_sources(m.streams@, m.streams@.len() as int).len()
        + m.consumers@.len()) as int;
    lemma_kv_sources_grow(bs, i + 1, n);
    let q: int = kv_sources(bs, i).len() as int;
    assert(kv_sources(bs, i + 1)[q] == StepSource::Kv(i));
    assert(plan_sources(m)[base + q] == kv_sources(bs, n)[q]);
    assert(step_of(steps[base + q], m, plan_sources(m)[base + q]));
}

/// Applying a manifest puts every seed entry of every KV bucket into that
/// bucket, under its key and with its value.
pub proof fn lemma_kv_entries_put_as_declared(m: Manifest, steps: Seq<ApplyStep>, i: int, e: int)
    requires
        steps_follow(steps, m, plan_sources(m)),
        0 <= i < m.kv@.len(),
        0 <= e < m.kv@[i].seed@.len(),
    ensures
        exists|p: int|
            0 <= p < steps.len() && (#[trigger] steps[p] matches ApplyStep::PutKv {
                bucket,
                key,
                value,
            } && m.kv@[i].bucket@ == bucket@ && m.kv@[i].seed@[e] == (key@, value@)),
{
    let bs = m.kv@;
    let n = bs.len() as int;
    let base: int = (stream_sources(m.streams@, m.streams@.len() as int).len()
        + m.consumers@.len()) as int;
    lemma_kv_sources_grow(bs, i + 1, n);
    let r: int = kv_sources(bs, i).len() + 1 + e;
    assert(kv_sources(bs, i + 1)[r] == StepSource::KvPut(i, e));
    assert(plan_sources(m)[base + r] == kv_sources(bs, n)[r]);
    assert(step_of(steps[base + r], m, plan_sources(m)[base + r]));
}

/// Applying a manifest creates every object store bucket under its name,
/// with its storage and object age limit (zero where absent).
pub proof fn lemma_object_stores_created_as_declared(m: Manifest, steps: Seq<ApplyStep>, i: int)
    requires
        steps_follow(steps, m, plan_sources(m)),
        0 <= i < m.object_store@.len(),
    ensures
        ({
            let p = stream_sources(m.streams@, m.streams@.len() as int).len() + m.consumers@.len()
                + kv_sources(m.kv@, m.kv@.len() as int).len() + i;
            let b = m.object_store@[i];
            &&& 0 <= p < steps.len()
            &&& steps[p] matches ApplyStep::CreateObjectStore(o)
            &&& b.bucket@ == o.bucket@
            &&& b.storage == o.storage
            &&& o.max_age == match b.ttl {
                Some(t) => t,
                None => Timespan { secs: 0, nanos: 0 },
            }
        }),
{
    let p = stream_sources(m.streams@, m.streams@.len() as int).len() + m.consumers@.len()
        + kv_sources(m.kv@, m.kv@.len() as int).len() + i;
    assert(plan_sources(m)[p] == StepSource::ObjectStore(i));
    assert(step_of(steps[p], m, plan_sources(m)[p]));
}

} // verus!
