//! The fixture manifest: its data model, the defaults that fill absent
//! fields, and the structural validation that every manifest passes before
//! anything is started.

pub mod apply;
pub mod string_map;

use string_map::StringMap;
use crate::text::{copy_str, decimal, is_blank, is_blank_str, push_decimal, push_str};
use vstd::prelude::*;

verus! {

/// The only manifest schema version this fixture understands.
pub const SUPPORTED_SCHEMA_VERSION: &'static str = "1";

/// A length of time as `std::time::Duration` holds it: whole seconds and the
/// nanoseconds beyond them.
#[derive(Clone, Copy, Debug, PartialEq, Eq, Structural)]
pub struct Timespan {
    pub secs: u64,
    pub nanos: u32,
}

impl Timespan {
    /// A span of whole seconds.
    pub fn from_secs(secs: u64) -> (t: Timespan)
        ensures
            t.secs == secs,
            t.nanos == 0,
    {
        Timespan { secs, nanos: 0 }
    }

    /// The empty span (what `Duration::default()` is).
    pub fn zero() -> (t: Timespan)
        ensures
            t.secs == 0,
            t.nanos == 0,
    {
        Timespan { secs: 0, nanos: 0 }
    }
}

/// Why a manifest could not be used.
#[derive(Debug)]
pub enum ManifestError {
    /// The manifest file could not be read.
    Io { path: String, message: String },
    /// The manifest text is not a well-formed manifest document.
    Parse { path: String, message: String },
    /// The manifest names a schema version other than the supported one.
    UnsupportedVersion { found: String },
    /// The manifest breaks a structural rule.
    Invalid(String),
}

/// The textual content of a [`ManifestError`].
pub enum ManifestErrorView {
    Io { path: Seq<char>, message: Seq<char> },
    Parse { path: Seq<char>, message: Seq<char> },
    UnsupportedVersion { found: Seq<char> },
    Invalid(Seq<char>),
}

impl View for ManifestError {
    type V = ManifestErrorView;

    open spec fn view(&self) -> ManifestErrorView {
        match self {
            ManifestError::Io { path, message } => ManifestErrorView::Io {
                path: path@,
                message: message@,
            },
            ManifestError::Parse { path, message } => ManifestErrorView::Parse {
                path: path@,
                message: message@,
            },
            ManifestError::UnsupportedVersion { found } => ManifestErrorView::UnsupportedVersion {
                found: found@,
            },
            ManifestError::Invalid(m) => ManifestErrorView::Invalid(m@),
        }
    }
}

/// The human-readable text of a manifest error.
pub open spec fn error_text(e: ManifestErrorView) -> Seq<char> {
    match e {
        ManifestErrorView::Io { path, message } => "failed to read manifest file '"@ + path
            + "': "@ + message,
        ManifestErrorView::Parse { path, message } => "failed to parse manifest YAML '"@ + path
            + "': "@ + message,
        ManifestErrorView::UnsupportedVersion { found } => "unsupported manifest version '"@
            + found + "'. This fixture only understands version '"@ + SUPPORTED_SCHEMA_VERSION@
            + "'."@,
        ManifestErrorView::Invalid(m) => "manifest validation failed: "@ + m,
    }
}

impl ManifestError {
    /// The human-readable text of the error.
    pub fn message(&self) -> (s: String)
        ensures
            s@ == error_text(self@),
    {
        match self {
            ManifestError::Io { path, message } => {
                let mut s = copy_str("failed to read manifest file '");
                push_str(&mut s, path.as_str());
                push_str(&mut s, "': ");
                push_str(&mut s, message.as_str());
                s
            },
            ManifestError::Parse { path, message } => {
                let mut s = copy_str("failed to parse manifest YAML '");
                push_str(&mut s, path.as_str());
                push_str(&mut s, "': ");
                push_str(&mut s, message.as_str());
                s
            },
            ManifestError::UnsupportedVersion { found } => {
                let mut s = copy_str("unsupported manifest version '");
                push_str(&mut s, found.as_str());
                push_str(&mut s, "'. This fixture only understands version '");
                push_str(&mut s, SUPPORTED_SCHEMA_VERSION);
                push_str(&mut s, "'.");
                s
            },
            ManifestError::Invalid(m) => {
                let mut s = copy_str("manifest validation failed: ");
                push_str(&mut s, m.as_str());
                s
            },
        }
    }
}

/// A fixture manifest.
#[derive(Clone, Debug)]
pub struct Manifest {
    pub version: String,
    pub listen: Listen,
    pub storage: Storage,
    pub streams: Vec<Stream>,
    pub consumers: Vec<Consumer>,
    pub kv: Vec<KvBucket>,
    pub object_store: Vec<ObjectBucket>,
    pub auth: Auth,
    pub log: Log,
}

/// Where the server listens; port 0 asks the OS for a free port.
#[derive(Clone, Debug)]
pub struct Listen {
    pub host: String,
    pub port: u16,
}

/// JetStream storage settings; an empty `dir` means a fresh temporary
/// directory.
#[derive(Clone, Debug)]
pub struct Storage {
    pub dir: String,
    pub jetstream_max_memory: String,
    pub jetstream_max_file: String,
}

#[derive(Clone, Copy, Debug, PartialEq, Eq, Structural)]
pub enum Retention {
    Limits,
    Interest,
    Workqueue,
}

#[derive(Clone, Copy, Debug, PartialEq, Eq, Structural)]
pub enum StorageBackend {
    File,
    Memory,
}

#[derive(Clone, Copy, Debug, PartialEq, Eq, Structural)]
pub enum Discard {
    Old,
    New,
}

/// A JetStream stream, with the messages to publish into it once created.
#[derive(Clone, Debug)]
pub struct Stream {
    pub name: String,
    pub subjects: Vec<String>,
    pub retention: Retention,
    pub storage: StorageBackend,
    pub replicas: usize,
    pub max_msgs: i64,
    pub max_bytes: i64,
    pub max_age: Option<Timespan>,
    pub discard: Discard,
    pub duplicate_window: Option<Timespan>,
    pub seed: Vec<SeedMessage>,
}

/// A message published into a stream when the fixture starts. Its payload is
/// given inline or read from a file (relative paths are taken from the
/// manifest's directory).
#[derive(Clone, Debug)]
pub struct SeedMessage {
    pub subject: String,
    pub payload: Option<String>,
    pub payload_file: Option<String>,
    pub headers: StringMap,
}

#[derive(Clone, Copy, Debug, PartialEq, Eq, Structural)]
pub enum DeliverPolicy {
    All,
    Last,
    New,
    ByStartSequence,
    ByStartTime,
}

#[derive(Clone, Copy, Debug, PartialEq, Eq, Structural)]
pub enum AckPolicy {
    /// No acknowledgements (`none` in a manifest).
    NoAck,
    All,
    Explicit,
}

/// A durable pull consumer on one of the manifest's streams.
#[derive(Clone, Debug)]
pub struct Consumer {
    pub stream: String,
    pub name: String,
    pub deliver_policy: DeliverPolicy,
    pub ack_policy: AckPolicy,
    pub max_deliver: i64,
    pub ack_wait: Option<Timespan>,
    pub filter_subject: Option<String>,
}

/// A key-value bucket and the entries it starts with.
#[derive(Clone, Debug)]
pub struct KvBucket {
    pub bucket: String,
    pub history: u8,
    pub ttl: Option<Timespan>,
    pub storage: StorageBackend,
    pub seed: StringMap,
}

/// An object store bucket.
#[derive(Clone, Debug)]
pub struct ObjectBucket {
    pub bucket: String,
    pub storage: StorageBackend,
    pub ttl: Option<Timespan>,
}

#[derive(Clone, Copy, Debug, PartialEq, Eq, Structural)]
pub enum AuthMode {
    /// Anonymous clients (`none` in a manifest).
    NoAuth,
    Token,
    UserPassword,
    Nkey,
    Jwt,
}

/// How clients authenticate to the fixture server.
#[derive(Clone, Debug)]
pub struct Auth {
    pub mode: AuthMode,
    pub token: String,
    pub users: Vec<UserCredential>,
}

#[derive(Clone, Debug)]
pub struct UserCredential {
    pub user: String,
    pub password: String,
    pub permissions: Option<UserPermissions>,
}

#[derive(Clone, Debug)]
pub struct UserPermissions {
    pub publish: Vec<String>,
    pub subscribe: Vec<String>,
}

#[derive(Clone, Copy, Debug, PartialEq, Eq, Structural)]
pub enum LogLevel {
    Off,
    Error,
    Warn,
    Info,
    Debug,
    Trace,
}

#[derive(Clone, Copy, Debug, PartialEq, Eq, Structural)]
pub enum LogFormat {
    Text,
    Json,
}

#[derive(Clone, Debug)]
pub struct Log {
    pub level: LogLevel,
    pub format: LogFormat,
    pub destination: String,
}

// ---------------------------------------------------------------------------
// Defaults of absent manifest fields
// ---------------------------------------------------------------------------

/// The schema version of a manifest that names none.
pub fn default_version() -> (s: String)
    ensures
        s@ == SUPPORTED_SCHEMA_VERSION@,
{
    copy_str(SUPPORTED_SCHEMA_VERSION)
}

/// The listen host of a manifest that names none.
pub fn default_host() -> (s: String)
    ensures
        s@ == "127.0.0.1"@,
{
    copy_str("127.0.0.1")
}

/// The JetStream memory limit of a storage section that names none.
pub fn default_js_max_memory() -> (s: String)
    ensures
        s@ == "1G"@,
{
    copy_str("1G")
}

/// The JetStream file limit of a storage section that names none.
pub fn default_js_max_file() -> (s: String)
    ensures
        s@ == "10G"@,
{
    copy_str("10G")
}

/// A stream's replica count when none is given.
pub fn default_replicas() -> (n: usize)
    ensures
        n == 1,
{
    1
}

/// A stream's message limit when none is given (unlimited).
pub fn default_max_msgs() -> (n: i64)
    ensures
        n == -1,
{
    -1
}

/// A stream's byte limit when none is given (unlimited).
pub fn default_max_bytes() -> (n: i64)
    ensures
        n == -1,
{
    -1
}

/// A stream's duplicate window when none is given: two minutes.
pub fn default_duplicate_window() -> (d: Option<Timespan>)
    ensures
        d == Some(Timespan { secs: 120, nanos: 0 }),
{
    Some(Timespan::from_secs(120))
}

/// A consumer's delivery limit when none is given (unlimited).
pub fn default_max_deliver() -> (n: i64)
    ensures
        n == -1,
{
    -1
}

/// A consumer's ack wait when none is given: thirty seconds.
pub fn default_ack_wait() -> (d: Option<Timespan>)
    ensures
        d == Some(Timespan { secs: 30, nanos: 0 }),
{
    Some(Timespan::from_secs(30))
}

/// A KV bucket's history depth when none is given.
pub fn default_history() -> (n: u8)
    ensures
        n == 1,
{
    1
}

/// The log destination of a log section that names none.
pub fn default_log_destination() -> (s: String)
    ensures
        s@ == "stderr"@,
{
    copy_str("stderr")
}

impl Default for Listen {
    fn default() -> (l: Listen)
        ensures
            l.host@ == "127.0.0.1"@,
            l.port == 0,
    {
        Listen { host: default_host(), port: 0 }
    }
}

impl Default for Storage {
    fn default() -> (s: Storage)
        ensures
            s.dir@.len() == 0,
            s.jetstream_max_memory@.len() == 0,
            s.jetstream_max_file@.len() == 0,
    {
        Storage { dir: String::new(), jetstream_max_memory: String::new(), jetstream_max_file: String::new() }
    }
}

impl Default for Retention {
    fn default() -> (r: Retention)
        ensures
            r == Retention::Limits,
    {
        Retention::Limits
    }
}

impl Default for StorageBackend {
    fn default() -> (r: StorageBackend)
        ensures
            r == StorageBackend::File,
    {
        StorageBackend::File
    }
}

impl Default for Discard {
    fn default() -> (r: Discard)
        ensures
            r == Discard::Old,
    {
        Discard::Old
    }
}

impl Default for DeliverPolicy {
    fn default() -> (r: DeliverPolicy)
        ensures
            r == DeliverPolicy::All,
    {
        DeliverPolicy::All
    }
}

impl Default for AckPolicy {
    fn default() -> (r: AckPolicy)
        ensures
            r == AckPolicy::Explicit,
    {
        AckPolicy::Explicit
    }
}

impl Default for AuthMode {
    fn default() -> (r: AuthMode)
        ensures
            r == AuthMode::NoAuth,
    {
        AuthMode::NoAuth
    }
}

impl Default for LogLevel {
    fn default() -> (r: LogLevel)
        ensures
            r == LogLevel::Warn,
    {
        LogLevel::Warn
    }
}

impl Default for LogFormat {
    fn default() -> (r: LogFormat)
        ensures
            r == LogFormat::Text,
    {
        LogFormat::Text
    }
}

impl Default for Auth {
    fn default() -> (a: Auth)
        ensures
            a.mode == AuthMode::NoAuth,
            a.token@.len() == 0,
            a.users@.len() == 0,
    {
        Auth { mode: AuthMode::NoAuth, token: String::new(), users: Vec::new() }
    }
}

impl Default for UserPermissions {
    fn default() -> (p: UserPermissions)
        ensures
            p.publish@.len() == 0,
            p.subscribe@.len() == 0,
    {
        UserPermissions { publish: Vec::new(), subscribe: Vec::new() }
    }
}

impl Default for Log {
    fn default() -> (l: Log)
        ensures
            l.level == LogLevel::Warn,
            l.format == LogFormat::Text,
            l.destination@.len() == 0,
    {
        Log { level: LogLevel::Warn, format: LogFormat::Text, destination: String::new() }
    }
}

impl Default for Manifest {
    /// The empty manifest. Its version is empty too, so it does not pass
    /// validation: a manifest read from a document gets
    /// [`default_version`] for an absent version instead.
    fn default() -> (m: Manifest)
        ensures
            m.version@.len() == 0,
            m.listen.host@ == "127.0.0.1"@,
            m.listen.port == 0,
            m.storage.dir@.len() == 0,
            m.storage.jetstream_max_memory@.len() == 0,
            m.storage.jetstream_max_file@.len() == 0,
            m.streams@.len() == 0,
            m.consumers@.len() == 0,
            m.kv@.len() == 0,
            m.object_store@.len() == 0,
            m.auth.mode == AuthMode::NoAuth,
            m.auth.token@.len() == 0,
            m.auth.users@.len() == 0,
            m.log.level == LogLevel::Warn,
            m.log.format == LogFormat::Text,
            m.log.destination@.len() == 0,
    {
        Manifest {
            version: String::new(),
            listen: Listen::default(),
            storage: Storage::default(),
            streams: Vec::new(),
            consumers: Vec::new(),
            kv: Vec::new(),
            object_store: Vec::new(),
            auth: Auth::default(),
            log: Log::default(),
        }
    }
}

// ---------------------------------------------------------------------------
// Validation
// ---------------------------------------------------------------------------

/// The failure of the first of the checks `check(0)`, ..., `check(n - 1)`
/// that fails, in that order.
pub open spec fn first_failure(check: spec_fn(int) -> Option<Seq<char>>, n: int) -> Option<
    Seq<char>,
>
    decreases n,
{
    if n <= 0 {
        None
    } else {
        match first_failure(check, n - 1) {
            Some(e) => Some(e),
            None => check(n - 1),
        }
    }
}

/// The `k`-th seed of stream `s` gives both an inline payload and a file.
pub open spec fn seed_failure(s: Stream, k: int) -> Option<Seq<char>> {
    let seed = s.seed@[k];
    if seed.payload is Some && seed.payload_file is Some {
        Some(
            "stream '"@ + s.name@ + "' seed for subject '"@ + seed.subject@
                + "' has both `payload` and `payload_file` — choose one"@,
        )
    } else {
        None
    }
}

pub open spec fn seed_checks(s: Stream) -> spec_fn(int) -> Option<Seq<char>> {
    |k: int| seed_failure(s, k)
}

/// The rule that the `i`-th stream breaks, given that the streams before it
/// pass.
pub open spec fn stream_failure(ss: Seq<Stream>, i: int) -> Option<Seq<char>> {
    let s = ss[i];
    if is_blank(s.name@) {
        Some("stream.name must not be empty"@)
    } else if exists|j: int| 0 <= j < i && (#[trigger] ss[j]).name@ == s.name@ {
        Some("duplicate stream name '"@ + s.name@ + "'"@)
    } else if s.replicas != 1 {
        Some(
            "stream '"@ + s.name@ + "' specifies replicas="@ + decimal(s.replicas as nat)
                + "; this fixture is single-node, only replicas=1 is supported in v0.1"@,
        )
    } else if s.subjects@.len() == 0 {
        Some("stream '"@ + s.name@ + "' must declare at least one subject"@)
    } else {
        first_failure(seed_checks(s), s.seed@.len() as int)
    }
}

pub open spec fn stream_checks(ss: Seq<Stream>) -> spec_fn(int) -> Option<Seq<char>> {
    |i: int| stream_failure(ss, i)
}

/// Some stream of `ss` is named `name`.
pub open spec fn defines_stream(ss: Seq<Stream>, name: Seq<char>) -> bool {
    exists|j: int| 0 <= j < ss.len() && (#[trigger] ss[j]).name@ == name
}

/// The rule that the `i`-th consumer breaks, given the manifest's streams and
/// that the consumers before it pass.
pub open spec fn consumer_failure(ss: Seq<Stream>, cs: Seq<Consumer>, i: int) -> Option<
    Seq<char>,
> {
    let c = cs[i];
    if is_blank(c.name@) {
        Some("consumer.name must not be empty"@)
    } else if is_blank(c.stream@) {
        Some("consumer '"@ + c.name@ + "' must reference a stream"@)
    } else if !defines_stream(ss, c.stream@) {
        Some(
            "consumer '"@ + c.name@ + "' references stream '"@ + c.stream@
                + "' that is not defined in this manifest"@,
        )
    } else if exists|j: int|
        0 <= j < i && (#[trigger] cs[j]).stream@ == c.stream@ && cs[j].name@ == c.name@ {
        Some("duplicate consumer '"@ + c.name@ + "' on stream '"@ + c.stream@ + "'"@)
    } else {
        None
    }
}

pub open spec fn consumer_checks(ss: Seq<Stream>, cs: Seq<Consumer>) -> spec_fn(int) -> Option<
    Seq<char>,
> {
    |i: int| consumer_failure(ss, cs, i)
}

/// The rule that the `i`-th KV bucket breaks, given that those before it pass.
pub open spec fn kv_failure(bs: Seq<KvBucket>, i: int) -> Option<Seq<char>> {
    let b = bs[i];
    if is_blank(b.bucket@) {
        Some("kv.bucket must not be empty"@)
    } else if exists|j: int| 0 <= j < i && (#[trigger] bs[j]).bucket@ == b.bucket@ {
        Some("duplicate KV bucket '"@ + b.bucket@ + "'"@)
    } else {
        None
    }
}

pub open spec fn kv_checks(bs: Seq<KvBucket>) -> spec_fn(int) -> Option<Seq<char>> {
    |i: int| kv_failure(bs, i)
}

/// The rule that the `i`-th object store bucket breaks, given that those
/// before it pass.
pub open spec fn object_failure(bs: Seq<ObjectBucket>, i: int) -> Option<Seq<char>> {
    let b = bs[i];
    if is_blank(b.bucket@) {
        Some("object_store.bucket must not be empty"@)
    } else if exists|j: int| 0 <= j < i && (#[trigger] bs[j]).bucket@ == b.bucket@ {
        Some("duplicate object_store bucket '"@ + b.bucket@ + "'"@)
    } else {
        None
    }
}

pub open spec fn object_checks(bs: Seq<ObjectBucket>) -> spec_fn(int) -> Option<Seq<char>> {
    |i: int| object_failure(bs, i)
}

/// Some user entry lacks a user name or a password.
pub open spec fn has_incomplete_user(users: Seq<UserCredential>) -> bool {
    exists|k: int|
        0 <= k < users.len() && ((#[trigger] users[k]).user@.len() == 0 || users[k].password@.len()
            == 0)
}

/// The rule that the auth section breaks, if any.
pub open spec fn auth_failure(a: Auth) -> Option<Seq<char>> {
    match a.mode {
        AuthMode::NoAuth => None,
        AuthMode::Token => if a.token@.len() == 0 {
            Some("auth.mode=token requires a non-empty auth.token"@)
        } else {
            None
        },
        AuthMode::UserPassword => if a.users@.len() == 0 {
            Some("auth.mode=user_password requires at least one entry in auth.users"@)
        } else if has_incomplete_user(a.users@) {
            Some("auth.users entries must have non-empty user and password"@)
        } else {
            None
        },
        AuthMode::Nkey => Some(
            "auth.mode=Nkey is reserved in the schema but not implemented in v0.1"@,
        ),
        AuthMode::Jwt => Some("auth.mode=Jwt is reserved in the schema but not implemented in v0.1"@),
    }
}

/// The first structural rule, in checking order, that `m` breaks: the
/// version, the listen host, the streams, the consumers, the KV buckets, the
/// object store buckets, then the auth section. `None` when `m` is valid.
pub open spec fn manifest_rejection(m: Manifest) -> Option<ManifestErrorView> {
    if m.version@ != SUPPORTED_SCHEMA_VERSION@ {
        Some(ManifestErrorView::UnsupportedVersion { found: m.version@ })
    } else if is_blank(m.listen.host@) {
        Some(ManifestErrorView::Invalid("listen.host must not be empty"@))
    } else {
        match first_failure(stream_checks(m.streams@), m.streams@.len() as int) {
            Some(e) => Some(ManifestErrorView::Invalid(e)),
            None => match first_failure(
                consumer_checks(m.streams@, m.consumers@),
                m.consumers@.len() as int,
            ) {
                Some(e) => Some(ManifestErrorView::Invalid(e)),
                None => match first_failure(kv_checks(m.kv@), m.kv@.len() as int) {
                    Some(e) => Some(ManifestErrorView::Invalid(e)),
                    None => match first_failure(
                        object_checks(m.object_store@),
                        m.object_store@.len() as int,
                    ) {
                        Some(e) => Some(ManifestErrorView::Invalid(e)),
                        None => match auth_failure(m.auth) {
                            Some(e) => Some(ManifestErrorView::Invalid(e)),
                            None => None,
                        },
                    },
                },
            },
        }
    }
}

/// Once a check has failed, later checks do not change the first failure.
pub proof fn lemma_first_failure_stays(check: spec_fn(int) -> Option<Seq<char>>, a: int, b: int)
    requires
        0 <= a <= b,
        first_failure(check, a) is Some,
    ensures
        first_failure(check, b) == first_failure(check, a),
    decreases b - a,
{
    if b > a {
        lemma_first_failure_stays(check, a, b - 1);
    }
}

/// No failure among the first `n` checks means each of them passes.
pub proof fn lemma_no_first_failure(check: spec_fn(int) -> Option<Seq<char>>, n: int)
    requires
        first_failure(check, n) is None,
    ensures
        forall|i: int| 0 <= i < n ==> (#[trigger] check(i)) is None,
    decreases n,
{
    if n > 0 {
        lemma_no_first_failure(check, n - 1);
    }
}

/// The failure of the checks `check(0..n)`, from the failure of check `i`
/// when the ones before it pass.
proof fn lemma_failure_at(check: spec_fn(int) -> Option<Seq<char>>, i: int, n: int)
    requires
        0 <= i < n,
        first_failure(check, i) is None,
        check(i) is Some,
    ensures
        first_failure(check, n) == check(i),
{
    lemma_first_failure_stays(check, i + 1, n);
}

/// Checks the seeds of stream `s`.
fn check_seeds(s: &Stream) -> (r: Option<String>)
    ensures
        match first_failure(seed_checks(*s), s.seed@.len() as int) {
            Some(e) => r matches Some(x) && x@ == e,
            None => r is None,
        },
{
    let mut k: usize = 0;
    while k < s.seed.len()
        invariant
            k <= s.seed@.len(),
            first_failure(seed_checks(*s), k as int) is None,
        decreases s.seed.len() - k,
    {
        let seed = &s.seed[k];
        if seed.payload.is_some() && seed.payload_file.is_some() {
            let mut e = copy_str("stream '");
            push_str(&mut e, s.name.as_str());
            push_str(&mut e, "' seed for subject '");
            push_str(&mut e, seed.subject.as_str());
            push_str(&mut e, "' has both `payload` and `payload_file` — choose one");
            proof {
                lemma_failure_at(seed_checks(*s), k as int, s.seed@.len() as int);
            }
            return Some(e);
        }
        k = k + 1;
    }
    None
}

/// Checks the `i`-th stream, given that those before it pass.
fn check_stream(ss: &Vec<Stream>, i: usize) -> (r: Option<String>)
    requires
        i < ss@.len(),
    ensures
        match stream_failure(ss@, i as int) {
            Some(e) => r matches Some(x) && x@ == e,
            None => r is None,
        },
{
    let s = &ss[i];
    if is_blank_str(s.name.as_str()) {
        return Some(copy_str("stream.name must not be empty"));
    }
    let mut j: usize = 0;
    while j < i
        invariant
            i < ss@.len(),
            j <= i,
            s == ss@[i as int],
            !is_blank(s.name@),
            forall|k: int| 0 <= k < j ==> (#[trigger] ss@[k]).name@ != s.name@,
        decreases i - j,
    {
        if ss[j].name == s.name {
            assert((ss@[j as int]).name@ == s.name@);
            let mut e = copy_str("duplicate stream name '");
            push_str(&mut e, s.name.as_str());
            push_str(&mut e, "'");
            return Some(e);
        }
        j = j + 1;
    }
    if s.replicas != 1 {
        let mut e = copy_str("stream '");
        push_str(&mut e, s.name.as_str());
        push_str(&mut e, "' specifies replicas=");
        push_decimal(&mut e, s.replicas as u64);
        push_str(&mut e, "; this fixture is single-node, only replicas=1 is supported in v0.1");
        return Some(e);
    }
    if s.subjects.len() == 0 {
        let mut e = copy_str("stream '");
        push_str(&mut e, s.name.as_str());
        push_str(&mut e, "' must declare at least one subject");
        return Some(e);
    }
    check_seeds(s)
}

/// Checks the streams in order.
fn check_streams(ss: &Vec<Stream>) -> (r: Option<String>)
    ensures
        match first_failure(stream_checks(ss@), ss@.len() as int) {
            Some(e) => r matches Some(x) && x@ == e,
            None => r is None,
        },
{
    let mut i: usize = 0;
    while i < ss.len()
        invariant
            i <= ss@.len(),
            first_failure(stream_checks(ss@), i as int) is None,
        decreases ss.len() - i,
    {
        let r = check_stream(ss, i);
        if r.is_some() {
            proof {
                lemma_failure_at(stream_checks(ss@), i as int, ss@.len() as int);
            }
            return r;
        }
        i = i + 1;
    }
    None
}

/// Whether some stream of `ss` is named `name`.
fn stream_defined(ss: &Vec<Stream>, name: &String) -> (b: bool)
    ensures
        b == defines_stream(ss@, name@),
{
    let mut j: usize = 0;
    while j < ss.len()
        invariant
            j <= ss@.len(),
            forall|k: int| 0 <= k < j ==> (#[trigger] ss@[k]).name@ != name@,
        decreases ss.len() - j,
    {
        if ss[j].name == *name {
            return true;
        }
        j = j + 1;
    }
    false
}

/// Checks the `i`-th consumer, given that those before it pass.
fn check_consumer(ss: &Vec<Stream>, cs: &Vec<Consumer>, i: usize) -> (r: Option<String>)
    requires
        i < cs@.len(),
    ensures
        match consumer_failure(ss@, cs@, i as int) {
            Some(e) => r matches Some(x) && x@ == e,
            None => r is None,
        },
{
    let c = &cs[i];
    if is_blank_str(c.name.as_str()) {
        return Some(copy_str("consumer.name must not be empty"));
    }
    if is_blank_str(c.stream.as_str()) {
        let mut e = copy_str("consumer '");
        push_str(&mut e, c.name.as_str());
        push_str(&mut e, "' must reference a stream");
        return Some(e);
    }
    if !stream_defined(ss, &c.stream) {
        let mut e = copy_str("consumer '");
        push_str(&mut e, c.name.as_str());
        push_str(&mut e, "' references stream '");
        push_str(&mut e, c.stream.as_str());
        push_str(&mut e, "' that is not defined in this manifest");
        return Some(e);
    }
    let mut j: usize = 0;
    while j < i
        invariant
            i < cs@.len(),
            j <= i,
            c == cs@[i as int],
            !is_blank(c.name@),
            !is_blank(c.stream@),
            defines_stream(ss@, c.stream@),
            forall|k: int|
                0 <= k < j ==> !((#[trigger] cs@[k]).stream@ == c.stream@ && cs@[k].name@
                    == c.name@),
        decreases i - j,
    {
        if cs[j].stream == c.stream && cs[j].name == c.name {
            assert((cs@[j as int]).stream@ == c.stream@);
            let mut e = copy_str("duplicate consumer '");
            push_str(&mut e, c.name.as_str());
            push_str(&mut e, "' on stream '");
            push_str(&mut e, c.stream.as_str());
            push_str(&mut e, "'");
            return Some(e);
        }
        j = j + 1;
    }
    None
}

/// Checks the consumers in order.
fn check_consumers(ss: &Vec<Stream>, cs: &Vec<Consumer>) -> (r: Option<String>)
    ensures
        match first_failure(consumer_checks(ss@, cs@), cs@.len() as int) {
            Some(e) => r matches Some(x) && x@ == e,
            None => r is None,
        },
{
    let mut i: usize = 0;
    while i < cs.len()
        invariant
            i <= cs@.len(),
            first_failure(consumer_checks(ss@, cs@), i as int) is None,
        decreases cs.len() - i,
    {
        let r = check_consumer(ss, cs, i);
        if r.is_some() {
            proof {
                lemma_failure_at(consumer_checks(ss@, cs@), i as int, cs@.len() as int);
            }
            return r;
        }
        i = i + 1;
    }
    None
}

/// Checks the `i`-th KV bucket, given that those before it pass.
fn check_kv_bucket(bs: &Vec<KvBucket>, i: usize) -> (r: Option<String>)
    requires
        i < bs@.len(),
    ensures
        match kv_failure(bs@, i as int) {
            Some(e) => r matches Some(x) && x@ == e,
            None => r is None,
        },
{
    let b = &bs[i];
    if is_blank_str(b.bucket.as_str()) {
        return Some(copy_str("kv.bucket must not be empty"));
    }
    let mut j: usize = 0;
    while j < i
        invariant
            i < bs@.len(),
            j <= i,
            b == bs@[i as int],
            !is_blank(b.bucket@),
            forall|k: int| 0 <= k < j ==> (#[trigger] bs@[k]).bucket@ != b.bucket@,
        decreases i - j,
    {
        if bs[j].bucket == b.bucket {
            assert((bs@[j as int]).bucket@ == b.bucket@);
            let mut e = copy_str("duplicate KV bucket '");
            push_str(&mut e, b.bucket.as_str());
            push_str(&mut e, "'");
            return Some(e);
        }
        j = j + 1;
    }
    None
}

/// Checks the KV buckets in order.
fn check_kv(bs: &Vec<KvBucket>) -> (r: Option<String>)
    ensures
        match first_failure(kv_checks(bs@), bs@.len() as int) {
            Some(e) => r matches Some(x) && x@ == e,
            None => r is None,
        },
{
    let mut i: usize = 0;
    while i < bs.len()
        invariant
            i <= bs@.len(),
            first_failure(kv_checks(bs@), i as int) is None,
        decreases bs.len() - i,
    {
        let r = check_kv_bucket(bs, i);
        if r.is_some() {
            proof {
                lemma_failure_at(kv_checks(bs@), i as int, bs@.len() as int);
            }
            return r;
        }
        i = i + 1;
    }
    None
}

/// Checks the `i`-th object store bucket, given that those before it pass.
fn check_object_bucket(bs: &Vec<ObjectBucket>, i: usize) -> (r: Option<String>)
    requires
        i < bs@.len(),
    ensures
        match object_failure(bs@, i as int) {
            Some(e) => r matches Some(x) && x@ == e,
            None => r is None,
        },
{
    let b = &bs[i];
    if is_blank_str(b.bucket.as_str()) {
        return Some(copy_str("object_store.bucket must not be empty"));
    }
    let mut j: usize = 0;
    while j < i
        invariant
            i < bs@.len(),
            j <= i,
            b == bs@[i as int],
            !is_blank(b.bucket@),
            forall|k: int| 0 <= k < j ==> (#[trigger] bs@[k]).bucket@ != b.bucket@,
        decreases i - j,
    {
        if bs[j].bucket == b.bucket {
            assert((bs@[j as int]).bucket@ == b.bucket@);
            let mut e = copy_str("duplicate object_store bucket '");
            push_str(&mut e, b.bucket.as_str());
            push_str(&mut e, "'");
            return Some(e);
        }
        j = j + 1;
    }
    None
}

/// Checks the object store buckets in order.
fn check_object_store(bs: &Vec<ObjectBucket>) -> (r: Option<String>)
    ensures
        match first_failure(object_checks(bs@), bs@.len() as int) {
            Some(e) => r matches Some(x) && x@ == e,
            None => r is None,
        },
{
    let mut i: usize = 0;
    while i < bs.len()
        invariant
            i <= bs@.len(),
            first_failure(object_checks(bs@), i as int) is None,
        decreases bs.len() - i,
    {
        let r = check_object_bucket(bs, i);
        if r.is_some() {
            proof {
                lemma_failure_at(object_checks(bs@), i as int, bs@.len() as int);
            }
            return r;
        }
        i = i + 1;
    }
    None
}

/// Checks the auth section.
fn check_auth(a: &Auth) -> (r: Option<String>)
    ensures
        match auth_failure(*a) {
            Some(e) => r matches Some(x) && x@ == e,
            None => r is None,
        },
{
    match a.mode {
        AuthMode::Token => {
            if a.token.as_str().is_empty() {
                return Some(copy_str("auth.mode=token requires a non-empty auth.token"));
            }
            None
        },
        AuthMode::UserPassword => {
            if a.users.len() == 0 {
                return Some(
                    copy_str("auth.mode=user_password requires at least one entry in auth.users"),
                );
            }
            let mut k: usize = 0;
            while k < a.users.len()
                invariant
                    k <= a.users@.len(),
                    a.mode == AuthMode::UserPassword,
                    a.users@.len() > 0,
                    forall|q: int|
                        0 <= q < k ==> !((#[trigger] a.users@[q]).user@.len() == 0
                            || a.users@[q].password@.len() == 0),
                decreases a.users.len() - k,
            {
                let u = &a.users[k];
                if u.user.as_str().is_empty() || u.password.as_str().is_empty() {
                    assert(a.users@[k as int].user@.len() == 0 || a.users@[k as int].password@.len() == 0);
                    return Some(
                        copy_str("auth.users entries must have non-empty user and password"),
                    );
                }
                k = k + 1;
            }
            None
        },
        AuthMode::Nkey => Some(
            copy_str("auth.mode=Nkey is reserved in the schema but not implemented in v0.1"),
        ),
        AuthMode::Jwt => Some(
            copy_str("auth.mode=Jwt is reserved in the schema but not implemented in v0.1"),
        ),
        AuthMode::NoAuth => None,
    }
}

/// Checks that a manifest is structurally valid, reporting the first rule it
/// breaks (see [`manifest_rejection`] for the rules and their order).
pub fn validate(m: &Manifest) -> (r: Result<(), ManifestError>)
    ensures
        match manifest_rejection(*m) {
            None => r is Ok,
            Some(e) => r matches Err(x) && x@ == e,
        },
{
    if !crate::text::str_equal(m.version.as_str(), SUPPORTED_SCHEMA_VERSION) {
        return Err(ManifestError::UnsupportedVersion { found: m.version.clone() });
    }
    if is_blank_str(m.listen.host.as_str()) {
        return Err(ManifestError::Invalid(copy_str("listen.host must not be empty")));
    }
    if let Some(e) = check_streams(&m.streams) {
        return Err(ManifestError::Invalid(e));
    }
    if let Some(e) = check_consumers(&m.streams, &m.consumers) {
        return Err(ManifestError::Invalid(e));
    }
    if let Some(e) = check_kv(&m.kv) {
        return Err(ManifestError::Invalid(e));
    }
    if let Some(e) = check_object_store(&m.object_store) {
        return Err(ManifestError::Invalid(e));
    }
    if let Some(e) = check_auth(&m.auth) {
        return Err(ManifestError::Invalid(e));
    }
    Ok(())
}

/// A manifest that validation accepts is structurally sound: it has the
/// supported version and a listen host; its streams have non-blank, distinct
/// names, one replica, at least one subject, and no seed with both an inline
/// payload and a payload file; every consumer is named, names a stream that
/// the manifest defines, and no two consumers share a stream and a name; KV
/// and object store buckets are named and distinct; and the auth mode is one
/// that is implemented, with the credentials it needs.
pub proof fn lemma_accepted_manifest_is_sound(m: Manifest)
    requires
        manifest_rejection(m) is None,
    ensures
        m.version@ == SUPPORTED_SCHEMA_VERSION@,
        !is_blank(m.listen.host@),
        forall|i: int|
            0 <= i < m.streams@.len() ==> {
                let s = #[trigger] m.streams@[i];
                &&& !is_blank(s.name@)
                &&& s.replicas == 1
                &&& s.subjects@.len() > 0
                &&& forall|k: int|
                    0 <= k < s.seed@.len() ==> !((#[trigger] s.seed@[k]).payload is Some
                        && s.seed@[k].payload_file is Some)
            },
        forall|i: int, j: int|
            0 <= i < j < m.streams@.len() ==> (#[trigger] m.streams@[i]).name@
                != (#[trigger] m.streams@[j]).name@,
        forall|i: int|
            0 <= i < m.consumers@.len() ==> {
                let c = #[trigger] m.consumers@[i];
                &&& !is_blank(c.name@)
                &&& !is_blank(c.stream@)
                &&& defines_stream(m.streams@, c.stream@)
            },
        forall|i: int, j: int|
            0 <= i < j < m.consumers@.len() ==> !((#[trigger] m.consumers@[i]).stream@
                == (#[trigger] m.consumers@[j]).stream@ && m.consumers@[i].name@
                == m.consumers@[j].name@),
        forall|i: int| 0 <= i < m.kv@.len() ==> !is_blank((#[trigger] m.kv@[i]).bucket@),
        forall|i: int, j: int|
            0 <= i < j < m.kv@.len() ==> (#[trigger] m.kv@[i]).bucket@
                != (#[trigger] m.kv@[j]).bucket@,
        forall|i: int|
            0 <= i < m.object_store@.len() ==> !is_blank((#[trigger] m.object_store@[i]).bucket@),
        forall|i: int, j: int|
            0 <= i < j < m.object_store@.len() ==> (#[trigger] m.object_store@[i]).bucket@
                != (#[trigger] m.object_store@[j]).bucket@,
        m.auth.mode != AuthMode::Nkey,
        m.auth.mode != AuthMode::Jwt,
        m.auth.mode == AuthMode::Token ==> m.auth.token@.len() > 0,
        m.auth.mode == AuthMode::UserPassword ==> m.auth.users@.len() > 0 && !has_incomplete_user(
            m.auth.users@,
        ),
{
    let ss = m.streams@;
    let cs = m.consumers@;
    lemma_no_first_failure(stream_checks(ss), ss.len() as int);
    lemma_no_first_failure(consumer_checks(ss, cs), cs.len() as int);
    lemma_no_first_failure(kv_checks(m.kv@), m.kv@.len() as int);
    lemma_no_first_failure(object_checks(m.object_store@), m.object_store@.len() as int);
    assert forall|i: int| 0 <= i < ss.len() implies {
        let s = #[trigger] ss[i];
        &&& !is_blank(s.name@)
        &&& s.replicas == 1
        &&& s.subjects@.len() > 0
        &&& forall|k: int|
            0 <= k < s.seed@.len() ==> !((#[trigger] s.seed@[k]).payload is Some
                && s.seed@[k].payload_file is Some)
    } by {
        assert(stream_checks(ss)(i) is None);
        let s = ss[i];
        lemma_no_first_failure(seed_checks(s), s.seed@.len() as int);
        assert forall|k: int| 0 <= k < s.seed@.len() implies !((#[trigger] s.seed@[k]).payload is Some
            && s.seed@[k].payload_file is Some) by {
            assert(seed_checks(s)(k) is None);
        }
    }
    assert forall|i: int, j: int| 0 <= i < j < ss.len() implies (#[trigger] ss[i]).name@
        != (#[trigger] ss[j]).name@ by {
        assert(stream_checks(ss)(j) is None);
    }
    assert forall|i: int| 0 <= i < cs.len() implies {
        let c = #[trigger] cs[i];
        &&& !is_blank(c.name@)
        &&& !is_blank(c.stream@)
        &&& defines_stream(ss, c.stream@)
    } by {
        assert(consumer_checks(ss, cs)(i) is None);
    }
    assert forall|i: int, j: int| 0 <= i < j < cs.len() implies !((#[trigger] cs[i]).stream@
        == (#[trigger] cs[j]).stream@ && cs[i].name@ == cs[j].name@) by {
        assert(consumer_checks(ss, cs)(j) is None);
    }
    assert forall|i: int| 0 <= i < m.kv@.len() implies !is_blank((#[trigger] m.kv@[i]).bucket@) by {
        assert(kv_checks(m.kv@)(i) is None);
    }
    assert forall|i: int, j: int| 0 <= i < j < m.kv@.len() implies (#[trigger] m.kv@[i]).bucket@
        != (#[trigger] m.kv@[j]).bucket@ by {
        assert(kv_checks(m.kv@)(j) is None);
    }
    assert forall|i: int| 0 <= i < m.object_store@.len() implies !is_blank(
        (#[trigger] m.object_store@[i]).bucket@,
    ) by {
        assert(object_checks(m.object_store@)(i) is None);
    }
    assert forall|i: int, j: int|
        0 <= i < j < m.object_store@.len() implies (#[trigger] m.object_store@[i]).bucket@
        != (#[trigger] m.object_store@[j]).bucket@ by {
        assert(object_checks(m.object_store@)(j) is None);
    }
}

/// Checks that all pass have no first failure.
proof fn lemma_all_checks_pass(check: spec_fn(int) -> Option<Seq<char>>, n: int)
    requires
        forall|i: int| 0 <= i < n ==> (#[trigger] check(i)) is None,
    ensures
        first_failure(check, n) is None,
    decreases n,
{
    if n > 0 {
        lemma_all_checks_pass(check, n - 1);
    }
}

/// Validation rejects a manifest only for a broken rule: a manifest that has
/// the supported version and a listen host; whose streams have non-blank,
/// distinct names, one replica, at least one subject, and seeds that each
/// give at most one of an inline payload and a payload file; whose consumers
/// are named, name a stream that the manifest defines, and do not share a
/// stream and a name; whose KV and object store buckets are named and
/// distinct; and whose auth mode is implemented and has the credentials it
/// needs, is accepted.
pub proof fn lemma_sound_manifest_is_accepted(m: Manifest)
    requires
        m.version@ == SUPPORTED_SCHEMA_VERSION@,
        !is_blank(m.listen.host@),
        forall|i: int|
            0 <= i < m.streams@.len() ==> {
                let s = #[trigger] m.streams@[i];
                &&& !is_blank(s.name@)
                &&& s.replicas == 1
                &&& s.subjects@.len() > 0
                &&& forall|k: int|
                    0 <= k < s.seed@.len() ==> (#[trigger] s.seed@[k]).payload is None
                        || s.seed@[k].payload_file is None
            },
        forall|i: int, j: int|
            0 <= i < j < m.streams@.len() ==> (#[trigger] m.streams@[i]).name@
                != (#[trigger] m.streams@[j]).name@,
        forall|i: int|
            0 <= i < m.consumers@.len() ==> {
                let c = #[trigger] m.consumers@[i];
                &&& !is_blank(c.name@)
                &&& !is_blank(c.stream@)
                &&& exists|j: int|
                    0 <= j < m.streams@.len() && (#[trigger] m.streams@[j]).name@ == c.stream@
            },
        forall|i: int, j: int|
            0 <= i < j < m.consumers@.len() ==> (#[trigger] m.consumers@[i]).stream@
                != (#[trigger] m.consumers@[j]).stream@ || m.consumers@[i].name@
                != m.consumers@[j].name@,
        forall|i: int| 0 <= i < m.kv@.len() ==> !is_blank((#[trigger] m.kv@[i]).bucket@),
        forall|i: int, j: int|
            0 <= i < j < m.kv@.len() ==> (#[trigger] m.kv@[i]).bucket@
                != (#[trigger] m.kv@[j]).bucket@,
        forall|i: int|
            0 <= i < m.object_store@.len() ==> !is_blank((#[trigger] m.object_store@[i]).bucket@),
        forall|i: int, j: int|
            0 <= i < j < m.object_store@.len() ==> (#[trigger] m.object_store@[i]).bucket@
                != (#[trigger] m.object_store@[j]).bucket@,
        m.auth.mode != AuthMode::Nkey,
        m.auth.mode != AuthMode::Jwt,
        m.auth.mode == AuthMode::Token ==> m.auth.token@.len() > 0,
        m.auth.mode == AuthMode::UserPassword ==> m.auth.users@.len() > 0 && forall|k: int|
            0 <= k < m.auth.users@.len() ==> (#[trigger] m.auth.users@[k]).user@.len() > 0
                && m.auth.users@[k].password@.len() > 0,
    ensures
        manifest_rejection(m) is None,
{
    let ss = m.streams@;
    let cs = m.consumers@;
    assert forall|i: int| 0 <= i < ss.len() implies (#[trigger] stream_checks(ss)(i)) is None by {
        let s = ss[i];
        assert forall|k: int| 0 <= k < s.seed@.len() implies (#[trigger] seed_checks(s)(k))
            is None by {
            assert(s.seed@[k].payload is None || s.seed@[k].payload_file is None);
        }
        lemma_all_checks_pass(seed_checks(s), s.seed@.len() as int);
        assert(!exists|j: int| 0 <= j < i && (#[trigger] ss[j]).name@ == s.name@);
    }
    lemma_all_checks_pass(stream_checks(ss), ss.len() as int);
    assert forall|i: int| 0 <= i < cs.len() implies (#[trigger] consumer_checks(ss, cs)(i))
        is None by {
        let c = cs[i];
        assert(defines_stream(ss, c.stream@));
        assert(!exists|j: int|
            0 <= j < i && (#[trigger] cs[j]).stream@ == c.stream@ && cs[j].name@ == c.name@);
    }
    lemma_all_checks_pass(consumer_checks(ss, cs), cs.len() as int);
    assert forall|i: int| 0 <= i < m.kv@.len() implies (#[trigger] kv_checks(m.kv@)(i)) is None by {
        assert(!exists|j: int|
            0 <= j < i && (#[trigger] m.kv@[j]).bucket@ == m.kv@[i].bucket@);
    }
    lemma_all_checks_pass(kv_checks(m.kv@), m.kv@.len() as int);
    assert forall|i: int| 0 <= i < m.object_store@.len() implies (#[trigger] object_checks(
        m.object_store@,
    )(i)) is None by {
        assert(!exists|j: int|
            0 <= j < i && (#[trigger] m.object_store@[j]).bucket@
                == m.object_store@[i].bucket@);
    }
    lemma_all_checks_pass(object_checks(m.object_store@), m.object_store@.len() as int);
    if m.auth.mode == AuthMode::UserPassword {
        assert(!has_incomplete_user(m.auth.users@));
    }
}

} // verus!
