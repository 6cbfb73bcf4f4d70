//! The fixture's nats-server: the configuration file it is started with, the
//! listen address and storage it gets, and how it is shut down.

pub mod bundled;
pub mod healthz;
pub mod launch;

use crate::manifest::{Auth, AuthMode, Log, LogFormat, LogLevel, Manifest, UserCredential};
use crate::text::{
    copy_str, decimal, is_blank, is_blank_str, push_decimal, push_str, str_equal, strings_view,
};
use vstd::prelude::*;

verus! {

/// How long the server gets to accept TCP connections after it is spawned.
pub const READY_TIMEOUT_SECS: u64 = 5;

/// How long the server gets to exit after it is asked to terminate.
pub const DRAIN_TIMEOUT_SECS: u64 = 2;

/// The name of the configuration file, in the JetStream storage directory.
pub const CONFIG_FILE_NAME: &'static str = "nats-server.conf";

/// The arguments nats-server is started with: the configuration file.
pub fn server_args(config_path: &str) -> (args: Vec<String>)
    ensures
        strings_view(args@) == seq!["-c"@, config_path@],
{
    let mut args: Vec<String> = Vec::new();
    args.push(copy_str("-c"));
    args.push(copy_str(config_path));
    assert(strings_view(args@) =~= seq!["-c"@, config_path@]);
    args
}

/// How the server is started, beyond what the manifest says.
#[derive(Debug, Clone)]
pub struct ServerOptions {
    pub bundled_strategy: bundled::Resolution,
    pub override_binary: Option<String>,
    pub host_override: Option<String>,
    pub port_override: Option<u16>,
    pub keep_storage: bool,
}

/// `v`, or `default` when `v` is blank.
pub open spec fn size_or_default_text(v: Seq<char>, default: Seq<char>) -> Seq<char> {
    if is_blank(v) {
        default
    } else {
        v
    }
}

/// The nats-server level name that the config file mentions for a level.
pub open spec fn level_name(l: LogLevel) -> Seq<char> {
    match l {
        LogLevel::Off => "WARN"@,
        LogLevel::Error => "ERROR"@,
        LogLevel::Warn => "WARN"@,
        LogLevel::Info => "INFO"@,
        LogLevel::Debug => "DEBUG"@,
        LogLevel::Trace => "TRACE"@,
    }
}

/// The server name, listen address, monitoring port and JetStream block.
pub open spec fn config_head(m: Manifest, host: Seq<char>, port: u16, dir: Seq<char>) -> Seq<
    char,
> {
    "server_name: hyerix-natsfixture\n"@ + "host: \""@ + host + "\"\n"@ + "port: "@ + decimal(
        port as nat,
    ) + "\n"@ + "http: 0\n"@ + "jetstream {\n"@ + "  store_dir: \""@ + dir + "\"\n"@
        + "  max_memory_store: "@ + size_or_default_text(m.storage.jetstream_max_memory@, "1G"@)
        + "\n"@ + "  max_file_store: "@ + size_or_default_text(m.storage.jetstream_max_file@, "10G"@)
        + "\n"@ + "}\n"@
}

/// The log destination is a file (not a standard stream).
pub open spec fn logs_to_file(dest: Seq<char>) -> bool {
    !(dest == "stderr"@ || dest == "stdout"@ || dest.len() == 0)
}

/// `acc` followed by the logging settings.
pub open spec fn with_log(acc: Seq<char>, log: Log) -> Seq<char> {
    let a1 = acc + "logtime: true\n"@;
    let a2 = if log.level == LogLevel::Debug || log.level == LogLevel::Trace {
        a1 + "debug: true\n"@
    } else {
        a1
    };
    let a3 = if log.level == LogLevel::Trace {
        a2 + "trace: true\n"@
    } else {
        a2
    };
    let a4 = a3 + "# log level (informational): "@ + level_name(log.level) + "\n"@;
    let a5 = if log.format == LogFormat::Json {
        a4 + "# (json log format requested; nats-server has no native JSON log; using text)\n"@
    } else {
        a4
    };
    if logs_to_file(log.destination@) {
        a5 + "log_file: \""@ + log.destination@ + "\"\n"@
    } else {
        a5
    }
}

/// `acc` followed by the quoted items of `xs`, separated by `, `.
pub open spec fn with_quoted(acc: Seq<char>, xs: Seq<String>) -> Seq<char>
    decreases xs.len(),
{
    if xs.len() == 0 {
        acc
    } else {
        let a = with_quoted(acc, xs.drop_last());
        let a2 = if xs.len() > 1 {
            a + ", "@
        } else {
            a
        };
        a2 + "\""@ + xs.last()@ + "\""@
    }
}

/// `acc` followed by the entry of one user.
pub open spec fn with_user(acc: Seq<char>, u: UserCredential) -> Seq<char> {
    let a = acc + "    { user: \""@ + u.user@ + "\", password: \""@ + u.password@ + "\""@;
    let b = match u.permissions {
        Some(p) => with_quoted(
            with_quoted(a + ", permissions: { "@ + "publish: ["@, p.publish@) + "], subscribe: ["@,
            p.subscribe@,
        ) + "] }"@,
        None => a,
    };
    b + " }\n"@
}

/// `acc` followed by the entries of the users, in order.
pub open spec fn with_users(acc: Seq<char>, us: Seq<UserCredential>) -> Seq<char>
    decreases us.len(),
{
    if us.len() == 0 {
        acc
    } else {
        with_user(with_users(acc, us.drop_last()), us.last())
    }
}

/// `acc` followed by the authorization block that the auth mode calls for.
pub open spec fn with_auth(acc: Seq<char>, auth: Auth) -> Seq<char> {
    match auth.mode {
        AuthMode::Token => acc + "authorization {\n"@ + "  token: \""@ + auth.token@ + "\"\n"@
            + "}\n"@,
        AuthMode::UserPassword => with_users(
            acc + "authorization {\n"@ + "  users: [\n"@,
            auth.users@,
        ) + "  ]\n"@ + "}\n"@,
        _ => acc,
    }
}

/// The nats-server configuration file for a manifest, a listen address and a
/// JetStream storage directory.
pub open spec fn server_config(m: Manifest, host: Seq<char>, port: u16, dir: Seq<char>) -> Seq<
    char,
> {
    with_auth(with_log(config_head(m, host, port, dir), m.log), m.auth)
}

/// The quoted items follow what was there before, unchanged.
proof fn lemma_with_quoted_extends(a: Seq<char>, b: Seq<char>, xs: Seq<String>)
    ensures
        with_quoted(a + b, xs) == a + with_quoted(b, xs),
    decreases xs.len(),
{
    if xs.len() > 0 {
        lemma_with_quoted_extends(a, b, xs.drop_last());
        let w = with_quoted(b, xs.drop_last());
        assert(a + w + ", "@ =~= a + (w + ", "@));
        assert(a + w + ", "@ + "\""@ + xs.last()@ + "\""@ =~= a + (w + ", "@ + "\""@ + xs.last()@
            + "\""@));
        assert(a + w + "\""@ + xs.last()@ + "\""@ =~= a + (w + "\""@ + xs.last()@ + "\""@));
    } else {
        assert(a + b =~= a + b);
    }
}

/// A user's entry follows what was there before, unchanged.
proof fn lemma_with_user_extends(a: Seq<char>, b: Seq<char>, u: UserCredential)
    ensures
        with_user(a + b, u) == a + with_user(b, u),
{
    let head = "    { user: \""@ + u.user@ + "\", password: \""@ + u.password@ + "\""@;
    assert(a + b + "    { user: \""@ + u.user@ + "\", password: \""@ + u.password@ + "\""@ =~= a
        + (b + head));
    assert(b + "    { user: \""@ + u.user@ + "\", password: \""@ + u.password@ + "\""@ =~= b + head);
    let ab = b + head;
    match u.permissions {
        Some(p) => {
            let opening = ", permissions: { "@ + "publish: ["@;
            assert(a + ab + ", permissions: { "@ + "publish: ["@ =~= a + (ab + opening));
            assert(ab + ", permissions: { "@ + "publish: ["@ =~= ab + opening);
            lemma_with_quoted_extends(a, ab + opening, p.publish@);
            let w1 = with_quoted(ab + opening, p.publish@);
            assert(a + w1 + "], subscribe: ["@ =~= a + (w1 + "], subscribe: ["@));
            lemma_with_quoted_extends(a, w1 + "], subscribe: ["@, p.subscribe@);
            let w2 = with_quoted(w1 + "], subscribe: ["@, p.subscribe@);
            assert(a + w2 + "] }"@ + " }\n"@ =~= a + (w2 + "] }"@ + " }\n"@));
        },
        None => {
            assert(a + ab + " }\n"@ =~= a + (ab + " }\n"@));
        },
    }
}

/// The users' entries follow what was there before, unchanged.
proof fn lemma_with_users_extends(a: Seq<char>, b: Seq<char>, us: Seq<UserCredential>)
    ensures
        with_users(a + b, us) == a + with_users(b, us),
    decreases us.len(),
{
    if us.len() > 0 {
        lemma_with_users_extends(a, b, us.drop_last());
        lemma_with_user_extends(a, with_users(b, us.drop_last()), us.last());
    }
}

/// The authorization block follows what was there before, unchanged.
proof fn lemma_with_auth_extends(a: Seq<char>, b: Seq<char>, auth: Auth)
    ensures
        with_auth(a + b, auth) == a + with_auth(b, auth),
{
    match auth.mode {
        AuthMode::Token => {
            assert(a + b + "authorization {\n"@ + "  token: \""@ + auth.token@ + "\"\n"@ + "}\n"@
                =~= a + (b + "authorization {\n"@ + "  token: \""@ + auth.token@ + "\"\n"@
                + "}\n"@));
        },
        AuthMode::UserPassword => {
            let opening = "authorization {\n"@ + "  users: [\n"@;
            assert(a + b + "authorization {\n"@ + "  users: [\n"@ =~= a + (b + opening));
            assert(b + "authorization {\n"@ + "  users: [\n"@ =~= b + opening);
            lemma_with_users_extends(a, b + opening, auth.users@);
            let w = with_users(b + opening, auth.users@);
            assert(a + w + "  ]\n"@ + "}\n"@ =~= a + (w + "  ]\n"@ + "}\n"@));
        },
        _ => {},
    }
}

/// Where the server logs: to its standard streams when the manifest's log
/// destination is `stderr`, `stdout` or empty, and to the file it names
/// otherwise. Of two manifests that differ at most in their log
/// destination, the second logging to a standard stream: when the first
/// does too, both give the same configuration; otherwise the first's
/// configuration is the second's with one more line, `log_file: "<dest>"`.
pub proof fn lemma_log_destination(
    m1: Manifest,
    m2: Manifest,
    host: Seq<char>,
    port: u16,
    dir: Seq<char>,
)
    requires
        m1.storage.jetstream_max_memory@ == m2.storage.jetstream_max_memory@,
        m1.storage.jetstream_max_file@ == m2.storage.jetstream_max_file@,
        m1.log.level == m2.log.level,
        m1.log.format == m2.log.format,
        m1.auth == m2.auth,
        m2.log.destination@ == "stderr"@ || m2.log.destination@ == "stdout"@
            || m2.log.destination@.len() == 0,
    ensures
        ({
            let d = m1.log.destination@;
            let c1 = server_config(m1, host, port, dir);
            let c2 = server_config(m2, host, port, dir);
            &&& (d == "stderr"@ || d == "stdout"@ || d.len() == 0) ==> c1 == c2
            &&& !(d == "stderr"@ || d == "stdout"@ || d.len() == 0) ==> exists|k: int|
                0 <= k <= c2.len() && c1 == c2.take(k) + ("log_file: \""@ + d + "\"\n"@)
                    + c2.skip(k)
        }),
{
    let d = m1.log.destination@;
    let head = config_head(m1, host, port, dir);
    assert(config_head(m2, host, port, dir) == head);
    let l2 = with_log(head, m2.log);
    let c2 = server_config(m2, host, port, dir);
    lemma_with_auth_extends(l2, Seq::empty(), m2.auth);
    assert(l2 + Seq::<char>::empty() =~= l2);
    let rest = with_auth(Seq::empty(), m2.auth);
    assert(c2 == l2 + rest);
    if !(d == "stderr"@ || d == "stdout"@ || d.len() == 0) {
        let line = "log_file: \""@ + d + "\"\n"@;
        let l1 = with_log(head, m1.log);
        assert(l1 =~= l2 + line);
        lemma_with_auth_extends(l1, Seq::empty(), m1.auth);
        assert(l1 + Seq::<char>::empty() =~= l1);
        let k = l2.len() as int;
        assert(c2.take(k) =~= l2);
        assert(c2.skip(k) =~= rest);
        assert(server_config(m1, host, port, dir) =~= c2.take(k) + line + c2.skip(k));
    }
}

/// The configuration names the fixture's server, listens on the given host
/// and port with HTTP monitoring off, and keeps JetStream data in the given
/// directory, with the manifest's memory and file limits (1G and 10G where
/// they are blank); the log settings come next, starting with timestamps.
pub proof fn lemma_config_listen_and_storage(m: Manifest, host: Seq<char>, port: u16, dir: Seq<char>)
    ensures
        ({
            let mem = m.storage.jetstream_max_memory@;
            let file = m.storage.jetstream_max_file@;
            let begin = "server_name: hyerix-natsfixture\n"@ + "host: \""@ + host + "\"\n"@
                + "port: "@ + decimal(port as nat) + "\n"@ + "http: 0\n"@ + "jetstream {\n"@
                + "  store_dir: \""@ + dir + "\"\n"@ + "  max_memory_store: "@ + (if is_blank(mem) {
                "1G"@
            } else {
                mem
            }) + "\n"@ + "  max_file_store: "@ + (if is_blank(file) {
                "10G"@
            } else {
                file
            }) + "\n"@ + "}\n"@ + "logtime: true\n"@;
            &&& begin.len() <= server_config(m, host, port, dir).len()
            &&& server_config(m, host, port, dir).take(begin.len() as int) == begin
        }),
{
    let head = config_head(m, host, port, dir);
    let l = with_log(head, m.log);
    lemma_with_auth_extends(l, Seq::empty(), m.auth);
    assert(l + Seq::<char>::empty() =~= l);
    let c = server_config(m, host, port, dir);
    let rest = with_auth(Seq::empty(), m.auth);
    assert(c == l + rest);
    let a1 = head + "logtime: true\n"@;
    assert(l.take(a1.len() as int) =~= a1);
    assert(c.take(a1.len() as int) =~= l.take(a1.len() as int));
}

/// With token authentication, the configuration is the one without
/// authentication followed by an authorization block holding the token.
pub proof fn lemma_token_auth_block(
    m1: Manifest,
    m2: Manifest,
    host: Seq<char>,
    port: u16,
    dir: Seq<char>,
)
    requires
        m1.storage == m2.storage,
        m1.log == m2.log,
        m1.auth.mode == AuthMode::Token,
        m2.auth.mode == AuthMode::NoAuth,
    ensures
        server_config(m1, host, port, dir) == server_config(m2, host, port, dir)
            + "authorization {\n"@ + "  token: \""@ + m1.auth.token@ + "\"\n"@ + "}\n"@,
{
    let l = with_log(config_head(m1, host, port, dir), m1.log);
    assert(config_head(m1, host, port, dir) == config_head(m2, host, port, dir));
    assert(server_config(m1, host, port, dir) =~= l + "authorization {\n"@ + "  token: \""@
        + m1.auth.token@ + "\"\n"@ + "}\n"@);
}

/// `v`, or `default` when `v` is blank.
pub fn size_or_default<'a>(v: &'a str, default: &'a str) -> (r: &'a str)
    ensures
        r@ == size_or_default_text(v@, default@),
{
    if is_blank_str(v) {
        default
    } else {
        v
    }
}

/// Appends the logging settings.
fn push_log(out: &mut String, log: &Log)
    ensures
        final(out)@ == with_log(old(out)@, *log),
{
    push_str(out, "logtime: true\n");
    match log.level {
        LogLevel::Debug | LogLevel::Trace => push_str(out, "debug: true\n"),
        _ => {},
    }
    if log.level == LogLevel::Trace {
        push_str(out, "trace: true\n");
    }
    let level = match log.level {
        LogLevel::Off => "WARN",
        LogLevel::Error => "ERROR",
        LogLevel::Warn => "WARN",
        LogLevel::Info => "INFO",
        LogLevel::Debug => "DEBUG",
        LogLevel::Trace => "TRACE",
    };
    push_str(out, "# log level (informational): ");
    push_str(out, level);
    push_str(out, "\n");
    if log.format == LogFormat::Json {
        push_str(
            out,
            "# (json log format requested; nats-server has no native JSON log; using text)\n",
        );
    }
    let dest = log.destination.as_str();
    if !(str_equal(dest, "stderr") || str_equal(dest, "stdout") || dest.is_empty()) {
        push_str(out, "log_file: \"");
        push_str(out, dest);
        push_str(out, "\"\n");
    }
}

/// Appends the quoted items of `xs`, separated by `, `.
fn push_quoted(out: &mut String, xs: &Vec<String>)
    ensures
        final(out)@ == with_quoted(old(out)@, xs@),
{
    let ghost start = out@;
    let mut i: usize = 0;
    assert(xs@.take(0) =~= Seq::<String>::empty());
    while i < xs.len()
        invariant
            i <= xs@.len(),
            out@ == with_quoted(start, xs@.take(i as int)),
        decreases xs.len() - i,
    {
        let ghost t = xs@.take(i + 1);
        assert(t.drop_last() =~= xs@.take(i as int));
        if i > 0 {
            push_str(out, ", ");
        }
        push_str(out, "\"");
        push_str(out, xs[i].as_str());
        push_str(out, "\"");
        i = i + 1;
    }
    assert(xs@.take(xs@.len() as int) =~= xs@);
}

/// Appends the entry of one user.
fn push_user(out: &mut String, u: &UserCredential)
    ensures
        final(out)@ == with_user(old(out)@, *u),
{
    push_str(out, "    { user: \"");
    push_str(out, u.user.as_str());
    push_str(out, "\", password: \"");
    push_str(out, u.password.as_str());
    push_str(out, "\"");
    match &u.permissions {
        Some(p) => {
            push_str(out, ", permissions: { ");
            push_str(out, "publish: [");
            push_quoted(out, &p.publish);
            push_str(out, "], subscribe: [");
            push_quoted(out, &p.subscribe);
            push_str(out, "] }");
        },
        None => {},
    }
    push_str(out, " }\n");
}

/// Appends the authorization block.
fn push_auth(out: &mut String, auth: &Auth)
    ensures
        final(out)@ == with_auth(old(out)@, *auth),
{
    match auth.mode {
        AuthMode::NoAuth => {},
        AuthMode::Token => {
            push_str(out, "authorization {\n");
            push_str(out, "  token: \"");
            push_str(out, auth.token.as_str());
            push_str(out, "\"\n");
            push_str(out, "}\n");
        },
        AuthMode::UserPassword => {
            push_str(out, "authorization {\n");
            push_str(out, "  users: [\n");
            let ghost start = out@;
            let mut i: usize = 0;
            assert(auth.users@.take(0) =~= Seq::<UserCredential>::empty());
            while i < auth.users.len()
                invariant
                    i <= auth.users@.len(),
                    out@ == with_users(start, auth.users@.take(i as int)),
                decreases auth.users.len() - i,
            {
                let ghost t = auth.users@.take(i + 1);
                assert(t.drop_last() =~= auth.users@.take(i as int));
                push_user(out, &auth.users[i]);
                i = i + 1;
            }
            assert(auth.users@.take(auth.users@.len() as int) =~= auth.users@);
            push_str(out, "  ]\n");
            push_str(out, "}\n");
        },
        AuthMode::Nkey | AuthMode::Jwt => {},
    }
}

/// The nats-server configuration file for `manifest`, listening on `host` and
/// `port`, with JetStream data under `storage_dir`.
pub fn render_server_config(manifest: &Manifest, host: &str, port: u16, storage_dir: &str) -> (s:
    String)
    ensures
        s@ == server_config(*manifest, host@, port, storage_dir@),
{
    let mut s = copy_str("server_name: hyerix-natsfixture\n");
    push_str(&mut s, "host: \"");
    push_str(&mut s, host);
    push_str(&mut s, "\"\n");
    push_str(&mut s, "port: ");
    push_decimal(&mut s, port as u64);
    push_str(&mut s, "\n");
    push_str(&mut s, "http: 0\n");
    push_str(&mut s, "jetstream {\n");
    push_str(&mut s, "  store_dir: \"");
    push_str(&mut s, storage_dir);
    push_str(&mut s, "\"\n");
    push_str(&mut s, "  max_memory_store: ");
    push_str(&mut s, size_or_default(manifest.storage.jetstream_max_memory.as_str(), "1G"));
    push_str(&mut s, "\n");
    push_str(&mut s, "  max_file_store: ");
    push_str(&mut s, size_or_default(manifest.storage.jetstream_max_file.as_str(), "10G"));
    push_str(&mut s, "\n");
    push_str(&mut s, "}\n");
    push_log(&mut s, &manifest.log);
    push_auth(&mut s, &manifest.auth);
    s
}

/// Where and how the server is started, before a free port is picked.
pub struct StartPlan {
    /// The listen host.
    pub host: String,
    /// The listen port, when `pick_free_port` is not set.
    pub port: u16,
    /// A free port is to be picked (the port asked for is 0).
    pub pick_free_port: bool,
    /// The JetStream storage directory to create, or `None` for a fresh
    /// temporary directory.
    pub storage_dir: Option<String>,
}

/// The listen address and storage directory of a server for `manifest`
/// started with `opts`: the options' host and port take precedence over the
/// manifest's.
pub fn start_plan(manifest: &Manifest, opts: &ServerOptions) -> (p: StartPlan)
    ensures
        p.host@ == match opts.host_override {
            Some(h) => h@,
            None => manifest.listen.host@,
        },
        p.port == match opts.port_override {
            Some(port) => port,
            None => manifest.listen.port,
        },
        p.pick_free_port == (p.port == 0),
        match p.storage_dir {
            Some(d) => manifest.storage.dir@.len() > 0 && d@ == manifest.storage.dir@,
            None => manifest.storage.dir@.len() == 0,
        },
{
    let host = match &opts.host_override {
        Some(h) => copy_str(h.as_str()),
        None => copy_str(manifest.listen.host.as_str()),
    };
    let port = match opts.port_override {
        Some(p) => p,
        None => manifest.listen.port,
    };
    let storage_dir = if manifest.storage.dir.as_str().is_empty() {
        None
    } else {
        Some(copy_str(manifest.storage.dir.as_str()))
    };
    StartPlan { host, port, pick_free_port: port == 0, storage_dir }
}

/// How waiting for the server to exit ended.
#[derive(Debug, Clone, Copy, PartialEq, Eq, Structural)]
pub enum WaitOutcome {
    /// The server exited within the drain timeout.
    Exited,
    /// Waiting failed.
    Failed,
    /// The server was still running at the drain timeout.
    TimedOut,
}

/// What is done after the server has been asked to terminate.
#[derive(Debug, Clone, Copy, PartialEq, Eq, Structural)]
pub struct ShutdownPlan {
    /// Kill the server and wait for it.
    pub kill_server: bool,
    /// Remove the JetStream storage directory.
    pub remove_storage_dir: bool,
    /// Remove the generated configuration file.
    pub remove_config_file: bool,
}

/// The shutdown steps after waiting for the server: a server that outlives
/// the drain timeout is killed; the storage directory is removed unless it is
/// to be kept; the configuration file is always removed.
pub fn shutdown_plan(wait: WaitOutcome, keep_storage: bool) -> (p: ShutdownPlan)
    ensures
        p.kill_server == (wait == WaitOutcome::TimedOut),
        p.remove_storage_dir == !keep_storage,
        p.remove_config_file,
{
    ShutdownPlan {
        kill_server: wait == WaitOutcome::TimedOut,
        remove_storage_dir: !keep_storage,
        remove_config_file: true,
    }
}

} // verus!
