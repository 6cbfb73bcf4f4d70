//! The command line: the subcommands and their arguments, and the decisions
//! taken from them before anything is started.

use crate::exit_codes;
use crate::manifest::{AuthMode, Manifest};
use crate::server::bundled::Resolution;
use crate::server::ServerOptions;
use crate::text::{
    chars_of, copy_str, decimal, decimal_string, is_digit, lemma_decimal_reads_back, parse_i32,
    parse_i32_chars, push_decimal, push_str, strings_view, trim, trim_end, trim_range, trim_start,
    unsigned_digits,
};
use vstd::prelude::*;

verus! {

/// A parsed command line.
#[derive(Debug)]
pub struct Cli {
    pub command: Command,
}

/// The subcommands.
#[derive(Debug)]
pub enum Command {
    /// Run the fixture in the foreground until SIGINT/SIGTERM.
    Run(RunArgs),
    /// Parse and validate a manifest without starting the server.
    Validate(ValidateArgs),
    /// Run the fixture around a wrapped command.
    Exec(ExecArgs),
    /// Start the fixture in the background.
    Spawn(SpawnArgs),
    /// Terminate a fixture started with `spawn`.
    Kill(KillArgs),
}

/// The arguments of the subcommands that start a fixture.
#[derive(Debug, Clone)]
pub struct CommonRunArgs {
    /// Path to the fixture manifest.
    pub manifest: String,
    /// Listen port instead of the manifest's.
    pub port: Option<u16>,
    /// Listen host instead of the manifest's.
    pub host: Option<String>,
    /// A specific nats-server binary.
    pub nats_server: Option<String>,
    /// Look on `PATH` before the bundled binary.
    pub prefer_system_nats_server: bool,
    /// File to write the URL to.
    pub url_file: Option<String>,
    /// Keep the JetStream storage directory after shutdown.
    pub keep_storage: bool,
    /// Only errors and the URL banner.
    pub quiet: bool,
}

#[derive(Debug)]
pub struct RunArgs {
    pub common: CommonRunArgs,
}

#[derive(Debug)]
pub struct ValidateArgs {
    pub manifest: String,
}

#[derive(Debug)]
pub struct ExecArgs {
    pub common: CommonRunArgs,
    /// The wrapped command and its arguments.
    pub argv: Vec<String>,
}

#[derive(Debug)]
pub struct SpawnArgs {
    pub common: CommonRunArgs,
    /// File to which the spawned fixture's PID is written.
    pub pid_file: String,
}

#[derive(Debug)]
pub struct KillArgs {
    /// File holding the PID of a spawned fixture.
    pub pid_file: String,
}

/// The version text: the crate's version and the bundled server's, or
/// `unknown` when that cannot be told.
pub open spec fn version_text(crate_version: Seq<char>, nats: Option<Seq<char>>) -> Seq<char> {
    crate_version + " (bundled nats-server: "@ + match nats {
        Some(v) => v,
        None => "unknown"@,
    } + ")"@
}

/// The text that `--version` prints, from the crate's version and the version
/// that the bundled nats-server reports (if it could be run).
pub fn full_version_string(crate_version: &str, nats_server_version: Option<String>) -> (s: String)
    ensures
        s@ == version_text(
            crate_version@,
            match nats_server_version {
                Some(v) => Some(v@),
                None => None,
            },
        ),
{
    let mut s = copy_str(crate_version);
    push_str(&mut s, " (bundled nats-server: ");
    match &nats_server_version {
        Some(v) => push_str(&mut s, v.as_str()),
        None => push_str(&mut s, "unknown"),
    }
    push_str(&mut s, ")");
    s
}

/// Whether the fixture's own logging is limited to errors.
pub fn quiet_flag(cli: &Cli) -> (q: bool)
    ensures
        q == match cli.command {
            Command::Run(r) => r.common.quiet,
            Command::Exec(e) => e.common.quiet,
            Command::Spawn(s) => s.common.quiet,
            Command::Validate(_) => false,
            Command::Kill(_) => false,
        },
{
    match &cli.command {
        Command::Run(r) => r.common.quiet,
        Command::Exec(e) => e.common.quiet,
        Command::Spawn(s) => s.common.quiet,
        Command::Validate(_) | Command::Kill(_) => false,
    }
}

pub open spec fn opt_view(o: Option<String>) -> Option<Seq<char>> {
    match o {
        Some(s) => Some(s@),
        None => None,
    }
}

/// The environment variable whose filter, where set, replaces the default
/// log filter.
pub const LOG_FILTER_ENV: &'static str = "HYERIX_NATSFIXTURE_LOG";

/// The log filter used where `LOG_FILTER_ENV` is not set: errors only under
/// `--quiet`, information and warnings otherwise.
pub fn default_log_filter(quiet: bool) -> (f: &'static str)
    ensures
        f@ == if quiet {
            "hyerix_natsfixture=error"@
        } else {
            "hyerix_natsfixture=info,warn"@
        },
{
    if quiet {
        "hyerix_natsfixture=error"
    } else {
        "hyerix_natsfixture=info,warn"
    }
}

/// The directory that relative payload paths of a manifest are taken from:
/// the manifest file's parent directory (`parent`), or the current directory
/// where its path has none.
pub fn manifest_dir(parent: Option<String>) -> (d: String)
    ensures
        d@ == match parent {
            Some(p) => p@,
            None => "."@,
        },
{
    match parent {
        Some(p) => p,
        None => copy_str("."),
    }
}

/// The server options that the command line asks for.
pub fn server_options(common: &CommonRunArgs) -> (o: ServerOptions)
    ensures
        o.bundled_strategy == if common.prefer_system_nats_server {
            Resolution::SystemFirst
        } else {
            Resolution::BundledFirst
        },
        opt_view(o.override_binary) == opt_view(common.nats_server),
        opt_view(o.host_override) == opt_view(common.host),
        o.port_override == common.port,
        o.keep_storage == common.keep_storage,
{
    let strategy = if common.prefer_system_nats_server {
        Resolution::SystemFirst
    } else {
        Resolution::BundledFirst
    };
    ServerOptions {
        bundled_strategy: strategy,
        override_binary: match &common.nats_server {
            Some(p) => Some(copy_str(p.as_str())),
            None => None,
        },
        host_override: match &common.host {
            Some(h) => Some(copy_str(h.as_str())),
            None => None,
        },
        port_override: common.port,
        keep_storage: common.keep_storage,
    }
}

/// `acc` followed by `flag` and its value, when there is one.
pub open spec fn with_option(acc: Seq<Seq<char>>, flag: Seq<char>, value: Option<Seq<char>>) -> Seq<
    Seq<char>,
> {
    match value {
        Some(v) => acc.push(flag).push(v),
        None => acc,
    }
}

/// `acc` followed by `flag` when it is set.
pub open spec fn with_switch(acc: Seq<Seq<char>>, flag: Seq<char>, set: bool) -> Seq<Seq<char>> {
    if set {
        acc.push(flag)
    } else {
        acc
    }
}

/// The arguments of the `run` command that a spawned fixture is started
/// with: the same manifest and the same options.
pub open spec fn spawn_argv(c: CommonRunArgs) -> Seq<Seq<char>> {
    let a0 = seq!["run"@, "--manifest"@, c.manifest@];
    let a1 = with_option(
        a0,
        "--port"@,
        match c.port {
            Some(p) => Some(decimal(p as nat)),
            None => None,
        },
    );
    let a2 = with_option(a1, "--host"@, opt_view(c.host));
    let a3 = with_option(a2, "--nats-server"@, opt_view(c.nats_server));
    let a4 = with_switch(a3, "--prefer-system-nats-server"@, c.prefer_system_nats_server);
    let a5 = with_option(a4, "--url-file"@, opt_view(c.url_file));
    let a6 = with_switch(a5, "--keep-storage"@, c.keep_storage);
    with_switch(a6, "--quiet"@, c.quiet)
}

/// What a spawned fixture is started with: `run --manifest <manifest>`
/// first; `--keep-storage` last but for `--quiet`, each exactly when its own
/// option is set; and for two command lines that differ at most in these two
/// switches, the same arguments before them.
pub proof fn lemma_spawn_switches(c1: CommonRunArgs, c2: CommonRunArgs)
    requires
        c1.manifest@ == c2.manifest@,
        c1.port == c2.port,
        opt_view(c1.host) == opt_view(c2.host),
        opt_view(c1.nats_server) == opt_view(c2.nats_server),
        c1.prefer_system_nats_server == c2.prefer_system_nats_server,
        opt_view(c1.url_file) == opt_view(c2.url_file),
    ensures
        spawn_argv(c1).take(3) == seq!["run"@, "--manifest"@, c1.manifest@],
        ({
            let t1 = (if c1.keep_storage {
                seq!["--keep-storage"@]
            } else {
                Seq::empty()
            }) + (if c1.quiet {
                seq!["--quiet"@]
            } else {
                Seq::empty()
            });
            let t2 = (if c2.keep_storage {
                seq!["--keep-storage"@]
            } else {
                Seq::empty()
            }) + (if c2.quiet {
                seq!["--quiet"@]
            } else {
                Seq::empty()
            });
            let args1 = spawn_argv(c1);
            let args2 = spawn_argv(c2);
            &&& args1.len() >= 3 + t1.len()
            &&& args1.skip(args1.len() - t1.len()) == t1
            &&& args2.skip(args2.len() - t2.len()) == t2
            &&& args1.take(args1.len() - t1.len()) == args2.take(args2.len() - t2.len())
        }),
{
    lemma_switch_tail(spawn_common(c1), c1.keep_storage, c1.quiet);
    lemma_switch_tail(spawn_common(c2), c2.keep_storage, c2.quiet);
    assert(spawn_common(c1) == spawn_common(c2));
    let common = spawn_common(c1);
    assert(common.take(3) =~= seq!["run"@, "--manifest"@, c1.manifest@]);
    let args1 = spawn_argv(c1);
    let t1 = switch_tail(c1.keep_storage, c1.quiet);
    assert(args1.take(3) =~= common.take(3));
    assert(args1.skip(args1.len() - t1.len()) =~= t1);
    assert(args1.take(args1.len() - t1.len()) =~= common);
    let args2 = spawn_argv(c2);
    let t2 = switch_tail(c2.keep_storage, c2.quiet);
    assert(args2.skip(args2.len() - t2.len()) =~= t2);
    assert(args2.take(args2.len() - t2.len()) =~= common);
}

/// The arguments of a spawned fixture before its last two switches.
spec fn spawn_common(c: CommonRunArgs) -> Seq<Seq<char>> {
    let a0 = seq!["run"@, "--manifest"@, c.manifest@];
    let a1 = with_option(
        a0,
        "--port"@,
        match c.port {
            Some(p) => Some(decimal(p as nat)),
            None => None,
        },
    );
    let a2 = with_option(a1, "--host"@, opt_view(c.host));
    let a3 = with_option(a2, "--nats-server"@, opt_view(c.nats_server));
    let a4 = with_switch(a3, "--prefer-system-nats-server"@, c.prefer_system_nats_server);
    with_option(a4, "--url-file"@, opt_view(c.url_file))
}

/// `--keep-storage` and `--quiet`, each where it is set, in this order.
spec fn switch_tail(keep_storage: bool, quiet: bool) -> Seq<Seq<char>> {
    (if keep_storage {
        seq!["--keep-storage"@]
    } else {
        Seq::empty()
    }) + (if quiet {
        seq!["--quiet"@]
    } else {
        Seq::empty()
    })
}

proof fn lemma_switch_tail(acc: Seq<Seq<char>>, keep_storage: bool, quiet: bool)
    ensures
        with_switch(with_switch(acc, "--keep-storage"@, keep_storage), "--quiet"@, quiet) == acc
            + switch_tail(keep_storage, quiet),
{
    assert(with_switch(with_switch(acc, "--keep-storage"@, keep_storage), "--quiet"@, quiet)
        =~= acc + switch_tail(keep_storage, quiet));
}

fn push_option(args: &mut Vec<String>, flag: &str, value: &Option<String>)
    ensures
        strings_view(final(args)@) == with_option(strings_view(old(args)@), flag@, opt_view(*value)),
{
    match value {
        Some(v) => {
            args.push(copy_str(flag));
            args.push(copy_str(v.as_str()));
            assert(strings_view(args@) =~= strings_view(old(args)@).push(flag@).push(v@));
        },
        None => {},
    }
}

fn push_switch(args: &mut Vec<String>, flag: &str, set: bool)
    ensures
        strings_view(final(args)@) == with_switch(strings_view(old(args)@), flag@, set),
{
    if set {
        args.push(copy_str(flag));
        assert(strings_view(args@) =~= strings_view(old(args)@).push(flag@));
    }
}

/// The arguments that a spawned fixture is started with: `run` and the
/// manifest, then each option given on the command line.
pub fn spawn_run_args(common: &CommonRunArgs) -> (args: Vec<String>)
    ensures
        strings_view(args@) == spawn_argv(*common),
{
    let mut args: Vec<String> = Vec::new();
    args.push(copy_str("run"));
    args.push(copy_str("--manifest"));
    args.push(copy_str(common.manifest.as_str()));
    assert(strings_view(args@) =~= seq!["run"@, "--manifest"@, common.manifest@]);
    let port = match common.port {
        Some(p) => Some(decimal_string(p as u64)),
        None => None,
    };
    push_option(&mut args, "--port", &port);
    push_option(&mut args, "--host", &common.host);
    push_option(&mut args, "--nats-server", &common.nats_server);
    push_switch(&mut args, "--prefer-system-nats-server", common.prefer_system_nats_server);
    push_option(&mut args, "--url-file", &common.url_file);
    push_switch(&mut args, "--keep-storage", common.keep_storage);
    push_switch(&mut args, "--quiet", common.quiet);
    args
}

/// The contents of the PID file of a spawned fixture.
pub fn pid_file_contents(pid: u32) -> (s: String)
    ensures
        s@ == decimal(pid as nat) + seq!['\n'],
{
    let mut s = String::new();
    push_decimal(&mut s, pid as u64);
    push_str(&mut s, "\n");
    proof {
        reveal_strlit("\n");
    }
    assert(s@ =~= decimal(pid as nat) + seq!['\n']);
    s
}

/// The PID that a PID file holds: its text without surrounding whitespace,
/// read as an `i32`.
pub fn parse_pid(raw: &str) -> (pid: Option<i32>)
    ensures
        match parse_i32(trim(raw@)) {
            Some(p) => pid is Some && pid->0 == p,
            None => pid is None,
        },
{
    let v = chars_of(raw);
    let (lo, hi) = trim_range(&v);
    parse_i32_chars(&v, lo, hi)
}

/// A spawned fixture's PID file reads back as the PID it was written with,
/// for every PID that fits an `i32`.
pub proof fn lemma_pid_file_reads_back(pid: u32)
    requires
        pid <= 0x7fff_ffff,
    ensures
        parse_i32(trim(decimal(pid as nat) + seq!['\n'])) == Some(pid as int),
{
    let d = decimal(pid as nat);
    lemma_decimal_reads_back(pid as nat);
    let t = d + seq!['\n'];
    assert(is_digit(d[0]));
    assert(t[0] == d[0]);
    assert(trim_start(t) == t);
    assert(t.drop_last() =~= d);
    assert(is_digit(d.last()));
    assert(trim_end(d) == d);
    assert(trim_end(t) == trim_end(d));
    assert(unsigned_digits(d) == d);
}

/// How a client of the fixture authenticates.
#[derive(Debug, Clone)]
pub enum ConnectAuth {
    Anonymous,
    Token(String),
    UserPassword { user: String, password: String },
}

/// How the fixture connects to its own server to apply the manifest: as the
/// auth section allows, with the first user for `user_password`.
pub fn connect_auth(m: &Manifest) -> (r: Result<ConnectAuth, String>)
    ensures
        match m.auth.mode {
            AuthMode::NoAuth => r matches Ok(ConnectAuth::Anonymous),
            AuthMode::Token => r matches Ok(ConnectAuth::Token(t)) && t@ == m.auth.token@,
            AuthMode::UserPassword => if m.auth.users@.len() > 0 {
                r matches Ok(ConnectAuth::UserPassword { user, password }) && user@
                    == m.auth.users@[0].user@ && password@ == m.auth.users@[0].password@
            } else {
                r matches Err(e) && e@ == "auth.mode=user_password but no users defined"@
            },
            _ => r matches Err(e) && e@ == "auth.mode nkey/jwt not supported in v0.1"@,
        },
{
    match m.auth.mode {
        AuthMode::NoAuth => Ok(ConnectAuth::Anonymous),
        AuthMode::Token => Ok(ConnectAuth::Token(copy_str(m.auth.token.as_str()))),
        AuthMode::UserPassword => {
            if m.auth.users.len() == 0 {
                return Err(copy_str("auth.mode=user_password but no users defined"));
            }
            let u = &m.auth.users[0];
            Ok(
                ConnectAuth::UserPassword {
                    user: copy_str(u.user.as_str()),
                    password: copy_str(u.password.as_str()),
                },
            )
        },
        AuthMode::Nkey | AuthMode::Jwt => Err(copy_str("auth.mode nkey/jwt not supported in v0.1")),
    }
}

/// The stage at which booting a fixture failed.
#[derive(Debug, Clone, Copy, PartialEq, Eq, Structural)]
pub enum BootFailure {
    /// The manifest could not be loaded or is invalid.
    Manifest,
    /// The port given explicitly with `--port` is already in use.
    PortInUse,
    /// The server could not be started.
    ServerStart,
    /// The fixture could not connect to its server.
    Connect,
    /// The manifest could not be applied.
    Apply,
    /// The URL file could not be written.
    UrlFile,
    /// The URL banner could not be printed.
    Banner,
}

/// How the fixture exits after a failed boot.
#[derive(Debug, Clone, Copy, PartialEq, Eq, Structural)]
pub struct BootExit {
    /// The process exit code.
    pub code: i32,
    /// Whether the running server is shut down first.
    pub shutdown_first: bool,
}

/// The port to check before the server is started: the one given
/// explicitly with `--port`; port 0 asks for any free port and is not checked.
pub fn explicit_port(common: &CommonRunArgs) -> (p: Option<u16>)
    ensures
        p == match common.port {
            Some(x) => if x != 0 {
                Some(x)
            } else {
                None
            },
            None => None,
        },
{
    match common.port {
        Some(x) => if x != 0 {
            Some(x)
        } else {
            None
        },
        None => None,
    }
}

/// The boot failure, if any, once the explicitly given port has been probed:
/// a port given with `--port` that cannot be bound is in use.
pub fn port_check(explicit_port_given: bool, bind_failed: bool) -> (f: Option<BootFailure>)
    ensures
        f == if explicit_port_given && bind_failed {
            Some(BootFailure::PortInUse)
        } else {
            None
        },
{
    if explicit_port_given && bind_failed {
        Some(BootFailure::PortInUse)
    } else {
        None
    }
}

/// The exit after a boot failure: invalid manifests exit with
/// `MANIFEST_INVALID`, an explicitly given port that is in use with
/// `PORT_IN_USE`, failed applies with `APPLY_FAILED`, every other failure with
/// `SERVER_FAILED`; a server that was started is shut down first.
pub fn boot_failure_exit(f: BootFailure) -> (e: BootExit)
    ensures
        e.code == match f {
            BootFailure::Manifest => exit_codes::MANIFEST_INVALID,
            BootFailure::PortInUse => exit_codes::PORT_IN_USE,
            BootFailure::Apply => exit_codes::APPLY_FAILED,
            _ => exit_codes::SERVER_FAILED,
        },
        e.shutdown_first == !(f == BootFailure::Manifest || f == BootFailure::PortInUse || f
            == BootFailure::ServerStart),
{
    match f {
        BootFailure::Manifest => BootExit { code: exit_codes::MANIFEST_INVALID, shutdown_first: false },
        BootFailure::PortInUse => BootExit { code: exit_codes::PORT_IN_USE, shutdown_first: false },
        BootFailure::ServerStart => BootExit { code: exit_codes::SERVER_FAILED, shutdown_first: false },
        BootFailure::Connect => BootExit { code: exit_codes::SERVER_FAILED, shutdown_first: true },
        BootFailure::Apply => BootExit { code: exit_codes::APPLY_FAILED, shutdown_first: true },
        BootFailure::UrlFile => BootExit { code: exit_codes::SERVER_FAILED, shutdown_first: true },
        BootFailure::Banner => BootExit { code: exit_codes::SERVER_FAILED, shutdown_first: true },
    }
}

} // verus!
