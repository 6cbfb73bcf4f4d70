//! Starting the server, step by step: which port, which binary, which storage
//! directory and configuration file, then the process. The caller performs
//! each action and reports what came of it; this module decides what follows.

use crate::cli::opt_view;
use crate::manifest::Manifest;
use crate::server::bundled::{resolution, resolve, ResolveError, ResolveFailure};
use crate::server::{
    render_server_config, server_args, server_config, start_plan, ServerOptions,
    CONFIG_FILE_NAME, READY_TIMEOUT_SECS,
};
use crate::text::{copy_str, strings_view};
use vstd::prelude::*;

verus! {

/// The prefix of a fresh temporary storage directory's name.
pub const TEMP_DIR_PREFIX: &'static str = "hyerix-natsfixture-";

/// How far a server start has come.
#[derive(Debug)]
pub enum StartStage {
    /// Nothing has been done yet.
    Begun,
    /// A free port is being picked.
    AwaitingPort,
    /// The listen port is known.
    PortChosen { port: u16 },
    /// The nats-server binary is chosen.
    BinaryChosen { port: u16, binary: String },
    /// The storage directory exists; its configuration file is being written.
    StorageReady { port: u16, binary: String },
    /// The server process is being spawned.
    Spawning { port: u16 },
    /// The server runs; what is left is to wait until it accepts connections.
    Started,
    /// The start was given up.
    Failed,
}

/// What came of the last action.
#[derive(Debug)]
pub enum StartEvent {
    /// The start is asked for.
    Begin,
    /// A free port was picked.
    PortPicked(u16),
    /// The candidate binaries were looked for: whether the one named on the
    /// command line is a file, and the bundled one and the one on `PATH`
    /// where they exist.
    BinaryProbed { override_is_file: bool, bundled: Option<String>, system: Option<String> },
    /// The storage directory exists at this path.
    StorageCreated(String),
    /// The configuration file was written at this path.
    ConfigWritten(String),
    /// The server process was spawned.
    Spawned,
}

/// Why a start was given up.
#[derive(Debug)]
pub enum StartFailure {
    /// No binary could be chosen.
    Resolve(ResolveError),
    /// An event came that the stage does not expect.
    UnexpectedEvent,
}

/// What to do next.
#[derive(Debug)]
pub enum StartAction {
    /// Pick a free port on `host`.
    PickFreePort { host: String },
    /// Look for the candidate binaries.
    ProbeBinary,
    /// Create the storage directory `dir`, or a fresh temporary directory
    /// whose name starts with `TEMP_DIR_PREFIX` when it is `None`.
    CreateStorage { dir: Option<String> },
    /// Write `text` to the file `file_name` in `storage_dir`.
    WriteConfig { storage_dir: String, file_name: String, text: String },
    /// Spawn `binary` with `args`.
    Spawn { binary: String, args: Vec<String> },
    /// Wait up to `timeout_secs` seconds for `host:port` to accept connections.
    WaitReady { host: String, port: u16, timeout_secs: u64 },
    /// Give the start up.
    Fail(StartFailure),
}

/// A start's stage as plain values.
pub enum StageView {
    Begun,
    AwaitingPort,
    PortChosen { port: u16 },
    BinaryChosen { port: u16, binary: Seq<char> },
    StorageReady { port: u16, binary: Seq<char> },
    Spawning { port: u16 },
    Started,
    Failed,
}

/// An event as plain values.
pub enum EventView {
    Begin,
    PortPicked(u16),
    BinaryProbed {
        override_is_file: bool,
        bundled: Option<Seq<char>>,
        system: Option<Seq<char>>,
    },
    StorageCreated(Seq<char>),
    ConfigWritten(Seq<char>),
    Spawned,
}

/// A failure as plain values.
pub enum FailureView {
    Resolve(ResolveFailure),
    UnexpectedEvent,
}

/// An action as plain values.
pub enum ActionView {
    PickFreePort { host: Seq<char> },
    ProbeBinary,
    CreateStorage { dir: Option<Seq<char>> },
    WriteConfig { storage_dir: Seq<char>, file_name: Seq<char>, text: Seq<char> },
    Spawn { binary: Seq<char>, args: Seq<Seq<char>> },
    WaitReady { host: Seq<char>, port: u16, timeout_secs: u64 },
    Fail(FailureView),
}

impl View for StartStage {
    type V = StageView;

    open spec fn view(&self) -> StageView {
        match self {
            StartStage::Begun => StageView::Begun,
            StartStage::AwaitingPort => StageView::AwaitingPort,
            StartStage::PortChosen { port } => StageView::PortChosen { port: *port },
            StartStage::BinaryChosen { port, binary } => StageView::BinaryChosen {
                port: *port,
                binary: binary@,
            },
            StartStage::StorageReady { port, binary } => StageView::StorageReady {
                port: *port,
                binary: binary@,
            },
            StartStage::Spawning { port } => StageView::Spawning { port: *port },
            StartStage::Started => StageView::Started,
            StartStage::Failed => StageView::Failed,
        }
    }
}

impl View for StartEvent {
    type V = EventView;

    open spec fn view(&self) -> EventView {
        match self {
            StartEvent::Begin => EventView::Begin,
            StartEvent::PortPicked(p) => EventView::PortPicked(*p),
            StartEvent::BinaryProbed { override_is_file, bundled, system } => EventView::BinaryProbed {
                override_is_file: *override_is_file,
                bundled: opt_view(*bundled),
                system: opt_view(*system),
            },
            StartEvent::StorageCreated(d) => EventView::StorageCreated(d@),
            StartEvent::ConfigWritten(c) => EventView::ConfigWritten(c@),
            StartEvent::Spawned => EventView::Spawned,
        }
    }
}

impl View for StartAction {
    type V = ActionView;

    open spec fn view(&self) -> ActionView {
        match self {
            StartAction::PickFreePort { host } => ActionView::PickFreePort { host: host@ },
            StartAction::ProbeBinary => ActionView::ProbeBinary,
            StartAction::CreateStorage { dir } => ActionView::CreateStorage { dir: opt_view(*dir) },
            StartAction::WriteConfig { storage_dir, file_name, text } => ActionView::WriteConfig {
                storage_dir: storage_dir@,
                file_name: file_name@,
                text: text@,
            },
            StartAction::Spawn { binary, args } => ActionView::Spawn {
                binary: binary@,
                args: strings_view(args@),
            },
            StartAction::WaitReady { host, port, timeout_secs } => ActionView::WaitReady {
                host: host@,
                port: *port,
                timeout_secs: *timeout_secs,
            },
            StartAction::Fail(StartFailure::Resolve(e)) => ActionView::Fail(
                FailureView::Resolve(e@),
            ),
            StartAction::Fail(StartFailure::UnexpectedEvent) => ActionView::Fail(
                FailureView::UnexpectedEvent,
            ),
        }
    }
}

/// The listen host: the options' host, else the manifest's.
pub open spec fn planned_host(m: Manifest, o: ServerOptions) -> Seq<char> {
    match o.host_override {
        Some(h) => h@,
        None => m.listen.host@,
    }
}

/// The listen port asked for: the options' port, else the manifest's; 0
/// asks for a free port.
pub open spec fn planned_port(m: Manifest, o: ServerOptions) -> u16 {
    match o.port_override {
        Some(p) => p,
        None => m.listen.port,
    }
}

/// The storage directory the manifest names, or `None` for a fresh
/// temporary one.
pub open spec fn planned_storage(m: Manifest) -> Option<Seq<char>> {
    if m.storage.dir@.len() == 0 {
        None
    } else {
        Some(m.storage.dir@)
    }
}

/// The next stage and action of a start of `m` with `o`, at stage `s`, once
/// `e` has happened. The start goes through the port, the binary, the
/// storage directory, the configuration file and the process, in this order;
/// a binary that cannot be chosen, or an event out of that order, gives the
/// start up.
pub open spec fn start_transition(m: Manifest, o: ServerOptions, s: StageView, e: EventView) -> (
    StageView,
    ActionView,
) {
    match (s, e) {
        (StageView::Begun, EventView::Begin) => if planned_port(m, o) == 0 {
            (StageView::AwaitingPort, ActionView::PickFreePort { host: planned_host(m, o) })
        } else {
            (StageView::PortChosen { port: planned_port(m, o) }, ActionView::ProbeBinary)
        },
        (StageView::AwaitingPort, EventView::PortPicked(port)) => (
            StageView::PortChosen { port },
            ActionView::ProbeBinary,
        ),
        (
            StageView::PortChosen { port },
            EventView::BinaryProbed { override_is_file, bundled, system },
        ) => match resolution(
            opt_view(o.override_binary),
            override_is_file,
            o.bundled_strategy,
            bundled,
            system,
        ) {
            Ok(binary) => (
                StageView::BinaryChosen { port, binary },
                ActionView::CreateStorage { dir: planned_storage(m) },
            ),
            Err(f) => (StageView::Failed, ActionView::Fail(FailureView::Resolve(f))),
        },
        (StageView::BinaryChosen { port, binary }, EventView::StorageCreated(dir)) => (
            StageView::StorageReady { port, binary },
            ActionView::WriteConfig {
                storage_dir: dir,
                file_name: CONFIG_FILE_NAME@,
                text: server_config(m, planned_host(m, o), port, dir),
            },
        ),
        (StageView::StorageReady { port, binary }, EventView::ConfigWritten(path)) => (
            StageView::Spawning { port },
            ActionView::Spawn { binary, args: seq!["-c"@, path] },
        ),
        (StageView::Spawning { port }, EventView::Spawned) => (
            StageView::Started,
            ActionView::WaitReady {
                host: planned_host(m, o),
                port,
                timeout_secs: READY_TIMEOUT_SECS,
            },
        ),
        _ => (StageView::Failed, ActionView::Fail(FailureView::UnexpectedEvent)),
    }
}

/// The stage reached and the actions taken by a start of `m` with `o` that
/// has gone through `events`, in order, from the beginning.
pub open spec fn start_run(m: Manifest, o: ServerOptions, events: Seq<EventView>) -> (
    StageView,
    Seq<ActionView>,
)
    decreases events.len(),
{
    if events.len() == 0 {
        (StageView::Begun, Seq::empty())
    } else {
        let (s, acts) = start_run(m, o, events.drop_last());
        let (next, a) = start_transition(m, o, s, events.last());
        (next, acts.push(a))
    }
}

/// A start takes one action per event, and the first `n` of them are those
/// of the first `n` events.
pub proof fn lemma_start_run_prefix(m: Manifest, o: ServerOptions, events: Seq<EventView>, n: int)
    requires
        0 <= n <= events.len(),
    ensures
        start_run(m, o, events).1.len() == events.len(),
        start_run(m, o, events).1.take(n) == start_run(m, o, events.take(n)).1,
        n < events.len() ==> start_run(m, o, events).1[n] == start_transition(
            m,
            o,
            start_run(m, o, events.take(n)).0,
            events[n],
        ).1,
    decreases events.len(),
{
    if events.len() == 0 {
        assert(events.take(n) =~= events);
    } else {
        let len = events.len() as int;
        let prev = events.drop_last();
        lemma_start_run_prefix(m, o, prev, if n < len { n } else { len - 1 });
        if n == len {
            assert(events.take(n) =~= events);
            assert(start_run(m, o, events).1.take(n) =~= start_run(m, o, events).1);
        } else {
            assert(prev.take(n) =~= events.take(n));
            assert(start_run(m, o, events).1.take(n) =~= start_run(m, o, prev).1.take(n));
            if n == len - 1 {
                assert(events.take(n) =~= prev);
            } else {
                assert(start_run(m, o, events).1[n] == start_run(m, o, prev).1[n]);
            }
        }
    }
}

/// The stage a start of `m` with `o` is at after the first `n` of `events`.
pub open spec fn stage_after(m: Manifest, o: ServerOptions, events: Seq<EventView>, n: int) -> StageView {
    start_run(m, o, events.take(n)).0
}

/// Each event moves the start from the stage before it to the next one, and
/// the action taken on it is the one `start_transition` gives.
pub proof fn lemma_start_run_step(m: Manifest, o: ServerOptions, events: Seq<EventView>, j: int)
    requires
        0 <= j < events.len(),
    ensures
        stage_after(m, o, events, j + 1) == start_transition(
            m,
            o,
            stage_after(m, o, events, j),
            events[j],
        ).0,
        start_run(m, o, events).1[j] == start_transition(
            m,
            o,
            stage_after(m, o, events, j),
            events[j],
        ).1,
{
    lemma_start_run_prefix(m, o, events, j);
    assert(events.take(j + 1).drop_last() =~= events.take(j));
    assert(events.take(j + 1).last() == events[j]);
}

/// A start is at its beginning before its first event only; it waits for a
/// free port after its first event only, and only where one is asked for.
pub proof fn lemma_start_early_stages(m: Manifest, o: ServerOptions, events: Seq<EventView>, j: int)
    requires
        0 <= j <= events.len(),
    ensures
        (stage_after(m, o, events, j) == StageView::Begun) <==> j == 0,
        stage_after(m, o, events, j) == StageView::AwaitingPort ==> j == 1 && planned_port(m, o)
            == 0 && events[0] == EventView::Begin,
    decreases j,
{
    if j == 0 {
        assert(events.take(0) =~= Seq::<EventView>::empty());
    } else {
        lemma_start_run_step(m, o, events, j - 1);
        lemma_start_early_stages(m, o, events, j - 1);
    }
}

/// The order in which a server is started: the process is spawned with the
/// configuration file just written as its one option (`-c` and its path);
/// that file was written into the storage directory just created, which is
/// the manifest's where it names one, and holds the configuration for the
/// planned host, the chosen port and that directory; the binary is the one
/// chosen from what the probe found, before the storage directory was
/// created; the port is the one asked for, or the free one picked where 0
/// was asked for.
pub proof fn lemma_start_order(m: Manifest, o: ServerOptions, events: Seq<EventView>, i: int)
    requires
        0 <= i < events.len(),
        start_run(m, o, events).1[i] is Spawn,
    ensures
        ({
            let acts = start_run(m, o, events).1;
            &&& 3 <= i
            &&& acts[i] matches ActionView::Spawn { binary, args }
            &&& events[i] matches EventView::ConfigWritten(path)
            &&& args == seq!["-c"@, path]
            &&& acts[i - 1] matches ActionView::WriteConfig { storage_dir, file_name, text }
            &&& events[i - 1] == EventView::StorageCreated(storage_dir)
            &&& file_name == CONFIG_FILE_NAME@
            &&& acts[i - 2] == ActionView::CreateStorage { dir: planned_storage(m) }
            &&& events[i - 2] matches EventView::BinaryProbed { override_is_file, bundled, system }
            &&& resolution(
                opt_view(o.override_binary),
                override_is_file,
                o.bundled_strategy,
                bundled,
                system,
            ) == Ok::<Seq<char>, ResolveFailure>(binary)
            &&& stage_after(m, o, events, i - 2) matches StageView::PortChosen { port }
            &&& text == server_config(m, planned_host(m, o), port, storage_dir)
            &&& planned_port(m, o) != 0 ==> port == planned_port(m, o)
            &&& planned_port(m, o) == 0 ==> events[i - 3] == EventView::PortPicked(port)
        }),
{
    lemma_start_run_step(m, o, events, i);
    lemma_start_early_stages(m, o, events, i);
    lemma_start_run_step(m, o, events, i - 1);
    lemma_start_early_stages(m, o, events, i - 1);
    lemma_start_run_step(m, o, events, i - 2);
    lemma_start_early_stages(m, o, events, i - 2);
    lemma_start_run_step(m, o, events, i - 3);
    lemma_start_early_stages(m, o, events, i - 3);
}

/// The server is waited for where it was configured to listen: the wait
/// that follows a spawn targets the planned host and the port the
/// configuration file was written with, which is the port asked for, or the
/// free port picked where 0 was asked for; it waits the readiness timeout.
pub proof fn lemma_start_waits_on_configured_port(
    m: Manifest,
    o: ServerOptions,
    events: Seq<EventView>,
    i: int,
)
    requires
        0 <= i < events.len(),
        start_run(m, o, events).1[i] is WaitReady,
    ensures
        ({
            let acts = start_run(m, o, events).1;
            &&& 4 <= i
            &&& events[i] == EventView::Spawned
            &&& acts[i] matches ActionView::WaitReady { host, port, timeout_secs }
            &&& host == planned_host(m, o)
            &&& timeout_secs == READY_TIMEOUT_SECS
            &&& acts[i - 1] is Spawn
            &&& acts[i - 2] matches ActionView::WriteConfig { storage_dir, text, .. }
            &&& text == server_config(m, planned_host(m, o), port, storage_dir)
            &&& stage_after(m, o, events, i - 3) == StageView::PortChosen { port }
            &&& planned_port(m, o) != 0 ==> port == planned_port(m, o)
            &&& planned_port(m, o) == 0 ==> events[i - 4] == EventView::PortPicked(port)
        }),
{
    lemma_start_run_step(m, o, events, i);
    lemma_start_early_stages(m, o, events, i);
    lemma_start_run_step(m, o, events, i - 1);
    lemma_start_early_stages(m, o, events, i - 1);
    lemma_start_order(m, o, events, i - 1);
    lemma_start_run_step(m, o, events, i - 2);
    lemma_start_run_step(m, o, events, i - 3);
}

/// A start that has given up does nothing more: every later action is a
/// failure, so no server is spawned after it.
pub proof fn lemma_failed_start_stays_failed(
    m: Manifest,
    o: ServerOptions,
    events: Seq<EventView>,
    i: int,
    j: int,
)
    requires
        0 <= i < j < events.len(),
        start_run(m, o, events).1[i] is Fail,
    ensures
        stage_after(m, o, events, j) == StageView::Failed,
        start_run(m, o, events).1[j] == ActionView::Fail(FailureView::UnexpectedEvent),
    decreases j - i,
{
    lemma_start_run_step(m, o, events, j);
    lemma_start_run_step(m, o, events, j - 1);
    if j - 1 > i {
        lemma_failed_start_stays_failed(m, o, events, i, j - 1);
    }
}

/// The next stage and action of a start of `manifest` with `opts`, at
/// `stage`, once `event` has happened, as `start_transition` says.
pub fn start_step(manifest: &Manifest, opts: &ServerOptions, stage: StartStage, event: StartEvent) -> (r: (
    StartStage,
    StartAction,
))
    ensures
        (r.0@, r.1@) == start_transition(*manifest, *opts, stage@, event@),
{
    match (stage, event) {
        (StartStage::Begun, StartEvent::Begin) => {
            let plan = start_plan(manifest, opts);
            if plan.pick_free_port {
                (StartStage::AwaitingPort, StartAction::PickFreePort { host: plan.host })
            } else {
                (StartStage::PortChosen { port: plan.port }, StartAction::ProbeBinary)
            }
        },
        (StartStage::AwaitingPort, StartEvent::PortPicked(port)) => (
            StartStage::PortChosen { port },
            StartAction::ProbeBinary,
        ),
        (
            StartStage::PortChosen { port },
            StartEvent::BinaryProbed { override_is_file, bundled, system },
        ) => {
            let override_path = match &opts.override_binary {
                Some(p) => Some(p.as_str()),
                None => None,
            };
            let r = resolve(override_path, override_is_file, opts.bundled_strategy, bundled, system);
            match r {
                Ok(binary) => {
                    let plan = start_plan(manifest, opts);
                    (
                        StartStage::BinaryChosen { port, binary },
                        StartAction::CreateStorage { dir: plan.storage_dir },
                    )
                },
                Err(e) => (StartStage::Failed, StartAction::Fail(StartFailure::Resolve(e))),
            }
        },
        (StartStage::BinaryChosen { port, binary }, StartEvent::StorageCreated(dir)) => {
            let plan = start_plan(manifest, opts);
            let text = render_server_config(manifest, plan.host.as_str(), port, dir.as_str());
            (
                StartStage::StorageReady { port, binary },
                StartAction::WriteConfig {
                    storage_dir: dir,
                    file_name: copy_str(CONFIG_FILE_NAME),
                    text,
                },
            )
        },
        (StartStage::StorageReady { port, binary }, StartEvent::ConfigWritten(path)) => {
            let args = server_args(path.as_str());
            (StartStage::Spawning { port }, StartAction::Spawn { binary, args })
        },
        (StartStage::Spawning { port }, StartEvent::Spawned) => {
            let plan = start_plan(manifest, opts);
            (
                StartStage::Started,
                StartAction::WaitReady { host: plan.host, port, timeout_secs: READY_TIMEOUT_SECS },
            )
        },
        _ => (StartStage::Failed, StartAction::Fail(StartFailure::UnexpectedEvent)),
    }
}

} // verus!
