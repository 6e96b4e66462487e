use vstd::prelude::*;
use crate::chart::Endpoint;
use crate::errors::{PidError, SuiteError};
use crate::load::LoadPhase;
use crate::samples::{parse_samples, samples_of};
use crate::text::{parse_u32, u32_text_value};

verus! {

/// Where the benchmark of one target stands. Targets run one at a time on
/// one port, so one such value describes everything that is live.
#[derive(Debug, Clone, Copy, PartialEq, Eq, Structural)]
pub enum Stage {
    /// Killing whatever still listens on the port.
    Cleaning,
    /// Building the server.
    Building,
    /// Deleting the readiness marker of an earlier run.
    ClearingMarker,
    /// Starting the server.
    Launching,
    /// Reading the readiness marker; `reads` reads have failed so far.
    Waiting { reads: u32 },
    /// Pausing after the `reads`-th failed read.
    Sleeping { reads: u32 },
    /// Running the load generator.
    Loading { endpoint: Endpoint, phase: LoadPhase },
    /// Killing the server.
    Killing,
    /// Both endpoints measured and the server killed.
    Collected,
    /// Stopped on an error.
    Failed { error: SuiteError },
}

/// Outcome of deleting the readiness marker.
#[derive(Debug, Clone, Copy, PartialEq, Eq, Structural)]
pub enum Removal {
    Removed,
    /// There was no marker to delete.
    Absent,
    /// The file system refused.
    Refused,
}

/// What the runner reports back after performing an action.
pub enum Event {
    /// The port query found a listener and it was signalled (`true`), or
    /// found none (`false`).
    PortReaped(bool),
    /// The build, the launch, the pause or the kill completed.
    Succeeded,
    /// An external command or the host failed.
    Failed(SuiteError),
    MarkerRemoved(Removal),
    /// The marker's contents, or `None` when it could not be read.
    MarkerRead(Option<Vec<u8>>),
    /// The load generator finished; its output when it was captured.
    LoadFinished(Option<Vec<u8>>),
}

/// What the runner is asked to do next.
#[derive(Debug, Clone, Copy, PartialEq, Eq, Structural)]
pub enum Action {
    ReapPort,
    Build,
    RemoveMarker,
    Spawn,
    ReadMarker,
    /// Wait one polling interval.
    Sleep,
    RunLoad { endpoint: Endpoint, phase: LoadPhase },
    Kill { pid: u32 },
    /// The target's samples are ready.
    Done,
    Abort { error: SuiteError },
    /// The event does not belong to the current stage; nothing changed.
    Ignored,
}

/// The benchmark of one target, as a state machine driven by the runner.
pub struct TargetRun {
    pub stage: Stage,
    /// No earlier target ran in this batch, so no marker need exist yet.
    pub first_run: bool,
    /// How many times the readiness marker is read before giving up.
    pub max_attempts: u32,
    /// The server's process id, once the marker gave it.
    pub pid: u32,
    /// Samples of the index endpoint, in nanoseconds.
    pub index: Vec<u64>,
    /// Samples of the pattern endpoint, in nanoseconds.
    pub pattern: Vec<u64>,
}

pub struct RunView {
    pub stage: Stage,
    pub first_run: bool,
    pub max_attempts: u32,
    pub pid: u32,
    pub index: Seq<u64>,
    pub pattern: Seq<u64>,
}

impl View for TargetRun {
    type V = RunView;

    open spec fn view(&self) -> RunView {
        RunView {
            stage: self.stage,
            first_run: self.first_run,
            max_attempts: self.max_attempts,
            pid: self.pid,
            index: self.index@,
            pattern: self.pattern@,
        }
    }
}

/// The poll counters stay within the attempt budget.
pub open spec fn wf(m: RunView) -> bool {
    match m.stage {
        Stage::Waiting { reads } => reads < m.max_attempts,
        Stage::Sleeping { reads } => 1 <= reads <= m.max_attempts,
        _ => true,
    }
}

pub open spec fn with_stage(m: RunView, s: Stage) -> RunView {
    RunView { stage: s, ..m }
}

pub open spec fn abort(m: RunView, e: SuiteError) -> (RunView, Action) {
    (with_stage(m, Stage::Failed { error: e }), Action::Abort { error: e })
}

pub open spec fn captured_samples(c: Option<Vec<u8>>) -> Seq<u64> {
    match c {
        Some(t) => samples_of(t@),
        None => Seq::empty(),
    }
}

/// The next state and action after event `ev` in state `m`.
pub open spec fn transition(m: RunView, ev: Event) -> (RunView, Action) {
    match m.stage {
        Stage::Collected => (m, Action::Done),
        Stage::Failed { error } => (m, Action::Abort { error }),
        Stage::Killing => match ev {
            Event::Succeeded | Event::Failed(_) => (with_stage(m, Stage::Collected), Action::Done),
            _ => (m, Action::Ignored),
        },
        _ => match ev {
            Event::Failed(e) => abort(m, e),
            _ => match (m.stage, ev) {
                (Stage::Cleaning, Event::PortReaped(true)) => (m, Action::ReapPort),
                (Stage::Cleaning, Event::PortReaped(false)) => (
                    with_stage(m, Stage::Building),
                    Action::Build,
                ),
                (Stage::Building, Event::Succeeded) => (
                    with_stage(m, Stage::ClearingMarker),
                    Action::RemoveMarker,
                ),
                (Stage::ClearingMarker, Event::MarkerRemoved(Removal::Removed)) => (
                    with_stage(m, Stage::Launching),
                    Action::Spawn,
                ),
                (Stage::ClearingMarker, Event::MarkerRemoved(Removal::Absent)) => if m.first_run {
                    (with_stage(m, Stage::Launching), Action::Spawn)
                } else {
                    abort(m, SuiteError::MissingMarker)
                },
                (Stage::ClearingMarker, Event::MarkerRemoved(Removal::Refused)) => abort(
                    m,
                    SuiteError::Io,
                ),
                (Stage::Launching, Event::Succeeded) => if m.max_attempts > 0 {
                    (with_stage(m, Stage::Waiting { reads: 0 }), Action::ReadMarker)
                } else {
                    abort(m, SuiteError::PidTimeout(PidError {}))
                },
                (Stage::Waiting { reads }, Event::MarkerRead(None)) => (
                    with_stage(m, Stage::Sleeping { reads: (reads + 1) as u32 }),
                    Action::Sleep,
                ),
                (Stage::Waiting { reads }, Event::MarkerRead(Some(t))) => match u32_text_value(
                    t@,
                ) {
                    Some(pid) => (
                        RunView {
                            stage: Stage::Loading {
                                endpoint: Endpoint::Index,
                                phase: LoadPhase::Warmup,
                            },
                            pid,
                            ..m
                        },
                        Action::RunLoad { endpoint: Endpoint::Index, phase: LoadPhase::Warmup },
                    ),
                    None => abort(m, SuiteError::BadPid),
                },
                (Stage::Sleeping { reads }, Event::Succeeded) => if reads < m.max_attempts {
                    (with_stage(m, Stage::Waiting { reads }), Action::ReadMarker)
                } else {
                    abort(m, SuiteError::PidTimeout(PidError {}))
                },
                (Stage::Loading { endpoint, phase }, Event::LoadFinished(c)) => match phase {
                    LoadPhase::Warmup => (
                        with_stage(m, Stage::Loading { endpoint, phase: LoadPhase::Display }),
                        Action::RunLoad { endpoint, phase: LoadPhase::Display },
                    ),
                    LoadPhase::Display => (
                        with_stage(m, Stage::Loading { endpoint, phase: LoadPhase::Measure }),
                        Action::RunLoad { endpoint, phase: LoadPhase::Measure },
                    ),
                    LoadPhase::Measure => match endpoint {
                        Endpoint::Index => (
                            RunView {
                                stage: Stage::Loading {
                                    endpoint: Endpoint::Pattern,
                                    phase: LoadPhase::Warmup,
                                },
                                index: captured_samples(c),
                                ..m
                            },
                            Action::RunLoad {
                                endpoint: Endpoint::Pattern,
                                phase: LoadPhase::Warmup,
                            },
                        ),
                        Endpoint::Pattern => (
                            RunView { stage: Stage::Killing, pattern: captured_samples(c), ..m },
                            Action::Kill { pid: m.pid },
                        ),
                    },
                },
                _ => (m, Action::Ignored),
            },
        },
    }
}

impl TargetRun {
    /// A fresh target run, which starts by clearing the port.
    pub fn new(first_run: bool, max_attempts: u32) -> (r: (TargetRun, Action))
        ensures
            r.0@.stage == Stage::Cleaning,
            r.0@.first_run == first_run,
            r.0@.max_attempts == max_attempts,
            r.0@.pid == 0,
            r.0@.index.len() == 0,
            r.0@.pattern.len() == 0,
            r.1 == Action::ReapPort,
            wf(r.0@),
    {
        (
            TargetRun {
                stage: Stage::Cleaning,
                first_run,
                max_attempts,
                pid: 0,
                index: Vec::new(),
                pattern: Vec::new(),
            },
            Action::ReapPort,
        )
    }

    fn abort_with(&mut self, e: SuiteError) -> (r: Action)
        ensures
            (final(self)@, r) == abort(old(self)@, e),
    {
        self.stage = Stage::Failed { error: e };
        Action::Abort { error: e }
    }

    /// Takes the runner's report of the last action and says what to do
    /// next.
    pub fn step(&mut self, ev: Event) -> (r: Action)
        requires
            wf(old(self)@),
        ensures
            (final(self)@, r) == transition(old(self)@, ev),
            wf(final(self)@),
    {
        match self.stage {
            Stage::Collected => return Action::Done,
            Stage::Failed { error } => return Action::Abort { error },
            Stage::Killing => {
                return match ev {
                    Event::Succeeded | Event::Failed(_) => {
                        self.stage = Stage::Collected;
                        Action::Done
                    },
                    _ => Action::Ignored,
                };
            },
            _ => {},
        }
        if let Event::Failed(e) = ev {
            return self.abort_with(e);
        }
        match (self.stage, ev) {
            (Stage::Cleaning, Event::PortReaped(true)) => Action::ReapPort,
            (Stage::Cleaning, Event::PortReaped(false)) => {
                self.stage = Stage::Building;
                Action::Build
            },
            (Stage::Building, Event::Succeeded) => {
                self.stage = Stage::ClearingMarker;
                Action::RemoveMarker
            },
            (Stage::ClearingMarker, Event::MarkerRemoved(Removal::Removed)) => {
                self.stage = Stage::Launching;
                Action::Spawn
            },
            (Stage::ClearingMarker, Event::MarkerRemoved(Removal::Absent)) => {
                if self.first_run {
                    self.stage = Stage::Launching;
                    Action::Spawn
                } else {
                    self.abort_with(SuiteError::MissingMarker)
                }
            },
            (Stage::ClearingMarker, Event::MarkerRemoved(Removal::Refused)) => {
                self.abort_with(SuiteError::Io)
            },
            (Stage::Launching, Event::Succeeded) => {
                if self.max_attempts > 0 {
                    self.stage = Stage::Waiting { reads: 0 };
                    Action::ReadMarker
                } else {
                    self.abort_with(SuiteError::PidTimeout(PidError {}))
                }
            },
            (Stage::Waiting { reads }, Event::MarkerRead(None)) => {
                self.stage = Stage::Sleeping { reads: reads + 1 };
                Action::Sleep
            },
            (Stage::Waiting { reads }, Event::MarkerRead(Some(t))) => {
                match parse_u32(t.as_slice()) {
                    Some(pid) => {
                        self.pid = pid;
                        self.stage = Stage::Loading {
                            endpoint: Endpoint::Index,
                            phase: LoadPhase::Warmup,
                        };
                        Action::RunLoad { endpoint: Endpoint::Index, phase: LoadPhase::Warmup }
                    },
                    None => self.abort_with(SuiteError::BadPid),
                }
            },
            (Stage::Sleeping { reads }, Event::Succeeded) => {
                if reads < self.max_attempts {
                    self.stage = Stage::Waiting { reads };
                    Action::ReadMarker
                } else {
                    self.abort_with(SuiteError::PidTimeout(PidError {}))
                }
            },
            (Stage::Loading { endpoint, phase }, Event::LoadFinished(c)) => {
                match phase {
                    LoadPhase::Warmup => {
                        self.stage = Stage::Loading { endpoint, phase: LoadPhase::Display };
                        Action::RunLoad { endpoint, phase: LoadPhase::Display }
                    },
                    LoadPhase::Display => {
                        self.stage = Stage::Loading { endpoint, phase: LoadPhase::Measure };
                        Action::RunLoad { endpoint, phase: LoadPhase::Measure }
                    },
                    LoadPhase::Measure => {
                        let samples = match c {
                            Some(t) => parse_samples(t.as_slice()),
                            None => Vec::new(),
                        };
                        match endpoint {
                            Endpoint::Index => {
                                self.index = samples;
                                self.stage = Stage::Loading {
                                    endpoint: Endpoint::Pattern,
                                    phase: LoadPhase::Warmup,
                                };
                                Action::RunLoad {
                                    endpoint: Endpoint::Pattern,
                                    phase: LoadPhase::Warmup,
                                }
                            },
                            Endpoint::Pattern => {
                                self.pattern = samples;
                                self.stage = Stage::Killing;
                                Action::Kill { pid: self.pid }
                            },
                        }
                    },
                }
            },
            _ => Action::Ignored,
        }
    }
}

/// A server is started only right after the readiness marker of an earlier
/// run was deleted, or found absent on the batch's first run: `Spawn` is
/// asked for only on leaving the marker-clearing stage, and that stage is
/// entered only by asking for the marker's removal.
pub proof fn lemma_spawn_follows_marker_removal(m: RunView, ev: Event)
    ensures
        transition(m, ev).1 == Action::Spawn ==> m.stage == Stage::ClearingMarker && (ev
            == Event::MarkerRemoved(Removal::Removed) || (ev == Event::MarkerRemoved(
            Removal::Absent,
        ) && m.first_run)),
        transition(m, ev).0.stage == Stage::ClearingMarker && m.stage != Stage::ClearingMarker
            ==> transition(m, ev).1 == Action::RemoveMarker,
{
}

/// The state after the events `evs`, one after the other.
pub open spec fn run_events(m: RunView, evs: Seq<Event>) -> RunView
    decreases evs.len(),
{
    if evs.len() == 0 {
        m
    } else {
        run_events(transition(m, evs[0]).0, evs.drop_first())
    }
}

/// `n` polling rounds in which the marker could not be read: a failed read,
/// then the pause after it.
pub open spec fn failed_polls(n: nat) -> Seq<Event>
    decreases n,
{
    if n == 0 {
        Seq::empty()
    } else {
        seq![Event::MarkerRead(None), Event::Succeeded] + failed_polls((n - 1) as nat)
    }
}

pub proof fn lemma_run_events_concat(m: RunView, a: Seq<Event>, b: Seq<Event>)
    ensures
        run_events(m, a + b) == run_events(run_events(m, a), b),
    decreases a.len(),
{
    if a.len() > 0 {
        assert((a + b).drop_first() =~= a.drop_first() + b);
        assert((a + b)[0] == a[0]);
        lemma_run_events_concat(transition(m, a[0]).0, a.drop_first(), b);
    } else {
        assert(a + b =~= b);
    }
}

/// The stage in which polling gave up.
pub open spec fn pid_timeout() -> Stage {
    Stage::Failed { error: SuiteError::PidTimeout(PidError {}) }
}

/// The stage right after the server's process id became known.
pub open spec fn first_load() -> Stage {
    Stage::Loading { endpoint: Endpoint::Index, phase: LoadPhase::Warmup }
}

/// Failed reads so far while waiting for the marker; -1 in other stages.
pub open spec fn reads_of(s: Stage) -> int {
    match s {
        Stage::Waiting { reads } => reads as int,
        _ => -1,
    }
}

pub open spec fn waiting_at(m: RunView, r: int) -> RunView {
    with_stage(m, Stage::Waiting { reads: r as u32 })
}

/// A launch, `n` failed polling rounds.
pub open spec fn launch_then_polls(n: nat) -> Seq<Event> {
    seq![Event::Succeeded] + failed_polls(n)
}

/// A launch, `k` failed polling rounds, then a read of the marker that gave
/// `t`.
pub open spec fn launch_then_read(k: nat, t: Vec<u8>) -> Seq<Event> {
    launch_then_polls(k) + seq![Event::MarkerRead(Some(t))]
}

proof fn lemma_failed_polls(m: RunView, j: nat)
    requires
        0 <= reads_of(m.stage),
        reads_of(m.stage) + j <= m.max_attempts,
        j > 0 || reads_of(m.stage) < m.max_attempts,
    ensures
        reads_of(m.stage) + j < m.max_attempts ==> run_events(m, failed_polls(j)) == waiting_at(
            m,
            reads_of(m.stage) + j,
        ),
        reads_of(m.stage) + j == m.max_attempts ==> run_events(m, failed_polls(j)).stage
            == pid_timeout(),
    decreases j,
{
    let a = reads_of(m.stage);
    if j == 0 {
        assert(waiting_at(m, a) == m);
    } else {
        let pair = seq![Event::MarkerRead(None), Event::Succeeded];
        let rest = failed_polls((j - 1) as nat);
        lemma_run_events_concat(m, pair, rest);
        let m1 = transition(m, Event::MarkerRead(None)).0;
        assert(m1 == with_stage(m, Stage::Sleeping { reads: (a + 1) as u32 }));
        let m2 = transition(m1, Event::Succeeded).0;
        assert(pair.drop_first() =~= seq![Event::Succeeded]);
        assert(pair.drop_first().drop_first() =~= Seq::<Event>::empty());
        reveal_with_fuel(run_events, 3);
        assert(run_events(m, pair) == m2);
        if a + 1 < m.max_attempts {
            assert(m2 == with_stage(m, Stage::Waiting { reads: (a + 1) as u32 }));
            lemma_failed_polls(m2, (j - 1) as nat);
            assert(waiting_at(m2, a + j) == waiting_at(m, a + j));
        } else {
            assert(j == 1);
            assert(rest =~= Seq::<Event>::empty());
            assert(m2.stage == Stage::Failed { error: SuiteError::PidTimeout(PidError {}) });
        }
    }
}

/// When the marker never appears, polling gives up with `PidTimeout` after
/// the attempt budget: `max_attempts` failed reads, each followed by a
/// pause.
pub proof fn lemma_poll_times_out(m: RunView)
    requires
        m.stage == Stage::Launching,
    ensures
        run_events(m, launch_then_polls(m.max_attempts as nat)).stage == pid_timeout(),
{
    let first = seq![Event::Succeeded];
    let polls = failed_polls(m.max_attempts as nat);
    lemma_run_events_concat(m, first, polls);
    assert(first.drop_first() =~= Seq::<Event>::empty());
    let m1 = transition(m, Event::Succeeded).0;
    reveal_with_fuel(run_events, 2);
    assert(run_events(m, first) == m1);
    if m.max_attempts > 0 {
        lemma_failed_polls(m1, m.max_attempts as nat);
    } else {
        assert(polls =~= Seq::<Event>::empty());
    }
}

/// As soon as the marker can be read, within the attempt budget, polling
/// stops and the server's process id is exactly the marker's number.
pub proof fn lemma_poll_ready_at_once(m: RunView, k: nat, t: Vec<u8>)
    requires
        m.stage == Stage::Launching,
        k < m.max_attempts,
        u32_text_value(t@) is Some,
    ensures
        run_events(m, launch_then_read(k, t)).stage == first_load(),
        run_events(m, launch_then_read(k, t)).pid == u32_text_value(t@)->0,
{
    let first = seq![Event::Succeeded];
    let polls = failed_polls(k);
    let last = seq![Event::MarkerRead(Some(t))];
    lemma_run_events_concat(m, first + polls, last);
    lemma_run_events_concat(m, first, polls);
    assert(first.drop_first() =~= Seq::<Event>::empty());
    let m1 = transition(m, Event::Succeeded).0;
    reveal_with_fuel(run_events, 2);
    assert(run_events(m, first) == m1);
    assert(m1.stage == Stage::Waiting { reads: 0 });
    if k > 0 {
        lemma_failed_polls(m1, k);
    } else {
        assert(polls =~= Seq::<Event>::empty());
    }
    let m2 = run_events(m1, polls);
    assert(m2.stage == Stage::Waiting { reads: k as u32 });
    assert(last.drop_first() =~= Seq::<Event>::empty());
    assert(last[0] == Event::MarkerRead(Some(t)));
    assert(run_events(m2, last) == transition(m2, Event::MarkerRead(Some(t))).0);
}

/// `n` reports of the port query that a listener was found and killed.
pub open spec fn reaped(n: nat) -> Seq<Event>
    decreases n,
{
    if n == 0 {
        Seq::empty()
    } else {
        seq![Event::PortReaped(true)] + reaped((n - 1) as nat)
    }
}

/// Clearing the port asks for the query again after each killed listener,
/// however many are stacked, and moves on to the build at the first report
/// that none is left.
pub proof fn lemma_port_cleared(m: RunView, n: nat)
    requires
        m.stage == Stage::Cleaning,
    ensures
        transition(m, Event::PortReaped(true)) == (m, Action::ReapPort),
        transition(m, Event::PortReaped(false)).1 == Action::Build,
        run_events(m, reaped(n)) == m,
        run_events(m, reaped(n) + seq![Event::PortReaped(false)]).stage == Stage::Building,
    decreases n,
{
    reveal_with_fuel(run_events, 2);
    if n > 0 {
        let one = seq![Event::PortReaped(true)];
        lemma_run_events_concat(m, one, reaped((n - 1) as nat));
        assert(one.drop_first() =~= Seq::<Event>::empty());
        assert(run_events(m, one) == m);
        lemma_port_cleared(m, (n - 1) as nat);
    }
    let last = seq![Event::PortReaped(false)];
    lemma_run_events_concat(m, reaped(n), last);
    assert(last.drop_first() =~= Seq::<Event>::empty());
}

} // verus!
