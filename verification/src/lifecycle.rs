//! How the daemon starts, watches itself, and ends.
use crate::checkpoint::CheckpointGate;
use crate::config::{spelled, spelled_child, DaemonConfig, SpelledPath};
use crate::paths::{parent_text, path_parent, RepoPath};
use crate::text::{
    chars_of, concat, decimal, decimal_of, opt_view, parse_unsigned, read_unsigned, str_eq, views,
    words, words_of,
};
use vstd::prelude::*;

verus! {

/// The file that says which process the daemon is.
pub const PID_META_FILE: &'static str = "daemon.pid.json";

/// How often it is asked whether there is a newer version, in seconds.
pub const DAEMON_UPDATE_CHECK_INTERVAL_SECS: u64 = 3_600;

/// For how long a daemon runs before it is replaced.
pub const DAEMON_MAX_UPTIME_SECS: u64 = 88_200;

/// How often the daemon watches its own sockets.
pub const DAEMON_SOCKET_HEALTH_CHECK_SECS: u64 = 30;

/// For how long a daemon that ends may take.
pub const DAEMON_SHUTDOWN_DEADLINE_SECS: u64 = 5;

/// Within what time a probe has to come through, in milliseconds.
pub const TRACE_DRAIN_PROBE_DEADLINE_MS: u64 = 5_000;

/// How often in a row a restart is put off for the sake of accepted checkpoints.
pub const SOCKET_HEALTH_MAX_CONSECUTIVE_DEFERRALS: usize = 4;

/// For how many intervals the frames may stand still.
pub const SOCKET_HEALTH_MAX_PROCESSING_STALL_INTERVALS: usize = 12;

/// How many connections in a row may find no thread to serve them.
pub const TRACE_SPAWN_FAILURE_SHUTDOWN_THRESHOLD: usize = 16;

/// The receive buffer of a trace socket.
pub const TRACE_SOCKET_RECV_BUFFER_BYTES: usize = 524_288;

/// The bytes of a mebibyte.
pub const MEBIBYTE_BYTES: u64 = 1_048_576;

/// Logs that are older than this many seconds may go.
pub const LOG_LIFETIME_SECS: u64 = 604_800;

/// For how long one thread is waited for at the end, in nanoseconds.
pub const THREAD_JOIN_LIMIT_NS: u128 = 500_000_000;

/// What comes after the daemon.
#[derive(Debug, Clone, Copy, PartialEq, Eq, Structural)]
pub enum DaemonExitAction {
    Stop,
    Restart,
    RestartAfterUpdate,
}

impl DaemonExitAction {
    /// The number that stands for it.
    pub open spec fn number(self) -> u8 {
        match self {
            DaemonExitAction::Stop => 0,
            DaemonExitAction::Restart => 1,
            DaemonExitAction::RestartAfterUpdate => 2,
        }
    }

    /// What a number stands for; one that stands for nothing means to stop.
    pub open spec fn of_number(value: u8) -> DaemonExitAction {
        if value == 1 {
            DaemonExitAction::Restart
        } else if value == 2 {
            DaemonExitAction::RestartAfterUpdate
        } else {
            DaemonExitAction::Stop
        }
    }

    /// The number that stands for it.
    pub fn as_u8(self) -> (r: u8)
        ensures
            r == self.number(),
    {
        match self {
            DaemonExitAction::Stop => 0,
            DaemonExitAction::Restart => 1,
            DaemonExitAction::RestartAfterUpdate => 2,
        }
    }

    /// What a number stands for.
    pub fn from_u8(value: u8) -> (r: DaemonExitAction)
        ensures
            r == DaemonExitAction::of_number(value),
    {
        match value {
            1 => DaemonExitAction::Restart,
            2 => DaemonExitAction::RestartAfterUpdate,
            _ => DaemonExitAction::Stop,
        }
    }

    /// Whether another daemon is to take over.
    pub fn restarts(self) -> (r: bool)
        ensures
            r == (self != DaemonExitAction::Stop),
    {
        match self {
            DaemonExitAction::Stop => false,
            _ => true,
        }
    }
}

/// What comes after the daemon is read back from its number.
pub proof fn law_exit_actions_are_read_back(action: DaemonExitAction)
    ensures
        DaemonExitAction::of_number(action.number()) == action,
{
}

/// Whether and how the daemon is to end, and what was lost meanwhile.
#[derive(Debug, Clone, Copy, PartialEq, Eq, Structural)]
pub struct Lifecycle {
    pub shutting_down: bool,
    /// What comes after, as a number.
    pub action: u8,
    pub teardown_complete: bool,
    /// How many checkpoints were given up.
    pub checkpoints_dropped: u64,
    /// Whether those that are given up at the end were counted.
    pub losses_counted: bool,
}

/// A number with some more, up to its limit.
pub open spec fn plus(n: u64, more: u64) -> u64 {
    if n + more <= u64::MAX {
        (n + more) as u64
    } else {
        u64::MAX
    }
}

impl Lifecycle {
    /// A daemon that just started.
    pub fn new() -> (r: Lifecycle)
        ensures
            r == (Lifecycle {
                shutting_down: false,
                action: 0,
                teardown_complete: false,
                checkpoints_dropped: 0,
                losses_counted: false,
            }),
    {
        Lifecycle {
            shutting_down: false,
            action: 0,
            teardown_complete: false,
            checkpoints_dropped: 0,
            losses_counted: false,
        }
    }

    /// What comes after the daemon.
    pub open spec fn exit_action(self) -> DaemonExitAction {
        DaemonExitAction::of_number(self.action)
    }

    /// One that is told to end.
    pub open spec fn ending(self) -> Lifecycle {
        Lifecycle { shutting_down: true, ..self }
    }

    /// One that is told to end, and what comes after it.
    pub open spec fn ending_with(self, action: DaemonExitAction) -> Lifecycle {
        Lifecycle { shutting_down: true, action: action.number(), ..self }
    }

    /// Makes the daemon end; from now on no checkpoint is accepted.
    pub fn request_shutdown(&mut self, gate: &mut CheckpointGate)
        ensures
            *final(self) == old(self).ending(),
            *final(gate) == old(gate).closed(),
    {
        self.shutting_down = true;
        gate.set_checkpoint_acceptance(false);
    }

    /// Makes the daemon end for good.
    pub fn request_stop(&mut self, gate: &mut CheckpointGate)
        ensures
            *final(self) == old(self).ending_with(DaemonExitAction::Stop),
            *final(gate) == old(gate).closed(),
            final(self).exit_action() == DaemonExitAction::Stop,
    {
        self.action = DaemonExitAction::Stop.as_u8();
        self.request_shutdown(gate);
    }

    /// Makes another daemon take over.
    pub fn request_restart(&mut self, gate: &mut CheckpointGate)
        ensures
            *final(self) == old(self).ending_with(DaemonExitAction::Restart),
            *final(gate) == old(gate).closed(),
            final(self).exit_action() == DaemonExitAction::Restart,
    {
        self.action = DaemonExitAction::Restart.as_u8();
        self.request_shutdown(gate);
    }

    /// Makes a newer daemon take over.
    pub fn request_restart_after_update(&mut self, gate: &mut CheckpointGate)
        ensures
            *final(self) == old(self).ending_with(DaemonExitAction::RestartAfterUpdate),
            *final(gate) == old(gate).closed(),
            final(self).exit_action() == DaemonExitAction::RestartAfterUpdate,
    {
        self.action = DaemonExitAction::RestartAfterUpdate.as_u8();
        self.request_shutdown(gate);
    }

    /// What comes after the daemon.
    pub fn shutdown_action(&self) -> (r: DaemonExitAction)
        ensures
            r == self.exit_action(),
    {
        DaemonExitAction::from_u8(self.action)
    }

    /// Counts the checkpoints that are given up at the end, the first time that it is asked.
    pub fn count_abandoned_checkpoints_once(&mut self, outstanding: u64)
        ensures
            *final(self) == (if old(self).losses_counted {
                *old(self)
            } else {
                Lifecycle {
                    losses_counted: true,
                    checkpoints_dropped: plus(old(self).checkpoints_dropped, outstanding),
                    ..*old(self)
                }
            }),
    {
        if self.losses_counted {
            return;
        }
        self.losses_counted = true;
        self.checkpoints_dropped = self.checkpoints_dropped.saturating_add(outstanding);
    }

    /// What is done about a daemon that has had its time to end.
    pub fn enforce_deadline(&self) -> (r: Enforcement)
        ensures
            r == (if self.teardown_complete {
                Enforcement::Nothing
            } else {
                Enforcement::Exit { restart: self.exit_action() != DaemonExitAction::Stop }
            }),
    {
        if self.teardown_complete {
            return Enforcement::Nothing;
        }
        Enforcement::Exit { restart: self.shutdown_action().restarts() }
    }
}

/// What is done about a daemon that has had its time to end.
#[derive(Debug, Clone, Copy, PartialEq, Eq, Structural)]
pub enum Enforcement {
    /// It ended.
    Nothing,
    /// It is made to end, and another is started where that was asked for.
    Exit { restart: bool },
}

/// A daemon that was told to end is told so again without any change.
pub proof fn law_shutdown_requests_are_idempotent(life: Lifecycle, gate: CheckpointGate)
    ensures
        life.ending().ending() == life.ending(),
        gate.closed().closed() == gate.closed(),
{
}

/// A user's stop is final: it replaces a restart that was asked for before, and a
/// mere shutdown behind it does not bring the restart back.
pub proof fn law_an_explicit_stop_overrides_a_restart(life: Lifecycle, asked: DaemonExitAction)
    ensures
        life.ending_with(asked).ending_with(DaemonExitAction::Stop).exit_action()
            == DaemonExitAction::Stop,
        life.ending_with(asked).ending_with(DaemonExitAction::Stop).ending().exit_action()
            == DaemonExitAction::Stop,
{
}

/// The probes that the daemon sends itself.
#[derive(Debug, Clone, Copy, PartialEq, Eq, Structural)]
pub struct DrainProbes {
    /// The number of the last probe that was sent.
    pub issued: u64,
    /// The greatest number of a probe that came through.
    pub observed: u64,
}

impl DrainProbes {
    /// No probe came through that was not sent.
    pub open spec fn wf(self) -> bool {
        self.observed <= self.issued
    }

    /// No probe was sent.
    pub fn new() -> (r: DrainProbes)
        ensures
            r == (DrainProbes { issued: 0, observed: 0 }),
            r.wf(),
    {
        DrainProbes { issued: 0, observed: 0 }
    }

    /// Once the next probe was sent.
    pub open spec fn sent(self) -> DrainProbes {
        DrainProbes { issued: (self.issued + 1) as u64, ..self }
    }

    /// Once a number came through; one that was never sent is not believed.
    pub open spec fn seen(self, probe_id: u64) -> DrainProbes {
        DrainProbes {
            observed: if probe_id <= self.issued && probe_id > self.observed {
                probe_id
            } else {
                self.observed
            },
            ..self
        }
    }

    /// Numbers the next probe.
    pub fn issue_trace_drain_probe_id(&mut self) -> (r: u64)
        requires
            old(self).issued < u64::MAX,
        ensures
            r == old(self).issued + 1,
            *final(self) == old(self).sent(),
            old(self).wf() ==> final(self).wf() && final(self).observed < r,
    {
        self.issued = self.issued + 1;
        self.issued
    }

    /// Notes a probe that came through; one that was never sent is not believed.
    pub fn record_trace_drain_probe(&mut self, probe_id: u64)
        ensures
            *final(self) == old(self).seen(probe_id),
            old(self).wf() ==> final(self).wf(),
            final(self).observed >= old(self).observed,
    {
        if probe_id > self.issued {
            return;
        }
        if probe_id > self.observed {
            self.observed = probe_id;
        }
    }
}

/// How a probe stands.
#[derive(Debug, Clone, Copy, PartialEq, Eq, Structural)]
pub enum ProbeVerdict {
    /// It came through.
    Through,
    /// The daemon is ending, so it will not.
    ShuttingDown,
    /// Its time is over.
    Late,
    /// Look again.
    Waiting,
}

/// How a probe stands.
pub fn probe_verdict(
    probes: &DrainProbes,
    probe_id: u64,
    shutting_down: bool,
    elapsed_ms: u64,
    deadline_ms: u64,
) -> (r: ProbeVerdict)
    ensures
        r == (if probes.observed >= probe_id {
            ProbeVerdict::Through
        } else if shutting_down {
            ProbeVerdict::ShuttingDown
        } else if elapsed_ms >= deadline_ms {
            ProbeVerdict::Late
        } else {
            ProbeVerdict::Waiting
        }),
{
    if probes.observed >= probe_id {
        ProbeVerdict::Through
    } else if shutting_down {
        ProbeVerdict::ShuttingDown
    } else if elapsed_ms >= deadline_ms {
        ProbeVerdict::Late
    } else {
        ProbeVerdict::Waiting
    }
}

/// A forged number lets no later probe seem to have come through.
pub proof fn law_forged_probes_prove_nothing(probes: DrainProbes, forged: u64)
    requires
        probes.wf(),
        forged > probes.issued,
        probes.issued < u64::MAX,
    ensures
        probes.seen(forged).sent().observed < probes.seen(forged).sent().issued,
{
}

/// What was lost.
#[derive(Debug, Clone, Copy, PartialEq, Eq, Structural)]
pub struct IngestLossSnapshot {
    pub trace_payloads_dropped_queue_full: u64,
    pub trace_connections_dropped: u64,
    pub telemetry_metric_batches_dropped: u64,
    pub checkpoints_dropped: u64,
}

/// What one number has more than another, and nothing where it has less.
pub open spec fn more_than(a: u64, b: u64) -> u64 {
    if a >= b {
        (a - b) as u64
    } else {
        0
    }
}

/// What was lost since the last report, if there is anything to report.
pub fn ingest_loss_report(last: &IngestLossSnapshot, current: &IngestLossSnapshot) -> (r: Option<
    IngestLossSnapshot,
>)
    ensures
        r == (if *current == *last {
            None
        } else {
            Some(
                IngestLossSnapshot {
                    trace_payloads_dropped_queue_full: more_than(
                        current.trace_payloads_dropped_queue_full,
                        last.trace_payloads_dropped_queue_full,
                    ),
                    trace_connections_dropped: more_than(
                        current.trace_connections_dropped,
                        last.trace_connections_dropped,
                    ),
                    telemetry_metric_batches_dropped: more_than(
                        current.telemetry_metric_batches_dropped,
                        last.telemetry_metric_batches_dropped,
                    ),
                    checkpoints_dropped: more_than(
                        current.checkpoints_dropped,
                        last.checkpoints_dropped,
                    ),
                },
            )
        }),
{
    if *current == *last {
        return None;
    }
    Some(
        IngestLossSnapshot {
            trace_payloads_dropped_queue_full: current.trace_payloads_dropped_queue_full.saturating_sub(
                last.trace_payloads_dropped_queue_full,
            ),
            trace_connections_dropped: current.trace_connections_dropped.saturating_sub(
                last.trace_connections_dropped,
            ),
            telemetry_metric_batches_dropped: current.telemetry_metric_batches_dropped.saturating_sub(
                last.telemetry_metric_batches_dropped,
            ),
            checkpoints_dropped: current.checkpoints_dropped.saturating_sub(
                last.checkpoints_dropped,
            ),
        },
    )
}

/// Whether a restart is put off for the sake of accepted checkpoints.
pub open spec fn defers(outstanding: usize, deferrals: usize) -> bool {
    outstanding > 0 && deferrals < SOCKET_HEALTH_MAX_CONSECUTIVE_DEFERRALS
}

/// Whether a restart is put off for the sake of accepted checkpoints.
pub fn should_defer_restart_for_checkpoints(
    outstanding_checkpoints: usize,
    consecutive_deferrals: usize,
) -> (r: bool)
    ensures
        r == defers(outstanding_checkpoints, consecutive_deferrals),
{
    outstanding_checkpoints > 0 && consecutive_deferrals < SOCKET_HEALTH_MAX_CONSECUTIVE_DEFERRALS
}

/// What the daemon remembers between two looks at itself.
#[derive(Debug, Clone, Copy, PartialEq, Eq, Structural)]
pub struct HealthWatch {
    pub deferrals: usize,
    pub last_processed_seq: u64,
    pub stalled_intervals: usize,
}

/// What the daemon sees of itself.
#[derive(Debug, Clone, Copy, PartialEq, Eq, Structural)]
pub struct HealthReading {
    /// Whether it answers.
    pub control_ok: bool,
    /// Whether a probe comes through.
    pub trace_ok: bool,
    /// How many frames wait.
    pub queued: u64,
    /// The number of the last frame that was worked off.
    pub processed_seq: u64,
    pub shutting_down: bool,
    pub outstanding_checkpoints: usize,
}

/// What a look at itself leads to.
#[derive(Debug, Clone, Copy, PartialEq, Eq, Structural)]
pub enum HealthVerdict {
    Healthy,
    /// The daemon is ending anyway.
    Leave,
    /// Something is wrong, but accepted checkpoints come first.
    Defer,
    /// Something is wrong: start another daemon and end.
    Restart,
}

/// For how many intervals the frames have stood still.
pub open spec fn stalled_after(watch: HealthWatch, reading: HealthReading) -> nat {
    if reading.queued > 0 && reading.processed_seq == watch.last_processed_seq {
        watch.stalled_intervals as nat + 1
    } else {
        0
    }
}

/// Whether something is wrong.
pub open spec fn is_ill(watch: HealthWatch, reading: HealthReading) -> bool {
    !reading.control_ok || !reading.trace_ok || stalled_after(watch, reading)
        >= SOCKET_HEALTH_MAX_PROCESSING_STALL_INTERVALS
}

/// What a look at itself leads to.
pub open spec fn verdict_of(watch: HealthWatch, reading: HealthReading) -> HealthVerdict {
    if !is_ill(watch, reading) {
        HealthVerdict::Healthy
    } else if reading.shutting_down {
        HealthVerdict::Leave
    } else if defers(reading.outstanding_checkpoints, watch.deferrals) {
        HealthVerdict::Defer
    } else {
        HealthVerdict::Restart
    }
}

/// What the daemon remembers after a look at itself.
pub open spec fn watch_after(watch: HealthWatch, reading: HealthReading) -> HealthWatch {
    HealthWatch {
        deferrals: match verdict_of(watch, reading) {
            HealthVerdict::Healthy => 0,
            HealthVerdict::Defer => (watch.deferrals + 1) as usize,
            _ => watch.deferrals,
        },
        last_processed_seq: reading.processed_seq,
        stalled_intervals: stalled_after(watch, reading) as usize,
    }
}

impl HealthWatch {
    /// Nothing was seen yet.
    pub fn new() -> (r: HealthWatch)
        ensures
            r == (HealthWatch { deferrals: 0, last_processed_seq: 0, stalled_intervals: 0 }),
    {
        HealthWatch { deferrals: 0, last_processed_seq: 0, stalled_intervals: 0 }
    }

    /// Takes in what the daemon sees of itself.
    pub fn look(&mut self, reading: &HealthReading) -> (r: HealthVerdict)
        requires
            old(self).stalled_intervals < usize::MAX,
        ensures
            r == verdict_of(*old(self), *reading),
            *final(self) == watch_after(*old(self), *reading),
    {
        if reading.queued > 0 && reading.processed_seq == self.last_processed_seq {
            self.stalled_intervals = self.stalled_intervals + 1;
        } else {
            self.stalled_intervals = 0;
        }
        self.last_processed_seq = reading.processed_seq;
        let stalled = self.stalled_intervals >= SOCKET_HEALTH_MAX_PROCESSING_STALL_INTERVALS;
        if reading.control_ok && reading.trace_ok && !stalled {
            self.deferrals = 0;
            return HealthVerdict::Healthy;
        }
        if reading.shutting_down {
            return HealthVerdict::Leave;
        }
        if should_defer_restart_for_checkpoints(reading.outstanding_checkpoints, self.deferrals) {
            self.deferrals = self.deferrals + 1;
            return HealthVerdict::Defer;
        }
        HealthVerdict::Restart
    }
}

/// What the daemon remembers after some looks.
pub open spec fn watch_after_all(watch: HealthWatch, readings: Seq<HealthReading>) -> HealthWatch
    decreases readings.len(),
{
    if readings.len() == 0 {
        watch
    } else {
        watch_after(watch_after_all(watch, readings.drop_last()), readings.last())
    }
}

proof fn lemma_deferrals_add_up(watch: HealthWatch, readings: Seq<HealthReading>)
    requires
        watch.deferrals == 0,
        forall|i: int|
            0 <= i < readings.len() ==> verdict_of(
                watch_after_all(watch, #[trigger] readings.take(i)),
                readings[i],
            ) == HealthVerdict::Defer,
    ensures
        watch_after_all(watch, readings).deferrals == readings.len(),
        readings.len() <= SOCKET_HEALTH_MAX_CONSECUTIVE_DEFERRALS,
    decreases readings.len(),
{
    if readings.len() > 0 {
        let before = readings.drop_last();
        assert forall|i: int| 0 <= i < before.len() implies verdict_of(
            watch_after_all(watch, #[trigger] before.take(i)),
            before[i],
        ) == HealthVerdict::Defer by {
            assert(before.take(i) =~= readings.take(i));
            assert(before[i] == readings[i]);
        }
        lemma_deferrals_add_up(watch, before);
        assert(readings.take(readings.len() - 1) =~= before);
    }
}

/// A daemon that is ill puts its restart off only so often, however many
/// checkpoints are accepted: no run of looks that all put it off is longer.
pub proof fn law_deferrals_are_bounded(watch: HealthWatch, readings: Seq<HealthReading>)
    requires
        watch.deferrals == 0,
        forall|i: int|
            0 <= i < readings.len() ==> verdict_of(
                watch_after_all(watch, #[trigger] readings.take(i)),
                readings[i],
            ) == HealthVerdict::Defer,
    ensures
        readings.len() <= SOCKET_HEALTH_MAX_CONSECUTIVE_DEFERRALS,
{
    lemma_deferrals_add_up(watch, readings);
}

/// A daemon that a user is stopping does not bring itself back.
pub proof fn law_an_ending_daemon_does_not_restart(watch: HealthWatch, reading: HealthReading)
    requires
        reading.shutting_down,
    ensures
        verdict_of(watch, reading) != HealthVerdict::Restart,
        verdict_of(watch, reading) != HealthVerdict::Defer,
{
}

/// Whether there is a newer version.
#[derive(Debug, Clone, Copy, PartialEq, Eq, Structural)]
pub enum UpdateCheck {
    Ready,
    NoUpdate,
    Failed,
}

/// What came of installing an update.
#[derive(Debug, Clone, Copy, PartialEq, Eq, Structural)]
pub enum DaemonSelfUpdateOutcome {
    Installed,
    NoUpdate,
    Failed,
}

/// What came of installing an update, and whether what was kept of the last look for one is
/// thrown away: it is where that failed, so that the next look starts afresh.
pub fn self_update_outcome(check: UpdateCheck) -> (r: (DaemonSelfUpdateOutcome, bool))
    ensures
        r == (match check {
            UpdateCheck::Ready => (DaemonSelfUpdateOutcome::Installed, false),
            UpdateCheck::NoUpdate => (DaemonSelfUpdateOutcome::NoUpdate, false),
            UpdateCheck::Failed => (DaemonSelfUpdateOutcome::Failed, true),
        }),
{
    match check {
        UpdateCheck::Ready => (DaemonSelfUpdateOutcome::Installed, false),
        UpdateCheck::NoUpdate => (DaemonSelfUpdateOutcome::NoUpdate, false),
        UpdateCheck::Failed => (DaemonSelfUpdateOutcome::Failed, true),
    }
}

/// What is done about the age of the daemon.
#[derive(Debug, Clone, Copy, PartialEq, Eq, Structural)]
pub enum UpdateVerdict {
    Wait,
    RestartAfterUpdate,
    Restart,
}

/// What is done about a newer version, and about the time for which the daemon has
/// run. Work that is under way is finished first.
pub fn update_verdict(check: UpdateCheck, pending_work: bool, uptime_ns: u128, max_uptime_ns: u128) -> (r:
    UpdateVerdict)
    ensures
        r == (if pending_work {
            UpdateVerdict::Wait
        } else if check == UpdateCheck::Ready {
            UpdateVerdict::RestartAfterUpdate
        } else if uptime_ns >= max_uptime_ns {
            UpdateVerdict::Restart
        } else {
            UpdateVerdict::Wait
        }),
{
    if check == UpdateCheck::Ready && !pending_work {
        return UpdateVerdict::RestartAfterUpdate;
    }
    if uptime_ns >= max_uptime_ns && !pending_work {
        return UpdateVerdict::Restart;
    }
    UpdateVerdict::Wait
}

/// How many connections in a row found no thread to serve them.
#[derive(Debug, Clone, Copy, PartialEq, Eq, Structural)]
pub struct SpawnFailures {
    pub consecutive: usize,
    pub dropped: u64,
}

impl SpawnFailures {
    /// Takes in whether a connection found a thread; says whether the daemon gives up.
    pub fn observe(&mut self, spawned: bool) -> (r: bool)
        requires
            old(self).consecutive < usize::MAX,
        ensures
            *final(self) == (if spawned {
                SpawnFailures { consecutive: 0, ..*old(self) }
            } else {
                SpawnFailures {
                    consecutive: (old(self).consecutive + 1) as usize,
                    dropped: plus(old(self).dropped, 1),
                }
            }),
            r == (final(self).consecutive >= TRACE_SPAWN_FAILURE_SHUTDOWN_THRESHOLD),
    {
        if spawned {
            self.consecutive = 0;
        } else {
            self.consecutive = self.consecutive + 1;
            self.dropped = self.dropped.saturating_add(1);
        }
        self.consecutive >= TRACE_SPAWN_FAILURE_SHUTDOWN_THRESHOLD
    }
}

/// A number from the environment, else the default.
pub fn env_number(value: &Option<String>, default: u64) -> (r: u64)
    ensures
        r == (match opt_view(*value) {
            Some(text) => match parse_unsigned(text, 10, u64::MAX as nat) {
                Some(n) => n,
                None => default as nat,
            },
            None => default as nat,
        }),
{
    match value {
        Some(text) => match read_unsigned(text.as_str(), 10, u64::MAX) {
            Some(n) => n,
            None => default,
        },
        None => default,
    }
}

/// A positive number of milliseconds from the environment, else the default.
pub fn env_duration_ms(value: &Option<String>, default_ms: u64) -> (r: u64)
    ensures
        r == (match opt_view(*value) {
            Some(text) => match parse_unsigned(text, 10, u64::MAX as nat) {
                Some(n) => if n > 0 {
                    n
                } else {
                    default_ms as nat
                },
                None => default_ms as nat,
            },
            None => default_ms as nat,
        }),
{
    match value {
        Some(text) => match read_unsigned(text.as_str(), 10, u64::MAX) {
            Some(n) => if n > 0 {
                n
            } else {
                default_ms
            },
            None => default_ms,
        },
        None => default_ms,
    }
}

/// For how long a daemon runs before it is replaced, in nanoseconds.
pub fn daemon_max_uptime_ns(value: &Option<String>) -> (r: u128)
    ensures
        r == 1_000_000_000 * (match opt_view(*value) {
            Some(text) => match parse_unsigned(text, 10, u64::MAX as nat) {
                Some(n) => n,
                None => DAEMON_MAX_UPTIME_SECS as nat,
            },
            None => DAEMON_MAX_UPTIME_SECS as nat,
        }),
{
    (env_number(value, DAEMON_MAX_UPTIME_SECS) as u128) * 1_000_000_000
}

/// An interval in seconds, never nothing.
pub fn at_least_one(interval: u64) -> (r: u64)
    ensures
        r == (if interval >= 1 {
            interval
        } else {
            1
        }),
{
    if interval >= 1 {
        interval
    } else {
        1
    }
}

/// How large a receive buffer is asked for where the socket has one of `present` bytes:
/// none where no size is wanted, and none that would not raise it.
pub fn receive_buffer_to_ask(wanted: u64, present: Option<u64>) -> (r: Option<i32>)
    ensures
        r == (if wanted == 0 || present is Some && present->0 >= wanted {
            None
        } else {
            Some((if wanted < i32::MAX { wanted as int } else { i32::MAX as int }) as i32)
        }),
{
    if wanted == 0 {
        return None;
    }
    if let Some(present) = present {
        if present >= wanted {
            return None;
        }
    }
    if wanted < i32::MAX as u64 {
        Some(wanted as i32)
    } else {
        Some(i32::MAX)
    }
}

/// Whether the daemon runs under a test database.
pub fn daemon_is_test_mode(git_ai_test_db_path: bool, gitai_test_db_path: bool) -> (r: bool)
    ensures
        r == (git_ai_test_db_path || gitai_test_db_path),
{
    git_ai_test_db_path || gitai_test_db_path
}

/// Whether the log stays on the console.
pub fn daemon_log_file_should_be_skipped(test_mode: bool, forced: bool) -> (r: bool)
    ensures
        r == (test_mode && !forced),
{
    test_mode && !forced
}

/// A file beside the daemon's lock.
pub open spec fn beside_lock(config: DaemonConfig, name: Seq<char>) -> SpelledPath {
    match path_parent(config.lock_path@) {
        Some(dir) => spelled_child((dir, parent_text(config.lock_path.text@)), name),
        None => spelled_child(((false, seq!["."@]), "."@), name),
    }
}

fn file_beside_lock(config: &DaemonConfig, name: &str) -> (r: RepoPath)
    ensures
        spelled(r) == beside_lock(*config, name@),
{
    match config.lock_path.parent() {
        Some(dir) => dir.child(name),
        None => {
            let mut parts: Vec<String> = Vec::new();
            parts.push(".".to_owned());
            assert(views(parts@) =~= seq!["."@]);
            let here = RepoPath { absolute: false, parts, text: ".".to_owned() };
            here.child(name)
        },
    }
}

/// The file that says which process the daemon is.
pub fn pid_metadata_path(config: &DaemonConfig) -> (r: RepoPath)
    ensures
        spelled(r) == beside_lock(*config, PID_META_FILE@),
{
    file_beside_lock(config, PID_META_FILE)
}

/// The file that holds the daemon's restarts.
pub fn self_restart_history_path(config: &DaemonConfig) -> (r: RepoPath)
    ensures
        spelled(r) == beside_lock(*config, "self_restart_history.json"@),
{
    file_beside_lock(config, "self_restart_history.json")
}

/// The directory of the daemon's logs.
pub open spec fn log_dir_of(config: DaemonConfig) -> SpelledPath {
    spelled_child(spelled_child(spelled(config.internal_dir), "daemon"@), "logs"@)
}

/// The directory of the daemon's logs.
pub fn daemon_log_dir(config: &DaemonConfig) -> (r: RepoPath)
    ensures
        spelled(r) == log_dir_of(*config),
{
    config.internal_dir.child("daemon").child("logs")
}

/// The log of a daemon's process.
pub fn daemon_log_file_path(config: &DaemonConfig, pid: u32) -> (r: RepoPath)
    ensures
        spelled(r) == spelled_child(log_dir_of(*config), decimal_of(pid as nat) + ".log"@),
{
    daemon_log_dir(config).child(concat(decimal(pid as u64).as_str(), ".log").as_str())
}

/// The process whose log may go unless it still runs: one whose log is old enough. `stem`
/// is the file's name without its extension, `age_ns` its age where that is known.
pub fn stale_log_pid(stem: &str, age_ns: Option<u128>) -> (r: Option<u32>)
    ensures
        match r {
            Some(pid) => parse_unsigned(stem@, 10, u32::MAX as nat) == Some(pid as nat) && age_ns
                is Some && age_ns->0 > LOG_LIFETIME_SECS * 1_000_000_000,
            None => parse_unsigned(stem@, 10, u32::MAX as nat) is None || age_ns is None
                || age_ns->0 <= LOG_LIFETIME_SECS * 1_000_000_000,
        },
{
    match read_unsigned(stem, 10, u32::MAX as u64) {
        Some(pid) => match age_ns {
            Some(age) => if age > (LOG_LIFETIME_SECS as u128) * 1_000_000_000 {
                Some(pid as u32)
            } else {
                None
            },
            None => None,
        },
        None => None,
    }
}

/// What stands behind the last closing bracket.
pub open spec fn behind_last_bracket(s: Seq<char>) -> Option<Seq<char>>
    decreases s.len(),
{
    if s.len() == 0 {
        None
    } else if s.last() == ')' {
        Some(Seq::empty())
    } else {
        match behind_last_bracket(s.drop_last()) {
            Some(rest) => Some(rest.push(s.last())),
            None => None,
        }
    }
}

/// Whether the line that the system keeps on a process says that it ended and waits
/// to be collected: its state is the first word behind the last closing bracket.
pub open spec fn zombie_stat(stat: Seq<char>) -> bool {
    match behind_last_bracket(stat) {
        Some(rest) => words_of(rest).len() > 0 && words_of(rest)[0] == "Z"@,
        None => false,
    }
}

proof fn lemma_behind(s: Seq<char>, at: int)
    requires
        0 <= at < s.len(),
        s[at] == ')',
        forall|i: int| at < i < s.len() ==> s[i] != ')',
    ensures
        behind_last_bracket(s) == Some(s.subrange(at + 1, s.len() as int)),
    decreases s.len(),
{
    if at == s.len() - 1 {
        assert(s.subrange(at + 1, s.len() as int) =~= Seq::<char>::empty());
    } else {
        lemma_behind(s.drop_last(), at);
        assert(s.drop_last().subrange(at + 1, s.len() - 1).push(s.last()) =~= s.subrange(
            at + 1,
            s.len() as int,
        ));
    }
}

proof fn lemma_no_bracket(s: Seq<char>)
    requires
        forall|i: int| 0 <= i < s.len() ==> s[i] != ')',
    ensures
        behind_last_bracket(s) is None,
    decreases s.len(),
{
    if s.len() > 0 {
        lemma_no_bracket(s.drop_last());
    }
}

/// Whether the line that the system keeps on a process says that it ended.
pub fn process_stat_is_zombie(stat: &str) -> (r: bool)
    ensures
        r == zombie_stat(stat@),
{
    let cs = chars_of(stat);
    let n: usize = stat.unicode_len();
    let mut at: usize = n;
    while at > 0
        invariant
            at <= n,
            n == cs@.len(),
            cs@ == stat@,
            n == stat@.len(),
            forall|i: int| at <= i < n ==> stat@[i] != ')',
        decreases at,
    {
        if cs[at - 1] == ')' {
            proof {
                lemma_behind(stat@, at - 1);
            }
            let rest = words(stat.substring_char(at, n));
            if rest.len() == 0 {
                return false;
            }
            assert(views(rest@)[0] == rest@[0]@);
            return str_eq(rest[0].as_str(), "Z");
        }
        at -= 1;
    }
    proof {
        lemma_no_bracket(stat@);
    }
    false
}

/// Whether a process counts as running: it exists and has not ended.
pub fn process_counts_as_alive(exists: bool, stat: &Option<String>) -> (r: bool)
    ensures
        r == (exists && !(opt_view(*stat) matches Some(text) && zombie_stat(text))),
{
    exists && match stat {
        Some(text) => !process_stat_is_zombie(text.as_str()),
        None => true,
    }
}

/// What a daemon starts with.
#[derive(Debug, Clone, Copy, PartialEq, Eq, Structural)]
pub struct StartupPlan {
    /// Whether what was collected on token use is thrown away.
    pub remove_token_usage: bool,
    /// Whether transcripts are followed.
    pub follow_transcripts: bool,
    /// Whether token use is collected.
    pub collect_token_usage: bool,
    /// How much memory the daemon may take, where that is limited.
    pub memory_limit_bytes: Option<u64>,
}

/// What a daemon starts with. Token use is collected only while transcripts are
/// followed; what was collected goes as soon as it is not wanted.
pub fn startup_plan(
    transcript_streaming: bool,
    token_usage_metrics: bool,
    memory_limit_mb: Option<u64>,
) -> (r: StartupPlan)
    ensures
        r.remove_token_usage == !token_usage_metrics,
        r.follow_transcripts == transcript_streaming,
        r.collect_token_usage == (transcript_streaming && token_usage_metrics),
        r.memory_limit_bytes == (match memory_limit_mb {
            Some(mb) => if mb * MEBIBYTE_BYTES <= u64::MAX {
                Some((mb * MEBIBYTE_BYTES) as u64)
            } else {
                None
            },
            None => None,
        }),
{
    let memory_limit_bytes = match memory_limit_mb {
        Some(mb) => mb.checked_mul(MEBIBYTE_BYTES),
        None => None,
    };
    StartupPlan {
        remove_token_usage: !token_usage_metrics,
        follow_transcripts: transcript_streaming,
        collect_token_usage: transcript_streaming && token_usage_metrics,
        memory_limit_bytes,
    }
}

/// For how long a thread is waited for at the end, if there is time left.
pub fn join_budget(deadline_ns: u128, now_ns: u128) -> (r: Option<u128>)
    ensures
        r == (if now_ns >= deadline_ns {
            None
        } else if deadline_ns - now_ns < THREAD_JOIN_LIMIT_NS {
            Some((deadline_ns - now_ns) as u128)
        } else {
            Some(THREAD_JOIN_LIMIT_NS)
        }),
{
    if now_ns >= deadline_ns {
        return None;
    }
    let left: u128 = deadline_ns - now_ns;
    if left < THREAD_JOIN_LIMIT_NS {
        Some(left)
    } else {
        Some(THREAD_JOIN_LIMIT_NS)
    }
}

} // verus!
