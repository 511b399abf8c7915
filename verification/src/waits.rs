//! Waits with a deadline: for everything to be worked off, and for a transcript that may
//! tell who wrote a commit.
use crate::text::{contains_str, views};
use vstd::prelude::*;

verus! {

/// For how long a commit waits for a transcript, in nanoseconds.
pub const SESSION_EVENT_RECOVERY_PREFLIGHT_WAIT_NS: u128 = 2_000_000_000;

/// How often it looks meanwhile.
pub const SESSION_EVENT_RECOVERY_PREFLIGHT_POLL_NS: u128 = 100_000_000;

/// For how long everything is left alone between two looks.
pub const AWAIT_PAUSE_NS: u128 = 50_000_000;

/// The time that is left.
pub open spec fn left_until(deadline_ns: u128, now_ns: u128) -> u128 {
    if now_ns < deadline_ns {
        (deadline_ns - now_ns) as u128
    } else {
        0
    }
}

/// What came of waiting for everything to be worked off.
#[derive(Debug, Clone, Copy, PartialEq, Eq, Structural)]
pub struct AwaitResult {
    pub done: bool,
    pub timed_out: bool,
    pub metrics_remaining: u64,
    pub notes_remaining: u64,
}

/// What is being waited for.
#[derive(Debug, Clone, Copy, PartialEq, Eq, Structural)]
pub enum AwaitPhase {
    /// The frames.
    Ingest,
    /// The families.
    Drain,
    /// Word on whether there is work left.
    Pending,
    /// A pause.
    Pause,
    /// The transcripts.
    Streams,
    /// The token use.
    Tokens,
    /// The telemetry.
    Telemetry,
    /// Word on whether there is work left at the end.
    Final,
    /// Nothing.
    Done,
}

/// What happened while waiting.
#[derive(Debug, Clone, Copy, PartialEq, Eq, Structural)]
pub enum AwaitEvent {
    Begin,
    /// A wait ended, in time or not.
    Waited { timed_out: bool },
    /// Whether there is work left.
    Pending { work: bool },
    /// The telemetry was sent, but for this much.
    Flushed { metrics_remaining: u64, notes_remaining: u64 },
}

/// What is done next.
#[derive(Debug, Clone, Copy, PartialEq, Eq, Structural)]
pub enum AwaitAction {
    WaitForIngest { limit_ns: u128 },
    DrainFamilies { limit_ns: u128 },
    AskPending,
    Sleep { ns: u128 },
    DrainStreams { limit_ns: u128 },
    DrainTokens { limit_ns: u128 },
    FlushTelemetry { limit_ns: u128 },
    Finish,
}

/// A wait for everything to be worked off.
#[derive(Debug, Clone, Copy, PartialEq, Eq, Structural)]
pub struct AwaitRun {
    pub deadline_ns: u128,
    pub has_streams: bool,
    pub has_tokens: bool,
    pub has_telemetry: bool,
    pub phase: AwaitPhase,
    pub result: AwaitResult,
}

/// The run in another phase.
pub open spec fn in_phase(run: AwaitRun, phase: AwaitPhase) -> AwaitRun {
    AwaitRun { phase, ..run }
}

/// The run with its time over.
pub open spec fn out_of_time(run: AwaitRun) -> AwaitRun {
    AwaitRun {
        phase: AwaitPhase::Final,
        result: AwaitResult { timed_out: true, ..run.result },
        ..run
    }
}

/// Asks for the telemetry, where there is any, else for what is left.
pub open spec fn from_telemetry(run: AwaitRun, now_ns: u128) -> (AwaitRun, AwaitAction) {
    if !run.has_telemetry {
        (in_phase(run, AwaitPhase::Final), AwaitAction::AskPending)
    } else if now_ns >= run.deadline_ns {
        (out_of_time(run), AwaitAction::AskPending)
    } else {
        (
            in_phase(run, AwaitPhase::Telemetry),
            AwaitAction::FlushTelemetry { limit_ns: left_until(run.deadline_ns, now_ns) },
        )
    }
}

/// Asks for the token use, where there is any, else for the telemetry.
pub open spec fn from_tokens(run: AwaitRun, now_ns: u128) -> (AwaitRun, AwaitAction) {
    if !run.has_tokens {
        from_telemetry(run, now_ns)
    } else if now_ns >= run.deadline_ns {
        (out_of_time(run), AwaitAction::AskPending)
    } else {
        (
            in_phase(run, AwaitPhase::Tokens),
            AwaitAction::DrainTokens { limit_ns: left_until(run.deadline_ns, now_ns) },
        )
    }
}

/// Asks for the transcripts, where there are any, else for the token use.
pub open spec fn from_streams(run: AwaitRun, now_ns: u128) -> (AwaitRun, AwaitAction) {
    if !run.has_streams {
        from_tokens(run, now_ns)
    } else if now_ns >= run.deadline_ns {
        (out_of_time(run), AwaitAction::AskPending)
    } else {
        (
            in_phase(run, AwaitPhase::Streams),
            AwaitAction::DrainStreams { limit_ns: left_until(run.deadline_ns, now_ns) },
        )
    }
}

/// Looks at the frames. A daemon that is ending is waited for no longer.
pub open spec fn from_ingest(run: AwaitRun, now_ns: u128, shutting_down: bool) -> (
    AwaitRun,
    AwaitAction,
) {
    if shutting_down || now_ns >= run.deadline_ns {
        (out_of_time(run), AwaitAction::AskPending)
    } else {
        (
            in_phase(run, AwaitPhase::Ingest),
            AwaitAction::WaitForIngest { limit_ns: left_until(run.deadline_ns, now_ns) },
        )
    }
}

/// What an event leads to.
pub open spec fn await_step(run: AwaitRun, event: AwaitEvent, now_ns: u128, shutting_down: bool) -> (
    AwaitRun,
    AwaitAction,
) {
    let late = (out_of_time(run), AwaitAction::AskPending);
    match (run.phase, event) {
        (AwaitPhase::Done, _) => (run, AwaitAction::Finish),
        (AwaitPhase::Final, AwaitEvent::Pending { work }) => (
            AwaitRun {
                phase: AwaitPhase::Done,
                result: AwaitResult {
                    done: !run.result.timed_out && run.result.metrics_remaining == 0
                        && run.result.notes_remaining == 0 && !work,
                    ..run.result
                },
                ..run
            },
            AwaitAction::Finish,
        ),
        (AwaitPhase::Final, _) => (run, AwaitAction::AskPending),
        (_, AwaitEvent::Begin) => from_ingest(run, now_ns, shutting_down),
        (AwaitPhase::Ingest, AwaitEvent::Waited { timed_out }) => if timed_out || shutting_down
            || now_ns >= run.deadline_ns {
            late
        } else {
            (
                in_phase(run, AwaitPhase::Drain),
                AwaitAction::DrainFamilies { limit_ns: left_until(run.deadline_ns, now_ns) },
            )
        },
        (AwaitPhase::Drain, AwaitEvent::Waited { timed_out }) => if timed_out {
            late
        } else {
            (in_phase(run, AwaitPhase::Pending), AwaitAction::AskPending)
        },
        (AwaitPhase::Pending, AwaitEvent::Pending { work }) => if work {
            (in_phase(run, AwaitPhase::Pause), AwaitAction::Sleep { ns: AWAIT_PAUSE_NS })
        } else if shutting_down {
            late
        } else {
            from_streams(run, now_ns)
        },
        (AwaitPhase::Pause, AwaitEvent::Waited { .. }) => from_ingest(run, now_ns, shutting_down),
        (AwaitPhase::Streams, AwaitEvent::Waited { timed_out }) => if timed_out {
            late
        } else {
            from_tokens(run, now_ns)
        },
        (AwaitPhase::Tokens, AwaitEvent::Waited { timed_out }) => if timed_out {
            late
        } else {
            from_telemetry(run, now_ns)
        },
        (AwaitPhase::Telemetry, AwaitEvent::Waited { timed_out }) => if timed_out {
            late
        } else {
            (in_phase(run, AwaitPhase::Final), AwaitAction::AskPending)
        },
        (AwaitPhase::Telemetry, AwaitEvent::Flushed { metrics_remaining, notes_remaining }) => (
            AwaitRun {
                phase: AwaitPhase::Final,
                result: AwaitResult { metrics_remaining, notes_remaining, ..run.result },
                ..run
            },
            AwaitAction::AskPending,
        ),
        _ => late,
    }
}

impl AwaitRun {
    /// A wait that has not begun.
    pub fn new(deadline_ns: u128, has_streams: bool, has_tokens: bool, has_telemetry: bool) -> (r:
        AwaitRun)
        ensures
            r == (AwaitRun {
                deadline_ns,
                has_streams,
                has_tokens,
                has_telemetry,
                phase: AwaitPhase::Pause,
                result: AwaitResult {
                    done: false,
                    timed_out: false,
                    metrics_remaining: 0,
                    notes_remaining: 0,
                },
            }),
    {
        AwaitRun {
            deadline_ns,
            has_streams,
            has_tokens,
            has_telemetry,
            phase: AwaitPhase::Pause,
            result: AwaitResult {
                done: false,
                timed_out: false,
                metrics_remaining: 0,
                notes_remaining: 0,
            },
        }
    }

    fn late(&mut self) -> (r: AwaitAction)
        ensures
            (*final(self), r) == (out_of_time(*old(self)), AwaitAction::AskPending),
    {
        self.phase = AwaitPhase::Final;
        self.result.timed_out = true;
        AwaitAction::AskPending
    }

    fn ask_telemetry(&mut self, now_ns: u128) -> (r: AwaitAction)
        ensures
            (*final(self), r) == from_telemetry(*old(self), now_ns),
    {
        if !self.has_telemetry {
            self.phase = AwaitPhase::Final;
            return AwaitAction::AskPending;
        }
        if now_ns >= self.deadline_ns {
            return self.late();
        }
        self.phase = AwaitPhase::Telemetry;
        AwaitAction::FlushTelemetry { limit_ns: self.deadline_ns - now_ns }
    }

    fn ask_tokens(&mut self, now_ns: u128) -> (r: AwaitAction)
        ensures
            (*final(self), r) == from_tokens(*old(self), now_ns),
    {
        if !self.has_tokens {
            return self.ask_telemetry(now_ns);
        }
        if now_ns >= self.deadline_ns {
            return self.late();
        }
        self.phase = AwaitPhase::Tokens;
        AwaitAction::DrainTokens { limit_ns: self.deadline_ns - now_ns }
    }

    fn ask_streams(&mut self, now_ns: u128) -> (r: AwaitAction)
        ensures
            (*final(self), r) == from_streams(*old(self), now_ns),
    {
        if !self.has_streams {
            return self.ask_tokens(now_ns);
        }
        if now_ns >= self.deadline_ns {
            return self.late();
        }
        self.phase = AwaitPhase::Streams;
        AwaitAction::DrainStreams { limit_ns: self.deadline_ns - now_ns }
    }

    fn ask_ingest(&mut self, now_ns: u128, shutting_down: bool) -> (r: AwaitAction)
        ensures
            (*final(self), r) == from_ingest(*old(self), now_ns, shutting_down),
    {
        if shutting_down || now_ns >= self.deadline_ns {
            return self.late();
        }
        self.phase = AwaitPhase::Ingest;
        AwaitAction::WaitForIngest { limit_ns: self.deadline_ns - now_ns }
    }

    /// Takes in what happened while waiting and says what is done next.
    pub fn step(&mut self, event: AwaitEvent, now_ns: u128, shutting_down: bool) -> (r: AwaitAction)
        ensures
            (*final(self), r) == await_step(*old(self), event, now_ns, shutting_down),
    {
        match (self.phase, event) {
            (AwaitPhase::Done, _) => AwaitAction::Finish,
            (AwaitPhase::Final, AwaitEvent::Pending { work }) => {
                self.phase = AwaitPhase::Done;
                self.result.done = !self.result.timed_out && self.result.metrics_remaining == 0
                    && self.result.notes_remaining == 0 && !work;
                AwaitAction::Finish
            },
            (AwaitPhase::Final, _) => AwaitAction::AskPending,
            (_, AwaitEvent::Begin) => self.ask_ingest(now_ns, shutting_down),
            (AwaitPhase::Ingest, AwaitEvent::Waited { timed_out }) => {
                if timed_out || shutting_down || now_ns >= self.deadline_ns {
                    return self.late();
                }
                self.phase = AwaitPhase::Drain;
                AwaitAction::DrainFamilies { limit_ns: self.deadline_ns - now_ns }
            },
            (AwaitPhase::Drain, AwaitEvent::Waited { timed_out }) => {
                if timed_out {
                    return self.late();
                }
                self.phase = AwaitPhase::Pending;
                AwaitAction::AskPending
            },
            (AwaitPhase::Pending, AwaitEvent::Pending { work }) => {
                if work {
                    self.phase = AwaitPhase::Pause;
                    AwaitAction::Sleep { ns: AWAIT_PAUSE_NS }
                } else if shutting_down {
                    self.late()
                } else {
                    self.ask_streams(now_ns)
                }
            },
            (AwaitPhase::Pause, AwaitEvent::Waited { .. }) => self.ask_ingest(
                now_ns,
                shutting_down,
            ),
            (AwaitPhase::Streams, AwaitEvent::Waited { timed_out }) => if timed_out {
                self.late()
            } else {
                self.ask_tokens(now_ns)
            },
            (AwaitPhase::Tokens, AwaitEvent::Waited { timed_out }) => if timed_out {
                self.late()
            } else {
                self.ask_telemetry(now_ns)
            },
            (AwaitPhase::Telemetry, AwaitEvent::Waited { timed_out }) => if timed_out {
                self.late()
            } else {
                self.phase = AwaitPhase::Final;
                AwaitAction::AskPending
            },
            (AwaitPhase::Telemetry, AwaitEvent::Flushed { metrics_remaining, notes_remaining }) => {
                self.phase = AwaitPhase::Final;
                self.result.metrics_remaining = metrics_remaining;
                self.result.notes_remaining = notes_remaining;
                AwaitAction::AskPending
            },
            _ => self.late(),
        }
    }
}

/// For how long an action may take.
pub open spec fn limit_of(action: AwaitAction) -> Option<u128> {
    match action {
        AwaitAction::WaitForIngest { limit_ns } => Some(limit_ns),
        AwaitAction::DrainFamilies { limit_ns } => Some(limit_ns),
        AwaitAction::DrainStreams { limit_ns } => Some(limit_ns),
        AwaitAction::DrainTokens { limit_ns } => Some(limit_ns),
        AwaitAction::FlushTelemetry { limit_ns } => Some(limit_ns),
        _ => None,
    }
}

/// No wait reaches past the deadline.
pub proof fn law_waits_end_at_the_deadline(
    run: AwaitRun,
    event: AwaitEvent,
    now_ns: u128,
    shutting_down: bool,
)
    ensures
        limit_of(await_step(run, event, now_ns, shutting_down).1) matches Some(limit) ==> now_ns
            + limit == run.deadline_ns && limit > 0,
{
}

/// A wait is done only when it did not run out of time, nothing is left to send and
/// nothing is left to work off; and it does not get its time back.
pub proof fn law_done_means_nothing_is_left(
    run: AwaitRun,
    event: AwaitEvent,
    now_ns: u128,
    shutting_down: bool,
)
    requires
        !run.result.done,
    ensures
        ({
            let after = await_step(run, event, now_ns, shutting_down).0;
            &&& after.result.done ==> !after.result.timed_out && after.result.metrics_remaining == 0
                && after.result.notes_remaining == 0 && event == (AwaitEvent::Pending {
                work: false,
            })
            &&& run.result.timed_out ==> after.result.timed_out
        }),
{
}

/// The times that files were last touched, by path.
pub type FileTimes = Vec<(String, Vec<u64>)>;

/// The times that were noted when a commit was made, once they were waited for: no files
/// are as good as none noted.
pub fn noted_times(captured: Option<FileTimes>) -> (r: Option<FileTimes>)
    ensures
        r == (match captured {
            Some(times) if times@.len() > 0 => Some(times),
            _ => None,
        }),
{
    match captured {
        Some(times) => {
            if times.len() > 0 {
                Some(times)
            } else {
                None
            }
        },
        None => None,
    }
}

/// The times of some files, one behind the other; of those listed, or of all.
pub open spec fn times_of(files: Seq<(String, Vec<u64>)>, only: Option<Seq<Seq<char>>>) -> Seq<u64>
    decreases files.len(),
{
    if files.len() == 0 {
        Seq::empty()
    } else {
        let before = times_of(files.drop_last(), only);
        if only is None || (only->0).contains(files.last().0@) {
            before + files.last().1@
        } else {
            before
        }
    }
}

/// The times of some files, where they are known.
pub open spec fn known_times(files: Option<FileTimes>, only: Option<Seq<Seq<char>>>) -> Seq<u64> {
    match files {
        Some(list) => times_of(list@, only),
        None => Seq::empty(),
    }
}

/// The times that a commit's unexplained lines may stem from: those of the files that hold
/// them, as they were noted, else as they are; else those of all files, noted or as they are.
pub open spec fn recovery_times(
    noted: Option<FileTimes>,
    current: Option<FileTimes>,
    unknown: Seq<Seq<char>>,
) -> Seq<u64> {
    if known_times(noted, Some(unknown)).len() > 0 {
        known_times(noted, Some(unknown))
    } else if known_times(current, Some(unknown)).len() > 0 {
        known_times(current, Some(unknown))
    } else if known_times(noted, None).len() > 0 {
        known_times(noted, None)
    } else {
        known_times(current, None)
    }
}

/// The files that are wanted.
pub open spec fn wanted_files(only: Option<Vec<String>>) -> Option<Seq<Seq<char>>> {
    match only {
        Some(list) => Some(views(list@)),
        None => None,
    }
}

fn gather(files: &Option<FileTimes>, only: &Option<Vec<String>>) -> (r: Vec<u64>)
    ensures
        r@ == known_times(*files, wanted_files(*only)),
{
    let mut out: Vec<u64> = Vec::new();
    let files = match files {
        Some(files) => files,
        None => {
            assert(out@ =~= Seq::<u64>::empty());
            return out;
        },
    };
    let ghost wanted = wanted_files(*only);
    let mut i: usize = 0;
    assert(files@.take(0) =~= Seq::<(String, Vec<u64>)>::empty());
    while i < files.len()
        invariant
            i <= files.len(),
            wanted == wanted_files(*only),
            out@ == times_of(files@.take(i as int), wanted),
        decreases files.len() - i,
    {
        assert(files@.take(i + 1).drop_last() =~= files@.take(i as int));
        let counts = match only {
            Some(list) => contains_str(list, files[i].0.as_str()),
            None => true,
        };
        if counts {
            let ghost before = out@;
            let times = &files[i].1;
            let mut j: usize = 0;
            assert(before + times@.take(0) =~= before);
            while j < times.len()
                invariant
                    j <= times.len(),
                    out@ == before + times@.take(j as int),
                decreases times.len() - j,
            {
                out.push(times[j]);
                assert(out@ =~= before + times@.take(j + 1));
                j += 1;
            }
            assert(times@.take(times@.len() as int) =~= times@);
        }
        i += 1;
    }
    assert(files@.take(files@.len() as int) =~= files@);
    out
}

/// Whether the files have to be looked at as they are: nothing was noted of those that
/// hold unexplained lines.
pub fn needs_current_times(noted: &Option<FileTimes>, unknown: &Vec<String>) -> (r: bool)
    ensures
        r == (known_times(*noted, Some(views(unknown@))).len() == 0),
{
    let only = Some(crate::text::clone_strings(unknown));
    gather(noted, &only).len() == 0
}

/// Whether the times stand in order, each once.
pub open spec fn increasing(times: Seq<u64>) -> bool {
    forall|i: int, j: int| 0 <= i < j < times.len() ==> times[i] < times[j]
}

fn insert_time(times: &mut Vec<u64>, t: u64)
    requires
        increasing(old(times)@),
    ensures
        increasing(final(times)@),
        final(times)@.to_set() == old(times)@.to_set().insert(t),
{
    let mut at: usize = 0;
    while at < times.len() && times[at] < t
        invariant
            at <= times.len(),
            times@ == old(times)@,
            forall|i: int| 0 <= i < at ==> times@[i] < t,
        decreases times.len() - at,
    {
        at += 1;
    }
    if at < times.len() && times[at] == t {
        assert(old(times)@.contains(t));
        assert(old(times)@.to_set().insert(t) =~= old(times)@.to_set());
        return;
    }
    let ghost before = times@;
    times.insert(at, t);
    proof {
        let after = times@;
        assert forall|x: u64| after.contains(x) == (before.contains(x) || x == t) by {
            if after.contains(x) {
                let i = after.index_of(x);
                if i < at {
                    assert(before[i] == x);
                } else if i > at {
                    assert(before[i - 1] == x);
                }
            }
            if before.contains(x) {
                let i = before.index_of(x);
                if i < at {
                    assert(after[i] == x);
                } else {
                    assert(after[i + 1] == x);
                }
            }
            assert(after[at as int] == t);
        }
        assert(after.to_set() =~= before.to_set().insert(t));
        assert forall|i: int, j: int| 0 <= i < j < after.len() implies after[i] < after[j] by {
            if i != at && j != at {
                let a = if i < at { i } else { i - 1 };
                let b = if j < at { j } else { j - 1 };
                assert(before[a] < before[b]);
            } else if i == at {
                assert(before[at as int] <= before[j - 1]);
            }
        }
    }
}

/// The times that a commit's unexplained lines may stem from, in order, each once.
pub fn recovery_timestamps(
    noted: &Option<FileTimes>,
    current: &Option<FileTimes>,
    unknown: &Vec<String>,
) -> (r: Vec<u64>)
    ensures
        increasing(r@),
        r@.to_set() == recovery_times(*noted, *current, views(unknown@)).to_set(),
{
    let only = Some(crate::text::clone_strings(unknown));
    let mut times = gather(noted, &only);
    if times.len() == 0 {
        times = gather(current, &only);
    }
    if times.len() == 0 {
        times = gather(noted, &None);
    }
    if times.len() == 0 {
        times = gather(current, &None);
    }
    let ghost all = times@;
    let mut out: Vec<u64> = Vec::new();
    let mut i: usize = 0;
    assert(out@.to_set() =~= all.take(0).to_set());
    while i < times.len()
        invariant
            i <= times.len(),
            all == times@,
            increasing(out@),
            out@.to_set() == all.take(i as int).to_set(),
        decreases times.len() - i,
    {
        insert_time(&mut out, times[i]);
        proof {
            let some = all.take(i as int);
            let more = all.take(i + 1);
            assert forall|x: u64| more.contains(x) == (some.contains(x) || x == all[i as int]) by {
                if more.contains(x) {
                    let j = more.index_of(x);
                    if j < i {
                        assert(some[j] == x);
                    }
                }
                if some.contains(x) {
                    assert(more[some.index_of(x)] == x);
                }
                assert(more[i as int] == all[i as int]);
            }
            assert(more.to_set() =~= some.to_set().insert(all[i as int]));
        }
        i += 1;
    }
    assert(all.take(all.len() as int) =~= all);
    out
}

/// How a commit waits for a transcript.
#[derive(Debug, Clone, Copy, PartialEq, Eq, Structural)]
pub enum PreflightPhase {
    /// It is asked for the first time whether the transcript is there.
    Asking,
    /// A sweep is being started.
    Starting { deadline_ns: u128 },
    /// A sweep is under way.
    Sweeping { deadline_ns: u128 },
    /// A pause.
    Pausing { deadline_ns: u128 },
    /// It is asked again.
    AskingAgain { deadline_ns: u128 },
    Done,
}

/// What happened while a commit waited.
#[derive(Debug, Clone, Copy, PartialEq, Eq, Structural)]
pub enum PreflightEvent {
    /// Whether the transcript is there, where that is known.
    Answer(Option<bool>),
    /// Whether a sweep was started.
    SweepStarted(bool),
    /// Whether a sweep ended well and in time.
    SweepEnded(bool),
    Slept,
}

/// What is done next.
#[derive(Debug, Clone, Copy, PartialEq, Eq, Structural)]
pub enum PreflightAction {
    Ask,
    StartSweep,
    WaitForSweep { limit_ns: u128 },
    Sleep { ns: u128 },
    Finish,
}

/// Pauses, as long as there is time.
pub open spec fn pauses(deadline_ns: u128, now_ns: u128) -> (PreflightPhase, PreflightAction) {
    let left = left_until(deadline_ns, now_ns);
    if left == 0 {
        (PreflightPhase::Done, PreflightAction::Finish)
    } else {
        (
            PreflightPhase::Pausing { deadline_ns },
            PreflightAction::Sleep {
                ns: if left < SESSION_EVENT_RECOVERY_PREFLIGHT_POLL_NS {
                    left
                } else {
                    SESSION_EVENT_RECOVERY_PREFLIGHT_POLL_NS
                },
            },
        )
    }
}

/// What an event leads to. Only when it is certain that the transcript is not there yet
/// is a sweep worth waiting for.
pub open spec fn preflight_step(phase: PreflightPhase, event: PreflightEvent, now_ns: u128) -> (
    PreflightPhase,
    PreflightAction,
) {
    let over = (PreflightPhase::Done, PreflightAction::Finish);
    match (phase, event) {
        (PreflightPhase::Asking, PreflightEvent::Answer(answer)) => if answer == Some(false) {
            let deadline_ns = if now_ns <= u128::MAX - SESSION_EVENT_RECOVERY_PREFLIGHT_WAIT_NS {
                (now_ns + SESSION_EVENT_RECOVERY_PREFLIGHT_WAIT_NS) as u128
            } else {
                u128::MAX
            };
            (PreflightPhase::Starting { deadline_ns }, PreflightAction::StartSweep)
        } else {
            over
        },
        (PreflightPhase::Starting { deadline_ns }, PreflightEvent::SweepStarted(started)) => {
            let left = left_until(deadline_ns, now_ns);
            if !started || left == 0 {
                over
            } else {
                (
                    PreflightPhase::Sweeping { deadline_ns },
                    PreflightAction::WaitForSweep { limit_ns: left },
                )
            }
        },
        (PreflightPhase::Sweeping { deadline_ns }, PreflightEvent::SweepEnded(well)) => if !well {
            over
        } else {
            pauses(deadline_ns, now_ns)
        },
        (PreflightPhase::Pausing { deadline_ns }, PreflightEvent::Slept) => (
            PreflightPhase::AskingAgain { deadline_ns },
            PreflightAction::Ask,
        ),
        (PreflightPhase::AskingAgain { deadline_ns }, PreflightEvent::Answer(answer)) => if answer
            == Some(false) {
            pauses(deadline_ns, now_ns)
        } else {
            over
        },
        _ => over,
    }
}

fn pause(deadline_ns: u128, now_ns: u128) -> (r: (PreflightPhase, PreflightAction))
    ensures
        r == pauses(deadline_ns, now_ns),
{
    let left: u128 = deadline_ns.saturating_sub(now_ns);
    if left == 0 {
        return (PreflightPhase::Done, PreflightAction::Finish);
    }
    let ns: u128 = if left < SESSION_EVENT_RECOVERY_PREFLIGHT_POLL_NS {
        left
    } else {
        SESSION_EVENT_RECOVERY_PREFLIGHT_POLL_NS
    };
    (PreflightPhase::Pausing { deadline_ns }, PreflightAction::Sleep { ns })
}

/// Takes in what happened while a commit waits for a transcript.
pub fn recovery_preflight(phase: PreflightPhase, event: PreflightEvent, now_ns: u128) -> (r: (
    PreflightPhase,
    PreflightAction,
))
    ensures
        r == preflight_step(phase, event, now_ns),
{
    let over = (PreflightPhase::Done, PreflightAction::Finish);
    match (phase, event) {
        (PreflightPhase::Asking, PreflightEvent::Answer(Some(false))) => {
            let deadline_ns: u128 = now_ns.saturating_add(SESSION_EVENT_RECOVERY_PREFLIGHT_WAIT_NS);
            (PreflightPhase::Starting { deadline_ns }, PreflightAction::StartSweep)
        },
        (PreflightPhase::Starting { deadline_ns }, PreflightEvent::SweepStarted(started)) => {
            let left: u128 = deadline_ns.saturating_sub(now_ns);
            if !started || left == 0 {
                return over;
            }
            (
                PreflightPhase::Sweeping { deadline_ns },
                PreflightAction::WaitForSweep { limit_ns: left },
            )
        },
        (PreflightPhase::Sweeping { deadline_ns }, PreflightEvent::SweepEnded(true)) => pause(
            deadline_ns,
            now_ns,
        ),
        (PreflightPhase::Pausing { deadline_ns }, PreflightEvent::Slept) => (
            PreflightPhase::AskingAgain { deadline_ns },
            PreflightAction::Ask,
        ),
        (PreflightPhase::AskingAgain { deadline_ns }, PreflightEvent::Answer(Some(false))) => pause(
            deadline_ns,
            now_ns,
        ),
        _ => over,
    }
}

/// A commit never waits past its deadline, which lies two seconds behind the first answer.
pub proof fn law_commits_wait_a_bounded_time(
    phase: PreflightPhase,
    event: PreflightEvent,
    now_ns: u128,
)
    requires
        now_ns <= u128::MAX - SESSION_EVENT_RECOVERY_PREFLIGHT_WAIT_NS,
    ensures
        ({
            let (after, action) = preflight_step(phase, event, now_ns);
            &&& after matches PreflightPhase::Starting { deadline_ns } ==> deadline_ns == now_ns
                + SESSION_EVENT_RECOVERY_PREFLIGHT_WAIT_NS
            &&& action matches PreflightAction::WaitForSweep { limit_ns } ==> (after matches
                PreflightPhase::Sweeping { deadline_ns } && now_ns + limit_ns == deadline_ns)
            &&& action matches PreflightAction::Sleep { ns } ==> (after matches
                PreflightPhase::Pausing { deadline_ns } && now_ns + ns <= deadline_ns)
        }),
{
}

/// A transcript that is there, or of which nothing is known, is not waited for.
pub proof fn law_only_a_certain_absence_is_waited_for(
    phase: PreflightPhase,
    answer: Option<bool>,
    now_ns: u128,
)
    requires
        answer != Some(false),
    ensures
        preflight_step(phase, PreflightEvent::Answer(answer), now_ns).1 == PreflightAction::Finish,
{
}

} // verus!
