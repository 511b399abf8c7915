//! How the daemon comes to rest: it waits for the trace, and for what it accepted.
use vstd::prelude::*;

verus! {

/// How long a wait for accepted checkpoints pauses.
pub const CHECKPOINT_DRAIN_PAUSE_NS: u128 = 50_000_000;

/// How long a wait for a family pauses.
pub const FAMILY_SYNC_PAUSE_NS: u128 = 25_000_000;

/// What happened to a wait for the trace.
#[derive(Debug, Clone, Copy, PartialEq, Eq, Structural)]
pub enum IngestWaitEvent {
    /// It begins, or was woken; so many frames were numbered by now.
    Go { next_seq: u64 },
    /// It was looked how many frames were worked off, or the daemon shuts down.
    Frames { processed_seq: u64, target: u64 },
    /// The fence was looked at: for how long an open root holds it.
    Looked { held: Option<u128> },
    /// The daemon shuts down.
    ShutDown,
}

/// What a wait for the trace does next.
#[derive(Debug, Clone, Copy, PartialEq, Eq, Structural)]
pub enum IngestWaitAction {
    /// Waits until more frames were worked off; those up to this number have to be.
    WaitForFrames { target: u64 },
    /// Looks at the fence.
    Look,
    /// Waits until a fence changes, and no longer than this.
    Pause { ns: u128 },
    /// Ends.
    Finish,
}

/// What a wait for the trace does after an event.
pub fn ingest_wait(event: IngestWaitEvent, shutting_down: bool) -> (r: IngestWaitAction)
    ensures
        r == (match event {
            IngestWaitEvent::Go { next_seq } => IngestWaitAction::WaitForFrames { target: next_seq },
            IngestWaitEvent::Frames { processed_seq, target } => if processed_seq >= target
                || shutting_down {
                IngestWaitAction::Look
            } else {
                IngestWaitAction::WaitForFrames { target }
            },
            IngestWaitEvent::Looked { held: None } => IngestWaitAction::Finish,
            IngestWaitEvent::Looked { held: Some(ns) } => if shutting_down {
                IngestWaitAction::Finish
            } else {
                IngestWaitAction::Pause { ns }
            },
            IngestWaitEvent::ShutDown => IngestWaitAction::Finish,
        }),
{
    match event {
        IngestWaitEvent::Go { next_seq } => IngestWaitAction::WaitForFrames { target: next_seq },
        IngestWaitEvent::Frames { processed_seq, target } => if processed_seq >= target
            || shutting_down {
            IngestWaitAction::Look
        } else {
            IngestWaitAction::WaitForFrames { target }
        },
        IngestWaitEvent::Looked { held } => match held {
            None => IngestWaitAction::Finish,
            Some(ns) => if shutting_down {
                IngestWaitAction::Finish
            } else {
                IngestWaitAction::Pause { ns }
            },
        },
        IngestWaitEvent::ShutDown => IngestWaitAction::Finish,
    }
}

/// What is waited for.
#[derive(Debug, Clone, Copy, PartialEq, Eq, Structural)]
pub enum Settling {
    /// Everything that was accepted.
    Checkpoints,
    /// A family, and with it what was accepted so far.
    Family,
}

/// How far a wait has come.
#[derive(Debug, Clone, Copy, PartialEq, Eq, Structural)]
pub enum SettlePhase {
    /// For what was accepted so far to be admitted.
    Admission,
    /// For nothing to be on its way to a family.
    Unadmitted,
    /// For the family to be known.
    Resolving,
    /// For the trace.
    Trace,
    /// For nothing to be on its way to a family, once the trace was waited for.
    UnadmittedAgain,
    /// For the families to be drained.
    Families,
    /// For a while.
    Pausing,
    /// It has ended.
    Done,
}

/// What happened to a wait.
#[derive(Debug)]
pub enum SettleEvent {
    /// It begins. So many checkpoints were accepted.
    Begin { accepted: u64 },
    /// What was waited for came about.
    Waited,
    /// The family is known, or not.
    Resolved(Result<(), String>),
    /// The families were drained; whether nothing is left.
    Drained { result: Result<(), String>, settled: bool },
    /// The pause is over. So many checkpoints were accepted.
    Paused { accepted: u64 },
}

/// What a wait does next.
#[derive(Debug)]
pub enum SettleAction {
    WaitForAdmission { target: u64 },
    WaitForUnadmitted,
    ResolveFamily,
    WaitForTrace,
    DrainFamilies,
    Sleep { ns: u128 },
    Finish(Result<(), String>),
    /// Nothing: the event does not belong there.
    Ignore,
}

/// Where a wait comes to, and what it does.
pub open spec fn settled_step(
    settling: Settling,
    phase: SettlePhase,
    event: SettleEvent,
) -> (SettlePhase, SettleAction) {
    match (phase, event) {
        (SettlePhase::Admission, SettleEvent::Begin { accepted }) => (
            SettlePhase::Admission,
            SettleAction::WaitForAdmission { target: accepted },
        ),
        (SettlePhase::Admission, SettleEvent::Waited) => (
            SettlePhase::Unadmitted,
            SettleAction::WaitForUnadmitted,
        ),
        (SettlePhase::Unadmitted, SettleEvent::Waited) => match settling {
            Settling::Checkpoints => (SettlePhase::Trace, SettleAction::WaitForTrace),
            Settling::Family => (SettlePhase::Resolving, SettleAction::ResolveFamily),
        },
        (SettlePhase::Resolving, SettleEvent::Resolved(Ok(_))) => (
            SettlePhase::Trace,
            SettleAction::WaitForTrace,
        ),
        (SettlePhase::Resolving, SettleEvent::Resolved(Err(error))) => (
            SettlePhase::Done,
            SettleAction::Finish(Err(error)),
        ),
        (SettlePhase::Trace, SettleEvent::Waited) => match settling {
            Settling::Checkpoints => (SettlePhase::Families, SettleAction::DrainFamilies),
            Settling::Family => (SettlePhase::UnadmittedAgain, SettleAction::WaitForUnadmitted),
        },
        (SettlePhase::UnadmittedAgain, SettleEvent::Waited) => (
            SettlePhase::Families,
            SettleAction::DrainFamilies,
        ),
        (SettlePhase::Families, SettleEvent::Drained { result: Err(error), .. }) => (
            SettlePhase::Done,
            SettleAction::Finish(Err(error)),
        ),
        (SettlePhase::Families, SettleEvent::Drained { result: Ok(_), settled }) => if settled {
            (SettlePhase::Done, SettleAction::Finish(Ok(())))
        } else {
            (
                SettlePhase::Pausing,
                SettleAction::Sleep {
                    ns: match settling {
                        Settling::Checkpoints => CHECKPOINT_DRAIN_PAUSE_NS,
                        Settling::Family => FAMILY_SYNC_PAUSE_NS,
                    },
                },
            )
        },
        (SettlePhase::Pausing, SettleEvent::Paused { accepted }) => match settling {
            Settling::Checkpoints => (
                SettlePhase::Admission,
                SettleAction::WaitForAdmission { target: accepted },
            ),
            Settling::Family => (SettlePhase::UnadmittedAgain, SettleAction::WaitForUnadmitted),
        },
        (phase, _) => (phase, SettleAction::Ignore),
    }
}

/// Takes up what happened to a wait.
pub fn settle(settling: Settling, phase: SettlePhase, event: SettleEvent) -> (r: (
    SettlePhase,
    SettleAction,
))
    ensures
        r == settled_step(settling, phase, event),
{
    match (phase, event) {
        (SettlePhase::Admission, SettleEvent::Begin { accepted }) => (
            SettlePhase::Admission,
            SettleAction::WaitForAdmission { target: accepted },
        ),
        (SettlePhase::Admission, SettleEvent::Waited) => (
            SettlePhase::Unadmitted,
            SettleAction::WaitForUnadmitted,
        ),
        (SettlePhase::Unadmitted, SettleEvent::Waited) => match settling {
            Settling::Checkpoints => (SettlePhase::Trace, SettleAction::WaitForTrace),
            Settling::Family => (SettlePhase::Resolving, SettleAction::ResolveFamily),
        },
        (SettlePhase::Resolving, SettleEvent::Resolved(Ok(_))) => (
            SettlePhase::Trace,
            SettleAction::WaitForTrace,
        ),
        (SettlePhase::Resolving, SettleEvent::Resolved(Err(error))) => (
            SettlePhase::Done,
            SettleAction::Finish(Err(error)),
        ),
        (SettlePhase::Trace, SettleEvent::Waited) => match settling {
            Settling::Checkpoints => (SettlePhase::Families, SettleAction::DrainFamilies),
            Settling::Family => (SettlePhase::UnadmittedAgain, SettleAction::WaitForUnadmitted),
        },
        (SettlePhase::UnadmittedAgain, SettleEvent::Waited) => (
            SettlePhase::Families,
            SettleAction::DrainFamilies,
        ),
        (SettlePhase::Families, SettleEvent::Drained { result, settled }) => match result {
            Err(error) => (SettlePhase::Done, SettleAction::Finish(Err(error))),
            Ok(_) => if settled {
                (SettlePhase::Done, SettleAction::Finish(Ok(())))
            } else {
                let ns: u128 = match settling {
                    Settling::Checkpoints => CHECKPOINT_DRAIN_PAUSE_NS,
                    Settling::Family => FAMILY_SYNC_PAUSE_NS,
                };
                (SettlePhase::Pausing, SettleAction::Sleep { ns })
            },
        },
        (SettlePhase::Pausing, SettleEvent::Paused { accepted }) => match settling {
            Settling::Checkpoints => (
                SettlePhase::Admission,
                SettleAction::WaitForAdmission { target: accepted },
            ),
            Settling::Family => (SettlePhase::UnadmittedAgain, SettleAction::WaitForUnadmitted),
        },
        (phase, _) => (phase, SettleAction::Ignore),
    }
}

/// A wait ends well only when the families were drained and nothing was left.
pub proof fn law_a_good_end_leaves_nothing(
    settling: Settling,
    phase: SettlePhase,
    event: SettleEvent,
)
    requires
        settled_step(settling, phase, event).1 == SettleAction::Finish(Ok(())),
    ensures
        event matches SettleEvent::Drained { result, settled } && result is Ok && settled,
{
}

/// The families are drained only once the trace was waited for, and for a family's sake
/// only once nothing more was on its way.
pub proof fn law_families_are_drained_behind_the_trace(
    settling: Settling,
    phase: SettlePhase,
    event: SettleEvent,
)
    requires
        settled_step(settling, phase, event).1 is DrainFamilies,
    ensures
        event is Waited,
        phase == SettlePhase::Trace || phase == SettlePhase::UnadmittedAgain,
        settling == Settling::Family ==> phase == SettlePhase::UnadmittedAgain,
{
}

} // verus!
