//! What is let in, how often the daemon restarts, and when families are drained and settled.
use crate::drain::{checkpoint_outcome, finish_command, CommandPass};
use crate::drain_schedule::{
    drained_all, drains_after_root_cleared, DrainAction, DrainEvent, DrainedAll, ScheduledDrains,
};
use crate::effects::SideEffectErrors;
use crate::ingress::FenceScope;
use crate::quota::{
    CheckpointIngressQuota, CheckpointIngressQuotaError, CheckpointIngressReservation,
};
use crate::restart_budget::{
    consume_self_restart_budget, give_restart_back, history_entries, refund_self_restart_budget,
    take_restart, BudgetDecision, HistoryFile,
};
use crate::sequencer::{EntryKind, FamilyFrontDisposition, FamilySequencers};
use crate::settle::{
    ingest_wait, settle, IngestWaitAction, IngestWaitEvent, SettleAction, SettleEvent, SettlePhase,
    Settling,
};
use crate::text::{opt_view, views};
use vstd::prelude::*;

verus! {

/// What is let in never goes over the limits: a request is let in exactly when there is room
/// for one more and for its bytes, and then both are counted.
pub proof fn law_requests_are_let_in_while_there_is_room(
    quota: &mut CheckpointIngressQuota,
    bytes: usize,
    before: (usize, usize),
    after: (usize, usize),
    r: Result<CheckpointIngressReservation, CheckpointIngressQuotaError>,
)
    requires
        old(quota).wf(),
        call_ensures(CheckpointIngressQuota::outstanding, (old(quota),), before),
        call_ensures(CheckpointIngressQuota::reserve, (quota, bytes), r),
        call_ensures(CheckpointIngressQuota::outstanding, (final(quota),), after),
    ensures
        r is Ok <==> before.0 + 1 <= old(quota).request_limit && before.1 + bytes <= old(
            quota,
        ).byte_limit,
        r is Ok ==> after.0 == before.0 + 1 && after.1 == before.1 + bytes,
        r is Err ==> after == before,
        r is Err && before.0 >= old(quota).request_limit ==> r->Err_0.reason@ == "request_limit"@,
        r is Err && before.0 < old(quota).request_limit ==> r->Err_0.reason@ == "byte_limit"@,
        r is Err ==> r->Err_0.outstanding_requests == before.0 && r->Err_0.outstanding_bytes
            == before.1 && r->Err_0.requested_bytes == bytes,
        after.0 <= final(quota).request_limit && after.1 <= final(quota).byte_limit,
        final(quota).request_limit == old(quota).request_limit,
        final(quota).byte_limit == old(quota).byte_limit,
{
}

/// What was let in leaves, when it is done, just the room that it took.
pub proof fn law_room_is_given_back(
    first: &mut CheckpointIngressQuota,
    second: &mut CheckpointIngressQuota,
    bytes: usize,
    r: Result<CheckpointIngressReservation, CheckpointIngressQuotaError>,
    size: usize,
)
    requires
        old(first).wf(),
        call_ensures(CheckpointIngressQuota::reserve, (first, bytes), r),
        r is Ok,
        *final(first) == *old(second),
        call_ensures(CheckpointIngressReservation::body_bytes, (&r->Ok_0,), size),
        call_ensures(CheckpointIngressQuota::release, (second, r->Ok_0), ()),
    ensures
        *final(second) == *old(first),
        size == bytes,
{
}

/// A new quota has all its room.
pub proof fn law_a_new_quota_is_empty(
    requests: usize,
    bytes: usize,
    quota: CheckpointIngressQuota,
    r: (usize, usize),
)
    requires
        call_ensures(CheckpointIngressQuota::new, (requests, bytes), quota),
        call_ensures(CheckpointIngressQuota::outstanding, (&quota,), r),
    ensures
        r.0 == 0 && r.1 == 0,
        quota.request_limit == requests && quota.byte_limit == bytes,
{
}

proof fn lemma_counted(history: Seq<u64>, now: u64, window: u64)
    ensures
        crate::restart_budget::counted(history, now, window) == history.filter(
            |t: u64| t <= now && now - t < window,
        ),
    decreases history.len(),
{
    reveal(Seq::filter);
    if history.len() > 0 {
        lemma_counted(history.drop_last(), now, window);
    }
}

/// A restart is allowed while fewer than the most that are allowed fall into the window that
/// ends now. The history that is kept is what falls into it, with this restart if it is allowed.
pub proof fn law_restarts_are_counted_over_a_window(
    history: Vec<u64>,
    now: u64,
    window: u64,
    max: usize,
    r: (bool, Vec<u64>),
)
    requires
        call_ensures(take_restart, (&history, now, window, max), r),
    ensures
        ({
            let recent = history@.filter(|t: u64| t <= now && now - t < window);
            &&& r.0 <==> recent.len() < max
            &&& r.0 ==> r.1@ == recent.push(now)
            &&& !r.0 ==> r.1@ == recent
        }),
{
    lemma_counted(history@, now, window);
}

/// A restart that is given back takes the newest time out of the history.
pub proof fn law_a_restart_given_back_is_not_counted(history: Vec<u64>, r: Vec<u64>, now: u64)
    requires
        call_ensures(give_restart_back, (history,), r),
    ensures
        history@.len() > 0 ==> r@ == history@.drop_last(),
        history@.len() == 0 ==> r@.len() == 0,
{
}

/// What the history file says decides on a restart: nothing yet is an empty history, a file
/// that cannot be read or makes no sense allows none.
pub proof fn law_the_history_decides_on_restarts(
    now: u64,
    window: u64,
    max: usize,
    text: String,
    history: Vec<u64>,
    taken: (bool, Vec<u64>),
    missing: BudgetDecision,
    unreadable: BudgetDecision,
    told: BudgetDecision,
)
    requires
        window > 0,
        call_ensures(consume_self_restart_budget, (&HistoryFile::Missing, now, window, max), missing),
        call_ensures(
            consume_self_restart_budget,
            (&HistoryFile::Unreadable, now, window, max),
            unreadable,
        ),
        call_ensures(
            consume_self_restart_budget,
            (&HistoryFile::Text(text), now, window, max),
            told,
        ),
        call_ensures(take_restart, (&history, now, window, max), taken),
    ensures
        unreadable is Deny,
        max > 0 ==> missing is AllowOnceWritten,
        max == 0 ==> missing is DenyAndWrite,
        history_entries(text@) is None ==> told is DenyAndRemove,
        history_entries(text@) == Some(history@) ==> (told is AllowOnceWritten <==> taken.0) && (
        told is DenyAndWrite <==> !taken.0),
        history_entries(text@) == Some(history@) && told is AllowOnceWritten ==> history_entries(
            told->AllowOnceWritten_0@,
        ) == Some(taken.1@),
        history_entries(text@) == Some(history@) && told is DenyAndWrite ==> history_entries(
            told->DenyAndWrite_0@,
        ) == Some(taken.1@),
{
}

/// A restart that was allowed and is given back leaves the history as it was, but for what has
/// fallen out of the window.
pub proof fn law_a_restart_can_be_given_back(
    file: HistoryFile,
    now: u64,
    window: u64,
    max: usize,
    history: Seq<u64>,
    r: BudgetDecision,
    back: Option<String>,
)
    requires
        call_ensures(consume_self_restart_budget, (&file, now, window, max), r),
        r is AllowOnceWritten,
        file is Text && history_entries(file->Text_0@) == Some(history),
        call_ensures(
            refund_self_restart_budget,
            (&HistoryFile::Text(r->AllowOnceWritten_0),),
            back,
        ),
    ensures
        back is Some && history_entries(back->0@) == Some(
            history.filter(|t: u64| t <= now && now - t < window),
        ),
{
    lemma_counted(history, now, window);
    let kept = crate::restart_budget::counted(history, now, window);
    assert(kept.push(now).drop_last() =~= kept);
}

/// A family is drained by one drain at a time: a second one is not scheduled until the first
/// ends, and then it is.
pub proof fn law_a_family_has_one_drain(
    first: &mut ScheduledDrains,
    second: &mut ScheduledDrains,
    third: &mut ScheduledDrains,
    fourth: &mut ScheduledDrains,
    family: &str,
    event: DrainEvent,
    a: bool,
    b: bool,
    c: bool,
    action: DrainAction,
)
    requires
        call_ensures(ScheduledDrains::schedule_family_drain, (first, family), a),
        *final(first) == *old(second),
        call_ensures(ScheduledDrains::schedule_family_drain, (second, family), b),
        *final(second) == *old(third),
        call_ensures(ScheduledDrains::step, (third, family, event), action),
        *final(third) == *old(fourth),
        call_ensures(ScheduledDrains::schedule_family_drain, (fourth, family), c),
    ensures
        a <==> !old(first).families@.contains_key(family@),
        !b,
        c <==> action is End,
{
}

/// A drain goes on while something can be worked off, waits while something is held, and ends
/// when there is nothing, when a pass fails and when the daemon shuts down.
pub proof fn law_drains_go_on_while_there_is_work(
    drains: &mut ScheduledDrains,
    family: &str,
    event: DrainEvent,
    held: Option<u128>,
    front: FamilyFrontDisposition,
    r: DrainAction,
)
    requires
        call_ensures(ScheduledDrains::step, (drains, family, event), r),
    ensures
        event is Go ==> r is Pass,
        event is Failed || event is ShutDown ==> r is End,
        event == (DrainEvent::Passed { held, front }) && held is Some ==> r == (DrainAction::Wait {
            ns: held->0,
        }),
        event == (DrainEvent::Passed { held, front }) && held is None && front is Ready ==> r
            is Pass,
        event == (DrainEvent::Passed { held, front }) && held is None && front is Idle ==> r is End,
        event == (DrainEvent::Passed { held, front }) && held is None && front is Fenced ==> r == (
        DrainAction::Wait { ns: front->retry_in_ns }),
{
}

/// A root that clears sets going the drains that it held: that of its family, or of every
/// family with entries, or none.
pub proof fn law_a_cleared_root_sets_drains_going(
    sequencers: FamilySequencers,
    name: String,
    family: Seq<char>,
    none: Vec<String>,
    one: Vec<String>,
    every: Vec<String>,
)
    requires
        call_ensures(drains_after_root_cleared, (None, &sequencers), none),
        call_ensures(
            drains_after_root_cleared,
            (Some(FenceScope::Family(name)), &sequencers),
            one,
        ),
        call_ensures(
            drains_after_root_cleared,
            (Some(FenceScope::EveryFamily), &sequencers),
            every,
        ),
    ensures
        none@.len() == 0,
        one@.len() == 1 && one@[0]@ == name@,
        views(every@).contains(family) <==> sequencers.entries(family).len() > 0,
{
    assert(views(one@).len() == one@.len());
    assert(views(one@)[0] == one@[0]@);
}

proof fn lemma_outcomes(outcomes: Seq<(String, Result<Option<u128>, String>)>, family: Seq<char>)
    ensures
        crate::drain_schedule::held_families(outcomes).contains(family) <==> exists|i: int|
            0 <= i < outcomes.len() && (#[trigger] outcomes[i]).0@ == family && outcomes[i].1 is Ok
                && outcomes[i].1->Ok_0 is Some,
        crate::drain_schedule::first_error(outcomes) is None <==> forall|i: int|
            0 <= i < outcomes.len() ==> (#[trigger] outcomes[i]).1 is Ok,
        crate::drain_schedule::first_error(outcomes) is Some ==> exists|i: int|
            0 <= i < outcomes.len() && (#[trigger] outcomes[i]).1 is Err && outcomes[i].1->Err_0@
                == crate::drain_schedule::first_error(outcomes)->0 && forall|k: int|
                0 <= k < i ==> (#[trigger] outcomes[k]).1 is Ok,
    decreases outcomes.len(),
{
    if outcomes.len() > 0 {
        let rest = outcomes.drop_last();
        let last = outcomes.last();
        lemma_outcomes(rest, family);
        assert(outcomes[outcomes.len() - 1] == last);
        assert(forall|i: int| 0 <= i < rest.len() ==> rest[i] == #[trigger] outcomes[i]);
        let before = crate::drain_schedule::held_families(rest);
        let all = crate::drain_schedule::held_families(outcomes);
        if before.contains(family) {
            assert(all[before.index_of(family)] == family);
            let i = choose|i: int|
                0 <= i < rest.len() && (#[trigger] rest[i]).0@ == family && rest[i].1 is Ok
                    && rest[i].1->Ok_0 is Some;
            assert(outcomes[i].0@ == family);
        }
        if last.1 is Ok && last.1->Ok_0 is Some {
            assert(all[before.len() as int] == last.0@);
            if all.contains(family) && last.0@ != family {
                assert(before[all.index_of(family)] == family);
            }
        }
        if exists|i: int|
            0 <= i < outcomes.len() && (#[trigger] outcomes[i]).0@ == family && outcomes[i].1 is Ok
                && outcomes[i].1->Ok_0 is Some {
            let i = choose|i: int|
                0 <= i < outcomes.len() && (#[trigger] outcomes[i]).0@ == family && outcomes[i].1
                    is Ok && outcomes[i].1->Ok_0 is Some;
            if i < rest.len() {
                assert(rest[i].0@ == family);
            }
        }
        if crate::drain_schedule::first_error(rest) is Some {
            let i = choose|i: int|
                0 <= i < rest.len() && (#[trigger] rest[i]).1 is Err && rest[i].1->Err_0@
                    == crate::drain_schedule::first_error(rest)->0 && forall|k: int|
                    0 <= k < i ==> (#[trigger] rest[k]).1 is Ok;
            assert(outcomes[i].1 is Err);
        } else {
            assert forall|k: int| 0 <= k < outcomes.len() - 1 implies (#[trigger] outcomes[k]).1
                is Ok by {
                assert(rest[k].1 is Ok);
            }
        }
    }
}

/// After all families were drained, those that are held are drained again, and only those; the
/// first error of all is told, and none when all went well.
pub proof fn law_held_families_are_drained_again(
    outcomes: Vec<(String, Result<Option<u128>, String>)>,
    r: DrainedAll,
    i: int,
    family: Seq<char>,
)
    requires
        call_ensures(drained_all, (&outcomes,), r),
        0 <= i < outcomes@.len(),
    ensures
        outcomes@[i].1 is Ok && outcomes@[i].1->Ok_0 is Some ==> views(r.again@).contains(
            outcomes@[i].0@,
        ),
        views(r.again@).contains(family) ==> exists|k: int|
            0 <= k < outcomes@.len() && (#[trigger] outcomes@[k]).0@ == family && outcomes@[k].1
                is Ok && outcomes@[k].1->Ok_0 is Some,
        outcomes@[i].1 is Err && (forall|k: int| 0 <= k < i ==> (#[trigger] outcomes@[k]).1 is Ok)
            ==> opt_view(r.error) == Some(outcomes@[i].1->Err_0@),
        (forall|k: int| 0 <= k < outcomes@.len() ==> (#[trigger] outcomes@[k]).1 is Ok) ==> r.error
            is None,
{
    lemma_outcomes(outcomes@, outcomes@[i].0@);
    lemma_outcomes(outcomes@, family);
    if crate::drain_schedule::first_error(outcomes@) is Some {
        let k = choose|k: int|
            0 <= k < outcomes@.len() && (#[trigger] outcomes@[k]).1 is Err && outcomes@[k].1->Err_0@
                == crate::drain_schedule::first_error(outcomes@)->0 && forall|j: int|
                0 <= j < k ==> (#[trigger] outcomes@[j]).1 is Ok;
        assert(outcomes@[k].1 is Err);
        assert(outcomes@[i].1 is Ok || outcomes@[i].1 is Err);
    }
}

/// What failed for a command is the error that its family then reports, if the command is the
/// newest; what went well leaves the errors alone.
pub proof fn law_failed_commands_are_reported(
    errors: &mut SideEffectErrors,
    family: &str,
    order: u64,
    kind: EntryKind,
    pass: CommandPass,
    words: String,
    told: Option<String>,
    r: Option<Result<(), String>>,
)
    requires
        old(errors).wf(),
        forall|i: int|
            0 <= i < old(errors).by_family@[family@]@.len() ==> (
            #[trigger] old(errors).by_family@[family@]@[i]).0 <= order,
        call_ensures(finish_command, (errors, family, order, kind, pass), r),
        call_ensures(SideEffectErrors::latest_side_effect_error, (final(errors), family), told),
    ensures
        pass == CommandPass::Applied(Err(words)) ==> opt_view(told) == Some(words@) && (r matches Some(
            Err(e),
        ) && e@ == words@),
        pass == CommandPass::NotApplied(words) ==> opt_view(told) == Some(words@) && r is None,
        pass == CommandPass::Panicked(words) ==> opt_view(told) == Some(
            "daemon command side effect panic: "@ + words@,
        ) && (r is Some <==> kind is AppliedSideEffects),
        pass == CommandPass::Applied(Ok(())) ==> *final(errors) == *old(errors) && r is Some && r->0
            is Ok,
{
    let list = old(errors).errors(family@);
    assert forall|i: int| 0 <= i < list.len() implies (#[trigger] list[i]).0 <= order by {
        assert(list[i].0 == old(errors).by_family@[family@]@[i].0);
    }
    crate::effects::lemma_place(list, order);
    let at = crate::effects::error_place(list, order);
    assert(at + 1 >= list.len()) by {
        if at + 1 < list.len() {
            assert(list[at as int].0 < list[at as int + 1].0);
        }
    }
    if at < list.len() {
        assert(list[at as int].0 == order);
    }
}

/// A checkpoint comes to what it came to; one that broke off, to an error with the reason.
pub proof fn law_checkpoints_come_to_what_they_came_to(
    inner: Result<u64, String>,
    why: String,
    a: Result<u64, String>,
    b: Result<u64, String>,
)
    requires
        call_ensures(checkpoint_outcome, (Ok(inner),), a),
        call_ensures(checkpoint_outcome, (Err(why),), b),
    ensures
        a == inner,
        b is Err && b->Err_0@ == "daemon checkpoint panic: "@ + why@,
{
}

/// Who waits for the trace waits for the frames that were numbered when it began and then for
/// the fence; only a shutdown lets it end while the fence holds.
pub proof fn law_the_trace_is_waited_for(
    next_seq: u64,
    processed: u64,
    ns: u128,
    shutting_down: bool,
    begun: IngestWaitAction,
    counted: IngestWaitAction,
    free: IngestWaitAction,
    held: IngestWaitAction,
)
    requires
        call_ensures(ingest_wait, (IngestWaitEvent::Go { next_seq }, shutting_down), begun),
        call_ensures(
            ingest_wait,
            (IngestWaitEvent::Frames { processed_seq: processed, target: next_seq }, shutting_down),
            counted,
        ),
        call_ensures(ingest_wait, (IngestWaitEvent::Looked { held: None }, shutting_down), free),
        call_ensures(
            ingest_wait,
            (IngestWaitEvent::Looked { held: Some(ns) }, shutting_down),
            held,
        ),
    ensures
        begun == (IngestWaitAction::WaitForFrames { target: next_seq }),
        !shutting_down && processed < next_seq ==> counted == begun,
        processed >= next_seq || shutting_down ==> counted is Look,
        free is Finish,
        !shutting_down ==> held == (IngestWaitAction::Pause { ns }),
        shutting_down ==> held is Finish,
{
}

/// To settle the checkpoints is to wait for what was accepted, for what is on its way, for the
/// trace, and to drain the families, in this order.
pub proof fn law_checkpoints_settle_in_order(
    accepted: u64,
    error: String,
    left: bool,
    a: (SettlePhase, SettleAction),
    b: (SettlePhase, SettleAction),
    c: (SettlePhase, SettleAction),
    d: (SettlePhase, SettleAction),
    e: (SettlePhase, SettleAction),
    f: (SettlePhase, SettleAction),
)
    requires
        call_ensures(
            settle,
            (Settling::Checkpoints, SettlePhase::Admission, SettleEvent::Begin { accepted }),
            a,
        ),
        call_ensures(settle, (Settling::Checkpoints, a.0, SettleEvent::Waited), b),
        call_ensures(settle, (Settling::Checkpoints, b.0, SettleEvent::Waited), c),
        call_ensures(settle, (Settling::Checkpoints, c.0, SettleEvent::Waited), d),
        call_ensures(
            settle,
            (Settling::Checkpoints, d.0, SettleEvent::Drained { result: Ok(()), settled: !left }),
            e,
        ),
        call_ensures(
            settle,
            (
                Settling::Checkpoints,
                d.0,
                SettleEvent::Drained { result: Err(error), settled: left },
            ),
            f,
        ),
    ensures
        a.1 == (SettleAction::WaitForAdmission { target: accepted }),
        b.1 is WaitForUnadmitted,
        c.1 is WaitForTrace,
        d.1 is DrainFamilies,
        !left ==> e.1 == SettleAction::Finish(Ok(())),
        left ==> e.1 == (SettleAction::Sleep { ns: 50_000_000 }),
        f.1 == SettleAction::Finish(Err(error)),
{
}

/// To settle a family is, besides, to find out which it is before the trace is waited for, and
/// to wait for what is on its way once more after it.
pub proof fn law_a_family_settles_in_order(
    accepted: u64,
    error: String,
    a: (SettlePhase, SettleAction),
    b: (SettlePhase, SettleAction),
    c: (SettlePhase, SettleAction),
    d: (SettlePhase, SettleAction),
    unknown: (SettlePhase, SettleAction),
    e: (SettlePhase, SettleAction),
    f: (SettlePhase, SettleAction),
    g: (SettlePhase, SettleAction),
    h: (SettlePhase, SettleAction),
)
    requires
        call_ensures(
            settle,
            (Settling::Family, SettlePhase::Admission, SettleEvent::Begin { accepted }),
            a,
        ),
        call_ensures(settle, (Settling::Family, a.0, SettleEvent::Waited), b),
        call_ensures(settle, (Settling::Family, b.0, SettleEvent::Waited), c),
        call_ensures(settle, (Settling::Family, c.0, SettleEvent::Resolved(Ok(()))), d),
        call_ensures(settle, (Settling::Family, c.0, SettleEvent::Resolved(Err(error))), unknown),
        call_ensures(settle, (Settling::Family, d.0, SettleEvent::Waited), e),
        call_ensures(settle, (Settling::Family, e.0, SettleEvent::Waited), f),
        call_ensures(
            settle,
            (Settling::Family, f.0, SettleEvent::Drained { result: Ok(()), settled: false }),
            g,
        ),
        call_ensures(settle, (Settling::Family, g.0, SettleEvent::Paused { accepted }), h),
    ensures
        a.1 == (SettleAction::WaitForAdmission { target: accepted }),
        b.1 is WaitForUnadmitted,
        c.1 is ResolveFamily,
        unknown.1 == SettleAction::Finish(Err(error)),
        d.1 is WaitForTrace,
        e.1 is WaitForUnadmitted,
        f.1 is DrainFamilies,
        g.1 == (SettleAction::Sleep { ns: 25_000_000 }),
        h.1 is WaitForUnadmitted && h.0 == e.0,
{
}

/// While checkpoints settle, a pause is followed by waiting for all that was accepted by then.
pub proof fn law_checkpoints_settle_again_after_a_pause(
    accepted: u64,
    r: (SettlePhase, SettleAction),
)
    requires
        call_ensures(
            settle,
            (Settling::Checkpoints, SettlePhase::Pausing, SettleEvent::Paused { accepted }),
            r,
        ),
    ensures
        r.1 == (SettleAction::WaitForAdmission { target: accepted }),
        r.0 is Admission,
{
}

} // verus!
