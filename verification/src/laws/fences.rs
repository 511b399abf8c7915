//! Roots that are open, and how long they hold the families back that they may change.
use crate::fence::{
    apply_fence, await_query, classify_root_fence, entry_query, fence_probes, is_live, scope_query,
    FenceCounters, FenceOutcome, FenceQuery, ReleaseReason, RootFence, RootFenceProbe,
    RootObservation, WaitClock,
};
use crate::ingress::{
    blank, closed, frame_root_sid, FenceScope, FrameFacts, TraceIngressState, TrackedFrame,
};
use crate::paths::RepoPath;
use crate::text::{opt_view, views};
use crate::trace::TracePayload;
use vstd::prelude::*;

verus! {

/// A root whose last frame is queued is waited for thirty times the grace, one that has changed
/// refs six hundred times; one that has changed none is not waited for. One of which nothing is
/// known is waited for the grace, and then, unless its process is known to be alive, up to
/// thirty times.
pub proof fn law_roots_hold_for_their_time(grace: u64, probe: RootFenceProbe, r: RootFence)
    requires
        call_ensures(classify_root_fence, (grace, &probe), r),
    ensures
        probe.finishing && probe.waited_ns < 30 * grace ==> r == RootFence::Held(
            (30 * grace - probe.waited_ns) as u128,
        ),
        probe.finishing && probe.waited_ns >= 30 * grace ==> r == RootFence::Release(
            ReleaseReason::FinishingRootCap,
        ),
        !probe.finishing && probe.wrote_refs == Some(true) && probe.waited_ns < 600 * grace ==> r
            == RootFence::Held((600 * grace - probe.waited_ns) as u128),
        !probe.finishing && probe.wrote_refs == Some(true) && probe.waited_ns >= 600 * grace ==> r
            == RootFence::Release(ReleaseReason::WrittenRootCap),
        !probe.finishing && probe.wrote_refs == Some(false) ==> r is Open,
        !probe.finishing && probe.wrote_refs is None && probe.waited_ns < grace ==> r
            == RootFence::Held((grace - probe.waited_ns) as u128),
        !probe.finishing && probe.wrote_refs is None && probe.waited_ns >= grace && probe.alive
            == Some(true) ==> r == RootFence::Release(ReleaseReason::CausalGraceExpired),
        !probe.finishing && probe.wrote_refs is None && grace <= probe.waited_ns && probe.alive
            != Some(true) && probe.waited_ns < 30 * grace ==> r == RootFence::Held(
            (30 * grace - probe.waited_ns) as u128,
        ),
        !probe.finishing && probe.wrote_refs is None && probe.alive != Some(true)
            && probe.waited_ns >= 30 * grace && grace > 0 ==> r == RootFence::Release(
            ReleaseReason::CausalFenceHardCap,
        ),
{
    if probe.wrote_refs is Some {
        assert(probe.wrote_refs->0 == true || probe.wrote_refs->0 == false);
    }
}

/// What the reflog shows of a root counts only where its command moves the head and it is known
/// where the reflog stood. Whether its process is alive is asked only where that shows nothing
/// and the grace is over. Of a root whose last frame is queued nothing is asked.
pub proof fn law_roots_are_observed_through_their_reflogs(
    one: &mut RootFenceProbe,
    all: &mut RootFenceProbe,
    grace: u64,
    seen: RootObservation,
)
    requires
        call_ensures(RootFenceProbe::observe, (one, grace, &seen), ()),
        call_ensures(RootFenceProbe::observe_all, (all, &seen), ()),
        *old(one) == *old(all),
    ensures
        old(one).finishing ==> *final(one) == *old(one) && *final(all) == *old(all),
        !old(one).finishing && seen.moves_head && old(one).reflog_start_offsets is Some ==> final(one).wrote_refs == seen.reflog_grew && final(all).wrote_refs == seen.reflog_grew,
        !old(one).finishing && (!seen.moves_head || old(one).reflog_start_offsets is None)
            ==> final(one).wrote_refs is None && final(all).wrote_refs is None,
        !old(one).finishing && final(one).wrote_refs is None && old(one).waited_ns >= grace && old(
            one,
        ).pid is Some ==> final(one).alive == Some(seen.alive),
        !old(one).finishing && (final(one).wrote_refs is Some || old(one).waited_ns < grace)
            ==> final(one).alive == old(one).alive,
        !old(one).finishing && final(all).wrote_refs is None && old(all).pid is Some ==> final(all).alive == Some(seen.alive),
        final(one).root_sid == old(one).root_sid && final(one).waited_ns == old(one).waited_ns
            && final(one).finishing == old(one).finishing,
{
}

/// The roots that are waited for are those with an open connection that are not known to change
/// nothing, that may change the family that is asked about, that did not start too late, and
/// that are not the one that asks.
pub proof fn law_roots_that_may_come_first_are_waited_for(
    ingress: TraceIngressState,
    query: FenceQuery,
    r: Vec<RootFenceProbe>,
    sid: Seq<char>,
)
    requires
        call_ensures(fence_probes, (&ingress, &query), r),
    ensures
        ({
            let root = ingress.root(sid);
            let waits = exists|i: int| 0 <= i < r@.len() && (#[trigger] r@[i]).root_sid@ == sid;
            let open = root.open_connections is Some && root.open_connections->0 > 0;
            &&& waits ==> open && !root.definitely_read_only && root.mutating != Some(false)
            &&& waits && query.family is Some && root.family is Some ==> root.family->0
                == query.family->0@
            &&& waits && query.except_root is Some ==> query.except_root->0@ != sid
            &&& waits && query.not_after_ns is Some && root.started_at_ns is Some
                ==> root.started_at_ns->0 <= query.not_after_ns->0
            &&& open && !root.definitely_read_only && root.mutating != Some(false) && (query.family
                is None || root.family is None || root.family->0 == query.family->0@) && (
            query.except_root is None || query.except_root->0@ != sid) && (query.not_after_ns
                is None || root.started_at_ns is None || root.started_at_ns->0
                <= query.not_after_ns->0) ==> waits
        }),
        forall|i: int, j: int|
            0 <= i < j < r@.len() ==> (#[trigger] r@[i]).root_sid@ != (#[trigger] r@[j]).root_sid@,
{
    if exists|i: int| 0 <= i < r@.len() && (#[trigger] r@[i]).root_sid@ == sid {
        let i = choose|i: int| 0 <= i < r@.len() && (#[trigger] r@[i]).root_sid@ == sid;
        assert(crate::fence::is_candidate(r@[i].root_sid@, ingress.root(sid), query));
    }
}

/// What asks has waited as long as it says, or as long as nothing was heard of the root; and a
/// root is finishing once its last frame is queued or its connection closed.
pub proof fn law_roots_are_waited_for_since(
    ingress: TraceIngressState,
    query: FenceQuery,
    r: Vec<RootFenceProbe>,
    i: int,
    waited: u128,
    now_ns: u128,
)
    requires
        call_ensures(fence_probes, (&ingress, &query), r),
        0 <= i < r@.len(),
    ensures
        ({
            let root = ingress.root(r@[i].root_sid@);
            &&& query.clock == WaitClock::Fixed(waited) ==> r@[i].waited_ns == waited
            &&& query.clock == WaitClock::SinceActivity(now_ns) && root.last_activity_ns is None
                ==> r@[i].waited_ns == 0
            &&& query.clock == WaitClock::SinceActivity(now_ns) && root.last_activity_ns is Some
                && root.last_activity_ns->0 <= now_ns <= u64::MAX ==> r@[i].waited_ns == now_ns
                - root.last_activity_ns->0
            &&& r@[i].finishing <==> root.finishing || root.close_marker_enqueued
            &&& r@[i].wrote_refs is None && r@[i].alive is None
            &&& r@[i].started_at_ns == root.started_at_ns
        }),
{
}

/// The fence is looked at again when the first of the roots that hold may give way, and it is
/// open exactly when none holds.
pub proof fn law_the_fence_opens_when_no_root_holds(
    ingress: &mut TraceIngressState,
    counters: &mut FenceCounters,
    grace: u64,
    probes: Vec<RootFenceProbe>,
    now_ns: u128,
    context: &'static str,
    r: FenceOutcome,
    i: int,
    alone: RootFence,
)
    requires
        call_ensures(apply_fence, (ingress, counters, grace, &probes, now_ns, context), r),
        0 <= i < probes@.len(),
        is_live(*old(ingress), probes@[i]),
        call_ensures(classify_root_fence, (grace, &probes@[i]), alone),
    ensures
        alone is Held ==> r.held is Some && r.held->0 <= alone->Held_0,
        probes@.len() == 1 ==> (alone is Held <==> r.held is Some),
        probes@.len() == 1 && alone is Held ==> r.held->0 == alone->Held_0,
        r.held is Some ==> exists|k: int|
            0 <= k < probes@.len() && is_live(*old(ingress), #[trigger] probes@[k])
                && probes@[k].fence(grace) == RootFence::Held(r.held->0),
{
    if r.held is Some {
        let k = choose|k: int|
            0 <= k < probes@.len() && is_live(*old(ingress), #[trigger] probes@[k])
                && probes@[k].fence(grace) == RootFence::Held(r.held->0);
        assert(probes@.len() == 1 ==> k == i);
    }
}

/// A root that is released is told of once, with its reason; of a root that holds or fences
/// nothing no word is said.
pub proof fn law_releases_are_told_once(
    ingress: &mut TraceIngressState,
    counters: &mut FenceCounters,
    again: &mut TraceIngressState,
    recounted: &mut FenceCounters,
    grace: u64,
    probes: Vec<RootFenceProbe>,
    now_ns: u128,
    later_ns: u128,
    context: &'static str,
    r: FenceOutcome,
    second: FenceOutcome,
    alone: RootFence,
    k: int,
)
    requires
        call_ensures(apply_fence, (ingress, counters, grace, &probes, now_ns, context), r),
        *final(ingress) == *old(again),
        *final(counters) == *old(recounted),
        call_ensures(apply_fence, (again, recounted, grace, &probes, later_ns, context), second),
        probes@.len() == 1,
        is_live(*old(ingress), probes@[0]),
        !old(ingress).root(probes@[0].root_sid@).release_logged,
        call_ensures(classify_root_fence, (grace, &probes@[0]), alone),
        0 <= k < r.releases@.len(),
    ensures
        alone == RootFence::Release(r.releases@[k].reason),
        r.releases@[k].root_sid@ == probes@[0].root_sid@,
        r.releases@[k].waited_ms == (probes@[0].waited_ns / 1_000_000) as u64,
        r.releases@.len() == 1,
        second.releases@.len() == 0,
{
    let sid = probes@[0].root_sid@;
    let told = r.releases@[k];
    assert(!old(ingress).root(told.root_sid@).release_logged);
    let i = choose|i: int|
        0 <= i < probes@.len() && is_live(*old(ingress), #[trigger] probes@[i])
            && crate::fence::release_says(
            told,
            *old(ingress),
            probes@[i],
            grace,
            now_ns,
            context@,
        );
    assert(i == 0);
    assert(crate::fence::releases(*old(ingress), grace, probes@, sid));
    assert(final(ingress).root(sid).release_logged);
    if r.releases@.len() > 1 {
        let other = r.releases@[if k == 0 {
            1
        } else {
            0
        }];
        assert(!old(ingress).root(other.root_sid@).release_logged);
        let j = choose|j: int|
            0 <= j < probes@.len() && is_live(*old(ingress), #[trigger] probes@[j])
                && crate::fence::release_says(
                other,
                *old(ingress),
                probes@[j],
                grace,
                now_ns,
                context@,
            );
        assert(j == 0);
        assert(other.root_sid@ == told.root_sid@);
    }
    if second.releases@.len() > 0 {
        let other = second.releases@[0];
        assert(!old(again).root(other.root_sid@).release_logged);
        let j = choose|j: int|
            0 <= j < probes@.len() && is_live(*old(again), #[trigger] probes@[j])
                && crate::fence::release_says(
                other,
                *old(again),
                probes@[j],
                grace,
                later_ns,
                context@,
            );
        assert(j == 0);
    }
}

/// A root that is released counts as one that ran out of its grace, or as one that ran into a
/// cap, and never as both.
pub proof fn law_releases_are_counted_by_their_reason(
    ingress: &mut TraceIngressState,
    counters: &mut FenceCounters,
    grace: u64,
    probes: Vec<RootFenceProbe>,
    now_ns: u128,
    context: &'static str,
    r: FenceOutcome,
)
    requires
        call_ensures(apply_fence, (ingress, counters, grace, &probes, now_ns, context), r),
        r.releases@.len() <= 1,
        old(counters).causal_grace_expirations < u64::MAX,
        old(counters).causal_fence_hard_cap_releases < u64::MAX,
    ensures
        r.releases@.len() == 0 ==> *final(counters) == *old(counters),
        r.releases@.len() == 1 && r.releases@[0].reason is CausalGraceExpired ==> final(counters).causal_grace_expirations == old(counters).causal_grace_expirations + 1 && final(counters).causal_fence_hard_cap_releases == old(counters).causal_fence_hard_cap_releases,
        r.releases@.len() == 1 && !(r.releases@[0].reason is CausalGraceExpired) ==> final(counters).causal_fence_hard_cap_releases == old(counters).causal_fence_hard_cap_releases + 1
            && final(counters).causal_grace_expirations == old(counters).causal_grace_expirations,
{
    reveal_with_fuel(crate::fence::count_grace, 3);
    if r.releases@.len() == 1 {
        assert(r.releases@.last() == r.releases@[0]);
        assert(r.releases@.drop_last().len() == 0);
    }
}

/// An entry waits for the roots of its family that did not start after it, but not for its own;
/// who waits for the trace, for every root; who asks for a scope, for those before it.
pub proof fn law_who_asks_waits_for_what_came_before(
    family: &str,
    scope: Option<String>,
    started_ns: u128,
    root: Option<String>,
    waited_ns: u128,
    now_ns: u128,
    entry: FenceQuery,
    every: FenceQuery,
    scoped: FenceQuery,
)
    requires
        call_ensures(entry_query, (family, started_ns, root, waited_ns), entry),
        call_ensures(await_query, (now_ns,), every),
        call_ensures(scope_query, (scope, started_ns, waited_ns), scoped),
    ensures
        opt_view(entry.family) == Some(family@) && entry.not_after_ns == Some(started_ns)
            && entry.except_root == root && entry.clock == WaitClock::Fixed(waited_ns),
        every.family is None && every.not_after_ns is None && every.except_root is None
            && every.clock == WaitClock::SinceActivity(now_ns),
        scoped.family == scope && scoped.not_after_ns == Some(started_ns) && scoped.except_root
            is None && scoped.clock == WaitClock::Fixed(waited_ns),
{
}

/// A root that opens a connection may change every family until it is known what it does.
pub proof fn law_a_root_that_opens_may_change_any_family(
    ingress: &mut TraceIngressState,
    sid: &str,
    family: Option<String>,
    may: bool,
    some: bool,
)
    requires
        old(ingress).root(sid@) == blank(),
        call_ensures(TraceIngressState::trace_root_connection_opened, (ingress, sid), ()),
        call_ensures(
            TraceIngressState::open_root_may_mutate_family,
            (final(ingress), sid, &family),
            may,
        ),
        call_ensures(
            TraceIngressState::has_open_trace_roots_that_may_mutate_refs,
            (final(ingress),),
            some,
        ),
    ensures
        may,
        some,
{
    assert(final(ingress).model()[sid@] == final(ingress).root(sid@));
    assert(crate::ingress::may_mutate(final(ingress).root(sid@), None));
}

/// A root may change a family only with an open connection, unless it is known to change
/// nothing or to belong to another family.
pub proof fn law_roots_change_their_own_family(
    ingress: TraceIngressState,
    sid: &str,
    family: Option<String>,
    r: bool,
)
    requires
        call_ensures(
            TraceIngressState::open_root_may_mutate_family,
            (&ingress, sid, &family),
            r,
        ),
    ensures
        ({
            let root = ingress.root(sid@);
            &&& root.open_connections is None ==> !r
            &&& root.open_connections == Some(0usize) ==> !r
            &&& root.definitely_read_only ==> !r
            &&& root.mutating == Some(false) ==> !r
            &&& family is Some && root.family is Some && root.family->0 != family->0@ ==> !r
            &&& root.open_connections is Some && root.open_connections->0 > 0
                && !root.definitely_read_only && root.mutating != Some(false) && (family is None
                || root.family is None || root.family->0 == family->0@) ==> r
        }),
{
}

/// To clear a root tells which family it held: its own, or every one where it was never known;
/// none where it could not change any. Nothing of the root stays, and no other root changes.
pub proof fn law_a_cleared_root_tells_what_it_held(
    ingress: &mut TraceIngressState,
    sid: &str,
    other: Seq<char>,
    may: bool,
    r: Option<FenceScope>,
    after: bool,
)
    requires
        call_ensures(
            TraceIngressState::open_root_may_mutate_family,
            (old(ingress), sid, &None),
            may,
        ),
        call_ensures(TraceIngressState::clear_trace_ingress_root, (ingress, sid), r),
        call_ensures(
            TraceIngressState::open_root_may_mutate_family,
            (final(ingress), sid, &None),
            after,
        ),
    ensures
        may <==> r is Some,
        r is Some && old(ingress).root(sid@).family is Some ==> (r matches Some(
            FenceScope::Family(f),
        ) && f@ == old(ingress).root(sid@).family->0),
        r is Some && old(ingress).root(sid@).family is None ==> r->0 is EveryFamily,
        !after,
        other != sid@ ==> final(ingress).root(other) == old(ingress).root(other),
{
    assert(final(ingress).model()[sid@] == final(ingress).root(sid@));
    assert(final(ingress).model()[other] == final(ingress).root(other));
}

/// A connection that closes while others of its root are open leaves the root as it is. The
/// last one leaves a marker behind for a root that may still have changed something, and only
/// one; a root that changed nothing is forgotten.
pub proof fn law_the_last_connection_leaves_a_marker(
    first: &mut TraceIngressState,
    second: &mut TraceIngressState,
    sids: Vec<String>,
    r: Vec<String>,
    again: Vec<String>,
)
    requires
        sids@.len() == 1,
        call_ensures(TraceIngressState::record_trace_connection_close, (first, &sids), r),
        *final(first) == *old(second),
        call_ensures(TraceIngressState::record_trace_connection_close, (second, &sids), again),
    ensures
        ({
            let sid = sids@[0]@;
            let root = old(first).root(sid);
            let after = final(first).root(sid);
            let others = root.open_connections is Some && root.open_connections->0 > 1;
            &&& others ==> r@.len() == 0 && after.open_connections == Some(
                (root.open_connections->0 - 1) as usize,
            ) && after.family == root.family && after.mutating == root.mutating
            &&& !others && root.finishing ==> r@.len() == 0 && after == root
            &&& !others && !root.finishing && !root.close_marker_enqueued
                && root.reflog_start_offsets is Some ==> r@.len() == 1 && r@[0]@ == sid
                && again@.len() == 0 && after.close_marker_enqueued
            &&& !others && !root.finishing && root.definitely_read_only && root.reflog_start_offsets
                is None ==> r@.len() == 0 && after == blank()
            &&& !others && !root.finishing && !root.close_marker_enqueued
                && root.open_connections == Some(1usize) && !root.definitely_read_only
                && root.mutating != Some(false) ==> r@.len() == 1
        }),
{
    reveal_with_fuel(crate::ingress::closed_all, 2);
    reveal_with_fuel(crate::ingress::close_markers, 2);
    let sid = sids@[0]@;
    let list = views(sids@);
    assert(list.len() == 1 && list.last() == sid);
    assert(list.drop_last().len() == 0);
    assert(old(first).model()[sid] == old(first).root(sid));
    assert(final(first).model()[sid] == final(first).root(sid));
    assert(views(r@).len() == r@.len());
    assert(views(again@).len() == again@.len());
    if r@.len() == 1 {
        assert(views(r@)[0] == r@[0]@);
    }
}

/// A connection that is not yet known to belong to a root counts until it is known or closes.
pub proof fn law_unknown_connections_are_counted(
    first: &mut TraceIngressState,
    second: &mut TraceIngressState,
)
    requires
        old(first).unidentified_open_connections < usize::MAX,
        call_ensures(TraceIngressState::trace_unidentified_connection_opened, (first,), ()),
        *final(first) == *old(second),
        call_ensures(
            TraceIngressState::trace_unidentified_connection_identified_or_closed,
            (second,),
            (),
        ),
    ensures
        final(first).unidentified_open_connections == old(first).unidentified_open_connections + 1,
        *final(second) == *old(first),
{
}

/// A root is known by the frames of its own process: when it started, its words, its worktree
/// and its family. What was known of when it started stays.
pub proof fn law_roots_are_known_by_their_own_frames(
    ingress: &mut TraceIngressState,
    payload: TracePayload,
    hint: Option<RepoPath>,
    facts: FrameFacts,
    now_ns: u128,
    sid: String,
    other: Seq<char>,
    r: Option<TrackedFrame>,
)
    requires
        call_ensures(
            TraceIngressState::track_trace_payload_for_ingest,
            (ingress, &payload, &hint, &facts, now_ns),
            r,
        ),
        call_ensures(frame_root_sid, (&payload,), sid),
        payload.sid is Some && payload.sid->0@.len() > 0,
    ensures
        ({
            let before = old(ingress).root(sid@);
            let after = final(ingress).root(sid@);
            let own = payload.sid->0@ == sid@;
            let starts = own && payload.event is Some && payload.event->0@ == "start"@;
            let ends = own && payload.event is Some && payload.event->0@ == "atexit"@;
            &&& r is Some && r->0.root@ == sid@
            &&& r->0.terminal == ends
            &&& after.last_activity_ns == Some(now_ns as u64)
            &&& before.started_at_ns is Some ==> after.started_at_ns == before.started_at_ns
            &&& !starts ==> after.started_at_ns == before.started_at_ns && after.argv == before.argv
                && after.definitely_read_only == before.definitely_read_only
            &&& starts ==> after.started_at_ns is Some
            &&& starts && payload.argv@.len() > 0 ==> after.argv == Some(views(payload.argv@))
            &&& own && hint is Some ==> after.worktree == Some(hint->0@)
            &&& own && hint is Some && facts.resolved_family is Some ==> after.family == Some(
                facts.resolved_family->0@,
            )
            &&& !own ==> after.worktree == before.worktree && after.family == before.family
                && after.mutating == before.mutating && after.target_repo_only
                == before.target_repo_only && r->0.capture is None
            &&& before.mutating is Some ==> after.mutating == before.mutating
            &&& after.open_connections == before.open_connections && after.finishing
                == before.finishing && after.close_marker_enqueued == before.close_marker_enqueued
            &&& ends || before.finishing || before.reflog_start_offsets is Some ==> r->0.capture
                is None
            &&& r->0.capture is Some ==> facts.may_mutate_refs
        }),
        other != sid@ ==> final(ingress).root(other) == old(ingress).root(other),
{
    reveal_strlit("start");
    reveal_strlit("atexit");
    assert("start"@.len() == 5 && "atexit"@.len() == 6);
    assert(final(ingress).model()[sid@] == final(ingress).root(sid@));
    assert(final(ingress).model()[other] == final(ingress).root(other));
}

/// A frame without a session is not tracked, and changes nothing.
pub proof fn law_frames_without_a_session_are_passed_over(
    ingress: &mut TraceIngressState,
    payload: TracePayload,
    hint: Option<RepoPath>,
    facts: FrameFacts,
    now_ns: u128,
    r: Option<TrackedFrame>,
)
    requires
        call_ensures(
            TraceIngressState::track_trace_payload_for_ingest,
            (ingress, &payload, &hint, &facts, now_ns),
            r,
        ),
        payload.sid is None || payload.sid->0@.len() == 0,
    ensures
        r is None,
        *final(ingress) == *old(ingress),
{
}

/// The reflog lengths that were looked at are kept with the root and go along with the frame,
/// unless some were known before. The last frame of a root that may have changed something
/// leaves it finishing; what was only needed while it ran is dropped.
pub proof fn law_tracked_frames_are_finished(
    ingress: &mut TraceIngressState,
    payload: &mut TracePayload,
    frame: TrackedFrame,
    captured: Option<Vec<(String, u64)>>,
    other: Seq<char>,
    r: bool,
)
    requires
        call_ensures(
            TraceIngressState::finish_tracked_frame,
            (ingress, frame, payload, captured),
            r,
        ),
    ensures
        ({
            let before = old(ingress).root(frame.root@);
            let after = final(ingress).root(frame.root@);
            &&& r <==> frame.event_is_read_only || before.definitely_read_only
            &&& frame.terminal ==> after.finishing == (before.finishing || !r)
            &&& frame.terminal ==> after.worktree is None && after.reflog_start_offsets is None
                && after.last_activity_ns is None && after.family == before.family
                && after.open_connections == before.open_connections
            &&& !frame.terminal ==> after.finishing == before.finishing && after.worktree
                == before.worktree
            &&& !frame.terminal && before.reflog_start_offsets is Some
                ==> after.reflog_start_offsets == before.reflog_start_offsets
            &&& !frame.terminal && before.reflog_start_offsets is None && captured is Some
                && before.last_activity_ns is Some ==> after.reflog_start_offsets
                == crate::ingress::opt_offsets_view(captured)
            &&& before.reflog_start_offsets is Some && old(payload).reflog_start_offsets is None
                ==> crate::ingress::opt_offsets_view(final(payload).reflog_start_offsets)
                == before.reflog_start_offsets
            &&& old(payload).reflog_start_offsets is Some ==> crate::ingress::opt_offsets_view(
                final(payload).reflog_start_offsets,
            ) == crate::ingress::opt_offsets_view(old(payload).reflog_start_offsets)
            &&& before.last_activity_ns is None && before.reflog_start_offsets is None
                ==> after.reflog_start_offsets is None
        }),
        final(payload).sid == old(payload).sid && final(payload).argv == old(payload).argv,
        other != frame.root@ ==> final(ingress).root(other) == old(ingress).root(other),
{
    assert(final(ingress).model()[frame.root@] == final(ingress).root(frame.root@));
    assert(final(ingress).model()[other] == final(ingress).root(other));
}

/// Some root holds a family back exactly when one of them may change it.
pub proof fn law_families_are_held_by_the_roots_that_may_change_them(
    ingress: TraceIngressState,
    sid: &str,
    name: String,
    family: &str,
    one: bool,
    any: bool,
)
    requires
        name@ == family@,
        call_ensures(
            TraceIngressState::open_root_may_mutate_family,
            (&ingress, sid, &Some(name)),
            one,
        ),
        call_ensures(
            TraceIngressState::has_open_trace_roots_that_may_mutate_family,
            (&ingress, family),
            any,
        ),
    ensures
        one ==> any,
        any ==> exists|s: Seq<char>|
            crate::ingress::may_mutate(#[trigger] ingress.root(s), Some(family@)),
{
    let args = (&ingress, family);
    assert(args.0 == ingress && args.1 == family);
    assert(crate::ingress::may_mutate(ingress.root(sid@), Some(family@)) == one);
}

/// The command of a frame is the one that it names itself, and else that of its root.
pub proof fn law_frames_speak_of_the_command_of_their_root(
    ingress: TraceIngressState,
    payload: TracePayload,
    sid: String,
    own: Option<String>,
    r: (Option<String>, Vec<String>),
)
    requires
        call_ensures(TraceIngressState::effective_invocation, (&ingress, &payload), r),
        call_ensures(frame_root_sid, (&payload,), sid),
        call_ensures(crate::trace::trace_payload_primary_command, (&payload,), own),
    ensures
        own is Some ==> opt_view(r.0) == opt_view(own),
        payload.argv@.len() > 0 ==> views(r.1@) == views(payload.argv@),
        payload.argv@.len() == 0 && ingress.root(sid@).argv is Some ==> views(r.1@)
            == ingress.root(sid@).argv->0,
        payload.argv@.len() == 0 && ingress.root(sid@).argv is None ==> r.1@.len() == 0,
{
    assert(views(r.1@).len() == r.1@.len());
}

/// A release is told of the first time, and not again.
pub proof fn law_a_release_is_marked_once(
    first: &mut TraceIngressState,
    second: &mut TraceIngressState,
    sid: &str,
    other: Seq<char>,
    a: bool,
    b: bool,
)
    requires
        !old(first).root(sid@).release_logged,
        call_ensures(TraceIngressState::mark_release_logged, (first, sid), a),
        *final(first) == *old(second),
        call_ensures(TraceIngressState::mark_release_logged, (second, sid), b),
    ensures
        a && !b,
        other != sid@ ==> final(second).root(other) == old(first).root(other),
        final(second).root(sid@).family == old(first).root(sid@).family,
{
    assert(final(first).model()[sid@] == final(first).root(sid@));
    assert(final(second).model()[sid@] == final(second).root(sid@));
    assert(final(first).model()[other] == final(first).root(other));
    assert(final(second).model()[other] == final(second).root(other));
}

/// The process of a root is read off its session.
pub proof fn law_roots_are_known_by_their_process(
    ingress: TraceIngressState,
    query: FenceQuery,
    r: Vec<RootFenceProbe>,
    i: int,
    sid: &str,
    pid: Option<u32>,
)
    requires
        call_ensures(fence_probes, (&ingress, &query), r),
        0 <= i < r@.len(),
        sid@ == r@[i].root_sid@,
        call_ensures(crate::trace::trace_sid_pid, (sid,), pid),
    ensures
        r@[i].pid == pid,
{
}

/// The reflog of a worktree is looked at for the first frame of a root that may change refs,
/// where the worktree is known from the frame, and before it ends.
pub proof fn law_reflogs_are_looked_at_for_roots_that_may_change_refs(
    ingress: &mut TraceIngressState,
    payload: TracePayload,
    hint: RepoPath,
    facts: FrameFacts,
    now_ns: u128,
    sid: String,
    primary: Option<String>,
    r: Option<TrackedFrame>,
)
    requires
        call_ensures(
            TraceIngressState::track_trace_payload_for_ingest,
            (ingress, &payload, &Some(hint), &facts, now_ns),
            r,
        ),
        call_ensures(frame_root_sid, (&payload,), sid),
        call_ensures(crate::trace::trace_payload_primary_command, (&payload,), primary),
        payload.sid is Some && payload.sid->0@.len() > 0 && payload.sid->0@ == sid@,
        payload.event is Some && payload.event->0@ != "atexit"@,
        !old(ingress).root(sid@).finishing,
        old(ingress).root(sid@).reflog_start_offsets is None,
    ensures
        primary is Some && facts.may_mutate_refs ==> r is Some && r->0.capture is Some
            && r->0.capture->0@ == hint@,
        primary is Some && old(ingress).root(sid@).mutating is None ==> final(ingress).root(
            sid@,
        ).mutating == Some(facts.may_mutate_refs),
        primary is Some && facts.definitely_read_only && payload.event->0@ == "start"@
            && payload.argv@.len() > 0 ==> final(ingress).root(sid@).definitely_read_only,
        !facts.may_mutate_refs ==> r->0.capture is None,
{
    assert(final(ingress).model()[sid@] == final(ingress).root(sid@));
}

/// A root that is released for the first time is told of.
pub proof fn law_a_first_release_is_told(
    ingress: &mut TraceIngressState,
    counters: &mut FenceCounters,
    grace: u64,
    probes: Vec<RootFenceProbe>,
    now_ns: u128,
    context: &'static str,
    r: FenceOutcome,
    alone: RootFence,
    i: int,
)
    requires
        call_ensures(apply_fence, (ingress, counters, grace, &probes, now_ns, context), r),
        0 <= i < probes@.len(),
        is_live(*old(ingress), probes@[i]),
        !old(ingress).root(probes@[i].root_sid@).release_logged,
        call_ensures(classify_root_fence, (grace, &probes@[i]), alone),
        alone is Release,
    ensures
        exists|k: int|
            0 <= k < r.releases@.len() && (#[trigger] r.releases@[k]).root_sid@
                == probes@[i].root_sid@,
        final(ingress).root(probes@[i].root_sid@).release_logged,
{
    let sid = probes@[i].root_sid@;
    assert(crate::fence::releases(*old(ingress), grace, probes@, sid));
    assert(old(ingress).root(sid) == old(ingress).root(sid));
}

} // verus!
