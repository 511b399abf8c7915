//! Frames and checkpoints on their way in: how they are numbered, put in order and worked off.
use crate::checkpoint::CheckpointRequest;
use crate::commands::{AppliedCommand, NormalizedCommand};
use crate::coordinator::{
    admission_work_dir, stream_tool, ActorDaemonCoordinator, AdmissionError, AdmissionOutcome,
    AdmissionSettled, ExecLocks, PreparedCheckpointAdmission,
};
use crate::ingest::{
    close_marker, finalize_trace_connection_roots, frame_step, observe_frame_root, root_to_clear, Emitted,
    trace_frame_use, EnqueueError, FrameStep, FrameUse, OrderedFrame, QueueRoom, ReorderBuffer,
    ReorderError, TraceQueue,
};
use crate::ingress::{FenceScope, TraceIngressState};
use crate::quota::CheckpointIngressReservation;
use crate::sequencer::{FamilySequencerEntry, FamilySequencers};
use crate::text::{opt_view, views};
use crate::trace::{SeqField, TracePayload};
use vstd::prelude::*;

verus! {

/// Frames that are queued are numbered one by one, and wait until they are worked off.
pub proof fn law_frames_are_numbered_as_they_come(
    first: &mut TraceQueue,
    second: &mut TraceQueue,
    a: &mut TracePayload,
    b: &mut TracePayload,
    ra: Result<(), EnqueueError>,
    rb: Result<(), EnqueueError>,
)
    requires
        old(first).next_seq < u64::MAX - 1,
        old(first).queued < u64::MAX - 1,
        old(a).ingest_seq is Absent && old(b).ingest_seq is Absent,
        call_ensures(TraceQueue::enqueue_trace_payload, (first, a, QueueRoom::Room), ra),
        *final(first) == *old(second),
        call_ensures(TraceQueue::enqueue_trace_payload, (second, b, QueueRoom::Room), rb),
    ensures
        ra is Ok && rb is Ok,
        final(a).ingest_seq == SeqField::Number((old(first).next_seq + 1) as u64),
        final(b).ingest_seq == SeqField::Number((old(first).next_seq + 2) as u64),
        final(second).queued == old(first).queued + 2,
        final(second).processed_seq == old(first).processed_seq,
        final(a).sid == old(a).sid && final(a).event == old(a).event && final(a).argv == old(
            a,
        ).argv,
{
}

/// A frame for which there is no room is refused for what it is, takes no number, and only one
/// that found the queue full counts as lost.
pub proof fn law_refused_frames_take_no_number(
    queue: &mut TraceQueue,
    payload: &mut TracePayload,
    room: QueueRoom,
    r: Result<(), EnqueueError>,
    stops: bool,
)
    requires
        old(queue).next_seq < u64::MAX,
        !(room is Room),
        call_ensures(TraceQueue::enqueue_trace_payload, (queue, payload, room), r),
        call_ensures(EnqueueError::shuts_down, (&r->Err_0,), stops),
    ensures
        r is Err,
        room is NotStarted <==> r->Err_0 is NotStarted,
        room is Closed <==> r->Err_0 is WorkerGone,
        room is Full <==> r->Err_0 is QueueFull,
        stops <==> !(room is NotStarted),
        *final(payload) == *old(payload),
        final(queue).next_seq == old(queue).next_seq && final(queue).queued == old(queue).queued,
        room is Full && old(queue).dropped_queue_full < u64::MAX ==> final(queue).dropped_queue_full
            == old(queue).dropped_queue_full + 1,
        !(room is Full) ==> final(queue).dropped_queue_full == old(queue).dropped_queue_full,
{
}

/// A frame that is queued and worked off leaves the queue as it was, but for the numbers; the
/// queue is worked off through its number and not through the next.
pub proof fn law_worked_off_frames_leave_the_queue(
    first: &mut TraceQueue,
    second: &mut TraceQueue,
    payload: &mut TracePayload,
    sid: Option<String>,
    seq: u64,
    r: Result<(), EnqueueError>,
    through: bool,
    further: bool,
)
    requires
        old(first).wf(),
        old(first).next_seq < u64::MAX - 1 && old(first).queued < u64::MAX,
        old(payload).ingest_seq is Absent,
        opt_view(sid) == crate::ingest::payload_root(*old(payload)),
        sid is Some ==> old(first).waiting(sid->0@) < u64::MAX,
        call_ensures(TraceQueue::enqueue_trace_payload, (first, payload, QueueRoom::Room), r),
        *final(first) == *old(second),
        seq == old(first).next_seq + 1,
        call_ensures(TraceQueue::record_processed, (second, &sid, seq), ()),
        call_ensures(TraceQueue::processed_through, (final(second), seq), through),
        call_ensures(TraceQueue::processed_through, (final(second), (seq + 1) as u64), further),
    ensures
        through && !further,
        final(second).queued == old(first).queued,
        final(second).queued_by_root@ == old(first).queued_by_root@,
{
    assert(final(second).queued_by_root@ =~= old(first).queued_by_root@);
}

/// What a frame is used for goes by its event: probes answer, events that are ingested are
/// taken in, and the rest is passed over.
pub proof fn law_frames_are_used_by_their_events(payload: TracePayload, event: &str, taken: bool, r: FrameUse)
    requires
        call_ensures(trace_frame_use, (&payload,), r),
        payload.event is Some && payload.event->0@ == event@,
        call_ensures(crate::trace::reader_should_ingest_trace_event, (event,), taken),
    ensures
        event@ == crate::trace::TRACE_DRAIN_PROBE_EVENT@ ==> r == FrameUse::Probe(payload.probe_id),
        event@ != crate::trace::TRACE_DRAIN_PROBE_EVENT@ && taken ==> r is Ingest,
        event@ != crate::trace::TRACE_DRAIN_PROBE_EVENT@ && !taken ==> r is Ignore,
{
}

/// A marker that a connection closed closes the root that it names.
pub proof fn law_close_markers_close_their_roots(
    sid: String,
    time_ns: u64,
    marker: TracePayload,
    root: Option<String>,
    last: bool,
    hinted: bool,
    r: FrameStep,
)
    requires
        call_ensures(close_marker, (sid, time_ns), marker),
        call_ensures(crate::ingest::trace_payload_root_sid, (&marker,), root),
        call_ensures(crate::ingest::trace_payload_is_root_final_frame, (&marker,), last),
        call_ensures(frame_step, (&marker, hinted), r),
    ensures
        last,
        root is Some,
        r is CloseRoot && r->CloseRoot_root@ == root->0@,
        marker.time_ns == Some(time_ns),
{
}

/// Frames come out in the order of their numbers, one for each number, each once, and none
/// before its turn, in whatever order they came.
pub proof fn law_frames_come_out_in_order(
    first: &mut ReorderBuffer,
    second: &mut ReorderBuffer,
    third: &mut ReorderBuffer,
    fourth: &mut ReorderBuffer,
    early: TracePayload,
    late: TracePayload,
    ra: Result<(), ReorderError>,
    rb: Result<(), ReorderError>,
    one: Option<OrderedFrame>,
    two: Option<OrderedFrame>,
)
    requires
        old(first).wf(),
        old(first).pending@.dom().finite(),
        old(first).pending@.len() == 0,
        old(first).capacity >= 2,
        old(first).next_seq < u64::MAX - 1,
        early.ingest_seq == SeqField::Number(old(first).next_seq),
        late.ingest_seq == SeqField::Number((old(first).next_seq + 1) as u64),
        call_ensures(ReorderBuffer::receive, (first, late), ra),
        *final(first) == *old(second),
        call_ensures(ReorderBuffer::receive, (second, early), rb),
        *final(second) == *old(third),
        call_ensures(ReorderBuffer::take_next, (third,), one),
        *final(third) == *old(fourth),
        call_ensures(ReorderBuffer::take_next, (fourth,), two),
    ensures
        ra is Ok && rb is Ok,
        one is Some && two is Some,
        one->0.seq == old(first).next_seq && two->0.seq == old(first).next_seq + 1,
        one->0.payload.raw == early.raw && one->0.payload.sid == early.sid,
        two->0.payload.raw == late.raw && two->0.payload.sid == late.sid,
        one->0.payload.ingest_seq is Absent && two->0.payload.ingest_seq is Absent,
        final(fourth).next_seq == old(first).next_seq + 2,
{
    let a = old(first).pending@.dom();
    assert(a =~= Set::<u64>::empty());
    let b = old(second).pending@.dom();
    assert(b =~= a.insert((old(first).next_seq + 1) as u64));
    assert(b.len() == 1);
}

/// A frame whose turn has not come is held back.
pub proof fn law_frames_wait_for_their_turn(
    first: &mut ReorderBuffer,
    second: &mut ReorderBuffer,
    late: TracePayload,
    ra: Result<(), ReorderError>,
    r: Option<OrderedFrame>,
)
    requires
        !old(first).pending@.contains_key(old(first).next_seq),
        late.ingest_seq is Number && late.ingest_seq->0 != old(first).next_seq,
        call_ensures(ReorderBuffer::receive, (first, late), ra),
        *final(first) == *old(second),
        call_ensures(ReorderBuffer::take_next, (second,), r),
    ensures
        r is None,
        ra is Ok ==> final(second).pending@.contains_key(late.ingest_seq->0)
            && final(second).pending@[late.ingest_seq->0] == late,
        final(second).next_seq == old(first).next_seq,
{
}

/// A frame without a number, one too many and one whose number is taken are refused, each for
/// what it is.
pub proof fn law_frames_out_of_place_are_refused(
    buffer: &mut ReorderBuffer,
    payload: TracePayload,
    held: usize,
    r: Result<(), ReorderError>,
)
    requires
        call_ensures(ReorderBuffer::buffered, (old(buffer),), held),
        call_ensures(ReorderBuffer::receive, (buffer, payload), r),
    ensures
        !(payload.ingest_seq is Number) ==> r is Err && r->Err_0 is MissingSeq && final(buffer).pending@ == old(buffer).pending@,
        payload.ingest_seq is Number && held >= old(buffer).capacity ==> r is Err && r->Err_0
            is Overflow && final(buffer).pending@ == old(buffer).pending@,
        payload.ingest_seq is Number && held < old(buffer).capacity
            && old(buffer).pending@.contains_key(payload.ingest_seq->0) ==> r is Err && r->Err_0
            is Duplicate,
        payload.ingest_seq is Number && held < old(buffer).capacity && !old(
            buffer,
        ).pending@.contains_key(payload.ingest_seq->0) ==> r is Ok,
{
}

/// A connection is known by its first frame with a session, and its roots open once each.
pub proof fn law_connections_are_known_by_their_first_frame(
    ingress: &mut TraceIngressState,
    seen: &mut Vec<String>,
    payload: TracePayload,
    root: Option<String>,
    other: Seq<char>,
)
    requires
        call_ensures(observe_frame_root, (ingress, seen, &payload), ()),
        call_ensures(crate::ingest::trace_payload_root_sid, (&payload,), root),
        old(ingress).unidentified_open_connections > 0,
        root is Some ==> (old(ingress).root(root->0@).open_connections is Some ==> old(
            ingress,
        ).root(root->0@).open_connections->0 < usize::MAX),
    ensures
        root is None ==> views(final(seen)@) == views(old(seen)@) && final(ingress).unidentified_open_connections == old(ingress).unidentified_open_connections,
        root is Some ==> views(final(seen)@).contains(root->0@),
        root is Some && old(seen)@.len() == 0 ==> final(ingress).unidentified_open_connections
            == old(ingress).unidentified_open_connections - 1,
        old(seen)@.len() > 0 ==> final(ingress).unidentified_open_connections == old(
            ingress,
        ).unidentified_open_connections,
        root is Some && !views(old(seen)@).contains(root->0@) ==> final(ingress).root(
            root->0@,
        ).open_connections == Some(
            match old(ingress).root(root->0@).open_connections {
                Some(n) => (n + 1) as usize,
                None => 1usize,
            },
        ),
        root is Some && views(old(seen)@).contains(root->0@) ==> final(ingress).root(root->0@)
            == old(ingress).root(root->0@),
        root is None || other != root->0@ ==> final(ingress).root(other) == old(ingress).root(
            other,
        ),
{
    assert(views(old(seen)@).len() == old(seen)@.len());
    assert(final(ingress).model()[other] == final(ingress).root(other));
    assert(old(ingress).model()[other] == old(ingress).root(other));
    if root is Some {
        let name = root->0@;
        assert(final(ingress).model()[name] == final(ingress).root(name));
        assert(old(ingress).model()[name] == old(ingress).root(name));
        let before = views(old(seen)@);
        let after = views(final(seen)@);
        if !before.contains(name) {
            assert(after[before.len() as int] == name);
        }
    }
}

/// A connection that never said what it is counts no longer once it closes.
pub proof fn law_unknown_connections_close(
    ingress: &mut TraceIngressState,
    seen: Vec<String>,
    r: Vec<String>,
    sid: Seq<char>,
)
    requires
        seen@.len() == 0,
        old(ingress).unidentified_open_connections > 0,
        call_ensures(finalize_trace_connection_roots, (ingress, &seen), r),
    ensures
        r@.len() == 0,
        final(ingress).unidentified_open_connections == old(ingress).unidentified_open_connections
            - 1,
        final(ingress).root(sid) == old(ingress).root(sid),
{
    assert(views(seen@).len() == 0);
    assert(final(ingress).model()[sid] == final(ingress).root(sid));
    assert(old(ingress).model()[sid] == old(ingress).root(sid));
}

/// A lock that is taken and given back is as it was; one that is held is not dropped.
pub proof fn law_locks_are_given_back(
    first: &mut ExecLocks,
    second: &mut ExecLocks,
    third: &mut ExecLocks,
    family: &str,
    other: Seq<char>,
)
    requires
        old(first).count(family@) < usize::MAX,
        call_ensures(ExecLocks::take, (first, family), ()),
        *final(first) == *old(second),
        call_ensures(ExecLocks::drop_idle, (second,), ()),
        *final(second) == *old(third),
        call_ensures(ExecLocks::give_back, (third, family), ()),
    ensures
        final(first).count(family@) == old(first).count(family@) + 1,
        final(second).count(family@) == final(first).count(family@),
        final(third).count(family@) == old(first).count(family@),
        final(third).count(other) == old(first).count(other),
{
}

/// There is work left while requests are outstanding, frames are queued, effects are in flight
/// or entries wait; a fence that holds and frames that were not worked off are work for the
/// daemon too. Open roots alone are none.
pub proof fn law_work_is_left_while_anything_waits(
    c: ActorDaemonCoordinator,
    attribution: bool,
    daemon: bool,
    fence_held: bool,
    waiting: FamilySequencers,
    entries: bool,
    effects: bool,
)
    requires
        waiting == c.sequencers,
        call_ensures(ActorDaemonCoordinator::has_pending_attribution_work, (&c,), attribution),
        call_ensures(ActorDaemonCoordinator::has_pending_daemon_work, (&c, fence_held), daemon),
        call_ensures(FamilySequencers::has_entries, (&waiting,), entries),
        call_ensures(
            crate::effects::InflightEffects::has_inflight_family_effects,
            (&c.inflight,),
            effects,
        ),
    ensures
        c.quota.requests > 0 ==> attribution,
        c.queue.queued > 0 ==> attribution,
        entries || effects ==> attribution,
        c.quota.requests == 0 && c.queue.queued == 0 && !entries && !effects ==> !attribution,
        attribution || fence_held || c.queue.next_seq > c.queue.processed_seq ==> daemon,
        !attribution && !fence_held && c.queue.next_seq <= c.queue.processed_seq ==> !daemon,
{
    let args = (&waiting,);
    assert(args.0 == waiting);
    if crate::coordinator::work_is_queued(c.sequencers) {
        let f = choose|f: Seq<char>| waiting.entries(f).len() > 0;
        assert(waiting.entries(f).len() > 0);
        assert(entries);
    }
    if c.inflight.counts@ != Map::<Seq<char>, usize>::empty() {
        assert(effects);
    }
}

/// Checkpoints are drained when none is outstanding, and families are in step when none is on
/// its way, and no effect is in flight.
pub proof fn law_what_is_drained_has_nothing_in_flight(
    c: ActorDaemonCoordinator,
    drained: bool,
    synced: bool,
    effects: bool,
)
    requires
        call_ensures(ActorDaemonCoordinator::accepted_checkpoints_are_drained, (&c,), drained),
        call_ensures(ActorDaemonCoordinator::families_are_synced, (&c,), synced),
        call_ensures(
            crate::effects::InflightEffects::has_inflight_family_effects,
            (&c.inflight,),
            effects,
        ),
    ensures
        drained <==> c.quota.requests == 0 && !effects,
        synced <==> c.gate.unadmitted == 0 && !effects,
{
}

/// A command goes into the sequence of its family when it takes part in it; any other command
/// is handed back and nothing changes.
pub proof fn law_commands_go_into_the_sequence_of_their_family(
    c: &mut ActorDaemonCoordinator,
    command: NormalizedCommand,
    participates: bool,
    now_ns: u128,
    r: Result<String, NormalizedCommand>,
    other: Seq<char>,
)
    requires
        old(c).wf(),
        call_ensures(
            ActorDaemonCoordinator::sequence_emitted_command,
            (c, command, participates, now_ns),
            r,
        ),
    ensures
        participates && command.family_key is Some ==> r is Ok && r->Ok_0@
            == command.family_key->0@,
        !participates || command.family_key is None ==> r is Err && r->Err_0 == command
            && *final(c) == *old(c),
        r is Ok ==> exists|i: int|
            0 <= i < final(c).sequencers.entries(r->Ok_0@).len() && (
            #[trigger] final(c).sequencers.entries(r->Ok_0@)[i]).1.entry
                == FamilySequencerEntry::ReadyCommand(command)
                && final(c).sequencers.entries(r->Ok_0@)[i].0.started_at_ns
                == command.started_at_ns,
        r is Ok && other != r->Ok_0@ ==> final(c).sequencers.entries(other) == old(
            c,
        ).sequencers.entries(other),
        final(c).gate == old(c).gate && final(c).quota == old(c).quota,
{
    if r is Ok {
        let before = old(c).sequencers.entries(r->Ok_0@);
        let order = crate::sequencer::FamilySequencerOrder {
            started_at_ns: command.started_at_ns,
            ordinal: old(c).sequencers.ordinal(r->Ok_0@),
        };
        crate::laws::sequences::lemma_place(before, order);
        let at = crate::sequencer::place_of(before, order) as int;
        let slot = final(c).sequencers.entries(r->Ok_0@)[at];
        assert(slot.1.entry == FamilySequencerEntry::ReadyCommand(command));
    }
}

/// A command that was applied goes into the sequence of its family, at its own start.
pub proof fn law_applied_commands_go_into_the_sequence_of_their_family(
    c: &mut ActorDaemonCoordinator,
    applied: AppliedCommand,
    now_ns: u128,
    r: Option<String>,
)
    requires
        old(c).wf(),
        call_ensures(
            ActorDaemonCoordinator::sequence_applied_command,
            (c, applied, now_ns),
            r,
        ),
    ensures
        opt_view(r) == opt_view(applied.command.family_key),
        r is None ==> *final(c) == *old(c),
        r is Some ==> exists|i: int|
            0 <= i < final(c).sequencers.entries(r->0@).len() && (
            #[trigger] final(c).sequencers.entries(r->0@)[i]).1.entry
                == FamilySequencerEntry::AppliedSideEffects(applied)
                && final(c).sequencers.entries(r->0@)[i].0.started_at_ns
                == applied.command.started_at_ns,
{
    if r is Some {
        let before = old(c).sequencers.entries(r->0@);
        let order = crate::sequencer::FamilySequencerOrder {
            started_at_ns: applied.command.started_at_ns,
            ordinal: old(c).sequencers.ordinal(r->0@),
        };
        crate::laws::sequences::lemma_place(before, order);
        let at = crate::sequencer::place_of(before, order) as int;
        let slot = final(c).sequencers.entries(r->0@)[at];
        assert(slot.1.entry == FamilySequencerEntry::AppliedSideEffects(applied));
    }
}

/// An accepted checkpoint that is prepared stands in the sequence of its family at the time
/// when it came, and keeps its room until it is done; one that cannot be admitted gives its
/// room back. Either way it is admitted, and only one that broke off shuts the daemon down.
pub proof fn law_accepted_checkpoints_are_settled(
    c: &mut ActorDaemonCoordinator,
    prepared: PreparedCheckpointAdmission,
    receipt: u64,
    reservation: CheckpointIngressReservation,
    outcome: AdmissionOutcome,
    now_ns: u128,
    r: AdmissionSettled,
)
    requires
        old(c).wf(),
        call_ensures(ActorDaemonCoordinator::settle_admission, (c, outcome, now_ns), r),
        old(c).gate.unadmitted > 0,
        old(c).quota.requests > 0,
        old(c).quota.bytes >= reservation.body_bytes,
    ensures
        r.shut_down <==> outcome is Panicked,
        r.drain_all <==> old(c).gate.unadmitted == 1,
        final(c).gate.unadmitted == old(c).gate.unadmitted - 1,
        outcome == AdmissionOutcome::Prepared(prepared) ==> final(c).quota == old(c).quota
            && final(c).gate.processed_receipt_seq == prepared.receipt_seq && exists|i: int|
            0 <= i < final(c).sequencers.entries(prepared.family@).len() && (
            #[trigger] final(c).sequencers.entries(prepared.family@)[i]).0.started_at_ns
                == prepared.received_at_ns
                && final(c).sequencers.entries(prepared.family@)[i].1.entry
                == (FamilySequencerEntry::Checkpoint {
                request: prepared.request,
                receipt_seq: prepared.receipt_seq,
                reservation: prepared.reservation,
            }),
        outcome == (AdmissionOutcome::Failed { receipt_seq: receipt, reservation }) || outcome == (
        AdmissionOutcome::Panicked { receipt_seq: receipt, reservation }) ==> final(c).quota.requests == old(c).quota.requests - 1 && final(c).quota.bytes == old(c).quota.bytes
            - reservation.body_bytes && final(c).sequencers == old(c).sequencers && final(c).gate.processed_receipt_seq == receipt,
{
    if outcome == AdmissionOutcome::Prepared(prepared) {
        let before = old(c).sequencers.entries(prepared.family@);
        let order = crate::sequencer::FamilySequencerOrder {
            started_at_ns: prepared.received_at_ns,
            ordinal: old(c).sequencers.ordinal(prepared.family@),
        };
        crate::laws::sequences::lemma_place(before, order);
        let at = crate::sequencer::place_of(before, order) as int;
        let slot = final(c).sequencers.entries(prepared.family@)[at];
        assert(slot.0.started_at_ns == prepared.received_at_ns);
    }
}

/// A checkpoint is admitted where its first file lies; one that cannot be read or names no file
/// is not admitted.
pub proof fn law_checkpoints_are_admitted_where_their_files_lie(
    request: CheckpointRequest,
    error: String,
    good: Result<(CheckpointRequest, String), AdmissionError>,
    bad: Result<(CheckpointRequest, String), AdmissionError>,
    tool: String,
)
    requires
        call_ensures(admission_work_dir, (Ok(request),), good),
        call_ensures(admission_work_dir, (Err(error),), bad),
        call_ensures(stream_tool, (&request,), tool),
    ensures
        request.files@.len() > 0 ==> good is Ok && (good->Ok_0).0 == request && (good->Ok_0).1@
            == request.files@[0].repo_work_dir@,
        request.files@.len() == 0 ==> good is Err && good->Err_0 is NoFiles,
        bad is Err && bad->Err_0 == AdmissionError::InvalidBody(error),
        request.agent_tool is Some ==> tool@ == request.agent_tool->0@,
        request.agent_tool is None ==> tool@ == "unknown"@,
{
}

/// A frame that was worked off counts no longer. The root of a last frame that failed is
/// cleared, and with it the fence that it held; any other root stays as it is.
pub proof fn law_frames_that_are_finished_count_no_longer(
    c: &mut ActorDaemonCoordinator,
    root: Option<String>,
    seq: u64,
    last: bool,
    failed: bool,
    r: Option<FenceScope>,
    sid: Seq<char>,
)
    requires
        old(c).queue.queued > 0,
        call_ensures(ActorDaemonCoordinator::finish_frame, (c, &root, seq, last, failed), r),
    ensures
        final(c).queue.processed_seq == seq,
        final(c).queue.queued == old(c).queue.queued - 1,
        r is Some ==> failed && last && root is Some,
        root is Some && failed && last ==> final(c).ingress.root(root->0@)
            == crate::ingress::blank() && final(c).queue.waiting(root->0@) == 0,
        !failed || !last ==> final(c).ingress.root(sid) == old(c).ingress.root(sid),
        root is Some && sid != root->0@ ==> final(c).ingress.root(sid) == old(c).ingress.root(sid)
            && final(c).queue.waiting(sid) == old(c).queue.waiting(sid),
        root is Some && (!failed || !last) && old(c).queue.waiting(root->0@) > 0 ==> final(c).queue.waiting(root->0@) == old(c).queue.waiting(root->0@) - 1,
{
    assert(final(c).ingress.model()[sid] == final(c).ingress.root(sid));
    assert(old(c).ingress.model()[sid] == old(c).ingress.root(sid));
    if root is Some {
        assert(final(c).ingress.model()[root->0@] == final(c).ingress.root(root->0@));
    }
}

/// To drop what is stale loses nothing that is still to be done.
pub proof fn law_dropping_what_is_stale_loses_no_work(
    c: &mut ActorDaemonCoordinator,
    now_ns: u128,
    family: &str,
    path: &str,
    held: bool,
    still_held: bool,
)
    requires
        old(c).wf(),
        call_ensures(
            crate::checkpoint::PendingAiEdits::file_has_pending_ai_edit,
            (&old(c).ai_edits, family, path, now_ns),
            held,
        ),
        call_ensures(ActorDaemonCoordinator::gc_stale_family_state, (c, now_ns), ()),
        call_ensures(
            crate::checkpoint::PendingAiEdits::file_has_pending_ai_edit,
            (&final(c).ai_edits, family, path, now_ns),
            still_held,
        ),
    ensures
        final(c).sequencers.entries(family@) == old(c).sequencers.entries(family@),
        final(c).exec_locks.count(family@) == old(c).exec_locks.count(family@),
        final(c).errors.errors(family@) == old(c).errors.errors(family@),
        final(c).queue.waiting(family@) == old(c).queue.waiting(family@),
        final(c).pending.rebases == old(c).pending.rebases,
        final(c).inflight == old(c).inflight && final(c).gate == old(c).gate && final(c).quota
            == old(c).quota && final(c).ingress == old(c).ingress,
        still_held == held,
{
    assert(final(c).ai_edits.edits(family@) == crate::keyed::retained(
        old(c).ai_edits.edits(family@),
        crate::checkpoint::is_still_pending(now_ns),
    ));
    let before = old(c).errors.errors(family@);
    if old(c).errors.by_family@.contains_key(family@) && old(c).errors.by_family@[family@]@.len()
        == 0 {
        assert(before =~= Seq::empty());
    }
    let entries = old(c).sequencers.entries(family@);
    if old(c).sequencers.by_family@.contains_key(family@) && entries.len() == 0 {
        assert(entries =~= Seq::empty());
    }
}

/// A daemon begins with nothing to do, an open intake, and room for a thousand and twenty-four
/// checkpoints of sixty-four mebibytes in all.
pub proof fn law_a_daemon_begins_with_nothing_to_do(
    c: ActorDaemonCoordinator,
    work: bool,
    drained: bool,
    synced: bool,
)
    requires
        call_ensures(ActorDaemonCoordinator::new, (), c),
        call_ensures(ActorDaemonCoordinator::has_pending_daemon_work, (&c, false), work),
        call_ensures(ActorDaemonCoordinator::accepted_checkpoints_are_drained, (&c,), drained),
        call_ensures(ActorDaemonCoordinator::families_are_synced, (&c,), synced),
    ensures
        !work && drained && synced,
        c.gate.accepting && c.gate.next_receipt_seq == 0,
        c.quota.request_limit == 1_024 && c.quota.byte_limit == 67_108_864,
        !c.lifecycle.shutting_down,
{
    assert(c.inflight.counts@ =~= Map::<Seq<char>, usize>::empty());
}

/// To clear the tracking of a root is to clear the root and to forget how much of it waits.
pub proof fn law_a_root_is_cleared_with_its_count(
    c: &mut ActorDaemonCoordinator,
    alone: &mut TraceIngressState,
    sid: &str,
    other: Seq<char>,
    r: Option<FenceScope>,
    scope: Option<FenceScope>,
)
    requires
        *old(alone) == old(c).ingress,
        call_ensures(ActorDaemonCoordinator::clear_trace_root_tracking, (c, sid), r),
        call_ensures(TraceIngressState::clear_trace_ingress_root, (alone, sid), scope),
    ensures
        crate::ingress::scope_view(r) == crate::ingress::scope_view(scope),
        final(c).queue.waiting(sid@) == 0,
        other != sid@ ==> final(c).queue.waiting(other) == old(c).queue.waiting(other),
        final(c).ingress.root(other) == final(alone).root(other),
        final(c).sequencers == old(c).sequencers && final(c).gate == old(c).gate,
{
    assert(final(c).ingress.model()[other] == final(c).ingress.root(other));
    assert(final(alone).model()[other] == final(alone).root(other));
}

/// A checkpoint that cannot be admitted counts as admitted and leaves its room.
pub proof fn law_failed_admissions_leave_their_room(
    c: &mut ActorDaemonCoordinator,
    receipt: u64,
    reservation: CheckpointIngressReservation,
    r: bool,
)
    requires
        old(c).gate.unadmitted > 0,
        old(c).quota.requests > 0,
        old(c).quota.bytes >= reservation.body_bytes,
        call_ensures(
            ActorDaemonCoordinator::complete_failed_checkpoint_admission,
            (c, receipt, reservation),
            r,
        ),
    ensures
        r <==> old(c).gate.unadmitted == 1,
        final(c).gate.processed_receipt_seq == receipt,
        final(c).quota.requests == old(c).quota.requests - 1,
        final(c).quota.bytes == old(c).quota.bytes - reservation.body_bytes,
        final(c).sequencers == old(c).sequencers,
{
}

/// A root is cleared when its command was emitted, or when its last frame came without one.
pub proof fn law_roots_are_cleared_when_they_end(
    root: Option<String>,
    terminal: bool,
    emitted: Emitted,
    sid: String,
    r: Option<String>,
)
    requires
        call_ensures(root_to_clear, (&root, terminal, &emitted), r),
    ensures
        emitted == (Emitted::Command { root_sid: sid }) ==> opt_view(r) == Some(sid@),
        !(emitted is Command) && terminal ==> opt_view(r) == opt_view(root),
        !(emitted is Command) && !terminal ==> r is None,
{
}

/// What is stale is dropped with every five hundredth frame.
pub proof fn law_stale_state_is_dropped_now_and_again(
    buffer: &mut ReorderBuffer,
    r: Option<OrderedFrame>,
)
    requires
        old(buffer).processed < u64::MAX,
        call_ensures(ReorderBuffer::take_next, (buffer,), r),
    ensures
        r is Some ==> final(buffer).processed == old(buffer).processed + 1,
        r is Some ==> (r->0.gc_due <==> (old(buffer).processed + 1) % 500 == 0),
{
}

/// To forget a root, or to drop roots of which nothing waits, changes no other count.
pub proof fn law_forgotten_roots_do_not_wait(
    forgotten: &mut TraceQueue,
    dropped: &mut TraceQueue,
    sid: &str,
    other: Seq<char>,
)
    requires
        call_ensures(TraceQueue::forget_root, (forgotten, sid), ()),
        call_ensures(TraceQueue::drop_empty, (dropped,), ()),
    ensures
        final(forgotten).waiting(sid@) == 0,
        other != sid@ ==> final(forgotten).waiting(other) == old(forgotten).waiting(other),
        final(dropped).waiting(other) == old(dropped).waiting(other),
        final(forgotten).queued == old(forgotten).queued && final(dropped).queued
            == old(dropped).queued,
{
}

/// The last frame of a root is the `atexit` of its own process; a frame whose worktree is known
/// lets other families go on.
pub proof fn law_roots_end_with_their_own_atexit(
    payload: TracePayload,
    root: Option<String>,
    hinted: bool,
    r: FrameStep,
)
    requires
        call_ensures(frame_step, (&payload, hinted), r),
        call_ensures(crate::ingest::trace_payload_root_sid, (&payload,), root),
        payload.event is Some && payload.event->0@ != crate::trace::TRACE_CONNECTION_CLOSED_EVENT@,
        payload.sid is Some,
    ensures
        r is Normalize && r->narrows == hinted,
        r->terminal <==> payload.event->0@ == "atexit"@ && root is Some && root->0@
            == payload.sid->0@,
{
}

/// A connection that closes does for its one root what closing it does.
pub proof fn law_closing_a_connection_closes_its_root(
    ingress: &mut TraceIngressState,
    alone: &mut TraceIngressState,
    seen: Vec<String>,
    r: Vec<String>,
    direct: Vec<String>,
    sid: Seq<char>,
)
    requires
        seen@.len() == 1,
        *old(ingress) == *old(alone),
        call_ensures(finalize_trace_connection_roots, (ingress, &seen), r),
        call_ensures(TraceIngressState::record_trace_connection_close, (alone, &seen), direct),
    ensures
        views(r@) == views(direct@),
        final(ingress).root(sid) == final(alone).root(sid),
        final(ingress).unidentified_open_connections == old(ingress).unidentified_open_connections,
{
    let roots = views(seen@);
    assert(roots.len() == 1);
    let sorted = choose|sorted: Seq<Seq<char>>| #[trigger]
        crate::text::in_order(sorted) && sorted.to_multiset() == roots.to_multiset()
            && final(ingress).model() == crate::ingress::closed_all(old(ingress).model(), sorted)
            && views(r@) == crate::ingress::close_markers(old(ingress).model(), sorted);
    sorted.to_multiset_ensures();
    roots.to_multiset_ensures();
    assert(sorted.len() == 1);
    assert(sorted.to_multiset().count(sorted[0]) > 0);
    assert(roots.contains(sorted[0]));
    assert(sorted =~= roots);
    assert(final(ingress).model()[sid] == final(ingress).root(sid));
    assert(final(alone).model()[sid] == final(alone).root(sid));
}

} // verus!
