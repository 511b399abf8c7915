//! The conversation over a control connection, and what is answered.
use crate::checkpoint::{CheckpointBodyError, CheckpointGate};
use crate::control::{
    apply_control_receive_timeout, checkpoint_body_failure, checkpoint_control_response_timeout,
    checkpoint_control_timeout_uses_ci_or_test_budget, checkpoint_handshake, client_read,
    connection_error_is_peer_disconnect, connection_failure_severity, control_receive_timed_out,
    control_response, control_task, family_status, finish_shutdown, refused_response, request_kind,
    ClientRead, ConnectionAction, ConnectionError, ConnectionEvent, ConnectionPhase,
    ConnectionStep, ControlConnection, ControlRequest, ControlResponse, ControlTask, FamilyStatus,
    Handshake, IngressRoom, IoFailure, LineRead, RequestKind, Severity,
};
use crate::effects::SideEffectErrors;
use crate::quota::CheckpointIngressQuota;
use crate::text::opt_view;
use vstd::prelude::*;

verus! {

/// A checkpoint is asked for when there is room for it: its room is taken, and the peer is told
/// to send the body. Without room, while the daemon shuts down, and for a body too large to be
/// counted, the peer is told why not and nothing is taken.
pub proof fn law_checkpoints_are_asked_for_when_there_is_room(
    connection: &mut ControlConnection,
    gate: &mut CheckpointGate,
    quota: &mut CheckpointIngressQuota,
    bytes: u64,
    r: ConnectionAction,
)
    requires
        old(quota).wf() && old(connection).wf(),
        old(gate).next_receipt_seq < u64::MAX && old(gate).unadmitted < u64::MAX,
        old(connection).phase is Reading,
        call_ensures(
            ControlConnection::step,
            (
                connection,
                gate,
                quota,
                ConnectionEvent::Line(
                    LineRead::Request(RequestKind::Checkpoint { body_bytes: bytes }),
                ),
            ),
            r,
        ),
    ensures
        ({
            let room = old(quota).requests < old(quota).request_limit && old(quota).bytes + bytes
                <= old(quota).byte_limit;
            &&& r.next is Write
            &&& old(gate).accepting && room ==> {
                &&& final(connection).phase is Offering
                &&& final(connection).reservation is Some
                &&& final(connection).reservation->0.body_bytes == bytes
                &&& final(quota).requests == old(quota).requests + 1
                &&& final(quota).bytes == old(quota).bytes + bytes
                &&& r.next->Write_response.ok && r.next->Write_response.ready
            }
            &&& !old(gate).accepting || !room ==> {
                &&& final(connection).phase is Answering
                &&& *final(quota) == *old(quota)
                &&& !r.next->Write_response.ok && r.next->Write_response.error is Some
                    && !r.next->Write_response.ready
            }
            &&& !old(gate).accepting ==> r.next->Write_response.error->0@ == "daemon is shutting down"@
        }),
        *final(gate) == *old(gate),
        !r.request_shutdown && !r.request_stop,
{
    assert(r.next is Write ==> r.next@->Write_response == r.next->Write_response@);
}

/// Behind the word that it may be sent, the body that was announced is read, at the pace of a
/// request; where the peer cannot be told, its room is freed.
pub proof fn law_announced_bodies_are_read(
    connection: &mut ControlConnection,
    gate: &mut CheckpointGate,
    quota: &mut CheckpointIngressQuota,
    done: bool,
    r: ConnectionAction,
)
    requires
        old(quota).wf() && old(connection).wf(),
        old(gate).next_receipt_seq < u64::MAX && old(gate).unadmitted < u64::MAX,
        old(connection).phase is Offering,
        old(quota).requests > 0 && old(quota).bytes
            >= old(connection).reservation->0.body_bytes,
        call_ensures(
            ControlConnection::step,
            (connection, gate, quota, ConnectionEvent::Written { done }),
            r,
        ),
    ensures
        done && !old(connection).uses_idle_timeout ==> r.next == (ConnectionStep::ReadBody {
            bytes: old(connection).reservation->0.body_bytes,
        }) && final(connection).phase is Receiving,
        done && old(connection).uses_idle_timeout ==> r.next == (ConnectionStep::SetTimeout {
            ms: 2_000,
        }) && final(connection).phase is Hurrying,
        done ==> *final(quota) == *old(quota),
        !done ==> r.next is Fail && final(connection).phase is Closed && final(connection).reservation is None && final(quota).requests == old(quota).requests - 1 && final(quota).bytes == old(quota).bytes - old(connection).reservation->0.body_bytes,
        *final(gate) == *old(gate),
{
}

/// A body that came is passed on where there is room in the queue; a body that did not come
/// frees its room.
pub proof fn law_received_bodies_are_queued(
    connection: &mut ControlConnection,
    gate: &mut CheckpointGate,
    quota: &mut CheckpointIngressQuota,
    received: bool,
    r: ConnectionAction,
)
    requires
        old(quota).wf() && old(connection).wf(),
        old(gate).next_receipt_seq < u64::MAX && old(gate).unadmitted < u64::MAX,
        old(connection).phase is Receiving,
        old(quota).requests > 0 && old(quota).bytes
            >= old(connection).reservation->0.body_bytes,
        call_ensures(
            ControlConnection::step,
            (connection, gate, quota, ConnectionEvent::Body { received }),
            r,
        ),
    ensures
        received && !old(connection).uses_idle_timeout ==> r.next is AskRoom,
        received && old(connection).uses_idle_timeout ==> r.next == (ConnectionStep::SetTimeout {
            ms: 10_000,
        }) && final(connection).phase is Relaxing,
        received ==> *final(quota) == *old(quota) && final(connection).reservation is Some,
        !received ==> r.next is Fail && final(quota).requests == old(quota).requests - 1,
        *final(gate) == *old(gate),
{
}

/// A checkpoint that finds room in the queue is accepted: it gets the next number, its room goes
/// along with it, and the peer is told the number. One that finds none is refused, and its room
/// is freed; where there is nobody to take it, the daemon ends.
pub proof fn law_checkpoints_are_accepted_in_the_queue(
    connection: &mut ControlConnection,
    gate: &mut CheckpointGate,
    quota: &mut CheckpointIngressQuota,
    room: IngressRoom,
    r: ConnectionAction,
)
    requires
        old(quota).wf() && old(connection).wf(),
        old(gate).next_receipt_seq < u64::MAX && old(gate).unadmitted < u64::MAX,
        old(connection).phase is Queueing,
        old(quota).requests > 0 && old(quota).bytes
            >= old(connection).reservation->0.body_bytes,
        call_ensures(
            ControlConnection::step,
            (connection, gate, quota, ConnectionEvent::Room(room)),
            r,
        ),
    ensures
        room is Room && old(gate).accepting ==> {
            &&& r.next is Deliver
            &&& r.next->receipt_seq == old(gate).next_receipt_seq + 1
            &&& r.next->reservation.body_bytes == old(connection).reservation->0.body_bytes
            &&& r.next->Deliver_response.ok && r.next->Deliver_response.seq == Some(
                r.next->receipt_seq,
            )
            &&& final(gate).next_receipt_seq == old(gate).next_receipt_seq + 1
            &&& final(gate).unadmitted == old(gate).unadmitted + 1
            &&& *final(quota) == *old(quota)
            &&& !r.request_shutdown
        },
        !(room is Room) || !old(gate).accepting ==> {
            &&& r.next is Write
            &&& !r.next->Write_response.ok
            &&& *final(gate) == *old(gate)
            &&& final(quota).requests == old(quota).requests - 1
            &&& final(quota).bytes == old(quota).bytes
                - old(connection).reservation->0.body_bytes
        },
        r.request_shutdown <==> room is NotStarted || room is Closed,
        final(connection).reservation is None,
{
    let seen = r.next@;
    assert(r.next is Deliver ==> seen->Deliver_response == r.next->Deliver_response@);
    assert(r.next is Write ==> seen->Write_response == r.next->Write_response@);
}

/// A request that is no checkpoint is handled, once the longer timeout is in force; a shutdown
/// that went well stops the daemon behind its answer, and nothing else does.
pub proof fn law_only_a_good_shutdown_stops_the_daemon(
    first: &mut ControlConnection,
    second: &mut ControlConnection,
    gate: &mut CheckpointGate,
    gate2: &mut CheckpointGate,
    quota: &mut CheckpointIngressQuota,
    quota2: &mut CheckpointIngressQuota,
    shutdown: bool,
    response: ControlResponse,
    done: bool,
    a: ConnectionAction,
    b: ConnectionAction,
)
    requires
        old(quota).wf() && old(first).wf(),
        old(gate).next_receipt_seq < u64::MAX && old(gate).unadmitted < u64::MAX,
        old(first).phase == (ConnectionPhase::Handling { shutdown }),
        call_ensures(
            ControlConnection::step,
            (first, gate, quota, ConnectionEvent::Handled(response)),
            a,
        ),
        *old(second) == *final(first),
        *old(gate2) == *final(gate),
        *old(quota2) == *final(quota),
        call_ensures(
            ControlConnection::step,
            (second, gate2, quota2, ConnectionEvent::Written { done }),
            b,
        ),
    ensures
        a.next is Write && a.next->Write_response@ == response@,
        !a.request_stop && !a.request_shutdown,
        b.request_stop <==> shutdown && response.ok,
        done ==> b.next is ReadLine && final(second).phase is Reading,
        !done ==> b.next is Fail && final(second).phase is Closed,
        *final(quota2) == *old(quota) && *final(gate2) == *old(gate),
{
    assert(a.next is Write ==> a.next@->Write_response == a.next->Write_response@);
}

/// What is read on a connection decides what it does: a peer that is done or silent ends it, a
/// blank line is passed over, what cannot be read is answered, and a first request that is no
/// checkpoint waits for the longer timeout.
pub proof fn law_lines_decide_what_a_connection_does(
    connection: &mut ControlConnection,
    gate: &mut CheckpointGate,
    quota: &mut CheckpointIngressQuota,
    line: LineRead,
    r: ConnectionAction,
)
    requires
        old(quota).wf() && old(connection).wf(),
        old(gate).next_receipt_seq < u64::MAX && old(gate).unadmitted < u64::MAX,
        old(connection).phase is Reading,
        call_ensures(
            ControlConnection::step,
            (connection, gate, quota, ConnectionEvent::Line(line)),
            r,
        ),
    ensures
        line is End || line is TimedOut ==> r.next is Close && final(connection).phase is Closed,
        line is Failed ==> r.next is Fail && final(connection).phase is Closed,
        line is Blank ==> r.next is ReadLine && final(connection).phase is Reading,
        line is Undecodable ==> r.next is Write && !r.next->Write_response.ok
            && r.next->Write_response.error is Some && r.next->Write_response.error->0@
            == "invalid control request: "@ + line->reason@,
        line is Request && !(line->Request_0 is Checkpoint) && !old(connection).uses_idle_timeout
            ==> r.next == (ConnectionStep::SetTimeout { ms: 10_000 }) && final(connection).phase
            == (ConnectionPhase::Settling { request: line->Request_0 }),
        line is Request && !(line->Request_0 is Checkpoint) && old(connection).uses_idle_timeout
            ==> r.next is Handle && final(connection).phase == (ConnectionPhase::Handling {
            shutdown: line->Request_0 is Shutdown,
        }),
        !(line is Request) ==> *final(quota) == *old(quota),
        *final(gate) == *old(gate),
{
    assert(r.next is Write ==> r.next@->Write_response == r.next->Write_response@);
}

/// A connection begins with the timeout of a request, and then reads.
pub proof fn law_connections_begin_with_a_timeout(
    begun: (ControlConnection, ConnectionStep),
    connection: &mut ControlConnection,
    gate: &mut CheckpointGate,
    quota: &mut CheckpointIngressQuota,
    applied: bool,
    r: ConnectionAction,
)
    requires
        call_ensures(ControlConnection::new, (), begun),
        *old(connection) == begun.0,
        old(quota).wf(),
        old(gate).next_receipt_seq < u64::MAX && old(gate).unadmitted < u64::MAX,
        call_ensures(
            ControlConnection::step,
            (connection, gate, quota, ConnectionEvent::TimeoutSet { applied }),
            r,
        ),
    ensures
        begun.1 == (ConnectionStep::SetTimeout { ms: 2_000 }),
        applied ==> r.next is ReadLine,
        !applied ==> r.next is Close,
        *final(quota) == *old(quota),
{
}

/// How long an answer is waited for: two seconds, but five minutes where work is waited for,
/// half a second for what was seen, and five seconds longer than the wait for one that names
/// its own.
pub proof fn law_answers_are_waited_for(
    request: ControlRequest,
    patient: bool,
    r: u128,
    a: bool,
    b: bool,
    ci: bool,
    budget: bool,
)
    requires
        call_ensures(checkpoint_control_response_timeout, (&request, patient), r),
        call_ensures(checkpoint_control_timeout_uses_ci_or_test_budget, (a, b, ci), budget),
    ensures
        request is CheckpointRun && patient ==> r == 300_000,
        request is CheckpointRun && !patient ==> r == 2_000,
        request is SyncFamily || request is ReingestMetrics || request is Shutdown ==> r == 300_000,
        request is SnapshotWatermarks ==> r == 500,
        request is Await && request->timeout_secs < 1_000_000_000 ==> r == 1_000 * (
        request->timeout_secs + 5),
        request is Ping || request is StatusDaemon || request is StatusFamily || request
            is SubmitTelemetry || request is SubmitCas || request is FlushNotes || request
            is StatsIngest || request is BashSession ==> r == 2_000,
        budget <==> a || b || ci,
{
}

/// A peer that went away is no failure of the daemon's; a time that ran out is a peer that went
/// away.
pub proof fn law_peers_that_go_away_are_no_failure(
    error: ConnectionError,
    kind: IoFailure,
    late: bool,
    gone: bool,
    severity: Severity,
    applied: (bool, Option<Severity>),
    fine: (bool, Option<Severity>),
)
    requires
        call_ensures(control_receive_timed_out, (&error,), late),
        call_ensures(connection_error_is_peer_disconnect, (&error,), gone),
        call_ensures(connection_failure_severity, (&error,), severity),
        call_ensures(apply_control_receive_timeout, (&Err(error),), applied),
        call_ensures(apply_control_receive_timeout, (&Ok(()),), fine),
    ensures
        error == ConnectionError::Io(kind) ==> (late <==> kind is TimedOut || kind is WouldBlock),
        error == ConnectionError::Io(kind) ==> (gone <==> !(kind is Other)),
        error is Generic ==> !late && !gone,
        gone <==> severity is Warn,
        !applied.0 && applied.1 == Some(severity),
        fine.0 && fine.1 is None,
{
}

/// A body that was cut short is a peer that went away; one with the wrong end is not.
pub proof fn law_bodies_cut_short_are_peers_gone(
    cut: ConnectionError,
    open: ConnectionError,
    wrong: ConnectionError,
    a: bool,
    b: bool,
    c: bool,
)
    requires
        call_ensures(checkpoint_body_failure, (CheckpointBodyError::Truncated,), cut),
        call_ensures(checkpoint_body_failure, (CheckpointBodyError::MissingDelimiter,), open),
        call_ensures(checkpoint_body_failure, (CheckpointBodyError::WrongDelimiter,), wrong),
        call_ensures(connection_error_is_peer_disconnect, (&cut,), a),
        call_ensures(connection_error_is_peer_disconnect, (&open,), b),
        call_ensures(connection_error_is_peer_disconnect, (&wrong,), c),
    ensures
        a && b && !c,
{
}

/// What went well is answered well, and what did not with its words.
pub proof fn law_answers_say_how_it_went(
    seq: Option<u64>,
    words: &str,
    error: String,
    good: ControlResponse,
    bad: ControlResponse,
    ready: ControlResponse,
    done: ControlResponse,
    failed: ControlResponse,
)
    requires
        call_ensures(ControlResponse::ok, (seq,), good),
        call_ensures(ControlResponse::err, (words,), bad),
        call_ensures(ControlResponse::ready, (), ready),
        call_ensures(control_response, (Ok(()),), done),
        call_ensures(control_response, (Err(error),), failed),
    ensures
        good.ok && good.seq == seq && good.error is None && !good.ready,
        !bad.ok && bad.seq is None && opt_view(bad.error) == Some(words@) && !bad.ready,
        ready.ok && ready.ready && ready.seq is None && ready.error is None,
        done.ok && done.seq is None && done.error is None && !done.ready,
        !failed.ok && opt_view(failed.error) == Some(error@),
{
    assert(good@.ok == good.ok && good@.ready == good.ready && good@.seq == good.seq);
    assert(bad@.ok == bad.ok && bad@.ready == bad.ready && bad@.seq == bad.seq);
    assert(ready@.ok == ready.ok && ready@.ready == ready.ready && ready@.seq == ready.seq);
    assert(done@.ok == done.ok && done@.ready == done.ready && done@.seq == done.seq);
    assert(failed@.ok == failed.ok);
    assert(good@.error == opt_view(good.error));
    assert(ready@.error == opt_view(ready.error));
    assert(done@.error == opt_view(done.error));
}

/// Each request is handled for what it is: a checkpoint outside its frame is refused, and so is
/// reading metrics in again where nobody can; a telemetry that nobody takes is simply answered.
pub proof fn law_requests_are_handled_for_what_they_are(
    request: ControlRequest,
    task: ControlTask,
    kind: RequestKind,
    refusal: ControlResponse,
)
    requires
        call_ensures(control_task, (&request,), task),
        call_ensures(request_kind, (&request,), kind),
        call_ensures(refused_response, (task,), refusal),
    ensures
        request is CheckpointRun <==> task is RefuseUnframed,
        request is CheckpointRun <==> kind is Checkpoint,
        request is CheckpointRun ==> kind->body_bytes == request->body_bytes,
        request is Shutdown <==> kind is Shutdown,
        request is Shutdown <==> task is Shutdown,
        request is Ping <==> task is Answer,
        request is SyncFamily <==> task is SyncFamily,
        request is StatusFamily <==> task is ReportFamily,
        request is SnapshotWatermarks <==> task is ReportWatermarks,
        request is StatusDaemon <==> task is ReportDaemon,
        request is StatsIngest <==> task is ReportIngest,
        request is Await <==> task is Await,
        request is BashSession <==> task is Bash,
        request is ReingestMetrics <==> task is Reingest,
        request is SubmitTelemetry || request is SubmitCas || request is FlushNotes <==> task
            is Telemetry,
        refusal.ok <==> !(request is CheckpointRun) && !(request is ReingestMetrics),
{
    assert(refusal@.ok == refusal.ok);
}

/// A shutdown that could not drain what was accepted opens the intake again and says why.
pub proof fn law_a_failed_shutdown_opens_the_intake(
    gate: &mut CheckpointGate,
    drained: Result<(), String>,
    r: ControlResponse,
)
    requires
        call_ensures(finish_shutdown, (gate, drained), r),
    ensures
        r.ok <==> drained is Ok,
        drained is Err ==> final(gate).accepting && opt_view(r.error) == Some(drained->Err_0@),
        drained is Ok ==> final(gate).accepting == old(gate).accepting,
        final(gate).next_receipt_seq == old(gate).next_receipt_seq && final(gate).unadmitted
            == old(gate).unadmitted && final(gate).processed_receipt_seq
            == old(gate).processed_receipt_seq,
{
    assert(r@.ok == r.ok);
}

/// The status of a family tells its own last error, and else the last of what followed.
pub proof fn law_the_status_tells_the_last_error(
    family: &str,
    seq: u64,
    last: Option<String>,
    errors: SideEffectErrors,
    latest: Option<String>,
    r: FamilyStatus,
)
    requires
        call_ensures(family_status, (family, seq, &last, &errors), r),
        call_ensures(SideEffectErrors::latest_side_effect_error, (&errors, family), latest),
    ensures
        last is Some ==> opt_view(r.last_error) == opt_view(last),
        last is None ==> opt_view(r.last_error) == opt_view(latest),
        r.family_key@ == family@ && r.latest_seq == seq,
{
}

/// The body of a checkpoint is sent only to a daemon that says it is ready.
pub proof fn law_bodies_are_sent_to_daemons_that_are_ready(answer: ControlResponse, r: Handshake)
    requires
        call_ensures(checkpoint_handshake, (answer,), r),
    ensures
        r is Ready <==> answer.ok && answer.ready,
        r is Refused <==> !answer.ok,
        r is Refused ==> r->Refused_0 == answer,
        r is Confused <==> answer.ok && !answer.ready,
{
}

/// A client tries again while its time runs, and no longer.
pub proof fn law_clients_try_again_in_time(
    n: usize,
    error: ConnectionError,
    past: bool,
    late: bool,
    read: ClientRead,
    failed: ClientRead,
)
    requires
        call_ensures(client_read, (&Ok(n), past), read),
        call_ensures(client_read, (&Err(error), past), failed),
        call_ensures(control_receive_timed_out, (&error,), late),
    ensures
        n == 0 <==> read is Closed,
        n > 0 <==> read is Done,
        !late <==> failed is Failed,
        late && !past <==> failed is Retry,
        late && past <==> failed is TimedOut,
{
}

/// A timeout that was set lets the connection go on with what it was set for; where it could
/// not be set the peer is gone, and the room that was taken is freed.
pub proof fn law_timeouts_let_a_connection_go_on(
    connection: &mut ControlConnection,
    gate: &mut CheckpointGate,
    quota: &mut CheckpointIngressQuota,
    applied: bool,
    r: ConnectionAction,
)
    requires
        old(quota).wf() && old(connection).wf(),
        old(gate).next_receipt_seq < u64::MAX && old(gate).unadmitted < u64::MAX,
        old(connection).phase is Settling || old(connection).phase is Hurrying || old(
            connection,
        ).phase is Relaxing,
        old(connection).phase is Settling ==> !(old(connection).phase->request is Checkpoint),
        old(connection).reservation is Some ==> old(quota).requests > 0 && old(quota).bytes
            >= old(connection).reservation->0.body_bytes,
        call_ensures(
            ControlConnection::step,
            (connection, gate, quota, ConnectionEvent::TimeoutSet { applied }),
            r,
        ),
    ensures
        applied && old(connection).phase is Settling ==> r.next is Handle && final(connection).uses_idle_timeout && final(connection).phase == (ConnectionPhase::Handling {
            shutdown: old(connection).phase->request is Shutdown,
        }),
        applied && old(connection).phase is Hurrying ==> r.next == (ConnectionStep::ReadBody {
            bytes: old(connection).reservation->0.body_bytes,
        }) && final(connection).phase is Receiving,
        applied && old(connection).phase is Relaxing ==> r.next is AskRoom && final(connection).phase is Queueing,
        applied ==> *final(quota) == *old(quota),
        !applied ==> r.next is Close && final(connection).phase is Closed,
        !applied && old(connection).reservation is Some ==> final(quota).requests == old(
            quota,
        ).requests - 1 && final(quota).bytes == old(quota).bytes
            - old(connection).reservation->0.body_bytes,
        *final(gate) == *old(gate),
{
}

/// Who finds no room is told whether requests or bytes are too many.
pub proof fn law_who_finds_no_room_is_told_why(
    connection: &mut ControlConnection,
    gate: &mut CheckpointGate,
    quota: &mut CheckpointIngressQuota,
    bytes: u64,
    r: ConnectionAction,
)
    requires
        old(quota).wf() && old(connection).wf(),
        old(gate).next_receipt_seq < u64::MAX && old(gate).unadmitted < u64::MAX,
        old(connection).phase is Reading,
        old(gate).accepting,
        bytes <= u32::MAX,
        call_ensures(
            ControlConnection::step,
            (
                connection,
                gate,
                quota,
                ConnectionEvent::Line(
                    LineRead::Request(RequestKind::Checkpoint { body_bytes: bytes }),
                ),
            ),
            r,
        ),
    ensures
        old(quota).requests >= old(quota).request_limit ==> r.next is Write
            && r.next->Write_response.error is Some && r.next->Write_response.error->0@
            == "checkpoint ingress busy: "@ + "request_limit"@,
        old(quota).requests < old(quota).request_limit && old(quota).bytes + bytes
            > old(quota).byte_limit ==> r.next is Write && r.next->Write_response.error is Some
            && r.next->Write_response.error->0@ == "checkpoint ingress busy: "@ + "byte_limit"@,
{
    assert(r.next is Write ==> r.next@->Write_response == r.next->Write_response@);
}

} // verus!
