//! Requests to the daemon and the connections that they come over.
use crate::checkpoint::{CheckpointBodyError, CheckpointGate};
use crate::effects::SideEffectErrors;
use crate::quota::{CheckpointIngressQuota, CheckpointIngressReservation};
use crate::text::{clone_opt, concat, opt_view};
use vstd::prelude::*;

verus! {

/// For how long a client waits for a connection, in milliseconds.
pub const DAEMON_CONTROL_CONNECT_TIMEOUT_MS: u64 = 250;

/// For how long a client waits for most answers.
pub const DAEMON_CONTROL_RESPONSE_TIMEOUT_MS: u64 = 2_000;

/// For how long the daemon waits for a request to come in.
pub const DAEMON_CONTROL_RECEIVE_TIMEOUT_MS: u64 = 2_000;

/// For how long the daemon waits for a further request.
pub const DAEMON_CONTROL_IDLE_TIMEOUT_MS: u64 = 10_000;

/// For how long a client waits for answers that take a while.
pub const DAEMON_CHECKPOINT_RESPONSE_TIMEOUT_MS: u64 = 300_000;

/// For how long a client waits for the times of what was seen.
pub const SNAPSHOT_RESPONSE_TIMEOUT_MS: u64 = 500;

/// A request to the daemon.
#[derive(Debug)]
#[allow(inconsistent_fields)]
pub enum ControlRequest {
    Ping,
    StatusDaemon,
    CheckpointRun { body_bytes: u64 },
    SyncFamily { repo_working_dir: String },
    StatusFamily { repo_working_dir: String },
    SnapshotWatermarks { repo_working_dir: String },
    SubmitTelemetry,
    SubmitCas,
    FlushNotes,
    ReingestMetrics { from_ts: Option<u64>, to_ts: Option<u64> },
    StatsIngest,
    Await { timeout_secs: u64 },
    BashSession,
    Shutdown,
}

/// For how long a client waits for the answer to a request.
pub open spec fn response_timeout_of(request: ControlRequest, ci_or_test: bool) -> nat {
    match request {
        ControlRequest::CheckpointRun { .. } => if ci_or_test {
            DAEMON_CHECKPOINT_RESPONSE_TIMEOUT_MS as nat
        } else {
            DAEMON_CONTROL_RESPONSE_TIMEOUT_MS as nat
        },
        ControlRequest::SyncFamily { .. } => DAEMON_CHECKPOINT_RESPONSE_TIMEOUT_MS as nat,
        ControlRequest::SnapshotWatermarks { .. } => SNAPSHOT_RESPONSE_TIMEOUT_MS as nat,
        ControlRequest::Await { timeout_secs } => 1_000 * (if timeout_secs + 5 <= u64::MAX {
            (timeout_secs + 5) as nat
        } else {
            u64::MAX as nat
        }),
        ControlRequest::ReingestMetrics { .. } => DAEMON_CHECKPOINT_RESPONSE_TIMEOUT_MS as nat,
        ControlRequest::Shutdown => DAEMON_CHECKPOINT_RESPONSE_TIMEOUT_MS as nat,
        _ => DAEMON_CONTROL_RESPONSE_TIMEOUT_MS as nat,
    }
}

/// For how long a client waits for the answer to a request, in milliseconds.
pub fn checkpoint_control_response_timeout(
    request: &ControlRequest,
    use_ci_or_test_budget: bool,
) -> (r: u128)
    ensures
        r == response_timeout_of(*request, use_ci_or_test_budget),
{
    match request {
        ControlRequest::CheckpointRun { .. } => if use_ci_or_test_budget {
            DAEMON_CHECKPOINT_RESPONSE_TIMEOUT_MS as u128
        } else {
            DAEMON_CONTROL_RESPONSE_TIMEOUT_MS as u128
        },
        ControlRequest::SyncFamily { .. } => DAEMON_CHECKPOINT_RESPONSE_TIMEOUT_MS as u128,
        ControlRequest::SnapshotWatermarks { .. } => SNAPSHOT_RESPONSE_TIMEOUT_MS as u128,
        ControlRequest::Await { timeout_secs } => 1_000 * (timeout_secs.saturating_add(5) as u128),
        ControlRequest::ReingestMetrics { .. } => DAEMON_CHECKPOINT_RESPONSE_TIMEOUT_MS as u128,
        ControlRequest::Shutdown => DAEMON_CHECKPOINT_RESPONSE_TIMEOUT_MS as u128,
        _ => DAEMON_CONTROL_RESPONSE_TIMEOUT_MS as u128,
    }
}

/// A client that asks the daemon to wait outlasts the wait that it asked for.
pub proof fn law_awaits_outlast_the_daemon(timeout_secs: u64, ci_or_test: bool)
    requires
        timeout_secs < u64::MAX,
    ensures
        response_timeout_of(ControlRequest::Await { timeout_secs }, ci_or_test) > 1_000
            * timeout_secs,
{
}

/// Whether answers may take their time: in a build or under a test database.
pub fn checkpoint_control_timeout_uses_ci_or_test_budget(
    git_ai_test_db_path: bool,
    gitai_test_db_path: bool,
    ci: bool,
) -> (r: bool)
    ensures
        r == (git_ai_test_db_path || gitai_test_db_path || ci),
{
    git_ai_test_db_path || gitai_test_db_path || ci
}

/// What went wrong with a connection.
#[derive(Debug, Clone, Copy, PartialEq, Eq, Structural)]
pub enum IoFailure {
    TimedOut,
    WouldBlock,
    BrokenPipe,
    ConnectionReset,
    ConnectionAborted,
    UnexpectedEof,
    InvalidInput,
    Other,
}

/// Why a connection failed.
#[derive(Debug)]
pub enum ConnectionError {
    Io(IoFailure),
    Generic(String),
}

/// Whether nothing came in time.
pub open spec fn timed_out(error: ConnectionError) -> bool {
    error matches ConnectionError::Io(kind) && (kind == IoFailure::TimedOut || kind
        == IoFailure::WouldBlock)
}

/// Whether the peer went away.
pub open spec fn peer_gone(error: ConnectionError) -> bool {
    error matches ConnectionError::Io(kind) && kind != IoFailure::Other
}

/// Whether nothing came in time.
pub fn control_receive_timed_out(error: &ConnectionError) -> (r: bool)
    ensures
        r == timed_out(*error),
{
    match error {
        ConnectionError::Io(kind) => *kind == IoFailure::TimedOut || *kind == IoFailure::WouldBlock,
        ConnectionError::Generic(_) => false,
    }
}

/// How a checkpoint's body that could not be taken counts: one that ends early as a peer
/// that went away.
pub fn checkpoint_body_failure(error: CheckpointBodyError) -> (r: ConnectionError)
    ensures
        peer_gone(r) <==> error != CheckpointBodyError::WrongDelimiter,
        match error {
            CheckpointBodyError::WrongDelimiter => r is Generic && r->Generic_0@
                == "checkpoint body was not followed by a newline delimiter"@,
            _ => r == ConnectionError::Io(IoFailure::UnexpectedEof),
        },
{
    match error {
        CheckpointBodyError::Truncated => ConnectionError::Io(IoFailure::UnexpectedEof),
        CheckpointBodyError::MissingDelimiter => ConnectionError::Io(IoFailure::UnexpectedEof),
        CheckpointBodyError::WrongDelimiter => ConnectionError::Generic(
            "checkpoint body was not followed by a newline delimiter".to_owned(),
        ),
    }
}

/// Whether a connection failed because the peer went away, which is no fault of the daemon.
pub fn connection_error_is_peer_disconnect(error: &ConnectionError) -> (r: bool)
    ensures
        r == peer_gone(*error),
        timed_out(*error) ==> r,
{
    control_receive_timed_out(error) || match error {
        ConnectionError::Io(kind) => match kind {
            IoFailure::BrokenPipe => true,
            IoFailure::ConnectionReset => true,
            IoFailure::ConnectionAborted => true,
            IoFailure::UnexpectedEof => true,
            IoFailure::InvalidInput => true,
            _ => false,
        },
        ConnectionError::Generic(_) => false,
    }
}

/// How loudly a failure is reported.
#[derive(Debug, Clone, Copy, PartialEq, Eq, Structural)]
pub enum Severity {
    Warn,
    Error,
}

/// How loudly the failure of a connection is reported.
pub fn connection_failure_severity(error: &ConnectionError) -> (r: Severity)
    ensures
        r == (if peer_gone(*error) {
            Severity::Warn
        } else {
            Severity::Error
        }),
{
    if connection_error_is_peer_disconnect(error) {
        Severity::Warn
    } else {
        Severity::Error
    }
}

/// Whether a connection goes on once its timeout was set, or was not; and how
/// loudly a failure is reported.
pub fn apply_control_receive_timeout(result: &Result<(), ConnectionError>) -> (r: (
    bool,
    Option<Severity>,
))
    ensures
        r.0 == (result is Ok),
        r.1 == (match *result {
            Ok(_) => None,
            Err(error) => Some(
                if peer_gone(error) {
                    Severity::Warn
                } else {
                    Severity::Error
                },
            ),
        }),
{
    match result {
        Ok(_) => (true, None),
        Err(error) => (false, Some(connection_failure_severity(error))),
    }
}

/// An answer. What else belongs to it is added where it is written.
#[derive(Debug)]
pub struct ControlResponse {
    pub ok: bool,
    pub seq: Option<u64>,
    pub error: Option<String>,
    /// Whether it asks for the body of a checkpoint.
    pub ready: bool,
}

/// An answer, with its text.
pub struct ResponseModel {
    pub ok: bool,
    pub seq: Option<u64>,
    pub error: Option<Seq<char>>,
    pub ready: bool,
}

impl View for ControlResponse {
    type V = ResponseModel;

    open spec fn view(&self) -> ResponseModel {
        ResponseModel {
            ok: self.ok,
            seq: self.seq,
            error: opt_view(self.error),
            ready: self.ready,
        }
    }
}

/// A good answer.
pub open spec fn good(seq: Option<u64>) -> ResponseModel {
    ResponseModel { ok: true, seq, error: None, ready: false }
}

/// A bad answer.
pub open spec fn bad(error: Seq<char>) -> ResponseModel {
    ResponseModel { ok: false, seq: None, error: Some(error), ready: false }
}

/// The answer that asks for the body of a checkpoint.
pub open spec fn ready() -> ResponseModel {
    ResponseModel { ok: true, seq: None, error: None, ready: true }
}

impl ControlResponse {
    /// A good answer.
    pub fn ok(seq: Option<u64>) -> (r: ControlResponse)
        ensures
            r@ == good(seq),
    {
        ControlResponse { ok: true, seq, error: None, ready: false }
    }

    /// A bad answer.
    pub fn err(error: &str) -> (r: ControlResponse)
        ensures
            r@ == bad(error@),
    {
        ControlResponse { ok: false, seq: None, error: Some(error.to_owned()), ready: false }
    }

    /// The answer that asks for the body of a checkpoint.
    pub fn ready() -> (r: ControlResponse)
        ensures
            r@ == ready(),
    {
        ControlResponse { ok: true, seq: None, error: None, ready: true }
    }
}

/// The answer to a request that was handled.
pub fn control_response(result: Result<(), String>) -> (r: ControlResponse)
    ensures
        r@ == (match result {
            Ok(_) => good(None),
            Err(error) => bad(error@),
        }),
{
    match result {
        Ok(_) => ControlResponse::ok(None),
        Err(error) => ControlResponse::err(error.as_str()),
    }
}

/// What the daemon does about a request.
#[derive(Debug, Clone, Copy, PartialEq, Eq, Structural)]
pub enum ControlTask {
    /// Answer at once.
    Answer,
    /// Refuse: the body has to be framed.
    RefuseUnframed,
    /// Wait until the family is worked off, and report on it.
    SyncFamily,
    /// Report on the family.
    ReportFamily,
    /// Report on what was seen.
    ReportWatermarks,
    /// Report on the daemon.
    ReportDaemon,
    /// Report on what was lost.
    ReportIngest,
    /// Hand it to the telemetry worker, where there is one.
    Telemetry,
    /// Hand it to the telemetry worker, which has to be there.
    Reingest,
    /// Wait until everything is worked off.
    Await,
    /// Hand it to the record of shell sessions.
    Bash,
    /// Close the intake, work off what was accepted, and stop.
    Shutdown,
}

/// What the daemon does about a request.
pub fn control_task(request: &ControlRequest) -> (r: ControlTask)
    ensures
        r == (match *request {
            ControlRequest::Ping => ControlTask::Answer,
            ControlRequest::StatusDaemon => ControlTask::ReportDaemon,
            ControlRequest::CheckpointRun { .. } => ControlTask::RefuseUnframed,
            ControlRequest::SyncFamily { .. } => ControlTask::SyncFamily,
            ControlRequest::StatusFamily { .. } => ControlTask::ReportFamily,
            ControlRequest::SnapshotWatermarks { .. } => ControlTask::ReportWatermarks,
            ControlRequest::SubmitTelemetry => ControlTask::Telemetry,
            ControlRequest::SubmitCas => ControlTask::Telemetry,
            ControlRequest::FlushNotes => ControlTask::Telemetry,
            ControlRequest::ReingestMetrics { .. } => ControlTask::Reingest,
            ControlRequest::StatsIngest => ControlTask::ReportIngest,
            ControlRequest::Await { .. } => ControlTask::Await,
            ControlRequest::BashSession => ControlTask::Bash,
            ControlRequest::Shutdown => ControlTask::Shutdown,
        }),
{
    match request {
        ControlRequest::Ping => ControlTask::Answer,
        ControlRequest::StatusDaemon => ControlTask::ReportDaemon,
        ControlRequest::CheckpointRun { .. } => ControlTask::RefuseUnframed,
        ControlRequest::SyncFamily { .. } => ControlTask::SyncFamily,
        ControlRequest::StatusFamily { .. } => ControlTask::ReportFamily,
        ControlRequest::SnapshotWatermarks { .. } => ControlTask::ReportWatermarks,
        ControlRequest::SubmitTelemetry => ControlTask::Telemetry,
        ControlRequest::SubmitCas => ControlTask::Telemetry,
        ControlRequest::FlushNotes => ControlTask::Telemetry,
        ControlRequest::ReingestMetrics { .. } => ControlTask::Reingest,
        ControlRequest::StatsIngest => ControlTask::ReportIngest,
        ControlRequest::Await { .. } => ControlTask::Await,
        ControlRequest::BashSession => ControlTask::Bash,
        ControlRequest::Shutdown => ControlTask::Shutdown,
    }
}

/// What a worker that is not there answers, and what a checkpoint without its frame is answered.
pub fn refused_response(task: ControlTask) -> (r: ControlResponse)
    ensures
        r@ == (match task {
            ControlTask::RefuseUnframed => bad(
                "checkpoint.run requires the framed checkpoint transport"@,
            ),
            ControlTask::Reingest => bad("telemetry worker is not available"@),
            _ => good(None),
        }),
{
    match task {
        ControlTask::RefuseUnframed => ControlResponse::err(
            "checkpoint.run requires the framed checkpoint transport",
        ),
        ControlTask::Reingest => ControlResponse::err("telemetry worker is not available"),
        _ => ControlResponse::ok(None),
    }
}

/// Ends a shutdown that was asked for once what was accepted was worked off, or was
/// not; then the intake is opened again.
pub fn finish_shutdown(gate: &mut CheckpointGate, drained: Result<(), String>) -> (r:
    ControlResponse)
    ensures
        r@ == (match drained {
            Ok(_) => good(None),
            Err(error) => bad(error@),
        }),
        *final(gate) == (if drained is Ok {
            *old(gate)
        } else {
            CheckpointGate { accepting: true, ..*old(gate) }
        }),
{
    if drained.is_err() {
        gate.set_checkpoint_acceptance(true);
    }
    control_response(drained)
}

/// What is reported of a family.
#[derive(Debug)]
pub struct FamilyStatus {
    pub family_key: String,
    pub latest_seq: u64,
    pub last_error: Option<String>,
}

/// What is reported of a family: its own last error, else the newest of what
/// followed from its commands.
pub fn family_status(
    family_key: &str,
    latest_seq: u64,
    last_error: &Option<String>,
    errors: &SideEffectErrors,
) -> (r: FamilyStatus)
    ensures
        r.family_key@ == family_key@,
        r.latest_seq == latest_seq,
        opt_view(r.last_error) == (if *last_error is Some {
            opt_view(*last_error)
        } else if errors.errors(family_key@).len() > 0 {
            Some(errors.errors(family_key@).last().1)
        } else {
            None
        }),
{
    let last_error = if last_error.is_some() {
        clone_opt(last_error)
    } else {
        errors.latest_side_effect_error(family_key)
    };
    FamilyStatus { family_key: family_key.to_owned(), latest_seq, last_error }
}

/// What a request on a connection is, as far as the connection cares.
#[derive(Debug, Clone, Copy, PartialEq, Eq, Structural)]
pub enum RequestKind {
    Checkpoint { body_bytes: u64 },
    Shutdown,
    Other,
}

/// What a request on a connection is.
pub fn request_kind(request: &ControlRequest) -> (r: RequestKind)
    ensures
        r == (match *request {
            ControlRequest::CheckpointRun { body_bytes } => RequestKind::Checkpoint { body_bytes },
            ControlRequest::Shutdown => RequestKind::Shutdown,
            _ => RequestKind::Other,
        }),
{
    match request {
        ControlRequest::CheckpointRun { body_bytes } => RequestKind::Checkpoint {
            body_bytes: *body_bytes,
        },
        ControlRequest::Shutdown => RequestKind::Shutdown,
        _ => RequestKind::Other,
    }
}

/// What was read off a connection.
#[derive(Debug)]
pub enum LineRead {
    /// The peer is done.
    End,
    /// Nothing came in time.
    TimedOut,
    Failed,
    Blank,
    Undecodable { reason: String },
    Request(RequestKind),
}

/// Whether there is room for one more checkpoint.
#[derive(Debug, Clone, Copy, PartialEq, Eq, Structural)]
pub enum IngressRoom {
    NotStarted,
    Closed,
    Full,
    Room,
}

/// What a connection is waiting for.
#[derive(Debug, Clone, Copy, PartialEq, Eq, Structural)]
pub enum ConnectionPhase {
    /// Its first timeout to be set.
    Starting,
    /// A line.
    Reading,
    /// The longer timeout to be set, before this request is taken up.
    Settling { request: RequestKind },
    /// A request to be handled; `shutdown` asks the daemon to stop.
    Handling { shutdown: bool },
    /// The readiness for a body to be written.
    Offering,
    /// The shorter timeout to be set, before the body.
    Hurrying,
    /// A body.
    Receiving,
    /// The longer timeout to be set again, behind the body.
    Relaxing,
    /// Word on whether there is room.
    Queueing,
    /// An answer to be written; `stop` makes the daemon stop behind it.
    Answering { stop: bool },
    /// Nothing.
    Closed,
}

/// A connection over which requests come.
#[derive(Debug)]
pub struct ControlConnection {
    pub phase: ConnectionPhase,
    /// Whether the longer timeout is in force.
    pub uses_idle_timeout: bool,
    /// The room that the checkpoint being received takes.
    pub reservation: Option<CheckpointIngressReservation>,
}

/// What happened on a connection.
#[derive(Debug)]
pub enum ConnectionEvent {
    /// The timeout was set, or the peer is gone.
    TimeoutSet { applied: bool },
    Line(LineRead),
    Written { done: bool },
    Body { received: bool },
    Room(IngressRoom),
    Handled(ControlResponse),
}

/// What is done next on a connection.
#[derive(Debug)]
#[allow(inconsistent_fields)]
pub enum ConnectionStep {
    SetTimeout { ms: u64 },
    ReadLine,
    /// Handle the request that was read.
    Handle,
    Write { response: ControlResponse },
    ReadBody { bytes: usize },
    AskRoom,
    /// Pass the checkpoint on under this number, then write the answer.
    Deliver { receipt_seq: u64, reservation: CheckpointIngressReservation, response: ControlResponse },
    Close,
    Fail,
}

/// What is done next, with the texts.
#[allow(inconsistent_fields)]
pub enum NextModel {
    SetTimeout { ms: u64 },
    ReadLine,
    Handle,
    Write { response: ResponseModel },
    ReadBody { bytes: usize },
    AskRoom,
    Deliver { receipt_seq: u64, bytes: usize, response: ResponseModel },
    Close,
    Fail,
}

impl View for ConnectionStep {
    type V = NextModel;

    open spec fn view(&self) -> NextModel {
        match *self {
            ConnectionStep::SetTimeout { ms } => NextModel::SetTimeout { ms },
            ConnectionStep::ReadLine => NextModel::ReadLine,
            ConnectionStep::Handle => NextModel::Handle,
            ConnectionStep::Write { response } => NextModel::Write { response: response@ },
            ConnectionStep::ReadBody { bytes } => NextModel::ReadBody { bytes },
            ConnectionStep::AskRoom => NextModel::AskRoom,
            ConnectionStep::Deliver { receipt_seq, reservation, response } => NextModel::Deliver {
                receipt_seq,
                bytes: reservation.body_bytes,
                response: response@,
            },
            ConnectionStep::Close => NextModel::Close,
            ConnectionStep::Fail => NextModel::Fail,
        }
    }
}

/// What is done next on a connection, and what is asked of the daemon before.
#[derive(Debug)]
pub struct ConnectionAction {
    pub request_shutdown: bool,
    pub request_stop: bool,
    pub next: ConnectionStep,
}

/// A connection with the daemon's books, and what is done next.
pub struct ConnectionModel {
    pub phase: ConnectionPhase,
    pub uses_idle_timeout: bool,
    pub reserved: Option<usize>,
    pub gate: CheckpointGate,
    pub quota: CheckpointIngressQuota,
    pub request_shutdown: bool,
    pub request_stop: bool,
    pub next: NextModel,
}

/// A connection before anything is done.
pub open spec fn connection_at(
    connection: ControlConnection,
    gate: CheckpointGate,
    quota: CheckpointIngressQuota,
) -> ConnectionModel {
    ConnectionModel {
        phase: connection.phase,
        uses_idle_timeout: connection.uses_idle_timeout,
        reserved: match connection.reservation {
            Some(reservation) => Some(reservation.body_bytes),
            None => None,
        },
        gate,
        quota,
        request_shutdown: false,
        request_stop: false,
        next: NextModel::Fail,
    }
}

/// Goes on in another phase.
pub open spec fn goes(m: ConnectionModel, phase: ConnectionPhase, next: NextModel) -> ConnectionModel {
    ConnectionModel { phase, next, ..m }
}

/// Gives the room back that the checkpoint being received takes.
pub open spec fn frees(m: ConnectionModel) -> ConnectionModel {
    match m.reserved {
        Some(bytes) => ConnectionModel { reserved: None, quota: m.quota.given_back(bytes), ..m },
        None => m,
    }
}

/// Ends a connection.
pub open spec fn ends(m: ConnectionModel, failed: bool) -> ConnectionModel {
    goes(
        frees(m),
        ConnectionPhase::Closed,
        if failed {
            NextModel::Fail
        } else {
            NextModel::Close
        },
    )
}

/// Answers, with the room given back.
pub open spec fn answers(m: ConnectionModel, response: ResponseModel) -> ConnectionModel {
    goes(frees(m), ConnectionPhase::Answering { stop: false }, NextModel::Write { response })
}

/// Takes a request up. For a checkpoint the intake has to be open, its length has to
/// fit, and there has to be room.
pub open spec fn takes_up(m: ConnectionModel, request: RequestKind) -> ConnectionModel {
    match request {
        RequestKind::Checkpoint { body_bytes } => if !m.gate.accepting {
            answers(m, bad("daemon is shutting down"@))
        } else if body_bytes > usize::MAX {
            answers(m, bad("checkpoint body length is too large"@))
        } else {
            match m.quota.refusal(body_bytes as usize) {
                Some(reason) => answers(m, bad("checkpoint ingress busy: "@ + reason)),
                None => goes(
                    ConnectionModel {
                        reserved: Some(body_bytes as usize),
                        quota: m.quota.taken(body_bytes as usize),
                        ..m
                    },
                    ConnectionPhase::Offering,
                    NextModel::Write { response: ready() },
                ),
            }
        },
        RequestKind::Shutdown => goes(
            m,
            ConnectionPhase::Handling { shutdown: true },
            NextModel::Handle,
        ),
        RequestKind::Other => goes(
            m,
            ConnectionPhase::Handling { shutdown: false },
            NextModel::Handle,
        ),
    }
}

/// Takes a line in. The first request that is no checkpoint is given the longer timeout.
pub open spec fn takes_line(m: ConnectionModel, line: LineRead) -> ConnectionModel {
    match line {
        LineRead::End => ends(m, false),
        LineRead::TimedOut => ends(m, false),
        LineRead::Failed => ends(m, true),
        LineRead::Blank => goes(m, ConnectionPhase::Reading, NextModel::ReadLine),
        LineRead::Undecodable { reason } => answers(
            m,
            bad("invalid control request: "@ + reason@),
        ),
        LineRead::Request(request) => if !m.uses_idle_timeout && !(request is Checkpoint) {
            goes(
                m,
                ConnectionPhase::Settling { request },
                NextModel::SetTimeout { ms: DAEMON_CONTROL_IDLE_TIMEOUT_MS },
            )
        } else {
            takes_up(m, request)
        },
    }
}

/// Starts to receive a body.
pub open spec fn receives(m: ConnectionModel) -> ConnectionModel {
    match m.reserved {
        Some(bytes) => goes(m, ConnectionPhase::Receiving, NextModel::ReadBody { bytes }),
        None => ends(m, true),
    }
}

/// Takes word on room in: a checkpoint for which there is room is accepted, unless the
/// intake was closed meanwhile.
pub open spec fn takes_room(m: ConnectionModel, room: IngressRoom) -> ConnectionModel {
    match room {
        IngressRoom::NotStarted | IngressRoom::Closed => ConnectionModel {
            request_shutdown: true,
            ..answers(m, bad("checkpoint ingress worker is unavailable"@))
        },
        IngressRoom::Full => answers(m, bad("checkpoint ingress busy: queue_full"@)),
        IngressRoom::Room => if m.reserved is None {
            ends(m, true)
        } else if !m.gate.accepting {
            answers(m, bad("daemon is shutting down"@))
        } else {
            let receipt_seq = m.gate.accepted().next_receipt_seq;
            goes(
                ConnectionModel {
                    reserved: None,
                    gate: m.gate.accepted(),
                    ..m
                },
                ConnectionPhase::Answering { stop: false },
                NextModel::Deliver {
                    receipt_seq,
                    bytes: m.reserved->0,
                    response: good(Some(receipt_seq)),
                },
            )
        },
    }
}

/// What an event on a connection leads to.
pub open spec fn connection_step(m: ConnectionModel, event: ConnectionEvent) -> ConnectionModel {
    match (m.phase, event) {
        (ConnectionPhase::Starting, ConnectionEvent::TimeoutSet { applied }) => if applied {
            goes(m, ConnectionPhase::Reading, NextModel::ReadLine)
        } else {
            ends(m, false)
        },
        (ConnectionPhase::Reading, ConnectionEvent::Line(line)) => takes_line(m, line),
        (ConnectionPhase::Settling { request }, ConnectionEvent::TimeoutSet { applied }) => if applied {
            takes_up(ConnectionModel { uses_idle_timeout: true, ..m }, request)
        } else {
            ends(m, false)
        },
        (ConnectionPhase::Handling { shutdown }, ConnectionEvent::Handled(response)) => goes(
            m,
            ConnectionPhase::Answering { stop: shutdown && response.ok },
            NextModel::Write { response: response@ },
        ),
        (ConnectionPhase::Offering, ConnectionEvent::Written { done }) => if !done {
            ends(m, true)
        } else if m.uses_idle_timeout {
            goes(
                m,
                ConnectionPhase::Hurrying,
                NextModel::SetTimeout { ms: DAEMON_CONTROL_RECEIVE_TIMEOUT_MS },
            )
        } else {
            receives(m)
        },
        (ConnectionPhase::Hurrying, ConnectionEvent::TimeoutSet { applied }) => if applied {
            receives(m)
        } else {
            ends(m, false)
        },
        (ConnectionPhase::Receiving, ConnectionEvent::Body { received }) => if !received {
            ends(m, true)
        } else if m.uses_idle_timeout {
            goes(
                m,
                ConnectionPhase::Relaxing,
                NextModel::SetTimeout { ms: DAEMON_CONTROL_IDLE_TIMEOUT_MS },
            )
        } else {
            goes(m, ConnectionPhase::Queueing, NextModel::AskRoom)
        },
        (ConnectionPhase::Relaxing, ConnectionEvent::TimeoutSet { applied }) => if applied {
            goes(m, ConnectionPhase::Queueing, NextModel::AskRoom)
        } else {
            ends(m, false)
        },
        (ConnectionPhase::Queueing, ConnectionEvent::Room(room)) => takes_room(m, room),
        (ConnectionPhase::Answering { stop }, ConnectionEvent::Written { done }) => {
            let stopped = ConnectionModel { request_stop: stop, ..m };
            if done {
                goes(stopped, ConnectionPhase::Reading, NextModel::ReadLine)
            } else {
                ends(stopped, true)
            }
        },
        _ => ends(m, true),
    }
}

/// What a connection and its books are once an event was taken in.
pub open spec fn connection_after(
    connection: ControlConnection,
    gate: CheckpointGate,
    quota: CheckpointIngressQuota,
    action: ConnectionAction,
) -> ConnectionModel {
    ConnectionModel {
        request_shutdown: action.request_shutdown,
        request_stop: action.request_stop,
        next: action.next@,
        ..connection_at(connection, gate, quota)
    }
}

impl ControlConnection {
    /// A connection that was just accepted; its first step is to set the shorter timeout.
    pub fn new() -> (r: (ControlConnection, ConnectionStep))
        ensures
            r.0.phase == ConnectionPhase::Starting,
            !r.0.uses_idle_timeout,
            r.0.reservation is None,
            r.1@ == (NextModel::SetTimeout { ms: DAEMON_CONTROL_RECEIVE_TIMEOUT_MS }),
    {
        (
            ControlConnection {
                phase: ConnectionPhase::Starting,
                uses_idle_timeout: false,
                reservation: None,
            },
            ConnectionStep::SetTimeout { ms: DAEMON_CONTROL_RECEIVE_TIMEOUT_MS },
        )
    }

    fn go(&mut self, phase: ConnectionPhase, next: ConnectionStep) -> (r: ConnectionAction)
        ensures
            *final(self) == (ControlConnection { phase, ..*old(self) }),
            !r.request_shutdown,
            !r.request_stop,
            r.next == next,
    {
        self.phase = phase;
        ConnectionAction { request_shutdown: false, request_stop: false, next }
    }

    fn free(&mut self, quota: &mut CheckpointIngressQuota)
        ensures
            final(self).phase == old(self).phase,
            final(self).uses_idle_timeout == old(self).uses_idle_timeout,
            final(self).reservation is None,
            *final(quota) == (match old(self).reservation {
                Some(reservation) => old(quota).given_back(reservation.body_bytes),
                None => *old(quota),
            }),
    {
        match self.reservation.take() {
            Some(reservation) => {
                quota.release(reservation);
            },
            None => {},
        }
    }

    fn end(&mut self, quota: &mut CheckpointIngressQuota, failed: bool) -> (r: ConnectionAction)
        ensures
            forall|gate: CheckpointGate|
                connection_after(*final(self), gate, *final(quota), r) == #[trigger] ends(
                    connection_at(*old(self), gate, *old(quota)),
                    failed,
                ),
            old(quota).wf() ==> final(quota).wf(),
    {
        self.free(quota);
        let next = if failed {
            ConnectionStep::Fail
        } else {
            ConnectionStep::Close
        };
        self.go(ConnectionPhase::Closed, next)
    }

    fn answer(&mut self, quota: &mut CheckpointIngressQuota, response: ControlResponse) -> (r:
        ConnectionAction)
        ensures
            forall|gate: CheckpointGate|
                connection_after(*final(self), gate, *final(quota), r) == #[trigger] answers(
                    connection_at(*old(self), gate, *old(quota)),
                    response@,
                ),
            old(quota).wf() ==> final(quota).wf(),
    {
        self.free(quota);
        self.go(
            ConnectionPhase::Answering { stop: false },
            ConnectionStep::Write { response },
        )
    }

    fn take_up(
        &mut self,
        gate: &CheckpointGate,
        quota: &mut CheckpointIngressQuota,
        request: RequestKind,
    ) -> (r: ConnectionAction)
        requires
            old(quota).wf(),
            old(self).reservation is None,
        ensures
            connection_after(*final(self), *gate, *final(quota), r) == takes_up(
                connection_at(*old(self), *gate, *old(quota)),
                request,
            ),
            final(quota).wf(),
    {
        match request {
            RequestKind::Checkpoint { body_bytes } => {
                if !gate.accepting {
                    return self.answer(quota, ControlResponse::err("daemon is shutting down"));
                }
                if body_bytes > usize::MAX as u64 {
                    return self.answer(
                        quota,
                        ControlResponse::err("checkpoint body length is too large"),
                    );
                }
                match quota.reserve(body_bytes as usize) {
                    Err(error) => {
                        let text = concat("checkpoint ingress busy: ", error.reason);
                        self.answer(quota, ControlResponse::err(text.as_str()))
                    },
                    Ok(reservation) => {
                        self.reservation = Some(reservation);
                        self.go(
                            ConnectionPhase::Offering,
                            ConnectionStep::Write { response: ControlResponse::ready() },
                        )
                    },
                }
            },
            RequestKind::Shutdown => self.go(
                ConnectionPhase::Handling { shutdown: true },
                ConnectionStep::Handle,
            ),
            RequestKind::Other => self.go(
                ConnectionPhase::Handling { shutdown: false },
                ConnectionStep::Handle,
            ),
        }
    }

    fn take_line(
        &mut self,
        gate: &CheckpointGate,
        quota: &mut CheckpointIngressQuota,
        line: LineRead,
    ) -> (r: ConnectionAction)
        requires
            old(quota).wf(),
            old(self).reservation is None,
        ensures
            connection_after(*final(self), *gate, *final(quota), r) == takes_line(
                connection_at(*old(self), *gate, *old(quota)),
                line,
            ),
            final(quota).wf(),
    {
        match line {
            LineRead::End => self.end(quota, false),
            LineRead::TimedOut => self.end(quota, false),
            LineRead::Failed => self.end(quota, true),
            LineRead::Blank => self.go(ConnectionPhase::Reading, ConnectionStep::ReadLine),
            LineRead::Undecodable { reason } => {
                let text = concat("invalid control request: ", reason.as_str());
                self.answer(quota, ControlResponse::err(text.as_str()))
            },
            LineRead::Request(request) => {
                let checkpoint = match request {
                    RequestKind::Checkpoint { .. } => true,
                    _ => false,
                };
                if !self.uses_idle_timeout && !checkpoint {
                    return self.go(
                        ConnectionPhase::Settling { request },
                        ConnectionStep::SetTimeout { ms: DAEMON_CONTROL_IDLE_TIMEOUT_MS },
                    );
                }
                self.take_up(gate, quota, request)
            },
        }
    }

    fn receive(&mut self, quota: &mut CheckpointIngressQuota) -> (r: ConnectionAction)
        ensures
            forall|gate: CheckpointGate|
                connection_after(*final(self), gate, *final(quota), r) == #[trigger] receives(
                    connection_at(*old(self), gate, *old(quota)),
                ),
            old(quota).wf() ==> final(quota).wf(),
    {
        let bytes: usize = match &self.reservation {
            Some(reservation) => reservation.body_bytes(),
            None => {
                return self.end(quota, true);
            },
        };
        self.go(ConnectionPhase::Receiving, ConnectionStep::ReadBody { bytes })
    }

    fn take_room(
        &mut self,
        gate: &mut CheckpointGate,
        quota: &mut CheckpointIngressQuota,
        room: IngressRoom,
    ) -> (r: ConnectionAction)
        requires
            old(gate).next_receipt_seq < u64::MAX,
            old(gate).unadmitted < u64::MAX,
        ensures
            connection_after(*final(self), *final(gate), *final(quota), r) == takes_room(
                connection_at(*old(self), *old(gate), *old(quota)),
                room,
            ),
            old(quota).wf() ==> final(quota).wf(),
    {
        match room {
            IngressRoom::NotStarted | IngressRoom::Closed => {
                let mut action = self.answer(
                    quota,
                    ControlResponse::err("checkpoint ingress worker is unavailable"),
                );
                action.request_shutdown = true;
                action
            },
            IngressRoom::Full => self.answer(
                quota,
                ControlResponse::err("checkpoint ingress busy: queue_full"),
            ),
            IngressRoom::Room => {
                if self.reservation.is_none() {
                    return self.end(quota, true);
                }
                match gate.accept() {
                    None => self.answer(quota, ControlResponse::err("daemon is shutting down")),
                    Some(receipt_seq) => {
                        let taken = self.reservation.take();
                        match taken {
                            Some(reservation) => self.go(
                                ConnectionPhase::Answering { stop: false },
                                ConnectionStep::Deliver {
                                    receipt_seq,
                                    reservation,
                                    response: ControlResponse::ok(Some(receipt_seq)),
                                },
                            ),
                            None => self.end(quota, true),
                        }
                    },
                }
            },
        }
    }

    /// Takes in what happened on a connection and says what is done next.
    pub fn step(
        &mut self,
        gate: &mut CheckpointGate,
        quota: &mut CheckpointIngressQuota,
        event: ConnectionEvent,
    ) -> (r: ConnectionAction)
        requires
            old(quota).wf(),
            old(self).wf(),
            old(gate).next_receipt_seq < u64::MAX,
            old(gate).unadmitted < u64::MAX,
        ensures
            connection_after(*final(self), *final(gate), *final(quota), r) == connection_step(
                connection_at(*old(self), *old(gate), *old(quota)),
                event,
            ),
            final(self).wf(),
            final(quota).wf(),
    {
        match (self.phase, event) {
            (ConnectionPhase::Starting, ConnectionEvent::TimeoutSet { applied }) => {
                if applied {
                    self.go(ConnectionPhase::Reading, ConnectionStep::ReadLine)
                } else {
                    self.end(quota, false)
                }
            },
            (ConnectionPhase::Reading, ConnectionEvent::Line(line)) => self.take_line(
                gate,
                quota,
                line,
            ),
            (ConnectionPhase::Settling { request }, ConnectionEvent::TimeoutSet { applied }) => {
                if applied {
                    self.uses_idle_timeout = true;
                    self.take_up(gate, quota, request)
                } else {
                    self.end(quota, false)
                }
            },
            (ConnectionPhase::Handling { shutdown }, ConnectionEvent::Handled(response)) => {
                let stop = shutdown && response.ok;
                self.go(
                    ConnectionPhase::Answering { stop },
                    ConnectionStep::Write { response },
                )
            },
            (ConnectionPhase::Offering, ConnectionEvent::Written { done }) => {
                if !done {
                    self.end(quota, true)
                } else if self.uses_idle_timeout {
                    self.go(
                        ConnectionPhase::Hurrying,
                        ConnectionStep::SetTimeout { ms: DAEMON_CONTROL_RECEIVE_TIMEOUT_MS },
                    )
                } else {
                    self.receive(quota)
                }
            },
            (ConnectionPhase::Hurrying, ConnectionEvent::TimeoutSet { applied }) => {
                if applied {
                    self.receive(quota)
                } else {
                    self.end(quota, false)
                }
            },
            (ConnectionPhase::Receiving, ConnectionEvent::Body { received }) => {
                if !received {
                    self.end(quota, true)
                } else if self.uses_idle_timeout {
                    self.go(
                        ConnectionPhase::Relaxing,
                        ConnectionStep::SetTimeout { ms: DAEMON_CONTROL_IDLE_TIMEOUT_MS },
                    )
                } else {
                    self.go(ConnectionPhase::Queueing, ConnectionStep::AskRoom)
                }
            },
            (ConnectionPhase::Relaxing, ConnectionEvent::TimeoutSet { applied }) => {
                if applied {
                    self.go(ConnectionPhase::Queueing, ConnectionStep::AskRoom)
                } else {
                    self.end(quota, false)
                }
            },
            (ConnectionPhase::Queueing, ConnectionEvent::Room(room)) => self.take_room(
                gate,
                quota,
                room,
            ),
            (ConnectionPhase::Answering { stop }, ConnectionEvent::Written { done }) => {
                let mut action = if done {
                    self.go(ConnectionPhase::Reading, ConnectionStep::ReadLine)
                } else {
                    self.end(quota, true)
                };
                action.request_stop = stop;
                action
            },
            _ => self.end(quota, true),
        }
    }

    /// Room is taken just while a checkpoint is being received.
    pub open spec fn wf(self) -> bool {
        self.reservation is Some <==> receiving(self.phase)
    }
}

/// Whether a checkpoint is being received.
pub open spec fn receiving(phase: ConnectionPhase) -> bool {
    phase is Offering || phase is Hurrying || phase is Receiving || phase is Relaxing
        || phase is Queueing
}

/// A connection that ends, however it ends, leaves the quota as it was before it
/// took room, and takes none along.
pub proof fn law_ended_connections_free_their_room(
    before: CheckpointIngressQuota,
    m: ConnectionModel,
    event: ConnectionEvent,
)
    requires
        before.wf(),
        receiving(m.phase),
        m.reserved is Some,
        before.refusal(m.reserved->0) is None,
        m.quota == before.taken(m.reserved->0),
        connection_step(m, event).phase == ConnectionPhase::Closed,
    ensures
        connection_step(m, event).reserved is None,
        connection_step(m, event).quota == before,
{
}

/// A checkpoint is either answered with an error and gives its room back, or it is
/// passed on together with its room; never both.
pub proof fn law_accepted_checkpoints_keep_their_room(
    before: CheckpointIngressQuota,
    m: ConnectionModel,
    room: IngressRoom,
)
    requires
        before.wf(),
        m.phase == ConnectionPhase::Queueing,
        m.reserved is Some,
        before.refusal(m.reserved->0) is None,
        m.quota == before.taken(m.reserved->0),
    ensures
        ({
            let after = connection_step(m, ConnectionEvent::Room(room));
            &&& after.reserved is None
            &&& after.next is Deliver ==> after.quota == m.quota
            &&& !(after.next is Deliver) ==> after.quota == before && after.gate == m.gate
        }),
{
}

/// Once the intake is closed no checkpoint is accepted, at whatever point of the
/// connection that happened.
pub proof fn law_a_closed_gate_accepts_nothing(m: ConnectionModel, event: ConnectionEvent)
    requires
        !m.gate.accepting,
    ensures
        connection_step(m, event).gate == m.gate,
        !(connection_step(m, event).next is Deliver),
        connection_step(m, event).phase is Offering ==> m.phase is Offering,
{
}

/// The daemon is made to stop only behind the answer to a shutdown that went well.
pub proof fn law_stops_follow_good_answers(m: ConnectionModel, event: ConnectionEvent)
    requires
        !m.request_stop,
    ensures
        connection_step(m, event).request_stop ==> m.phase == (ConnectionPhase::Answering {
            stop: true,
        }),
        connection_step(m, event).phase == (ConnectionPhase::Answering { stop: true }) ==> m.phase
            == (ConnectionPhase::Handling { shutdown: true }) && (event matches
            ConnectionEvent::Handled(response) && response.ok),
{
}

/// What a client makes of the first answer to a checkpoint that it announced.
#[derive(Debug)]
pub enum Handshake {
    /// The daemon refused; this is the answer.
    Refused(ControlResponse),
    /// The daemon is ready for the body.
    Ready,
    /// The answer makes no sense.
    Confused,
}

/// What a client makes of the first answer to a checkpoint that it announced.
pub fn checkpoint_handshake(answer: ControlResponse) -> (r: Handshake)
    ensures
        match r {
            Handshake::Refused(response) => !answer.ok && response == answer,
            Handshake::Ready => answer.ok && answer.ready,
            Handshake::Confused => answer.ok && !answer.ready,
        },
{
    if !answer.ok {
        return Handshake::Refused(answer);
    }
    if answer.ready {
        Handshake::Ready
    } else {
        Handshake::Confused
    }
}

/// What a client does when reading an answer failed.
#[derive(Debug, Clone, Copy, PartialEq, Eq, Structural)]
pub enum ClientRead {
    /// The answer is there.
    Done,
    /// The daemon closed the connection.
    Closed,
    /// Try again.
    Retry,
    /// The time is over.
    TimedOut,
    Failed,
}

/// What a client does when it read this many bytes, or when reading failed.
pub fn client_read(result: &Result<usize, ConnectionError>, past_deadline: bool) -> (r: ClientRead)
    ensures
        r == (match *result {
            Ok(0) => ClientRead::Closed,
            Ok(_) => ClientRead::Done,
            Err(error) => if !timed_out(error) {
                ClientRead::Failed
            } else if past_deadline {
                ClientRead::TimedOut
            } else {
                ClientRead::Retry
            },
        }),
{
    match result {
        Ok(n) => if *n == 0 {
            ClientRead::Closed
        } else {
            ClientRead::Done
        },
        Err(error) => if !control_receive_timed_out(error) {
            ClientRead::Failed
        } else if past_deadline {
            ClientRead::TimedOut
        } else {
            ClientRead::Retry
        },
    }
}

} // verus!
