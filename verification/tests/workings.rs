//! Checkpoints, the order of work, what is remembered of it, waiting, and ending.
use git_ai_daemon::bash_calls::{
    bash_hook_end, bash_hook_start, bash_session_end, bash_session_start, BashCall, BashHookPlace,
};
use git_ai_daemon::checkpoint::{
    absolute_path, begin_checkpoint, checkpoint_base_commit, checkpoint_candidates,
    finish_checkpoint, relative_path, BaseCommit, CheckpointBodyError, CheckpointFile,
    CheckpointGate, CheckpointKind, CheckpointRequest, FileFacts, PendingAiEdits, PreparedPathRole, PENDING_AI_EDIT_TIMEOUT_NS,
};
use git_ai_daemon::commands::{AppliedCommand, NormalizedCommand};
use git_ai_daemon::control::{
    checkpoint_body_failure, checkpoint_control_response_timeout, checkpoint_handshake,
    client_read, connection_error_is_peer_disconnect, connection_failure_severity, control_receive_timed_out, control_response, control_task,
    family_status, finish_shutdown, refused_response, request_kind, ClientRead, ConnectionAction,
    ConnectionError, ConnectionEvent, ConnectionStep, ControlConnection, ControlRequest,
    ControlResponse, ControlTask, Handshake, IngressRoom, IoFailure, LineRead, RequestKind,
    Severity, DAEMON_CONTROL_IDLE_TIMEOUT_MS, DAEMON_CONTROL_RECEIVE_TIMEOUT_MS,
    DAEMON_CONTROL_RESPONSE_TIMEOUT_MS, SNAPSHOT_RESPONSE_TIMEOUT_MS,
};
use git_ai_daemon::coordinator::{
    stream_tool, ActorDaemonCoordinator, PreparedCheckpointAdmission,
};
use git_ai_daemon::drain::{checkpoint_outcome, finish_command, CommandPass};
use git_ai_daemon::effects::{
    checkpoint_completion_entry, command_completion_entry, InflightEffects, SideEffectErrors,
    MAX_SIDE_EFFECT_ERRORS_PER_FAMILY,
};
use git_ai_daemon::lifecycle::{
    at_least_one, daemon_log_dir, daemon_log_file_path, daemon_max_uptime_ns, env_duration_ms,
    env_number, ingest_loss_report, join_budget, pid_metadata_path, probe_verdict,
    receive_buffer_to_ask, self_restart_history_path, stale_log_pid, startup_plan, update_verdict, DaemonExitAction,
    DrainProbes, Enforcement, HealthReading, HealthVerdict, HealthWatch, IngestLossSnapshot,
    self_update_outcome, DaemonSelfUpdateOutcome, Lifecycle, ProbeVerdict, SpawnFailures,
    UpdateCheck, UpdateVerdict, LOG_LIFETIME_SECS,
    SOCKET_HEALTH_MAX_CONSECUTIVE_DEFERRALS, SOCKET_HEALTH_MAX_PROCESSING_STALL_INTERVALS,
    TRACE_SPAWN_FAILURE_SHUTDOWN_THRESHOLD,
};
use git_ai_daemon::config::{DaemonConfig, Machine};
use git_ai_daemon::paths::RepoPath;
use git_ai_daemon::quota::CheckpointIngressQuota;
use git_ai_daemon::repo_state::FileSnapshot;
use git_ai_daemon::sequencer::{EntryKind, FamilySequencerEntry, FamilySequencers};
use git_ai_daemon::waits::{
    needs_current_times, noted_times, recovery_preflight, recovery_timestamps, AwaitAction,
    AwaitEvent, AwaitRun, PreflightAction, PreflightEvent, PreflightPhase, AWAIT_PAUSE_NS,
    SESSION_EVENT_RECOVERY_PREFLIGHT_POLL_NS, SESSION_EVENT_RECOVERY_PREFLIGHT_WAIT_NS,
};

fn strings(list: &[&str]) -> Vec<String> {
    list.iter().map(|s| s.to_string()).collect()
}

fn path(text: &str) -> RepoPath {
    RepoPath::parse(text)
}

fn command(family: Option<&str>, started_at_ns: u128) -> NormalizedCommand {
    NormalizedCommand {
        family_key: family.map(|f| f.to_string()),
        worktree: Some("/repo".to_string()),
        root_sid: format!("root-{started_at_ns}"),
        raw_argv: vec![],
        primary_command: Some("commit".to_string()),
        invoked_command: Some("commit".to_string()),
        invoked_args: vec![],
        exit_code: 0,
        started_at_ns,
        finished_at_ns: started_at_ns + 1,
        stash_target_oid: None,
        cherry_pick_source_oids: vec![],
        revert_source_oids: vec![],
        ref_changes: vec![],
    }
}

fn file(name: &str) -> CheckpointFile {
    CheckpointFile {
        path: name.to_string(),
        canonical: format!("/repo/{name}"),
        repo_work_dir: "/repo".to_string(),
        base_commit: BaseCommit::Initial,
        content: None,
    }
}

fn checkpoint(kind: CheckpointKind, role: PreparedPathRole, names: &[&str]) -> CheckpointRequest {
    CheckpointRequest {
        trace_id: "trace".to_string(),
        checkpoint_kind: kind,
        path_role: role,
        agent_tool: None,
        files: names.iter().map(|name| file(name)).collect(),
    }
}

#[test]
fn entries_are_drained_in_the_order_of_their_starts() {
    let mut sequencers = FamilySequencers::new();
    for started in [30, 10, 20] {
        sequencers.append_family_sequencer_entry(
            "f",
            started,
            100,
            FamilySequencerEntry::ReadyCommand(command(Some("f"), started)),
        );
    }
    assert!(sequencers.has_entries());
    assert_eq!(sequencers.families_with_entries(), strings(&["f"]));
    let front = sequencers.entry_facts("f", 0, 150).unwrap();
    assert_eq!((front.started_at_ns, front.waited_ns, front.kind), (10, 50, EntryKind::Command));
    assert_eq!(front.root_sid.as_deref(), Some("root-10"));

    // Held back while a checkpoint is on its way.
    assert!(sequencers.drain_ready("f", 1, &vec![None, None, None]).ready.is_empty());
    // The second is held, and so is what comes behind it.
    let drained = sequencers.drain_ready("f", 0, &vec![None, Some(7), None]);
    assert_eq!(drained.ready.len(), 1);
    assert_eq!(drained.held, Some(7));
    let rest = sequencers.drain_ready("f", 0, &vec![None, None]);
    let starts: Vec<u128> = rest
        .ready
        .iter()
        .map(|(_, entry)| match entry {
            FamilySequencerEntry::ReadyCommand(cmd) => cmd.started_at_ns,
            _ => panic!("a command"),
        })
        .collect();
    assert_eq!(starts, vec![20, 30]);
    sequencers.drop_idle();
    assert!(sequencers.by_family.is_empty());
}

#[test]
fn equal_starts_keep_the_order_of_arrival() {
    let mut sequencers = FamilySequencers::new();
    for sid in ["first", "second"] {
        let mut cmd = command(Some("f"), 5);
        cmd.root_sid = sid.to_string();
        sequencers.append_family_sequencer_entry(
            "f",
            5,
            5,
            FamilySequencerEntry::ReadyCommand(cmd),
        );
    }
    assert_eq!(sequencers.entry_facts("f", 0, 5).unwrap().root_sid.as_deref(), Some("first"));
    assert_eq!(sequencers.entry_facts("f", 1, 5).unwrap().root_sid.as_deref(), Some("second"));
    assert!(sequencers.entry_facts("f", 2, 5).is_none());
    assert_eq!(EntryKind::Checkpoint.as_str(), "checkpoint");
}

#[test]
fn checkpoints_are_admitted_to_their_family() {
    let mut coord = ActorDaemonCoordinator::new();
    let receipt_seq = coord.gate.accept().unwrap();
    let reservation = coord.quota.reserve(10).unwrap();
    assert!(!coord.families_are_synced());
    let drains = coord.complete_checkpoint_admission(
        PreparedCheckpointAdmission {
            receipt_seq,
            received_at_ns: 3,
            family: "f".to_string(),
            request: checkpoint(CheckpointKind::Human, PreparedPathRole::Edited, &["a"]),
            reservation,
        },
        4,
    );
    assert!(drains);
    assert!(coord.gate.admitted_through(receipt_seq));
    assert!(coord.families_are_synced());
    assert!(!coord.accepted_checkpoints_are_drained(), "its room is still taken");
    let facts = coord.sequencers.entry_facts("f", 0, 9).unwrap();
    assert_eq!((facts.started_at_ns, facts.waited_ns), (3, 5));
    assert_eq!(facts.kind, EntryKind::Checkpoint);

    let receipt_seq = coord.gate.accept().unwrap();
    let reservation = coord.quota.reserve(1).unwrap();
    assert!(coord.complete_failed_checkpoint_admission(receipt_seq, reservation));
    assert_eq!(coord.quota.outstanding(), (1, 10));
}

#[test]
fn commands_are_queued_where_they_take_part() {
    let mut coord = ActorDaemonCoordinator::new();
    assert!(coord.sequence_emitted_command(command(None, 1), true, 2).is_err());
    assert!(coord.sequence_emitted_command(command(Some("f"), 1), false, 2).is_err());
    assert!(!coord.sequencers.has_entries());
    assert_eq!(
        coord.sequence_emitted_command(command(Some("f"), 1), true, 2).ok().as_deref(),
        Some("f")
    );
    let applied = AppliedCommand { command: command(Some("g"), 1), seq: 1, events: vec![] };
    assert_eq!(coord.sequence_applied_command(applied, 2).as_deref(), Some("g"));
    assert_eq!(
        coord.sequencers.entry_facts("g", 0, 2).unwrap().kind,
        EntryKind::AppliedSideEffects
    );
}

#[test]
fn a_closed_intake_accepts_nothing() {
    let mut gate = CheckpointGate::new();
    assert_eq!(gate.accept(), Some(1));
    gate.set_checkpoint_acceptance(false);
    assert_eq!(gate.accept(), None);
    assert!(!gate.admitted_through(1));
    assert!(gate.complete_checkpoint_admission(1));
    assert!(gate.admitted_through(1));
}

#[test]
fn announced_edits_expire() {
    let mut edits = PendingAiEdits::new();
    edits.register_pending_ai_edits("f", &strings(&["/repo/a"]), 100);
    assert!(edits.file_has_pending_ai_edit("f", "/repo/a", 100));
    assert!(!edits.file_has_pending_ai_edit("f", "/repo/b", 100));
    assert!(!edits.file_has_pending_ai_edit("g", "/repo/a", 100));
    assert!(!edits.file_has_pending_ai_edit("f", "/repo/a", 101 + PENDING_AI_EDIT_TIMEOUT_NS));
    edits.clear_pending_ai_edits("f", &strings(&["/repo/a"]));
    assert!(!edits.file_has_pending_ai_edit("f", "/repo/a", 100));
}

#[test]
fn a_save_during_an_edit_is_left_out() {
    let mut edits = PendingAiEdits::new();
    let mut announced = checkpoint(CheckpointKind::Human, PreparedPathRole::WillEdit, &["a"]);
    announced.agent_tool = Some("agent".to_string());
    assert!(begin_checkpoint(&mut edits, "f", announced, 100).is_some());
    let saved = checkpoint(CheckpointKind::KnownHuman, PreparedPathRole::Edited, &["a", "b"]);
    let kept = begin_checkpoint(&mut edits, "f", saved, 101).expect("b is left");
    assert_eq!(kept.files.len(), 1);
    assert_eq!(kept.files[0].path, "b");
    let only = checkpoint(CheckpointKind::KnownHuman, PreparedPathRole::Edited, &["a"]);
    assert!(begin_checkpoint(&mut edits, "f", only, 102).is_none());

    let edited = checkpoint(CheckpointKind::AiAgent, PreparedPathRole::Edited, &["a"]);
    let finish = finish_checkpoint(
        &mut edits,
        "f",
        CheckpointKind::AiAgent,
        PreparedPathRole::Edited,
        &edited.files,
        Ok(3),
    );
    assert_eq!(finish.watermark_paths, strings(&["a"]));
    assert!(finish.error.is_none());
    assert!(!edits.file_has_pending_ai_edit("f", "/repo/a", 103));
    let failed = finish_checkpoint(
        &mut edits,
        "f",
        CheckpointKind::Human,
        PreparedPathRole::Edited,
        &edited.files,
        Err("no".to_string()),
    );
    assert_eq!(failed.error.as_deref(), Some("no"));
    assert!(failed.watermark_paths.is_empty());
}

#[test]
fn recorded_paths_are_distinct_and_lie_in_the_worktree() {
    let held = |name: &str, content: Option<&str>| {
        let mut held = file(name);
        held.content = content.map(|text| text.to_string());
        held
    };
    let files = vec![
        held("a", Some("text")),
        held("a", Some("text")),
        held(" ", Some("text")),
        held("b", Some("text")),
        held("c", Some("text")),
        held("d", None),
        held("e", Some("bin\0ary")),
        held("f", Some("")),
    ];
    let fact = |relative: &str, in_workdir: bool, ignored: bool| FileFacts {
        in_workdir,
        relative: relative.to_string(),
        ignored,
    };
    let facts = vec![
        fact("a", true, false),
        fact("a", true, false),
        fact("x", true, false),
        fact("b", false, false),
        fact("c", true, true),
        fact("d", true, false),
        fact("e", true, false),
        fact("f", true, false),
    ];
    assert_eq!(checkpoint_candidates(&files, &facts), vec![0, 7]);
}

#[test]
fn files_are_named_from_the_worktree() {
    let workdir = path("/repo");
    let files = FileSnapshot::new();
    let absolute = absolute_path(&path("src/a.rs"), &workdir);
    assert_eq!(absolute, path("/repo/src/a.rs"));
    assert_eq!(relative_path("src/a.rs", &absolute, &workdir, &files), "src/a.rs");
    let elsewhere = absolute_path(&path("/repo/b.rs"), &workdir);
    assert_eq!(relative_path("/repo/b.rs", &elsewhere, &workdir, &files), "b.rs");
}

#[test]
fn a_checkpoint_is_compared_with_the_commit_of_its_first_file() {
    let mut files = vec![file("a"), file("b")];
    assert_eq!(checkpoint_base_commit(&files).as_deref(), Some("initial"));
    files[0].base_commit = BaseCommit::Sha("abc".to_string());
    assert_eq!(checkpoint_base_commit(&files).as_deref(), Some("abc"));
    assert_eq!(checkpoint_base_commit(&vec![]), None);
}

#[test]
fn checkpoints_without_an_agent_are_of_an_unknown_tool() {
    let mut request = checkpoint(CheckpointKind::Human, PreparedPathRole::Edited, &["a"]);
    assert_eq!(stream_tool(&request), "unknown");
    request.agent_tool = Some("agent".to_string());
    assert_eq!(stream_tool(&request), "agent");
}

#[test]
fn the_newest_error_is_reported() {
    let mut errors = SideEffectErrors::new();
    errors.record_side_effect_error("f", 2, "second".to_string());
    errors.record_side_effect_error("f", 1, "first".to_string());
    assert_eq!(errors.latest_side_effect_error("f").as_deref(), Some("second"));
    assert_eq!(errors.latest_side_effect_error("g"), None);
    for seq in 0..(MAX_SIDE_EFFECT_ERRORS_PER_FAMILY as u64 + 10) {
        errors.record_side_effect_error("f", seq, format!("e{seq}"));
    }
    let kept = errors.by_family.get("f").unwrap();
    assert_eq!(kept.len(), MAX_SIDE_EFFECT_ERRORS_PER_FAMILY);
    assert_eq!(errors.latest_side_effect_error("f").as_deref(), Some("e265"));
}

#[test]
fn passes_are_counted_until_they_end() {
    let mut inflight = InflightEffects::new();
    inflight.begin_family_effect("f");
    inflight.begin_family_effect("f");
    inflight.end_family_effect("f");
    assert!(inflight.has_inflight_family_effects());
    inflight.end_family_effect("f");
    assert!(!inflight.has_inflight_family_effects());
    inflight.end_family_effect("f");
    assert!(inflight.counts.is_empty());
}

#[test]
fn failed_passes_are_recorded() {
    let mut errors = SideEffectErrors::new();
    let ok = finish_command(&mut errors, "f", 1, EntryKind::Command, CommandPass::Applied(Ok(())));
    assert!(matches!(ok, Some(Ok(()))));
    assert_eq!(errors.latest_side_effect_error("f"), None);
    let bad = finish_command(
        &mut errors,
        "f",
        2,
        EntryKind::Command,
        CommandPass::Applied(Err("bad".to_string())),
    );
    assert!(matches!(bad, Some(Err(_))));
    assert_eq!(errors.latest_side_effect_error("f").as_deref(), Some("bad"));
    let none = finish_command(
        &mut errors,
        "f",
        3,
        EntryKind::Command,
        CommandPass::NotApplied("lost".to_string()),
    );
    assert!(none.is_none());
    assert_eq!(errors.latest_side_effect_error("f").as_deref(), Some("lost"));
    assert_eq!(checkpoint_outcome(Ok(Ok(4))), Ok(4));
    assert_eq!(checkpoint_outcome(Ok(Err("e".to_string()))), Err("e".to_string()));
    assert!(checkpoint_outcome(Err("boom".to_string())).unwrap_err().contains("boom"));
}

#[test]
fn completions_are_written_down() {
    let applied = AppliedCommand { command: command(Some("f"), 1), seq: 7, events: vec![] };
    let entry = command_completion_entry("f", &applied, &Err("e".to_string()), true, None);
    assert_eq!((entry.seq, entry.kind.as_str(), entry.status.as_str()), (7, "command", "error"));
    assert_eq!(entry.error.as_deref(), Some("e"));
    assert_eq!(entry.primary_command.as_deref(), Some("commit"));
    assert!(entry.sync_tracked);
    let entry = checkpoint_completion_entry("f", &Some(Ok(3)));
    assert_eq!((entry.seq, entry.kind.as_str(), entry.status.as_str()), (3, "checkpoint", "ok"));
}

fn settle(
    connection: &mut ControlConnection,
    gate: &mut CheckpointGate,
    quota: &mut CheckpointIngressQuota,
    event: ConnectionEvent,
) -> ConnectionAction {
    connection.step(gate, quota, event)
}

#[test]
fn a_checkpoint_is_taken_off_a_connection() {
    let mut gate = CheckpointGate::new();
    let mut quota = CheckpointIngressQuota::new(1, 100);
    let (mut connection, first) = ControlConnection::new();
    assert!(matches!(first, ConnectionStep::SetTimeout { ms: DAEMON_CONTROL_RECEIVE_TIMEOUT_MS }));
    let action =
        settle(&mut connection, &mut gate, &mut quota, ConnectionEvent::TimeoutSet { applied: true });
    assert!(matches!(action.next, ConnectionStep::ReadLine));
    let request = RequestKind::Checkpoint { body_bytes: 40 };
    let mut action = settle(
        &mut connection,
        &mut gate,
        &mut quota,
        ConnectionEvent::Line(LineRead::Request(request)),
    );
    if let ConnectionStep::SetTimeout { ms } = action.next {
        assert_eq!(ms, DAEMON_CONTROL_IDLE_TIMEOUT_MS);
        action = settle(
            &mut connection,
            &mut gate,
            &mut quota,
            ConnectionEvent::TimeoutSet { applied: true },
        );
    }
    match action.next {
        ConnectionStep::Write { response } => assert!(response.ok && response.ready),
        other => panic!("{}", name(&other)),
    }
    assert_eq!(quota.outstanding(), (1, 40));
    let mut action =
        settle(&mut connection, &mut gate, &mut quota, ConnectionEvent::Written { done: true });
    let mut delivered = None;
    for _ in 0..6 {
        let event = match action.next {
            ConnectionStep::SetTimeout { .. } => ConnectionEvent::TimeoutSet { applied: true },
            ConnectionStep::ReadBody { bytes } => {
                assert_eq!(bytes, 40);
                ConnectionEvent::Body { received: true }
            }
            ConnectionStep::AskRoom => ConnectionEvent::Room(IngressRoom::Room),
            ConnectionStep::Deliver { receipt_seq, reservation, response } => {
                delivered = Some((receipt_seq, reservation.body_bytes(), response.ok));
                break;
            }
            other => panic!("{}", name(&other)),
        };
        action = settle(&mut connection, &mut gate, &mut quota, event);
    }
    assert_eq!(delivered, Some((1, 40, true)));
    assert_eq!(gate.unadmitted, 1);
    assert_eq!(quota.outstanding(), (1, 40), "the room is kept until the checkpoint is done");
}

fn name(step: &ConnectionStep) -> &'static str {
    match step {
        ConnectionStep::SetTimeout { .. } => "timeout",
        ConnectionStep::ReadLine => "line",
        ConnectionStep::Handle => "handle",
        ConnectionStep::Write { .. } => "write",
        ConnectionStep::ReadBody { .. } => "body",
        ConnectionStep::AskRoom => "room",
        ConnectionStep::Deliver { .. } => "deliver",
        ConnectionStep::Close => "close",
        ConnectionStep::Fail => "fail",
    }
}

#[test]
fn a_lost_body_frees_its_room() {
    let mut gate = CheckpointGate::new();
    let mut quota = CheckpointIngressQuota::new(1, 100);
    let (mut connection, _) = ControlConnection::new();
    let mut action =
        settle(&mut connection, &mut gate, &mut quota, ConnectionEvent::TimeoutSet { applied: true });
    let request = RequestKind::Checkpoint { body_bytes: 40 };
    let mut sent = false;
    loop {
        let event = match action.next {
            ConnectionStep::ReadLine if !sent => {
                sent = true;
                ConnectionEvent::Line(LineRead::Request(request))
            }
            ConnectionStep::ReadLine => ConnectionEvent::Line(LineRead::End),
            ConnectionStep::SetTimeout { .. } => ConnectionEvent::TimeoutSet { applied: true },
            ConnectionStep::Write { .. } => ConnectionEvent::Written { done: true },
            ConnectionStep::ReadBody { .. } => ConnectionEvent::Body { received: false },
            ConnectionStep::Close | ConnectionStep::Fail => break,
            other => panic!("{}", name(&other)),
        };
        action = settle(&mut connection, &mut gate, &mut quota, event);
    }
    assert_eq!(quota.outstanding(), (0, 0));
    assert_eq!(gate.unadmitted, 0);
}

#[test]
fn too_large_checkpoints_are_refused() {
    let mut gate = CheckpointGate::new();
    let mut quota = CheckpointIngressQuota::new(1, 100);
    let (mut connection, _) = ControlConnection::new();
    let mut action =
        settle(&mut connection, &mut gate, &mut quota, ConnectionEvent::TimeoutSet { applied: true });
    let request = RequestKind::Checkpoint { body_bytes: 101 };
    let response = loop {
        let event = match action.next {
            ConnectionStep::ReadLine => ConnectionEvent::Line(LineRead::Request(request)),
            ConnectionStep::SetTimeout { .. } => ConnectionEvent::TimeoutSet { applied: true },
            ConnectionStep::Write { response } => break response,
            other => panic!("{}", name(&other)),
        };
        action = settle(&mut connection, &mut gate, &mut quota, event);
    };
    assert!(!response.ok);
    assert!(response.error.is_some());
    assert_eq!(quota.outstanding(), (0, 0));
}

#[test]
fn requests_have_their_time() {
    let ms = |request: &ControlRequest| checkpoint_control_response_timeout(request, false);
    assert_eq!(ms(&ControlRequest::Ping), DAEMON_CONTROL_RESPONSE_TIMEOUT_MS as u128);
    assert_eq!(
        ms(&ControlRequest::SnapshotWatermarks { repo_working_dir: "/r".to_string() }),
        SNAPSHOT_RESPONSE_TIMEOUT_MS as u128
    );
    assert!(ms(&ControlRequest::Await { timeout_secs: 60 }) > 60_000);
    assert_eq!(request_kind(&ControlRequest::Shutdown), RequestKind::Shutdown);
    assert_eq!(
        request_kind(&ControlRequest::CheckpointRun { body_bytes: 3 }),
        RequestKind::Checkpoint { body_bytes: 3 }
    );
    assert_eq!(request_kind(&ControlRequest::Ping), RequestKind::Other);
    assert_eq!(control_task(&ControlRequest::Ping), ControlTask::Answer);
    assert_eq!(
        control_task(&ControlRequest::CheckpointRun { body_bytes: 3 }),
        ControlTask::RefuseUnframed
    );
    assert!(!refused_response(ControlTask::RefuseUnframed).ok);
}

#[test]
fn responses_say_what_came_of_a_request() {
    assert!(ControlResponse::ok(Some(3)).ok);
    assert_eq!(ControlResponse::ok(Some(3)).seq, Some(3));
    assert_eq!(ControlResponse::err("no").error.as_deref(), Some("no"));
    assert!(!control_response(Err("no".to_string())).ok);
    assert!(control_response(Ok(())).ok);
    assert!(matches!(checkpoint_handshake(ControlResponse::ready()), Handshake::Ready));
    assert!(matches!(checkpoint_handshake(ControlResponse::ok(None)), Handshake::Confused));
    match checkpoint_handshake(ControlResponse::err("full")) {
        Handshake::Refused(response) => assert_eq!(response.error.as_deref(), Some("full")),
        other => panic!("{other:?}"),
    }
}

#[test]
fn a_shutdown_that_failed_opens_the_intake_again() {
    let mut gate = CheckpointGate::new();
    gate.set_checkpoint_acceptance(false);
    assert!(!finish_shutdown(&mut gate, Err("late".to_string())).ok);
    assert!(gate.accepting);
    gate.set_checkpoint_acceptance(false);
    assert!(finish_shutdown(&mut gate, Ok(())).ok);
    assert!(!gate.accepting);
}

#[test]
fn a_family_reports_its_own_error_before_older_ones() {
    let mut errors = SideEffectErrors::new();
    let status = family_status("f", 3, &None, &errors);
    assert_eq!((status.latest_seq, status.last_error), (3, None));
    errors.record_side_effect_error("f", 1, "effect".to_string());
    let status = family_status("f", 3, &None, &errors);
    assert_eq!(status.last_error.as_deref(), Some("effect"));
}

#[test]
fn timeouts_are_told_from_failures() {
    let io = |failure| ConnectionError::Io(failure);
    assert!(control_receive_timed_out(&io(IoFailure::TimedOut)));
    assert!(control_receive_timed_out(&io(IoFailure::WouldBlock)));
    assert!(!control_receive_timed_out(&io(IoFailure::BrokenPipe)));
    assert_eq!(connection_failure_severity(&io(IoFailure::Other)), Severity::Error);
    assert_ne!(connection_failure_severity(&io(IoFailure::BrokenPipe)), Severity::Error);
    assert_eq!(client_read(&Ok(0), false), ClientRead::Closed);
    assert_eq!(client_read(&Ok(4), false), ClientRead::Done);
    assert_eq!(client_read(&Err(io(IoFailure::WouldBlock)), false), ClientRead::Retry);
    assert_eq!(client_read(&Err(io(IoFailure::WouldBlock)), true), ClientRead::TimedOut);
    assert_eq!(client_read(&Err(io(IoFailure::Other)), false), ClientRead::Failed);
}

#[test]
fn a_wait_ends_when_nothing_is_left() {
    let mut run = AwaitRun::new(1_000, false, false, true);
    let mut action = run.step(AwaitEvent::Begin, 0, false);
    let mut asked = 0;
    for now in 1..20u128 {
        action = match action {
            AwaitAction::Finish => break,
            AwaitAction::WaitForIngest { limit_ns } | AwaitAction::DrainFamilies { limit_ns } => {
                assert!(limit_ns <= 1_000);
                run.step(AwaitEvent::Waited { timed_out: false }, now, false)
            }
            AwaitAction::AskPending => {
                asked += 1;
                run.step(AwaitEvent::Pending { work: false }, now, false)
            }
            AwaitAction::FlushTelemetry { .. } => run.step(
                AwaitEvent::Flushed { metrics_remaining: 0, notes_remaining: 0 },
                now,
                false,
            ),
            other => panic!("{other:?}"),
        };
    }
    assert!(asked > 0);
    assert_eq!(action, AwaitAction::Finish);
    assert!(run.result.done);
    assert!(!run.result.timed_out);
}

#[test]
fn a_wait_ends_at_its_deadline() {
    let mut run = AwaitRun::new(100, false, false, false);
    let mut action = run.step(AwaitEvent::Begin, 0, false);
    let mut now = 0u128;
    for _ in 0..50 {
        now += 10;
        action = match action {
            AwaitAction::Finish => break,
            AwaitAction::Sleep { ns } => {
                assert!(ns <= AWAIT_PAUSE_NS);
                run.step(AwaitEvent::Waited { timed_out: false }, now, false)
            }
            AwaitAction::AskPending => run.step(AwaitEvent::Pending { work: true }, now, false),
            _ => run.step(AwaitEvent::Waited { timed_out: now > 100 }, now, false),
        };
    }
    assert_eq!(action, AwaitAction::Finish);
    assert!(run.result.timed_out);
    assert!(!run.result.done);
}

#[test]
fn recovery_times_prefer_what_was_noted() {
    let times = |name: &str, list: &[u64]| (name.to_string(), list.to_vec());
    let noted = Some(vec![times("a", &[5, 3, 5]), times("b", &[9])]);
    let current = Some(vec![times("a", &[7])]);
    assert!(!needs_current_times(&noted, &strings(&["a"])));
    assert_eq!(recovery_timestamps(&noted, &current, &strings(&["a"])), vec![3, 5]);
    assert!(needs_current_times(&noted, &strings(&["c"])));
    assert_eq!(recovery_timestamps(&noted, &current, &strings(&["c"])), vec![3, 5, 9]);
    assert_eq!(recovery_timestamps(&None, &current, &strings(&["a"])), vec![7]);
    assert!(recovery_timestamps(&None, &None, &strings(&["a"])).is_empty());
    assert_eq!(noted_times(Some(vec![])), None);
    assert!(noted_times(noted).is_some());
}

#[test]
fn a_commit_waits_a_bounded_time_for_its_transcript() {
    let (phase, action) =
        recovery_preflight(PreflightPhase::Asking, PreflightEvent::Answer(Some(true)), 0);
    assert_eq!((phase, action), (PreflightPhase::Done, PreflightAction::Finish));
    let (phase, action) =
        recovery_preflight(PreflightPhase::Asking, PreflightEvent::Answer(None), 0);
    assert_eq!((phase, action), (PreflightPhase::Done, PreflightAction::Finish));
    let (phase, action) =
        recovery_preflight(PreflightPhase::Asking, PreflightEvent::Answer(Some(false)), 0);
    assert_eq!(action, PreflightAction::StartSweep);
    let (phase, action) = recovery_preflight(phase, PreflightEvent::SweepStarted(true), 0);
    match action {
        PreflightAction::WaitForSweep { limit_ns } => {
            assert!(limit_ns <= SESSION_EVENT_RECOVERY_PREFLIGHT_WAIT_NS)
        }
        other => panic!("{other:?}"),
    }
    let (phase, action) = recovery_preflight(phase, PreflightEvent::SweepEnded(false), 1);
    let late = 2 * SESSION_EVENT_RECOVERY_PREFLIGHT_WAIT_NS;
    match action {
        PreflightAction::Finish => assert_eq!(phase, PreflightPhase::Done),
        PreflightAction::Ask => {
            let (_, action) =
                recovery_preflight(phase, PreflightEvent::Answer(Some(false)), late);
            assert_eq!(action, PreflightAction::Finish);
        }
        PreflightAction::Sleep { ns } => {
            assert!(ns <= SESSION_EVENT_RECOVERY_PREFLIGHT_POLL_NS)
        }
        other => panic!("{other:?}"),
    }
}

#[test]
fn exit_actions_are_numbers_and_back() {
    for action in
        [DaemonExitAction::Stop, DaemonExitAction::Restart, DaemonExitAction::RestartAfterUpdate]
    {
        assert_eq!(DaemonExitAction::from_u8(action.as_u8()), action);
    }
    assert!(!DaemonExitAction::Stop.restarts());
    assert!(DaemonExitAction::Restart.restarts());
    let mut life = Lifecycle::new();
    let mut gate = CheckpointGate::new();
    life.request_restart(&mut gate);
    assert_eq!(life.shutdown_action(), DaemonExitAction::Restart);
    assert_eq!(life.enforce_deadline(), Enforcement::Exit { restart: true });
    life.teardown_complete = true;
    assert_eq!(life.enforce_deadline(), Enforcement::Nothing);
}

#[test]
fn probes_prove_only_what_was_issued() {
    let mut probes = DrainProbes::new();
    let id = probes.issue_trace_drain_probe_id();
    assert_eq!(probe_verdict(&probes, id, false, 10, 5_000), ProbeVerdict::Waiting);
    assert_eq!(probe_verdict(&probes, id, false, 5_000, 5_000), ProbeVerdict::Late);
    assert_eq!(probe_verdict(&probes, id, true, 10, 5_000), ProbeVerdict::ShuttingDown);
    probes.record_trace_drain_probe(id + 1);
    assert_eq!(probes.observed, 0);
    probes.record_trace_drain_probe(id);
    assert_eq!(probe_verdict(&probes, id, false, 10, 5_000), ProbeVerdict::Through);
}

#[test]
fn losses_are_reported_once() {
    let none = IngestLossSnapshot {
        trace_payloads_dropped_queue_full: 0,
        trace_connections_dropped: 0,
        telemetry_metric_batches_dropped: 0,
        checkpoints_dropped: 0,
    };
    let mut some = none;
    some.checkpoints_dropped = 2;
    assert_eq!(ingest_loss_report(&none, &none), None);
    assert_eq!(ingest_loss_report(&none, &some), Some(some));
    assert_eq!(ingest_loss_report(&some, &some), None);
}

fn reading() -> HealthReading {
    HealthReading {
        control_ok: true,
        trace_ok: true,
        queued: 0,
        processed_seq: 0,
        shutting_down: false,
        outstanding_checkpoints: 0,
    }
}

#[test]
fn an_unreachable_daemon_restarts() {
    let mut watch = HealthWatch::new();
    assert_eq!(watch.look(&reading()), HealthVerdict::Healthy);
    let mut deaf = reading();
    deaf.control_ok = false;
    assert_eq!(watch.look(&deaf), HealthVerdict::Restart);
    deaf.shutting_down = true;
    assert_eq!(watch.look(&deaf), HealthVerdict::Leave);
}

#[test]
fn restarts_are_put_off_for_checkpoints_only_so_often() {
    let mut watch = HealthWatch::new();
    let mut deaf = reading();
    deaf.trace_ok = false;
    deaf.outstanding_checkpoints = 1;
    for _ in 0..SOCKET_HEALTH_MAX_CONSECUTIVE_DEFERRALS {
        assert_eq!(watch.look(&deaf), HealthVerdict::Defer);
    }
    assert_eq!(watch.look(&deaf), HealthVerdict::Restart);
}

#[test]
fn a_daemon_that_works_nothing_off_restarts() {
    let mut watch = HealthWatch::new();
    let mut stuck = reading();
    stuck.queued = 5;
    let mut verdict = HealthVerdict::Healthy;
    let mut looks = 0;
    while verdict == HealthVerdict::Healthy && looks < 100 {
        verdict = watch.look(&stuck);
        looks += 1;
    }
    assert_eq!(verdict, HealthVerdict::Restart);
    assert_eq!(looks, SOCKET_HEALTH_MAX_PROCESSING_STALL_INTERVALS);
    let mut watch = HealthWatch::new();
    for seq in 0..40 {
        stuck.processed_seq = seq + 1;
        assert_eq!(watch.look(&stuck), HealthVerdict::Healthy);
    }
}

#[test]
fn updates_wait_for_pending_work() {
    assert_eq!(update_verdict(UpdateCheck::Ready, false, 0, 100), UpdateVerdict::RestartAfterUpdate);
    assert_eq!(update_verdict(UpdateCheck::Ready, true, 0, 100), UpdateVerdict::Wait);
    assert_eq!(update_verdict(UpdateCheck::NoUpdate, false, 100, 100), UpdateVerdict::Restart);
    assert_eq!(update_verdict(UpdateCheck::NoUpdate, false, 99, 100), UpdateVerdict::Wait);
    assert_eq!(update_verdict(UpdateCheck::Failed, true, 100, 100), UpdateVerdict::Wait);
}

#[test]
fn a_failed_update_is_looked_for_afresh() {
    let installed = (DaemonSelfUpdateOutcome::Installed, false);
    assert_eq!(self_update_outcome(UpdateCheck::Ready), installed);
    let none = (DaemonSelfUpdateOutcome::NoUpdate, false);
    assert_eq!(self_update_outcome(UpdateCheck::NoUpdate), none);
    let failed = (DaemonSelfUpdateOutcome::Failed, true);
    assert_eq!(self_update_outcome(UpdateCheck::Failed), failed);
}

#[test]
fn too_many_failed_readers_shut_the_daemon_down() {
    let mut failures = SpawnFailures { consecutive: 0, dropped: 0 };
    for _ in 1..TRACE_SPAWN_FAILURE_SHUTDOWN_THRESHOLD {
        assert!(!failures.observe(false));
    }
    assert!(failures.observe(false));
    assert!(!failures.observe(true));
    assert_eq!(failures.consecutive, 0);
    assert_eq!(failures.dropped, TRACE_SPAWN_FAILURE_SHUTDOWN_THRESHOLD as u64);
}

#[test]
fn numbers_come_from_the_environment() {
    let text = |s: &str| Some(s.to_string());
    assert_eq!(env_number(&text("12"), 5), 12);
    assert_eq!(env_number(&text("x"), 5), 5);
    assert_eq!(env_number(&None, 5), 5);
    assert_eq!(env_duration_ms(&text("12"), 5), 12);
    assert_eq!(at_least_one(0), 1);
    assert_eq!(at_least_one(9), 9);
    assert_eq!(daemon_max_uptime_ns(&text("2")), 2_000_000_000);
    assert_eq!(daemon_max_uptime_ns(&None), 88_200_000_000_000);
}

#[test]
fn logs_are_named_by_process() {
    let machine = Machine { temp_dir: path("/tmp"), unix: true };
    let config = DaemonConfig::from_home(&path("/home/me"), &machine);
    assert_eq!(daemon_log_file_path(&config, 42).parent(), Some(daemon_log_dir(&config)));
    assert_eq!(daemon_log_file_path(&config, 42).file_name().as_deref(), Some("42.log"));
    assert_eq!(pid_metadata_path(&config).file_name().as_deref(), Some("daemon.pid.json"));
    assert_eq!(
        self_restart_history_path(&config).parent(),
        config.lock_path.parent()
    );
    let old = Some((LOG_LIFETIME_SECS as u128 + 1) * 1_000_000_000);
    assert_eq!(stale_log_pid("42", old), Some(42));
    assert_eq!(stale_log_pid("42", Some(1)), None);
    assert_eq!(stale_log_pid("notes", old), None);
}

#[test]
fn threads_are_joined_for_a_short_while() {
    assert_eq!(join_budget(100, 200), None);
    assert_eq!(join_budget(300, 200), Some(100));
    assert_eq!(join_budget(2_000_000_000, 0), Some(500_000_000));
}

#[test]
fn workers_start_as_configured() {
    let plan = startup_plan(true, true, Some(2));
    assert!(plan.follow_transcripts);
    assert!(plan.collect_token_usage);
    assert_eq!(plan.memory_limit_bytes, Some(2 * 1_048_576));
    let off = startup_plan(false, false, None);
    assert!(!off.follow_transcripts);
    assert!(!off.collect_token_usage);
    assert_eq!(off.memory_limit_bytes, None);
}

fn call(agent: &str, at_ns: u128, command: Option<&str>, metadata: &[(&str, &str)]) -> BashCall {
    BashCall {
        session_id: "s".to_string(),
        tool_use_id: "t".to_string(),
        agent_id: agent.to_string(),
        metadata: metadata.iter().map(|(k, v)| (k.to_string(), v.to_string())).collect(),
        trace_id: format!("trace-{at_ns}"),
        at_ns,
        command: command.map(|c| c.to_string()),
    }
}

#[test]
fn the_end_of_a_call_takes_up_its_beginning() {
    let mut files = FileSnapshot::new();
    files.add_canonical(path("/link"), path("/repo"));
    let (start, session) =
        bash_session_start(call("begun", 9, Some("make"), &[("k", "v")]), "/link", &None, &files);
    assert_eq!(start.original_cwd, "/repo");
    assert_eq!(start.repo_work_dir.as_deref(), Some("/repo"));
    assert_eq!(start.started_at_ns, 9);
    assert_eq!(session.repo_work_dir, "/repo");

    let end = bash_session_end(call("told", 20, None, &[]), "/told", &None, Some(session), &files);
    assert_eq!(end.repo_work_dir.as_deref(), Some("/repo"));
    assert_eq!(end.original_cwd, "/repo");
    assert_eq!(end.agent_id, "begun");
    assert_eq!(end.command.as_deref(), Some("make"));
    assert_eq!(end.started_at_ns, Some(9));
    assert_eq!(end.start_trace_id.as_deref(), Some("trace-9"));
    assert_eq!(end.end_trace_id, "trace-20");
    assert_eq!(end.metadata, vec![("k".to_string(), "v".to_string())]);

    let cwd = Some("/elsewhere".to_string());
    let end = bash_session_end(call("told", 20, Some("ls"), &[]), "/link", &cwd, None, &files);
    assert_eq!(end.repo_work_dir.as_deref(), Some("/repo"));
    assert_eq!(end.original_cwd, "/elsewhere");
    assert_eq!(end.agent_id, "told");
    assert_eq!(end.start_trace_id, None);
    assert!(end.metadata.is_empty());
}

#[test]
fn hooks_tell_where_they_ran() {
    let files = FileSnapshot::new();
    let place = |dir: Option<&str>| BashHookPlace {
        original_cwd: "/c".to_string(),
        discovered_repo_work_dir: dir.map(|d| d.to_string()),
        repo_discovery_error: Some("none".to_string()),
    };
    let start = bash_hook_start(call("a", 1, None, &[]), place(Some("/r")), &files);
    assert_eq!((start.original_cwd.as_str(), start.repo_work_dir.as_deref()), ("/c", Some("/r")));
    let end = bash_hook_end(call("a", 2, None, &[]), place(None), &files);
    assert_eq!(end.repo_work_dir, None);
    assert_eq!(end.repo_discovery_error.as_deref(), Some("none"));
    assert_eq!(end.started_at_ns, None);
}

#[test]
fn admissions_keep_count() {
    let mut gate = CheckpointGate::new();
    assert_eq!(gate.accept(), Some(1));
    assert_eq!(gate.accept(), Some(2));
    assert!(!gate.complete_checkpoint_admission(1));
    assert!(gate.admitted_through(1) && !gate.admitted_through(2));
    assert!(gate.complete_checkpoint_admission(2));
    assert!(gate.admitted_through(2));
    gate.set_checkpoint_acceptance(false);
    assert_eq!(gate.accept(), None);
    assert_eq!(gate.unadmitted, 0);
}

#[test]
fn receive_buffers_are_only_raised() {
    assert_eq!(receive_buffer_to_ask(0, Some(10)), None);
    assert_eq!(receive_buffer_to_ask(100, Some(10)), Some(100));
    assert_eq!(receive_buffer_to_ask(100, Some(100)), None);
    assert_eq!(receive_buffer_to_ask(100, Some(200)), None);
    assert_eq!(receive_buffer_to_ask(100, None), Some(100));
    assert_eq!(receive_buffer_to_ask(u64::MAX, Some(10)), Some(i32::MAX));
}

#[test]
fn a_body_that_ends_early_is_a_peer_that_went_away() {
    for error in [CheckpointBodyError::Truncated, CheckpointBodyError::MissingDelimiter] {
        assert!(connection_error_is_peer_disconnect(&checkpoint_body_failure(error)));
    }
    let wrong = checkpoint_body_failure(CheckpointBodyError::WrongDelimiter);
    assert!(!connection_error_is_peer_disconnect(&wrong));
}
