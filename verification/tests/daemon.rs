//! Commands, control requests, checkpoints, and the daemon's life.
use git_ai_daemon::checkpoint::{
    checkpoint_body, CheckpointBodyError, CheckpointGate, CheckpointKind, CheckpointRequest,
    PreparedPathRole,
};
use git_ai_daemon::commands::{NormalizedCommand, RefChange, SemanticEvent};
use git_ai_daemon::control::{
    apply_control_receive_timeout, checkpoint_control_response_timeout,
    checkpoint_control_timeout_uses_ci_or_test_budget, connection_error_is_peer_disconnect,
    ConnectionError, ControlRequest, IoFailure, DAEMON_CHECKPOINT_RESPONSE_TIMEOUT_MS,
    DAEMON_CONTROL_RESPONSE_TIMEOUT_MS,
};
use git_ai_daemon::coordinator::{admission_work_dir, ActorDaemonCoordinator};
use git_ai_daemon::frames::read_trace_line;
use git_ai_daemon::ingress::FrameFacts;
use git_ai_daemon::lifecycle::{
    daemon_is_test_mode, daemon_log_file_should_be_skipped, process_counts_as_alive,
    process_stat_is_zombie, should_defer_restart_for_checkpoints, DaemonExitAction, Lifecycle,
    SOCKET_HEALTH_MAX_CONSECUTIVE_DEFERRALS,
};
use git_ai_daemon::paths::RepoPath;
use git_ai_daemon::quota::CheckpointIngressQuota;
use git_ai_daemon::repo_state::FileSnapshot;
use git_ai_daemon::restart_budget::{
    consume_self_restart_budget, refund_self_restart_budget, BudgetDecision, HistoryFile,
    DAEMON_SELF_RESTART_BUDGET_MAX, DAEMON_SELF_RESTART_BUDGET_WINDOW_SECS,
};
use git_ai_daemon::rewrite::{
    rebase_new_tip_from_command, strict_rebase_original_head_from_command,
};
use git_ai_daemon::sequencer::FamilySequencerEntry;
use git_ai_daemon::side_effects::{transcript_sweep_triggers_for_events, SweepTrigger};
use git_ai_daemon::sources::{
    cherry_pick_source_args_from_command_args, revert_source_args_from_command_args,
};
use git_ai_daemon::trace::{
    is_terminal_root_trace_event, raw_trace_event_type, reader_should_ingest_trace_event,
    trace_payload_worktree_hint, trace_sid_pid, ParsedGitInvocation,
    TRACE_CONNECTION_CLOSED_EVENT, TRACE_DRAIN_PROBE_EVENT,
};

fn strings(list: &[&str]) -> Vec<String> {
    list.iter().map(|s| s.to_string()).collect()
}

fn no_invocation() -> ParsedGitInvocation {
    ParsedGitInvocation { global_args: vec![], command: None, command_args: vec![] }
}

#[test]
fn secondary_def_repo_does_not_hint_worktree() {
    let files = FileSnapshot::new();
    let primary = read_trace_line(
        r#"{"event":"def_repo","sid":"s1","repo":1,"worktree":"/repo"}"#,
        None,
    )
    .unwrap();
    assert_eq!(
        trace_payload_worktree_hint(&primary, &no_invocation(), &files),
        Some(RepoPath::parse("/repo"))
    );

    let secondary = read_trace_line(
        r#"{"event":"def_repo","sid":"s1","repo":2,"worktree":"/repo/nested"}"#,
        None,
    )
    .unwrap();
    assert_eq!(trace_payload_worktree_hint(&secondary, &no_invocation(), &files), None);
}

#[test]
fn revert_source_args_do_not_treat_bare_gpg_sign_as_value_option() {
    assert_eq!(
        revert_source_args_from_command_args(&strings(&["--gpg-sign", "HEAD~1"])),
        vec!["HEAD~1"]
    );
    assert_eq!(
        revert_source_args_from_command_args(&strings(&["-S", "HEAD~1"])),
        vec!["HEAD~1"]
    );
    assert_eq!(
        revert_source_args_from_command_args(&strings(&["-Smy-key", "HEAD~1"])),
        vec!["HEAD~1"]
    );
}

#[test]
fn cherry_pick_source_args_do_not_treat_bare_gpg_sign_as_value_option() {
    assert_eq!(
        cherry_pick_source_args_from_command_args(&strings(&["--gpg-sign", "HEAD~1"])),
        vec!["HEAD~1"]
    );
    assert_eq!(
        cherry_pick_source_args_from_command_args(&strings(&["-S", "HEAD~1"])),
        vec!["HEAD~1"]
    );
    assert_eq!(
        cherry_pick_source_args_from_command_args(&strings(&["-Smy-key", "HEAD~1"])),
        vec!["HEAD~1"]
    );
}

fn sample_checkpoint_request() -> ControlRequest {
    ControlRequest::CheckpointRun { body_bytes: 128 }
}

#[test]
fn checkpoint_requests_use_long_timeout_in_ci_or_test_env() {
    assert_eq!(
        checkpoint_control_response_timeout(&sample_checkpoint_request(), true),
        DAEMON_CHECKPOINT_RESPONSE_TIMEOUT_MS as u128
    );
    assert_eq!(DAEMON_CHECKPOINT_RESPONSE_TIMEOUT_MS, 300_000);
}

#[test]
fn checkpoint_requests_use_short_timeout_in_product_env() {
    assert_eq!(
        checkpoint_control_response_timeout(&sample_checkpoint_request(), false),
        DAEMON_CONTROL_RESPONSE_TIMEOUT_MS as u128
    );
    assert_eq!(DAEMON_CONTROL_RESPONSE_TIMEOUT_MS, 2_000);
}

#[test]
fn shutdown_requests_allow_checkpoint_drain_timeout() {
    assert_eq!(
        checkpoint_control_response_timeout(&ControlRequest::Shutdown, false),
        DAEMON_CHECKPOINT_RESPONSE_TIMEOUT_MS as u128
    );
}

#[test]
fn gc_keeps_held_family_exec_locks_and_evicts_only_idle_ones() {
    let mut coord = ActorDaemonCoordinator::new();
    coord.exec_locks.take("family-held");
    coord.exec_locks.take("family-idle");
    coord.exec_locks.give_back("family-idle");

    coord.gc_stale_family_state(0);

    assert_eq!(coord.exec_locks.holders.get("family-held"), Some(&1));
    assert!(!coord.exec_locks.holders.contains("family-idle"));
}

#[test]
fn pending_attribution_work_ignores_open_trace_roots() {
    let mut coord = ActorDaemonCoordinator::new();
    assert!(!coord.has_pending_attribution_work());

    let sid = "20260411T120000.000000-Popen-root";
    coord.ingress.trace_root_connection_opened(sid);
    let mut start = read_trace_line(
        "{\"event\":\"start\",\"sid\":\"20260411T120000.000000-Popen-root\",\
         \"argv\":[\"git\",\"rebase\",\"-i\",\"HEAD~3\"],\"time_ns\":10}",
        None,
    )
    .unwrap();
    let facts = FrameFacts {
        definitely_read_only: false,
        may_mutate_refs: true,
        resolved_family: None,
    };
    let taken = coord.ingress.track_trace_payload_for_ingest(&start, &None, &facts, 20).unwrap();
    assert!(!coord.ingress.finish_tracked_frame(taken, &mut start, None));
    assert!(coord.ingress.has_open_trace_roots_that_may_mutate_refs());
    assert!(!coord.has_pending_attribution_work());

    coord.sequencers.append_family_sequencer_entry(
        "family-b",
        20,
        20,
        FamilySequencerEntry::ReadyCommand(test_rebase_command(&[], vec![])),
    );
    assert!(coord.has_pending_attribution_work());
    coord.sequencers.by_family.remove("family-b");
    assert!(!coord.has_pending_attribution_work());

    coord.inflight.begin_family_effect("family-c");
    assert!(coord.has_pending_attribution_work());
    coord.inflight.end_family_effect("family-c");
    assert!(!coord.has_pending_attribution_work());
}

#[test]
fn draining_an_unknown_family_does_not_retain_empty_sequencer_state() {
    let mut coord = ActorDaemonCoordinator::new();
    let drained = coord.sequencers.drain_ready("family-with-no-work", 0, &vec![]);
    assert!(drained.ready.is_empty());
    assert_eq!(drained.held, None);
    assert!(!coord.sequencers.by_family.contains("family-with-no-work"));
}

#[test]
fn checkpoint_ingress_quota_bounds_count_and_bytes_and_releases_on_drop() {
    let mut quota = CheckpointIngressQuota::new(2, 10);
    let first = quota.reserve(4).expect("first reservation");
    let second = quota.reserve(6).expect("second reservation");

    let count_error = quota.reserve(0).expect_err("count limit must reject");
    assert_eq!(count_error.reason, "request_limit");

    quota.release(second);
    let byte_error = quota.reserve(7).expect_err("byte limit must reject");
    assert_eq!(byte_error.reason, "byte_limit");

    quota.release(first);
    let replacement = quota.reserve(10).expect("released quota must be reusable");
    assert_eq!(replacement.body_bytes(), 10);
}

#[test]
fn checkpoint_body_reader_requires_exact_length_and_delimiter() {
    assert_eq!(checkpoint_body(&b"body\n".to_vec(), 4).expect("valid framed body"), b"body");
    assert_eq!(checkpoint_body(&b"bod".to_vec(), 4), Err(CheckpointBodyError::Truncated));
    assert_eq!(checkpoint_body(&b"body!".to_vec(), 4), Err(CheckpointBodyError::WrongDelimiter));
    assert_eq!(checkpoint_body(&b"body".to_vec(), 4), Err(CheckpointBodyError::MissingDelimiter));
}

#[test]
fn transcript_sweep_triggers_for_commit_amend_and_push_events() {
    let created = || SemanticEvent::CommitCreated {
        base: Some("base".to_string()),
        new_head: "new".to_string(),
    };
    let pushed = || SemanticEvent::PushCompleted { remote: Some("origin".to_string()) };
    assert_eq!(
        transcript_sweep_triggers_for_events(&vec![created()]),
        vec![SweepTrigger::PostCommit]
    );
    assert_eq!(
        transcript_sweep_triggers_for_events(&vec![SemanticEvent::CommitAmended {
            old_head: "old".to_string(),
            new_head: "new".to_string(),
        }]),
        vec![SweepTrigger::PostCommit]
    );
    assert_eq!(
        transcript_sweep_triggers_for_events(&vec![pushed()]),
        vec![SweepTrigger::PostPush]
    );
    assert_eq!(
        transcript_sweep_triggers_for_events(&vec![created(), pushed()]),
        vec![SweepTrigger::PostCommit, SweepTrigger::PostPush]
    );
    assert!(transcript_sweep_triggers_for_events(&vec![SemanticEvent::CloneCompleted]).is_empty());
}

fn test_rebase_command(invoked_args: &[&str], ref_changes: Vec<RefChange>) -> NormalizedCommand {
    NormalizedCommand {
        family_key: Some("/repo/.git".to_string()),
        worktree: Some("/repo".to_string()),
        root_sid: "rebase-test".to_string(),
        raw_argv: std::iter::once("git")
            .chain(std::iter::once("rebase"))
            .chain(invoked_args.iter().copied())
            .map(str::to_string)
            .collect(),
        primary_command: Some("rebase".to_string()),
        invoked_command: Some("rebase".to_string()),
        invoked_args: strings(invoked_args),
        exit_code: 0,
        started_at_ns: 1,
        finished_at_ns: 2,
        stash_target_oid: None,
        cherry_pick_source_oids: vec![],
        revert_source_oids: vec![],
        ref_changes,
    }
}

fn ref_change(reference: &str, old: &str, new: &str) -> RefChange {
    RefChange { reference: reference.to_string(), old: old.to_string(), new: new.to_string() }
}

#[test]
fn explicit_branch_rebase_original_head_prefers_branch_ref_over_head() {
    const MAIN: &str = "1111111111111111111111111111111111111111";
    const FEATURE: &str = "2222222222222222222222222222222222222222";
    const ONTO: &str = "3333333333333333333333333333333333333333";

    let cmd = test_rebase_command(
        &["master", "scenario-3-multi-file-conflict"],
        vec![
            ref_change("HEAD", MAIN, FEATURE),
            ref_change("HEAD", FEATURE, ONTO),
            ref_change("refs/heads/scenario-3-multi-file-conflict", FEATURE, FEATURE),
        ],
    );
    let branch_arg = Some("scenario-3-multi-file-conflict".to_string());
    assert_eq!(
        strict_rebase_original_head_from_command(&cmd, &branch_arg, MAIN),
        Some(FEATURE.to_string())
    );
}

#[test]
fn pending_rebase_new_tip_prefers_matching_branch_ref_over_later_head_noise() {
    const ORIGINAL: &str = "1111111111111111111111111111111111111111";
    const ONTO: &str = "2222222222222222222222222222222222222222";
    const NEW_TIP: &str = "3333333333333333333333333333333333333333";
    const UNRELATED_HEAD: &str = "4444444444444444444444444444444444444444";

    let cmd = test_rebase_command(
        &["--continue"],
        vec![
            ref_change("HEAD", ONTO, NEW_TIP),
            ref_change("refs/heads/scenario-3-multi-file-conflict", ORIGINAL, NEW_TIP),
            ref_change("HEAD", NEW_TIP, UNRELATED_HEAD),
        ],
    );
    assert_eq!(
        rebase_new_tip_from_command(&cmd, true, ORIGINAL),
        Some(NEW_TIP.to_string())
    );
}

#[test]
fn checkpoint_control_timeout_uses_ci_env_var() {
    assert!(checkpoint_control_timeout_uses_ci_or_test_budget(false, false, true));
}

#[test]
fn checkpoint_control_timeout_uses_test_db_env_var() {
    assert!(checkpoint_control_timeout_uses_ci_or_test_budget(true, false, false));
    assert!(checkpoint_control_timeout_uses_ci_or_test_budget(false, true, false));
}

#[test]
fn checkpoint_control_timeout_false_when_no_ci_or_test_vars() {
    assert!(!checkpoint_control_timeout_uses_ci_or_test_budget(false, false, false));
}

#[test]
fn daemon_log_file_skipped_in_plain_test_mode() {
    assert!(daemon_log_file_should_be_skipped(daemon_is_test_mode(true, false), false));
}

#[test]
fn daemon_log_file_override_forces_real_redirect_in_test_mode() {
    assert!(!daemon_log_file_should_be_skipped(daemon_is_test_mode(true, false), true));
    assert!(daemon_is_test_mode(true, false));
}

#[test]
fn daemon_log_file_not_skipped_outside_test_mode() {
    assert!(!daemon_log_file_should_be_skipped(daemon_is_test_mode(false, false), false));
}

#[test]
fn explicit_stop_overrides_prior_restart_intent() {
    let mut coordinator = ActorDaemonCoordinator::new();
    let ActorDaemonCoordinator { lifecycle, gate, .. } = &mut coordinator;
    lifecycle.request_restart_after_update(gate);
    assert_eq!(lifecycle.shutdown_action(), DaemonExitAction::RestartAfterUpdate);

    lifecycle.request_stop(gate);
    assert!(lifecycle.shutting_down);
    assert_eq!(lifecycle.shutdown_action(), DaemonExitAction::Stop);
}

#[test]
fn exit_is_not_a_root_completion_boundary() {
    let sid = "20260411T120000.000000-Psid1";
    assert!(!is_terminal_root_trace_event("exit", sid, sid));
    assert!(is_terminal_root_trace_event("atexit", sid, sid));
}

#[test]
fn trace_sid_pid_parses_real_trace2_sid() {
    assert_eq!(
        trace_sid_pid("20260903T230057.647295Z-H68dbce90-P001cc228"),
        Some(0x001c_c228)
    );
    assert_eq!(
        trace_sid_pid(
            "20260903T230057.647295Z-H68dbce90-P001cc228/20260903T230058.100000Z-H68dbce90-P001cc2f0"
        ),
        Some(0x001c_c228)
    );
    assert_eq!(trace_sid_pid("20260411T120000.000000-Punfinished-root"), None);
    assert_eq!(trace_sid_pid("no-pid-here"), None);
}

#[test]
fn process_alive_treats_zombies_as_gone() {
    let zombie = Some("4242 (true) Z 1 4242 4242 0 -1".to_string());
    let running = Some("4242 (odd) name) S 1 4242".to_string());
    assert!(process_stat_is_zombie("4242 (true) Z 1 4242 4242 0 -1"));
    assert!(!process_counts_as_alive(true, &zombie));
    assert!(process_counts_as_alive(true, &running));
    assert!(process_counts_as_alive(true, &None));
    assert!(!process_counts_as_alive(false, &running));
}

#[test]
fn raw_trace_event_type_only_trusts_the_prefix_position() {
    let event = |line: &str| raw_trace_event_type(line);
    assert_eq!(event(r#"{"event":"start","sid":"s1"}"#).as_deref(), Some("start"));
    assert_eq!(
        event(r#"{"event":"start","argv":["git","commit","-m","\"event\":\"data\""]}"#).as_deref(),
        Some("start")
    );
    assert_eq!(event(r#"{"sid":"s1","event":"data"}"#), None);
    assert_eq!(event(r#"{ "event":"data"}"#), None);
    assert_eq!(event("not json"), None);
}

#[test]
fn reader_ingests_only_consumed_events_and_probes() {
    for event in ["start", "def_repo", "cmd_name", "def_param", "exit", "atexit"] {
        assert!(reader_should_ingest_trace_event(event), "{event}");
    }
    assert!(reader_should_ingest_trace_event(TRACE_DRAIN_PROBE_EVENT));
    for event in [
        "version",
        "cmd_path",
        "cmd_ancestry",
        "cmd_mode",
        "child_start",
        "child_exit",
        "region_enter",
        "region_leave",
        "data",
        "data_json",
        "thread_start",
        "error",
        "signal",
        "exec",
        "",
        TRACE_CONNECTION_CLOSED_EVENT,
    ] {
        assert!(!reader_should_ingest_trace_event(event), "{event:?}");
    }
}

/// A history file, as `consume_self_restart_budget` has it written or removed.
fn consume(file: &mut HistoryFile, now_secs: u64) -> bool {
    let decision = consume_self_restart_budget(
        file,
        now_secs,
        DAEMON_SELF_RESTART_BUDGET_WINDOW_SECS,
        DAEMON_SELF_RESTART_BUDGET_MAX,
    );
    match decision {
        BudgetDecision::Deny => false,
        BudgetDecision::DenyAndRemove => {
            *file = HistoryFile::Missing;
            false
        }
        BudgetDecision::DenyAndWrite(text) => {
            *file = HistoryFile::Text(text);
            false
        }
        BudgetDecision::AllowOnceWritten(text) => {
            *file = HistoryFile::Text(text);
            true
        }
    }
}

const NOW_SECS: u64 = 1_800_000_000;

#[test]
fn self_restart_budget_allows_within_window_then_denies() {
    let mut file = HistoryFile::Missing;
    for _ in 0..DAEMON_SELF_RESTART_BUDGET_MAX {
        assert!(consume(&mut file, NOW_SECS));
    }
    assert!(!consume(&mut file, NOW_SECS));

    let stale_ts = NOW_SECS - DAEMON_SELF_RESTART_BUDGET_WINDOW_SECS - 1;
    let stale = vec![stale_ts; DAEMON_SELF_RESTART_BUDGET_MAX];
    let mut file = HistoryFile::Text(serde_json::to_string(&stale).unwrap());
    assert!(consume(&mut file, NOW_SECS));
}

#[test]
fn self_restart_budget_prunes_future_timestamps_from_clock_skew() {
    let future_ts = NOW_SECS + 86_400;
    let skewed = vec![future_ts; DAEMON_SELF_RESTART_BUDGET_MAX];
    let mut file = HistoryFile::Text(serde_json::to_string(&skewed).unwrap());
    assert!(consume(&mut file, NOW_SECS));
    let rewritten: Vec<u64> = match &file {
        HistoryFile::Text(text) => serde_json::from_str(text).unwrap(),
        other => panic!("{other:?}"),
    };
    assert_eq!(rewritten, vec![NOW_SECS]);
}

#[test]
fn refunded_self_restart_budget_entry_frees_the_allowance() {
    let mut file = HistoryFile::Missing;
    for _ in 0..DAEMON_SELF_RESTART_BUDGET_MAX {
        assert!(consume(&mut file, NOW_SECS));
    }
    assert!(!consume(&mut file, NOW_SECS));
    let refunded = refund_self_restart_budget(&file).expect("a history to write");
    let mut file = HistoryFile::Text(refunded);
    assert!(consume(&mut file, NOW_SECS));
}

#[test]
fn self_restart_budget_fails_closed_when_history_is_unusable() {
    let mut file = HistoryFile::Text("not json".to_string());
    assert!(!consume(&mut file, NOW_SECS));
    assert!(matches!(file, HistoryFile::Missing));
    assert!(consume(&mut file, NOW_SECS));

    let mut unreadable = HistoryFile::Unreadable;
    assert!(!consume(&mut unreadable, NOW_SECS));
    assert!(refund_self_restart_budget(&unreadable).is_none());
    assert!(refund_self_restart_budget(&HistoryFile::Missing).is_none());
}

#[test]
fn abandoned_checkpoints_are_counted_exactly_once() {
    let mut coord = ActorDaemonCoordinator::new();
    let _reservation = coord.quota.reserve(128).expect("reservation should be granted");
    let outstanding = coord.quota.outstanding().0 as u64;
    coord.lifecycle.count_abandoned_checkpoints_once(outstanding);
    coord.lifecycle.count_abandoned_checkpoints_once(outstanding);
    assert_eq!(coord.lifecycle.checkpoints_dropped, 1);
}

#[test]
fn connection_error_classifier_separates_peer_gone_from_systemic() {
    for failure in [
        IoFailure::BrokenPipe,
        IoFailure::ConnectionReset,
        IoFailure::ConnectionAborted,
        IoFailure::UnexpectedEof,
        IoFailure::TimedOut,
        IoFailure::WouldBlock,
        IoFailure::InvalidInput,
    ] {
        assert!(
            connection_error_is_peer_disconnect(&ConnectionError::Io(failure)),
            "{failure:?}"
        );
    }
    for error in [
        ConnectionError::Io(IoFailure::Other),
        ConnectionError::Generic("stringified".to_string()),
    ] {
        assert!(!connection_error_is_peer_disconnect(&error), "{error:?}");
    }
}

#[test]
fn receive_timeout_failure_drops_the_connection() {
    assert!(apply_control_receive_timeout(&Ok(())).0);
    for failure in [IoFailure::InvalidInput, IoFailure::Other] {
        assert!(
            !apply_control_receive_timeout(&Err(ConnectionError::Io(failure))).0,
            "{failure:?}"
        );
    }
}

#[test]
fn deferral_for_checkpoints_is_bounded() {
    assert!(!should_defer_restart_for_checkpoints(0, 0));
    assert!(should_defer_restart_for_checkpoints(1, 0));
    assert!(should_defer_restart_for_checkpoints(1, SOCKET_HEALTH_MAX_CONSECUTIVE_DEFERRALS - 1));
    assert!(!should_defer_restart_for_checkpoints(1, SOCKET_HEALTH_MAX_CONSECUTIVE_DEFERRALS));
}

#[test]
fn request_shutdown_is_idempotent_and_consistent() {
    let mut lifecycle = Lifecycle::new();
    let mut gate = CheckpointGate::new();
    assert!(!lifecycle.shutting_down);
    lifecycle.request_shutdown(&mut gate);
    assert!(lifecycle.shutting_down);
    let (once, shut) = (lifecycle, gate);
    lifecycle.request_shutdown(&mut gate);
    assert_eq!((lifecycle, gate), (once, shut));
    assert!(!gate.accepting);
}

#[test]
fn a_checkpoint_without_files_is_not_admitted() {
    let request = CheckpointRequest {
        trace_id: "t".to_string(),
        checkpoint_kind: CheckpointKind::Human,
        path_role: PreparedPathRole::Edited,
        agent_tool: None,
        files: vec![],
    };
    let error = admission_work_dir(Ok(request)).unwrap_err();
    assert_eq!(error.message(), "accepted checkpoint contains no files");
    let error = admission_work_dir(Err("bad".to_string())).unwrap_err();
    assert_eq!(error.message(), "invalid accepted checkpoint body: bad");
}
