//! Frames as text, times, command lines, and what is left to settle.
use git_ai_daemon::checkpoint::{CheckpointKind, CheckpointRequest, PreparedPathRole};
use git_ai_daemon::coordinator::{
    ActorDaemonCoordinator, AdmissionOutcome, PreparedCheckpointAdmission,
};
use git_ai_daemon::drain_schedule::{
    drained_all, drains_after_root_cleared, DrainAction, DrainEvent, ScheduledDrains,
};
use git_ai_daemon::effects::{
    ReplayPrerequisites, MAX_RECENT_REPLAY_PREREQUISITES_PER_FAMILY,
};
use git_ai_daemon::event_effects::RecentReplayPrerequisite;
use git_ai_daemon::fence::{root_fence_probe, RootObservation, WaitClock};
use git_ai_daemon::frames::{read_trace_line, take_trace_line, trace_payload_from, FrameValue};
use git_ai_daemon::ingest::{trace_line_verdict, trace_payload_is_root_final_frame, LineVerdict};
use git_ai_daemon::ingress::{FenceScope, TraceIngressState};
use git_ai_daemon::keyed::KeyMap;
use git_ai_daemon::lifecycle::DrainProbes;
use git_ai_daemon::paths::RepoPath;
use git_ai_daemon::repo_state::FileSnapshot;
use git_ai_daemon::sequencer::{FamilyFrontDisposition, FamilySequencers};
use git_ai_daemon::settle::{
    ingest_wait, settle, IngestWaitAction, IngestWaitEvent, SettleAction, SettleEvent,
    SettlePhase, Settling,
};
use git_ai_daemon::text::{
    comes_before, contains_text, decimal, ends_with, eq_ignore_ascii_case, read_unsigned,
    sort_strings, split, split_once, starts_with, strip_prefix, trim, words,
};
use git_ai_daemon::trace::{
    is_trace_payload, matches_any_pathspec, rfc3339_to_unix_nanos, trace_argv_primary_command,
    trace_command_uses_target_repo_context_only, trace_invocation_args,
    trace_invocation_command_args, trace_payload_command_base_dir, trace_payload_primary_command,
    trace_payload_time_ns, trace_payload_worktree_hint, trace_root_sid, ParsedGitInvocation,
    SeqField, TextField,
};

fn strings(list: &[&str]) -> Vec<String> {
    list.iter().map(|s| s.to_string()).collect()
}

fn parsed(global: &[&str], command: Option<&str>, args: &[&str]) -> ParsedGitInvocation {
    ParsedGitInvocation {
        global_args: strings(global),
        command: command.map(|c| c.to_string()),
        command_args: strings(args),
    }
}

#[test]
fn a_frame_is_what_its_members_say() {
    let line = "  {\"event\":\"start\",\"sid\":\"s\",\"argv\":[\"git\",1,\"commit\"],\
                \"worktree\":5,\"repo\":\"/r/.git\",\"cwd\":\"/c\",\"time_ns\":7,\"ts\":-1,\
                \"name\":null,\"git_ai_ingest_seq\":9,\
                \"git_ai_root_reflog_start_offsets\":{\"a\":3,\"b\":\"x\"}}\n";
    let payload = read_trace_line(line, Some(11)).unwrap();
    assert!(is_trace_payload(&payload));
    assert_eq!(payload.event.as_deref(), Some("start"));
    assert_eq!(payload.argv, strings(&["git", "commit"]));
    assert!(matches!(payload.worktree, TextField::NotText));
    assert_eq!(payload.repo.as_deref(), Some("/r/.git"));
    assert!(!payload.secondary_repo);
    assert_eq!(payload.cwd.as_deref(), Some("/c"));
    assert_eq!(payload.time_ns, Some(7));
    assert_eq!(payload.ts, None);
    assert_eq!(payload.name, None);
    assert_eq!(payload.abs_ns, Some(11));
    assert_eq!(payload.ingest_seq, SeqField::Number(9));
    assert_eq!(payload.reflog_start_offsets, Some(vec![("a".to_string(), 3)]));
    assert_eq!(payload.raw, line.trim());
}

#[test]
fn lines_that_are_no_frames_give_nothing() {
    for line in ["", "   ", "not json", "[1,2]", "17", "{\"event\":\"start\""] {
        assert!(read_trace_line(line, None).is_none(), "{line}");
    }
    assert_eq!(trace_line_verdict("{\"event\":\"data\"}"), LineVerdict::Skip);
    assert_eq!(trace_line_verdict("{\"event\":\"start\"}"), LineVerdict::Parse);
    assert_eq!(trace_line_verdict("anything"), LineVerdict::Parse);
}

#[test]
fn a_frame_without_members_holds_nothing() {
    let payload = trace_payload_from(&vec![], String::new(), None);
    assert!(!is_trace_payload(&payload));
    assert!(payload.argv.is_empty());
    assert!(matches!(payload.worktree, TextField::Absent));
    let members = vec![
        ("event".to_string(), FrameValue::Text("a".to_string())),
        ("event".to_string(), FrameValue::Text("b".to_string())),
    ];
    let payload = trace_payload_from(&members, String::new(), None);
    assert_eq!(payload.event.as_deref(), Some("a"));
}

#[test]
fn times_are_read_in_their_order() {
    let time = |line: &str, abs| trace_payload_time_ns(&read_trace_line(line, abs).unwrap());
    assert_eq!(
        time(r#"{"event":"start","time":"1970-01-01T00:00:01.5Z","time_ns":3}"#, None),
        Some(1_500_000_000)
    );
    assert_eq!(time(r#"{"event":"start","time":"soon","time_ns":3,"ts":4}"#, None), Some(3));
    assert_eq!(time(r#"{"event":"start","ts":4}"#, Some(5)), Some(4));
    assert_eq!(time(r#"{"event":"start"}"#, Some(5)), Some(5));
    assert_eq!(time(r#"{"event":"start"}"#, None), None);
    assert_eq!(rfc3339_to_unix_nanos("1970-01-01T01:00:00+01:00"), Some(0));
    assert_eq!(rfc3339_to_unix_nanos("1969-12-31T23:59:59Z"), None);
    assert_eq!(rfc3339_to_unix_nanos("2026-04-11"), None);
}

#[test]
fn command_lines_are_taken_apart() {
    assert_eq!(
        trace_argv_primary_command(&strings(&["git", "-C", "/x", "--no-pager", "commit", "-m"]))
            .as_deref(),
        Some("commit")
    );
    assert_eq!(trace_argv_primary_command(&strings(&["git"])), None);
    assert_eq!(trace_invocation_args(&strings(&["git", "status"])), strings(&["status"]));
    assert_eq!(
        trace_invocation_command_args(
            &Some("commit".to_string()),
            &strings(&["git", "commit", "-m", "x"]),
            &parsed(&[], Some("commit"), &["-m", "x"]),
        ),
        strings(&["-m", "x"])
    );
    let named = read_trace_line(r#"{"event":"cmd_name","name":"rebase","argv":["git","x"]}"#, None);
    assert_eq!(trace_payload_primary_command(&named.unwrap()).as_deref(), Some("rebase"));
    assert!(trace_command_uses_target_repo_context_only(&Some("clone".to_string())));
    assert!(!trace_command_uses_target_repo_context_only(&Some("commit".to_string())));
    assert_eq!(trace_root_sid("a/b/c"), "a");
}

#[test]
fn a_command_runs_where_it_was_told_to() {
    let cwd = RepoPath::parse("/home/me");
    let at = |global: &[&str]| trace_payload_command_base_dir(&parsed(global, None, &[]), &cwd);
    assert_eq!(at(&[]), Some(RepoPath::parse("/home/me")));
    assert_eq!(at(&["-C", "work"]), Some(RepoPath::parse("/home/me/work")));
    assert_eq!(at(&["-C", "/abs"]), Some(RepoPath::parse("/abs")));
    let payload = read_trace_line(r#"{"event":"start","argv":["git","-C","/abs","log"]}"#, None);
    let hint = trace_payload_worktree_hint(
        &payload.unwrap(),
        &parsed(&["-C", "/abs"], Some("log"), &[]),
        &FileSnapshot::new(),
    );
    assert_eq!(hint, Some(RepoPath::parse("/abs")));
}

#[test]
fn the_last_frame_of_a_root() {
    let last = |line: &str| {
        trace_payload_is_root_final_frame(&read_trace_line(line, None).unwrap())
    };
    assert!(last(r#"{"event":"atexit","sid":"r"}"#));
    assert!(!last(r#"{"event":"atexit","sid":"r/c"}"#));
    assert!(!last(r#"{"event":"exit","sid":"r"}"#));
}

#[test]
fn paths_match_a_pathspec_by_component() {
    assert!(matches_any_pathspec("src/a.rs", &strings(&["src"])));
    assert!(matches_any_pathspec("src/a.rs", &strings(&["src/"])));
    assert!(matches_any_pathspec("src", &strings(&["src"])));
    assert!(!matches_any_pathspec("srcs/a.rs", &strings(&["src"])));
}

#[test]
fn everything_is_looked_at_for_a_report() {
    let mut state = TraceIngressState::new();
    state.trace_root_connection_opened("20260411T120000.000000-Hx-P10");
    let record = state.roots.get("20260411T120000.000000-Hx-P10").unwrap();
    let mut probe =
        root_fence_probe("20260411T120000.000000-Hx-P10", record, &WaitClock::Fixed(0));
    let seen = RootObservation { moves_head: true, reflog_grew: None, alive: true };
    probe.observe(1_000, &seen);
    assert_eq!(probe.alive, None, "not within the grace");
    probe.observe_all(&seen);
    assert_eq!(probe.alive, Some(true));
    assert_eq!(probe.pid, Some(16));
}

#[test]
fn one_drain_at_a_time_for_a_family() {
    let mut drains = ScheduledDrains::new();
    assert!(drains.schedule_family_drain("f"));
    assert!(!drains.schedule_family_drain("f"));
    assert_eq!(drains.step("f", DrainEvent::Go), DrainAction::Pass);
    let passed = |held, front| DrainEvent::Passed { held, front };
    assert_eq!(
        drains.step("f", passed(Some(9), FamilyFrontDisposition::Idle)),
        DrainAction::Wait { ns: 9 }
    );
    assert_eq!(
        drains.step("f", passed(None, FamilyFrontDisposition::Ready)),
        DrainAction::Pass
    );
    assert_eq!(
        drains.step("f", passed(None, FamilyFrontDisposition::Fenced { retry_in_ns: 4 })),
        DrainAction::Wait { ns: 4 }
    );
    assert!(!drains.schedule_family_drain("f"));
    assert_eq!(drains.step("f", passed(None, FamilyFrontDisposition::Idle)), DrainAction::End);
    assert!(drains.schedule_family_drain("f"));
    assert_eq!(drains.step("f", DrainEvent::Failed), DrainAction::End);
    assert!(drains.schedule_family_drain("f"));
    assert_eq!(drains.step("f", DrainEvent::ShutDown), DrainAction::End);
}

#[test]
fn cleared_roots_drain_what_they_fenced() {
    let sequencers = FamilySequencers::new();
    assert!(drains_after_root_cleared(None, &sequencers).is_empty());
    let family = Some(FenceScope::Family("f".to_string()));
    assert_eq!(drains_after_root_cleared(family, &sequencers), strings(&["f"]));
    assert!(drains_after_root_cleared(Some(FenceScope::EveryFamily), &sequencers).is_empty());
    let all = drained_all(&vec![
        ("a".to_string(), Ok(Some(3))),
        ("b".to_string(), Err("first".to_string())),
        ("c".to_string(), Ok(None)),
        ("d".to_string(), Err("second".to_string())),
    ]);
    assert_eq!(all.again, strings(&["a"]));
    assert_eq!(all.error.as_deref(), Some("first"));
}

#[test]
fn a_wait_for_the_trace_looks_until_nothing_holds() {
    assert_eq!(
        ingest_wait(IngestWaitEvent::Go { next_seq: 4 }, false),
        IngestWaitAction::WaitForFrames { target: 4 }
    );
    let behind = IngestWaitEvent::Frames { processed_seq: 3, target: 4 };
    assert_eq!(ingest_wait(behind, false), IngestWaitAction::WaitForFrames { target: 4 });
    assert_eq!(ingest_wait(behind, true), IngestWaitAction::Look);
    let done = IngestWaitEvent::Frames { processed_seq: 4, target: 4 };
    assert_eq!(ingest_wait(done, false), IngestWaitAction::Look);
    assert_eq!(
        ingest_wait(IngestWaitEvent::Looked { held: Some(7) }, false),
        IngestWaitAction::Pause { ns: 7 }
    );
    assert_eq!(
        ingest_wait(IngestWaitEvent::Looked { held: Some(7) }, true),
        IngestWaitAction::Finish
    );
    assert_eq!(
        ingest_wait(IngestWaitEvent::Looked { held: None }, false),
        IngestWaitAction::Finish
    );
    assert_eq!(ingest_wait(IngestWaitEvent::ShutDown, false), IngestWaitAction::Finish);
}

#[test]
fn accepted_checkpoints_are_waited_for() {
    let mut phase = SettlePhase::Admission;
    let mut step = |event| {
        let (next, action) = settle(Settling::Checkpoints, phase, event);
        phase = next;
        action
    };
    assert!(matches!(
        step(SettleEvent::Begin { accepted: 3 }),
        SettleAction::WaitForAdmission { target: 3 }
    ));
    assert!(matches!(step(SettleEvent::Waited), SettleAction::WaitForUnadmitted));
    assert!(matches!(step(SettleEvent::Waited), SettleAction::WaitForTrace));
    assert!(matches!(step(SettleEvent::Waited), SettleAction::DrainFamilies));
    assert!(matches!(
        step(SettleEvent::Drained { result: Ok(()), settled: false }),
        SettleAction::Sleep { ns: 50_000_000 }
    ));
    assert!(matches!(
        step(SettleEvent::Paused { accepted: 4 }),
        SettleAction::WaitForAdmission { target: 4 }
    ));
    step(SettleEvent::Waited);
    step(SettleEvent::Waited);
    step(SettleEvent::Waited);
    assert!(matches!(
        step(SettleEvent::Drained { result: Ok(()), settled: true }),
        SettleAction::Finish(Ok(()))
    ));
    assert!(matches!(step(SettleEvent::Waited), SettleAction::Ignore));
}

#[test]
fn a_family_is_waited_for() {
    let mut phase = SettlePhase::Unadmitted;
    let mut step = |event| {
        let (next, action) = settle(Settling::Family, phase, event);
        phase = next;
        action
    };
    assert!(matches!(step(SettleEvent::Waited), SettleAction::ResolveFamily));
    assert!(matches!(step(SettleEvent::Resolved(Ok(()))), SettleAction::WaitForTrace));
    assert!(matches!(step(SettleEvent::Waited), SettleAction::WaitForUnadmitted));
    assert!(matches!(step(SettleEvent::Waited), SettleAction::DrainFamilies));
    assert!(matches!(
        step(SettleEvent::Drained { result: Ok(()), settled: false }),
        SettleAction::Sleep { ns: 25_000_000 }
    ));
    assert!(matches!(
        step(SettleEvent::Paused { accepted: 9 }),
        SettleAction::WaitForUnadmitted
    ));
    step(SettleEvent::Waited);
    match step(SettleEvent::Drained { result: Err("bad".to_string()), settled: true }) {
        SettleAction::Finish(Err(error)) => assert_eq!(error, "bad"),
        other => panic!("{other:?}"),
    }
    let (phase, action) = settle(
        Settling::Family,
        SettlePhase::Resolving,
        SettleEvent::Resolved(Err("none".to_string())),
    );
    assert_eq!(phase, SettlePhase::Done);
    assert!(matches!(action, SettleAction::Finish(Err(_))));
}

#[test]
fn admissions_end_one_way_or_another() {
    let mut coord = ActorDaemonCoordinator::new();
    let request = || CheckpointRequest {
        trace_id: "t".to_string(),
        checkpoint_kind: CheckpointKind::Human,
        path_role: PreparedPathRole::Edited,
        agent_tool: None,
        files: vec![],
    };
    let first = coord.gate.accept().unwrap();
    let second = coord.gate.accept().unwrap();
    let third = coord.gate.accept().unwrap();
    let rooms: Vec<_> = (0..3).map(|_| coord.quota.reserve(5).unwrap()).collect();
    let mut rooms = rooms.into_iter();
    let prepared = PreparedCheckpointAdmission {
        receipt_seq: first,
        received_at_ns: 1,
        family: "f".to_string(),
        request: request(),
        reservation: rooms.next().unwrap(),
    };
    let settled = coord.settle_admission(AdmissionOutcome::Prepared(prepared), 2);
    assert!(!settled.drain_all && !settled.shut_down);
    let failed =
        AdmissionOutcome::Failed { receipt_seq: second, reservation: rooms.next().unwrap() };
    let settled = coord.settle_admission(failed, 3);
    assert!(!settled.drain_all && !settled.shut_down);
    assert_eq!(coord.quota.outstanding(), (2, 10));
    let broken =
        AdmissionOutcome::Panicked { receipt_seq: third, reservation: rooms.next().unwrap() };
    let settled = coord.settle_admission(broken, 4);
    assert!(settled.drain_all && settled.shut_down);
    assert_eq!(coord.quota.outstanding(), (1, 5));
    assert!(coord.gate.admitted_through(third));
}

#[test]
fn only_so_many_prerequisites_are_kept() {
    let mut kept = ReplayPrerequisites::new();
    for i in 0..(MAX_RECENT_REPLAY_PREREQUISITES_PER_FAMILY + 2) {
        kept.record_recent_replay_prerequisite(
            "f",
            RecentReplayPrerequisite::CheckoutSwitchRename {
                target_head: format!("t{i}"),
                old_head: "o".to_string(),
            },
        );
    }
    let list = kept.by_family.get("f").unwrap();
    assert_eq!(list.len(), MAX_RECENT_REPLAY_PREREQUISITES_PER_FAMILY);
    let RecentReplayPrerequisite::CheckoutSwitchRename { target_head, .. } = &list[0];
    assert_eq!(target_head, "t2");
}

#[test]
fn keys_hold_one_value_each() {
    let mut map: KeyMap<u32> = KeyMap::new();
    map.insert("b".to_string(), 1);
    map.insert("a".to_string(), 2);
    map.insert("b".to_string(), 3);
    assert_eq!(map.len(), 2);
    assert_eq!(map.get("b"), Some(&3));
    assert_eq!(map.remove("b"), Some(3));
    assert_eq!(map.remove("b"), None);
    map.remove_all(&strings(&["a", "z"]));
    assert!(map.is_empty());
}

#[test]
fn texts_are_cut_compared_and_counted() {
    assert_eq!(trim("\t a b \n"), "a b");
    assert_eq!(split("a,b,,c", ','), strings(&["a", "b", "", "c"]));
    assert_eq!(words("  a  b\tc\n"), strings(&["a", "b", "c"]));
    assert_eq!(strip_prefix("--x", "--").as_deref(), Some("x"));
    assert_eq!(strip_prefix("x", "--"), None);
    assert!(starts_with("abc", "ab") && ends_with("abc", "bc"));
    assert!(contains_text("abcd", "bc") && !contains_text("abcd", "cb"));
    assert_eq!(
        split_once("a..b..c", ".."),
        Some(("a".to_string(), "b..c".to_string()))
    );
    assert_eq!(split_once("ab", ".."), None);
    assert_eq!(read_unsigned("ff", 16, 255), Some(255));
    assert_eq!(read_unsigned("100", 16, 255), None);
    assert_eq!(read_unsigned("", 10, 255), None);
    assert_eq!(read_unsigned("+7", 10, 255), Some(7));
    assert!(eq_ignore_ascii_case("TRUE", "true"));
    assert!(comes_before("a", "b") && !comes_before("b", "a") && !comes_before("a", "a"));
    assert_eq!(sort_strings(&strings(&["b", "a", "c"])), strings(&["a", "b", "c"]));
    assert_eq!(decimal(0), "0");
    assert_eq!(decimal(18_446_744_073_709_551_615), "18446744073709551615");
}

#[test]
fn a_connection_is_known_by_the_roots_that_it_names() {
    let mut ingress = TraceIngressState::new();
    let mut probes = DrainProbes::new();
    let mut observed: Vec<String> = vec![];
    ingress.trace_unidentified_connection_opened();
    let mut take = |ingress: &mut TraceIngressState, line: &str| {
        take_trace_line(ingress, &mut probes, &mut observed, line, None)
    };
    assert!(take(&mut ingress, r#"{"event":"data","sid":"r"}"#).is_none());
    assert!(take(&mut ingress, r#"{"sid":"r","event":"data"}"#).is_none());
    assert!(take(&mut ingress, "no frame").is_none());
    assert_eq!(ingress.unidentified_open_connections, 1);
    let frame = take(&mut ingress, r#"{"event":"start","sid":"r/child"}"#).unwrap();
    assert_eq!(frame.sid.as_deref(), Some("r/child"));
    assert_eq!(ingress.unidentified_open_connections, 0);
    assert!(take(&mut ingress, r#"{"event":"exit","sid":"r"}"#).is_some());
    assert!(take(&mut ingress, r#"{"event":"exit"}"#).is_some());
    assert_eq!(observed, strings(&["r"]));
    assert_eq!(ingress.roots.get("r").unwrap().open_connections, Some(1));
}

#[test]
fn probes_are_noted_and_not_worked_off() {
    let mut ingress = TraceIngressState::new();
    let mut probes = DrainProbes::new();
    let mut observed: Vec<String> = vec![];
    let id = probes.issue_trace_drain_probe_id();
    let forged = r#"{"event":"git_ai_drain_probe","git_ai_probe_id":99}"#;
    assert!(take_trace_line(&mut ingress, &mut probes, &mut observed, forged, None).is_none());
    assert_eq!(probes.observed, 0);
    let real_line = format!("{{\"event\":\"git_ai_drain_probe\",\"git_ai_probe_id\":{id}}}");
    assert!(take_trace_line(&mut ingress, &mut probes, &mut observed, &real_line, None).is_none());
    assert_eq!(probes.observed, id);
    assert!(observed.is_empty());
}

#[test]
fn a_last_frame_clears_its_root_even_where_it_failed() {
    let mut daemon = ActorDaemonCoordinator::new();
    let root = Some("r".to_string());
    daemon.ingress.trace_root_connection_opened("r");
    daemon.queue.next_seq = 2;
    daemon.queue.queued = 2;
    assert!(daemon.finish_frame(&root, 1, false, true).is_none());
    assert!(daemon.ingress.roots.contains("r"), "not its last");
    assert_eq!((daemon.queue.queued, daemon.queue.processed_seq), (1, 1));
    let fenced = daemon.finish_frame(&root, 2, true, true);
    assert_eq!(fenced, Some(FenceScope::EveryFamily));
    assert!(!daemon.ingress.open_root_may_mutate_family("r", &None));
    assert_eq!((daemon.queue.queued, daemon.queue.processed_seq), (0, 2));
}
