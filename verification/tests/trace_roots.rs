//! Roots of git's trace: what is queued, what fences a family, and for how long.
use git_ai_daemon::commands::{NormalizedCommand, RefChange};
use git_ai_daemon::coordinator::ActorDaemonCoordinator;
use git_ai_daemon::fence::{
    apply_fence, await_query, entry_query, fence_probes, scope_query, FenceQuery, RootObservation,
    FAMILY_CAUSAL_FENCE_HARD_CAP_MULTIPLIER, FAMILY_CAUSAL_GRACE_NS,
    FAMILY_WRITTEN_ROOT_FENCE_CAP_MULTIPLIER,
};
use git_ai_daemon::frames::read_trace_line;
use git_ai_daemon::ingest::{
    close_marker, finalize_trace_connection_roots, frame_step, observe_frame_root, root_to_clear,
    trace_frame_use, trace_payload_root_sid, Emitted, EnqueueError, FrameStep, FrameUse, QueueRoom,
    ReorderBuffer, ReorderError, TraceQueue, TRACE_INGEST_QUEUE_CAPACITY,
};
use git_ai_daemon::ingress::{FenceScope, FrameFacts, TraceIngressState};
use git_ai_daemon::paths::RepoPath;
use git_ai_daemon::repo_state::FileSnapshot;
use git_ai_daemon::sequencer::{FamilyFrontDisposition, FamilySequencerEntry};
use git_ai_daemon::settle::{ingest_wait, IngestWaitAction, IngestWaitEvent};
use git_ai_daemon::trace::{
    trace_payload_worktree_hint, ParsedGitInvocation, SeqField, TracePayload,
    TRACE_CONNECTION_CLOSED_EVENT,
};

const NOW: u128 = 1_800_000_000_000_000_000;
const MS: u128 = 1_000_000;
const GRACE: u64 = FAMILY_CAUSAL_GRACE_NS;

fn strings(list: &[&str]) -> Vec<String> {
    list.iter().map(|s| s.to_string()).collect()
}

fn frame(text: &str) -> TracePayload {
    read_trace_line(text, None).expect("a frame of use")
}

fn start_frame(sid: &str, argv: &[&str], more: &str) -> TracePayload {
    let argv: Vec<String> = argv.iter().map(|arg| format!("\"{arg}\"")).collect();
    frame(&format!(
        "{{\"event\":\"start\",\"sid\":\"{sid}\",\"argv\":[{}]{more}}}",
        argv.join(",")
    ))
}

fn make_start_payload(argv: &[&str]) -> TracePayload {
    start_frame("20260411T120000.000000-Psid1", argv, "")
}

fn make_atexit_payload(sid: &str) -> TracePayload {
    frame(&format!("{{\"event\":\"atexit\",\"sid\":\"{sid}\",\"code\":0}}"))
}

fn read_only() -> FrameFacts {
    FrameFacts { definitely_read_only: true, may_mutate_refs: false, resolved_family: None }
}

fn mutating(family: Option<&str>) -> FrameFacts {
    FrameFacts {
        definitely_read_only: false,
        may_mutate_refs: true,
        resolved_family: family.map(|f| f.to_string()),
    }
}

fn no_invocation() -> ParsedGitInvocation {
    ParsedGitInvocation { global_args: vec![], command: None, command_args: vec![] }
}

/// Takes a frame in; says whether it is queued.
fn prepare(
    state: &mut TraceIngressState,
    payload: &mut TracePayload,
    facts: &FrameFacts,
    captured: Option<Vec<(String, u64)>>,
    now_ns: u128,
) -> bool {
    let hint = trace_payload_worktree_hint(payload, &no_invocation(), &FileSnapshot::new());
    match state.track_trace_payload_for_ingest(payload, &hint, facts, now_ns) {
        Some(taken) => !state.finish_tracked_frame(taken, payload, captured),
        None => true,
    }
}

fn test_rebase_command(invoked_args: &[&str], ref_changes: Vec<RefChange>) -> NormalizedCommand {
    NormalizedCommand {
        family_key: Some("/repo/.git".to_string()),
        worktree: Some("/repo".to_string()),
        root_sid: "rebase-test".to_string(),
        raw_argv: std::iter::once("git")
            .chain(std::iter::once("rebase"))
            .chain(invoked_args.iter().copied())
            .map(str::to_string)
            .collect(),
        primary_command: Some("rebase".to_string()),
        invoked_command: Some("rebase".to_string()),
        invoked_args: strings(invoked_args),
        exit_code: 0,
        started_at_ns: 1,
        finished_at_ns: 2,
        stash_target_oid: None,
        cherry_pick_source_oids: vec![],
        revert_source_oids: vec![],
        ref_changes,
    }
}

fn append_ready_rebase(coord: &mut ActorDaemonCoordinator, family: &str, now_ns: u128) {
    coord.sequencers.append_family_sequencer_entry(
        family,
        now_ns,
        now_ns,
        FamilySequencerEntry::ReadyCommand(test_rebase_command(&[], vec![])),
    );
}

/// How long a fence holds, with what is seen of every root.
fn held(
    coord: &mut ActorDaemonCoordinator,
    grace_ns: u64,
    query: &FenceQuery,
    seen: RootObservation,
    now_ns: u128,
) -> Option<u128> {
    let mut probes = fence_probes(&coord.ingress, query);
    for probe in probes.iter_mut() {
        probe.observe(grace_ns, &seen);
    }
    apply_fence(
        &mut coord.ingress,
        &mut coord.fence_counters,
        grace_ns,
        &probes,
        now_ns,
        "test",
    )
    .held
}

fn disposition(
    coord: &mut ActorDaemonCoordinator,
    grace_ns: u64,
    family: &str,
    seen: RootObservation,
    now_ns: u128,
) -> FamilyFrontDisposition {
    let hold = match coord.sequencers.entry_facts(family, 0, now_ns) {
        Some(facts) => {
            let query =
                entry_query(family, facts.started_at_ns, facts.root_sid, facts.waited_ns);
            held(coord, grace_ns, &query, seen, now_ns)
        }
        None => None,
    };
    coord.sequencers.family_front_entry_disposition(family, coord.gate.unadmitted, hold)
}

fn is_fenced(disposition: FamilyFrontDisposition) -> bool {
    matches!(disposition, FamilyFrontDisposition::Fenced { .. })
}

fn alive() -> RootObservation {
    RootObservation { moves_head: true, reflog_grew: None, alive: true }
}

fn dead() -> RootObservation {
    RootObservation { moves_head: true, reflog_grew: None, alive: false }
}

fn reflog(grew: bool) -> RootObservation {
    RootObservation { moves_head: true, reflog_grew: Some(grew), alive: true }
}

fn alive_root_sid(tag: &str) -> String {
    format!("20260411T120000.000000-H{tag}-P{:x}", 4242)
}

fn open_unattributed_commit_root(coord: &mut ActorDaemonCoordinator, sid: &str, now_ns: u128) {
    coord.ingress.trace_root_connection_opened(sid);
    let mut start = start_frame(sid, &["git", "commit", "-m", "blocked"], ",\"time_ns\":1");
    assert!(prepare(&mut coord.ingress, &mut start, &mutating(None), None, now_ns));
}

fn read_root_atexit(coord: &mut ActorDaemonCoordinator, sid: &str, now_ns: u128) {
    let mut atexit = frame(&format!(
        "{{\"event\":\"atexit\",\"sid\":\"{sid}\",\"code\":0,\"time_ns\":2}}"
    ));
    assert!(prepare(&mut coord.ingress, &mut atexit, &mutating(None), None, now_ns));
}

fn open_attributed_root(
    coord: &mut ActorDaemonCoordinator,
    sid: &str,
    family: &str,
    argv: &[&str],
    now_ns: u128,
) {
    coord.ingress.trace_root_connection_opened(sid);
    let mut start = start_frame(
        sid,
        argv,
        &format!(",\"worktree\":\"/repo\",\"time_ns\":{now_ns}"),
    );
    assert!(prepare(
        &mut coord.ingress,
        &mut start,
        &mutating(Some(family)),
        Some(vec![("worktree:/repo/.git:HEAD".to_string(), 100)]),
        now_ns,
    ));
}

/// A wait for the ingest: whether it may end.
fn wait_is_over(
    coord: &mut ActorDaemonCoordinator,
    grace_ns: u64,
    family: Option<&str>,
    waited_ns: u128,
    seen: RootObservation,
) -> bool {
    let shutting_down = coord.lifecycle.shutting_down;
    let mut event = IngestWaitEvent::Go { next_seq: coord.queue.next_seq };
    let mut looked_at_frames = false;
    loop {
        event = match ingest_wait(event, shutting_down) {
            IngestWaitAction::WaitForFrames { target } => {
                if looked_at_frames {
                    return false;
                }
                looked_at_frames = true;
                IngestWaitEvent::Frames { processed_seq: coord.queue.processed_seq, target }
            }
            IngestWaitAction::Look => {
                let query = scope_query(family.map(|f| f.to_string()), NOW, waited_ns);
                let held = held(coord, grace_ns, &query, seen, NOW + waited_ns);
                IngestWaitEvent::Looked { held }
            }
            IngestWaitAction::Pause { .. } => return false,
            IngestWaitAction::Finish => return true,
        };
    }
}

#[test]
fn readonly_start_event_is_not_enqueued() {
    let mut coord = ActorDaemonCoordinator::new();
    let mut payload = make_start_payload(&["git", "status", "--short"]);
    assert!(!prepare(&mut coord.ingress, &mut payload, &read_only(), None, NOW));
    assert_eq!(coord.queue.queued, 0);
    assert_eq!(payload.ingest_seq, SeqField::Absent);
}

#[test]
fn stash_list_start_event_is_not_enqueued() {
    let mut coord = ActorDaemonCoordinator::new();
    let mut payload = make_start_payload(&[
        "git",
        "-c",
        "core.fsmonitor=false",
        "--no-pager",
        "stash",
        "list",
        "--pretty=format:%gd%x00%H%x00%ct%x00%s",
    ]);
    assert!(!prepare(&mut coord.ingress, &mut payload, &read_only(), None, NOW));
    assert_eq!(payload.ingest_seq, SeqField::Absent);
}

#[test]
fn worktree_list_start_event_is_not_enqueued() {
    let mut coord = ActorDaemonCoordinator::new();
    let mut payload = make_start_payload(&[
        "git",
        "--no-pager",
        "--no-optional-locks",
        "worktree",
        "list",
        "--porcelain",
    ]);
    assert!(!prepare(&mut coord.ingress, &mut payload, &read_only(), None, NOW));
    assert_eq!(payload.ingest_seq, SeqField::Absent);
}

#[test]
fn branch_show_current_start_event_is_not_enqueued() {
    let mut coord = ActorDaemonCoordinator::new();
    let mut payload = make_start_payload(&["git", "branch", "--show-current"]);
    assert!(!prepare(&mut coord.ingress, &mut payload, &read_only(), None, NOW));
    assert_eq!(payload.ingest_seq, SeqField::Absent);
}

#[test]
fn diff_numstat_start_event_is_not_enqueued() {
    let mut coord = ActorDaemonCoordinator::new();
    let mut payload = make_start_payload(&[
        "git",
        "-c",
        "core.fsmonitor=false",
        "--no-pager",
        "diff",
        "--numstat",
        "--no-renames",
        "HEAD",
    ]);
    assert!(!prepare(&mut coord.ingress, &mut payload, &read_only(), None, NOW));
}

#[test]
fn for_each_ref_start_event_is_not_enqueued() {
    let mut coord = ActorDaemonCoordinator::new();
    let mut payload = make_start_payload(&[
        "git",
        "--no-pager",
        "for-each-ref",
        "refs/heads/**/*",
        "refs/remotes/**/*",
        "--format",
        "%(HEAD)%00%(objectname)",
    ]);
    assert!(!prepare(&mut coord.ingress, &mut payload, &read_only(), None, NOW));
}

#[test]
fn cat_file_start_event_is_not_enqueued() {
    let mut coord = ActorDaemonCoordinator::new();
    let mut payload = make_start_payload(&[
        "git",
        "--no-optional-locks",
        "cat-file",
        "--batch-check=%(objectname)",
    ]);
    assert!(!prepare(&mut coord.ingress, &mut payload, &read_only(), None, NOW));
}

#[test]
fn show_commit_start_event_is_not_enqueued() {
    let mut coord = ActorDaemonCoordinator::new();
    let mut payload = make_start_payload(&[
        "git",
        "--no-optional-locks",
        "show",
        "--no-patch",
        "--format=%H%x00%B%x00%at",
        "07270e1489439d6b36fcb2a4198d2fb68e37727c",
    ]);
    assert!(!prepare(&mut coord.ingress, &mut payload, &read_only(), None, NOW));
}

#[test]
fn mutating_commit_start_event_is_enqueued() {
    let mut coord = ActorDaemonCoordinator::new();
    let mut payload = make_start_payload(&["git", "commit", "-m", "test commit"]);
    assert!(prepare(&mut coord.ingress, &mut payload, &mutating(None), None, NOW));
    assert_eq!(payload.ingest_seq, SeqField::Absent);
    assert_eq!(coord.queue.next_seq, 0);
    coord
        .queue
        .enqueue_trace_payload(&mut payload, QueueRoom::Room)
        .expect("mutating event should enqueue");
    assert_eq!(coord.queue.next_seq, 1);
    assert_eq!(payload.ingest_seq, SeqField::Number(1));
}

#[test]
fn mutating_stash_pop_start_event_is_enqueued() {
    let mut coord = ActorDaemonCoordinator::new();
    let mut payload = make_start_payload(&["git", "stash", "pop"]);
    assert!(prepare(&mut coord.ingress, &mut payload, &mutating(None), None, NOW));
}

#[test]
fn mutating_worktree_add_start_event_is_enqueued() {
    let mut coord = ActorDaemonCoordinator::new();
    let mut payload = make_start_payload(&["git", "worktree", "add", "/tmp/branch", "branch"]);
    assert!(prepare(&mut coord.ingress, &mut payload, &mutating(None), None, NOW));
}

#[test]
fn readonly_atexit_event_is_not_enqueued_after_readonly_start() {
    let mut coord = ActorDaemonCoordinator::new();
    let sid = "20260411T120000.000000-Psid1";
    let mut start = start_frame(sid, &["git", "status"], "");
    prepare(&mut coord.ingress, &mut start, &read_only(), None, NOW);
    let mut atexit = make_atexit_payload(sid);
    let silent =
        FrameFacts { definitely_read_only: false, may_mutate_refs: false, resolved_family: None };
    assert!(!prepare(&mut coord.ingress, &mut atexit, &silent, None, NOW));
}

#[test]
fn readonly_flood_1000_events_processed_in_under_200ms() {
    let mut coord = ActorDaemonCoordinator::new();
    let begun = std::time::Instant::now();
    for i in 0..1000u64 {
        let sid = format!("20260411T120000.000000-P{:016x}", i);
        let mut payload = start_frame(
            &sid,
            &[
                "git",
                "-c",
                "core.fsmonitor=false",
                "--no-pager",
                "--no-optional-locks",
                "status",
                "--porcelain=v1",
                "--untracked-files=all",
                "--no-renames",
                "-z",
                ".",
            ],
            "",
        );
        assert!(!prepare(&mut coord.ingress, &mut payload, &read_only(), None, NOW));
    }
    let elapsed = begun.elapsed();
    assert!(elapsed.as_millis() < 200, "took {}ms", elapsed.as_millis());
    assert_eq!(coord.queue.queued, 0);
}

#[test]
fn stash_list_flood_leaves_queue_empty() {
    let mut coord = ActorDaemonCoordinator::new();
    for i in 0..1000u64 {
        let sid = format!("20260411T120000.000000-P{:016x}", i);
        let mut payload = start_frame(
            &sid,
            &[
                "git",
                "-c",
                "core.fsmonitor=false",
                "--no-pager",
                "stash",
                "list",
                "--pretty=format:%gd%x00%H%x00%ct%x00%s",
            ],
            "",
        );
        assert!(!prepare(&mut coord.ingress, &mut payload, &read_only(), None, NOW));
    }
    assert_eq!(coord.queue.queued, 0);
}

#[test]
fn worktree_list_flood_leaves_queue_empty() {
    let mut coord = ActorDaemonCoordinator::new();
    for i in 0..1000u64 {
        let sid = format!("20260411T120000.000000-P{:016x}", i);
        let mut payload = start_frame(
            &sid,
            &["git", "--no-pager", "--no-optional-locks", "worktree", "list", "--porcelain"],
            "",
        );
        assert!(!prepare(&mut coord.ingress, &mut payload, &read_only(), None, NOW));
    }
    assert_eq!(coord.queue.queued, 0);
}

#[test]
fn open_mutating_root_fences_family_when_repo_and_argv_arrive_on_different_events() {
    let mut coord = ActorDaemonCoordinator::new();
    let family = "/repo/.git";
    let sid = "20260411T120000.000000-Psid-split-metadata";
    coord.ingress.trace_root_connection_opened(sid);
    let mut def_repo = frame(&format!(
        "{{\"event\":\"def_repo\",\"sid\":\"{sid}\",\"worktree\":\"/repo\",\"time_ns\":1}}"
    ));
    let unknown = FrameFacts {
        definitely_read_only: false,
        may_mutate_refs: false,
        resolved_family: Some(family.to_string()),
    };
    assert!(prepare(&mut coord.ingress, &mut def_repo, &unknown, None, NOW));
    let own = entry_query(family, NOW, None, 0);
    let other = entry_query("/some/other/family/.git", NOW, None, 0);
    assert!(held(&mut coord, 1_000_000_000, &own, alive(), NOW).is_some());
    assert!(held(&mut coord, 1_000_000_000, &other, alive(), NOW).is_none());

    let mut start =
        start_frame(sid, &["git", "reset", "--soft", "HEAD~1"], ",\"time_ns\":2");
    assert!(prepare(&mut coord.ingress, &mut start, &mutating(None), None, NOW));
    assert!(held(&mut coord, 1_000_000_000, &own, alive(), NOW).is_some());
    assert!(!coord.sequencers.has_entries());
}

#[test]
fn finishing_root_keeps_fence_until_worker_clears_it() {
    let mut coord = ActorDaemonCoordinator::new();
    let family = "/repo/.git";
    let sid = "20260411T120000.000000-Psid-finishing";
    coord.ingress.trace_root_connection_opened(sid);
    let mut start = start_frame(
        sid,
        &["git", "commit", "-m", "done"],
        ",\"worktree\":\"/repo\",\"time_ns\":1",
    );
    assert!(prepare(&mut coord.ingress, &mut start, &mutating(Some(family)), None, NOW));
    let mut atexit = frame(&format!(
        "{{\"event\":\"atexit\",\"sid\":\"{sid}\",\"code\":0,\"time_ns\":2}}"
    ));
    assert!(prepare(&mut coord.ingress, &mut atexit, &mutating(None), None, NOW));

    assert!(coord.ingress.has_open_trace_roots_that_may_mutate_family(family));
    assert!(!coord.ingress.has_open_trace_roots_that_may_mutate_family("/some/other/family/.git"));

    assert!(coord.ingress.record_trace_connection_close(&strings(&[sid])).is_empty());
    assert!(coord.ingress.has_open_trace_roots_that_may_mutate_family(family));

    let fenced = coord.clear_trace_root_tracking(sid).expect("the root was fencing its family");
    assert_eq!(fenced, FenceScope::Family(family.to_string()));
    assert!(!coord.ingress.has_open_trace_roots_that_may_mutate_refs());
    assert!(coord.clear_trace_root_tracking(sid).is_none());
}

/// Works the frames off that are queued.
fn work_off(coord: &mut ActorDaemonCoordinator, frames: Vec<TracePayload>) {
    let mut buffer = ReorderBuffer::new(TRACE_INGEST_QUEUE_CAPACITY);
    for payload in frames {
        buffer.receive(payload).expect("a numbered frame");
    }
    while let Some(ordered) = buffer.take_next() {
        let root = trace_payload_root_sid(&ordered.payload);
        let clear = match frame_step(&ordered.payload, false) {
            FrameStep::Nothing => None,
            FrameStep::CloseRoot { root } => Some(root),
            FrameStep::Normalize { terminal, .. } => {
                root_to_clear(&root, terminal, &Emitted::Nothing)
            }
        };
        if let Some(root) = clear {
            coord.clear_trace_root_tracking(&root);
        }
        coord.queue.record_processed(&root, ordered.seq);
    }
}

#[test]
fn worker_lifts_fence_when_it_processes_the_atexit() {
    let mut coord = ActorDaemonCoordinator::new();
    let family = "/repo/.git";
    let sid = "20260411T120000.000000-Psid-worker-atexit";
    coord.ingress.trace_root_connection_opened(sid);
    let mut queued = vec![];
    for mut payload in [
        start_frame(
            sid,
            &["git", "commit", "-m", "done"],
            ",\"worktree\":\"/repo\",\"time_ns\":1",
        ),
        frame(&format!(
            "{{\"event\":\"atexit\",\"sid\":\"{sid}\",\"code\":0,\"time_ns\":2}}"
        )),
    ] {
        assert!(prepare(
            &mut coord.ingress,
            &mut payload,
            &mutating(Some(family)),
            None,
            NOW
        ));
        coord.queue.enqueue_trace_payload(&mut payload, QueueRoom::Room).unwrap();
        queued.push(payload);
    }
    work_off(&mut coord, queued);
    assert!(coord.queue.processed_through(coord.queue.next_seq));
    assert!(!coord.ingress.has_open_trace_roots_that_may_mutate_family(family));

    let mut coord = ActorDaemonCoordinator::new();
    let orphan = "20260411T120000.000000-Psid-orphan-atexit";
    coord.ingress.trace_root_connection_opened(orphan);
    let mut atexit = frame(&format!(
        "{{\"event\":\"atexit\",\"sid\":\"{orphan}\",\"code\":0,\"time_ns\":3}}"
    ));
    let silent =
        FrameFacts { definitely_read_only: false, may_mutate_refs: false, resolved_family: None };
    assert!(prepare(&mut coord.ingress, &mut atexit, &silent, None, NOW));
    coord.queue.enqueue_trace_payload(&mut atexit, QueueRoom::Room).unwrap();
    work_off(&mut coord, vec![atexit]);
    assert!(!coord.ingress.has_open_trace_roots_that_may_mutate_refs());
}

#[test]
fn child_frames_do_not_reclassify_their_root() {
    let mut coord = ActorDaemonCoordinator::new();
    let family = "/repo/.git";
    let other_family = "/other/.git";
    let sid = "20260411T120000.000000-Psid-parent";
    coord.ingress.trace_root_connection_opened(sid);
    let mut child_start = start_frame(
        &format!("{sid}/20260411T120000.500000-Psid-child"),
        &["git", "commit", "-m", "hook side effect"],
        ",\"worktree\":\"/other\",\"time_ns\":2",
    );
    let hint = trace_payload_worktree_hint(&child_start, &no_invocation(), &FileSnapshot::new());
    let taken = coord
        .ingress
        .track_trace_payload_for_ingest(&child_start, &hint, &mutating(Some(other_family)), NOW)
        .expect("a frame with a session");
    assert!(taken.capture.is_none(), "a child's repository is not captured");
    coord.ingress.finish_tracked_frame(taken, &mut child_start, None);
    assert!(coord.ingress.roots.get(sid).unwrap().reflog_start_offsets.is_none());

    let mut start = start_frame(
        sid,
        &["git", "commit", "-m", "parent"],
        ",\"worktree\":\"/repo\",\"time_ns\":1",
    );
    let hint = trace_payload_worktree_hint(&start, &no_invocation(), &FileSnapshot::new());
    let taken = coord
        .ingress
        .track_trace_payload_for_ingest(&start, &hint, &mutating(Some(family)), NOW)
        .expect("a frame with a session");
    assert_eq!(taken.capture, Some(RepoPath::parse("/repo")));
    let captured = Some(vec![("worktree:/repo/.git:HEAD".to_string(), 7)]);
    assert!(!coord.ingress.finish_tracked_frame(taken, &mut start, captured));

    assert!(coord.ingress.has_open_trace_roots_that_may_mutate_family(family));
    assert!(!coord.ingress.has_open_trace_roots_that_may_mutate_family(other_family));
    let offsets = coord.ingress.roots.get(sid).unwrap().reflog_start_offsets.clone();
    assert_eq!(offsets, Some(vec![("worktree:/repo/.git:HEAD".to_string(), 7)]));
}

#[test]
fn read_only_root_never_becomes_a_finishing_fence() {
    let mut coord = ActorDaemonCoordinator::new();
    let sid = "20260411T120000.000000-Psid-readonly";
    coord.ingress.trace_root_connection_opened(sid);
    let mut start =
        start_frame(sid, &["git", "status", "--porcelain"], ",\"time_ns\":1");
    assert!(!prepare(&mut coord.ingress, &mut start, &read_only(), None, NOW));
    let mut atexit = frame(&format!(
        "{{\"event\":\"atexit\",\"sid\":\"{sid}\",\"code\":0,\"time_ns\":2}}"
    ));
    let silent =
        FrameFacts { definitely_read_only: false, may_mutate_refs: false, resolved_family: None };
    assert!(!prepare(&mut coord.ingress, &mut atexit, &silent, None, NOW));
    assert!(!coord.ingress.has_open_trace_roots_that_may_mutate_refs());

    assert!(coord.ingress.record_trace_connection_close(&strings(&[sid])).is_empty());
    let open = coord.ingress.roots.get(sid).and_then(|root| root.open_connections);
    assert_eq!(open, None, "a read-only root is cleared inline at socket close");
}

#[test]
fn mutating_trace_payload_captures_repo_reflog_start_offsets() {
    let mut coord = ActorDaemonCoordinator::new();
    let mut payload = start_frame(
        "20260411T120000.000000-Psid-reflog",
        &["git", "reset", "--hard", "HEAD~1"],
        ",\"worktree\":\"/repo\"",
    );
    let captured = vec![
        ("worktree:/repo/.git:HEAD".to_string(), 22),
        ("common:refs/stash".to_string(), 23),
        ("common:refs/heads/main".to_string(), 24),
    ];
    assert!(prepare(
        &mut coord.ingress,
        &mut payload,
        &mutating(None),
        Some(captured.clone()),
        NOW
    ));
    assert_eq!(payload.reflog_start_offsets, Some(captured));
}

#[test]
fn checkpoint_fence_waits_for_open_mutating_trace_root() {
    let mut coord = ActorDaemonCoordinator::new();
    let sid = "20260411T120000.000000-Psid1";
    coord.ingress.trace_root_connection_opened(sid);
    let mut payload = make_start_payload(&["git", "commit", "-m", "test commit"]);
    assert!(prepare(&mut coord.ingress, &mut payload, &mutating(None), None, NOW));
    assert!(!wait_is_over(&mut coord, GRACE, None, 50 * MS, alive()));

    coord.ingress.record_trace_connection_close(&strings(&[sid]));
    assert!(!wait_is_over(&mut coord, GRACE, None, 50 * MS, alive()));

    coord.clear_trace_root_tracking(sid);
    assert!(wait_is_over(&mut coord, GRACE, None, 0, alive()));
}

#[test]
fn family_fence_ignores_open_mutating_roots_of_other_families() {
    let mut coord = ActorDaemonCoordinator::new();
    let own_family = "/other-repo/.git";
    let sid = "20260411T120000.000000-Psid1";
    coord.ingress.trace_root_connection_opened(sid);
    let mut start = make_start_payload(&["git", "commit", "-m", "other repo commit"]);
    assert!(prepare(&mut coord.ingress, &mut start, &mutating(None), None, NOW));
    assert!(!wait_is_over(&mut coord, GRACE, Some("/some/unrelated/family"), 50 * MS, alive()));

    let mut def_repo = frame(&format!(
        "{{\"event\":\"def_repo\",\"sid\":\"{sid}\",\"worktree\":\"/other-repo\"}}"
    ));
    assert!(prepare(
        &mut coord.ingress,
        &mut def_repo,
        &mutating(Some(own_family)),
        None,
        NOW
    ));
    assert!(wait_is_over(&mut coord, GRACE, Some("/some/unrelated/family"), 0, alive()));
    assert!(!wait_is_over(&mut coord, GRACE, Some(own_family), 50 * MS, alive()));

    coord.ingress.record_trace_connection_close(&strings(&[sid]));
    assert!(!wait_is_over(&mut coord, GRACE, Some(own_family), 50 * MS, alive()));

    coord.clear_trace_root_tracking(sid);
    assert!(wait_is_over(&mut coord, GRACE, Some(own_family), 0, alive()));
}

#[test]
fn trace_connection_close_without_atexit_releases_family_fence() {
    let mut coord = ActorDaemonCoordinator::new();
    let sid = "20260411T120000.000000-Psid-close";
    coord.ingress.trace_root_connection_opened(sid);
    let mut start = start_frame(
        sid,
        &["git", "commit", "-m", "test commit"],
        ",\"worktree\":\"/repo\",\"time_ns\":1",
    );
    assert!(prepare(&mut coord.ingress, &mut start, &mutating(None), None, NOW));
    coord.queue.enqueue_trace_payload(&mut start, QueueRoom::Room).unwrap();
    assert!(coord.ingress.has_open_trace_roots_that_may_mutate_refs());

    let mut queued = vec![start];
    let markers = finalize_trace_connection_roots(&mut coord.ingress, &strings(&[sid]));
    assert_eq!(markers, strings(&[sid]));
    for root in markers {
        let mut marker = close_marker(root, 9);
        assert_eq!(marker.event.as_deref(), Some(TRACE_CONNECTION_CLOSED_EVENT));
        assert_eq!(marker.time_ns, Some(9));
        coord.queue.enqueue_trace_payload(&mut marker, QueueRoom::Room).unwrap();
        queued.push(marker);
    }
    work_off(&mut coord, queued);
    assert!(!coord.ingress.has_open_trace_roots_that_may_mutate_refs());
    assert!(!coord.sequencers.has_entries());
}

#[test]
fn family_fence_releases_after_grace_when_root_process_is_alive() {
    let grace: u64 = 20_000_000;
    let mut coord = ActorDaemonCoordinator::new();
    let sid = alive_root_sid("alive");
    open_unattributed_commit_root(&mut coord, &sid, NOW);
    append_ready_rebase(&mut coord, "family-a", NOW);
    assert!(is_fenced(disposition(&mut coord, grace, "family-a", alive(), NOW)));

    let later = NOW + 60 * MS;
    assert_eq!(
        disposition(&mut coord, grace, "family-a", alive(), later),
        FamilyFrontDisposition::Ready
    );
    assert_eq!(coord.fence_counters.causal_grace_expirations, 1);

    append_ready_rebase(&mut coord, "family-b", later);
    assert!(is_fenced(disposition(&mut coord, grace, "family-b", alive(), later)));
    assert_eq!(
        disposition(&mut coord, grace, "family-b", alive(), later + 60 * MS),
        FamilyFrontDisposition::Ready
    );
    assert_eq!(coord.fence_counters.causal_grace_expirations, 1);

    let mut coord = ActorDaemonCoordinator::new();
    let sid = alive_root_sid("closed");
    open_unattributed_commit_root(&mut coord, &sid, NOW);
    append_ready_rebase(&mut coord, "family-a", NOW);
    assert!(is_fenced(disposition(&mut coord, grace, "family-a", alive(), NOW)));
    coord.clear_trace_root_tracking(&sid);
    assert_eq!(
        disposition(&mut coord, grace, "family-a", alive(), NOW),
        FamilyFrontDisposition::Ready
    );
    assert_eq!(coord.fence_counters.causal_grace_expirations, 0);
}

#[test]
fn family_fence_holds_past_grace_when_root_process_is_dead() {
    let grace: u64 = 20_000_000;
    let hard_cap = (grace * FAMILY_CAUSAL_FENCE_HARD_CAP_MULTIPLIER) as u128;
    let mut coord = ActorDaemonCoordinator::new();
    let sid = "20260411T120000.000000-Hdead-P1092";
    open_unattributed_commit_root(&mut coord, sid, NOW);
    append_ready_rebase(&mut coord, "family-a", NOW);

    let later = NOW + 80 * MS;
    assert!(is_fenced(disposition(&mut coord, grace, "family-a", dead(), later)));
    assert_eq!(coord.fence_counters.causal_grace_expirations, 0);

    assert_eq!(
        disposition(&mut coord, grace, "family-a", dead(), later + hard_cap),
        FamilyFrontDisposition::Ready
    );
    assert_eq!(coord.fence_counters.causal_fence_hard_cap_releases, 1);
}

#[test]
fn finishing_root_holds_fence_until_cleared() {
    let grace: u64 = 20_000_000;
    let mut coord = ActorDaemonCoordinator::new();
    let sid = alive_root_sid("exiting");
    open_unattributed_commit_root(&mut coord, &sid, NOW);
    read_root_atexit(&mut coord, &sid, NOW);
    append_ready_rebase(&mut coord, "family-a", NOW);
    let later = NOW + 60 * MS;
    assert!(is_fenced(disposition(&mut coord, grace, "family-a", alive(), later)));
    coord.clear_trace_root_tracking(&sid);
    assert_eq!(
        disposition(&mut coord, grace, "family-a", alive(), later),
        FamilyFrontDisposition::Ready
    );
    assert_eq!(coord.fence_counters.causal_grace_expirations, 0);

    let mut coord = ActorDaemonCoordinator::new();
    let sid = alive_root_sid("stuck");
    open_unattributed_commit_root(&mut coord, &sid, NOW);
    read_root_atexit(&mut coord, &sid, NOW);
    append_ready_rebase(&mut coord, "family-a", NOW);
    let half = (grace * (FAMILY_CAUSAL_FENCE_HARD_CAP_MULTIPLIER / 2)) as u128;
    assert!(is_fenced(disposition(&mut coord, grace, "family-a", alive(), NOW + half)));
    assert_eq!(
        disposition(&mut coord, grace, "family-a", alive(), NOW + 2 * half + grace as u128),
        FamilyFrontDisposition::Ready
    );
    assert_eq!(coord.fence_counters.causal_fence_hard_cap_releases, 1);
}

#[test]
fn root_with_a_reflog_fences_only_once_it_has_written() {
    let grace: u64 = 20_000_000;
    let mut coord = ActorDaemonCoordinator::new();
    let family = "/repo/.git";
    let sid = alive_root_sid("attributed");
    open_attributed_root(&mut coord, &sid, family, &["git", "commit", "-m", "running"], NOW);

    append_ready_rebase(&mut coord, family, NOW);
    assert_eq!(
        disposition(&mut coord, grace, family, reflog(false), NOW),
        FamilyFrontDisposition::Ready
    );

    append_ready_rebase(&mut coord, family, NOW);
    assert!(is_fenced(disposition(&mut coord, grace, family, reflog(true), NOW)));
    let later = NOW + 60 * MS;
    assert!(is_fenced(disposition(&mut coord, grace, family, reflog(true), later)));
    read_root_atexit(&mut coord, &sid, later);
    assert!(is_fenced(disposition(&mut coord, grace, family, reflog(true), later)));
    coord.clear_trace_root_tracking(&sid);
    assert_eq!(
        disposition(&mut coord, grace, family, reflog(true), later),
        FamilyFrontDisposition::Ready
    );
    assert_eq!(coord.fence_counters.causal_grace_expirations, 0);
    assert_eq!(coord.fence_counters.causal_fence_hard_cap_releases, 0);
}

#[test]
fn root_that_wrote_before_its_reflog_length_was_recorded_counts_as_written() {
    let grace: u64 = 20_000_000;
    let mut coord = ActorDaemonCoordinator::new();
    let family = "/repo/.git";
    let sid = alive_root_sid("late-capture");
    open_attributed_root(
        &mut coord,
        &sid,
        family,
        &["git", "commit", "-m", "already written"],
        NOW,
    );
    append_ready_rebase(&mut coord, family, NOW + 20 * MS);
    let later = NOW + 80 * MS;
    assert!(is_fenced(disposition(&mut coord, grace, family, reflog(true), later)));
    assert_eq!(coord.fence_counters.causal_grace_expirations, 0);
}

#[test]
fn root_writing_refs_other_than_head_falls_back_to_grace_and_liveness() {
    let grace: u64 = 20_000_000;
    let mut coord = ActorDaemonCoordinator::new();
    let family = "/repo/.git";
    let sid = alive_root_sid("branch");
    open_attributed_root(
        &mut coord,
        &sid,
        family,
        &["git", "branch", "-f", "other", "HEAD"],
        NOW,
    );
    append_ready_rebase(&mut coord, family, NOW);
    let elsewhere =
        RootObservation { moves_head: false, reflog_grew: Some(false), alive: true };
    assert!(is_fenced(disposition(&mut coord, grace, family, elsewhere, NOW)));
    assert_eq!(
        disposition(&mut coord, grace, family, elsewhere, NOW + 60 * MS),
        FamilyFrontDisposition::Ready
    );
    assert_eq!(coord.fence_counters.causal_grace_expirations, 1);
}

#[test]
fn checkpoint_fence_waits_for_open_mutating_trace_root_until_causal_grace_expires() {
    let grace: u64 = 50_000_000;
    let mut coord = ActorDaemonCoordinator::new();
    let sid = alive_root_sid("sync");
    open_unattributed_commit_root(&mut coord, &sid, NOW);
    assert!(!wait_is_over(&mut coord, grace, None, 20 * MS, alive()));
    assert!(wait_is_over(&mut coord, grace, None, 50 * MS, alive()));
    assert!(wait_is_over(&mut coord, grace, Some("/any/family/.git"), 50 * MS, alive()));
    assert!(coord.ingress.has_open_trace_roots_that_may_mutate_refs());
}

#[test]
fn await_pending_work_ignores_idle_open_roots_but_counts_finishing_ones() {
    let grace: u64 = 20_000_000;
    let mut coord = ActorDaemonCoordinator::new();
    let sid = alive_root_sid("idle");
    open_unattributed_commit_root(&mut coord, &sid, NOW);
    let fence = held(&mut coord, grace, &await_query(NOW), alive(), NOW).is_some();
    assert!(coord.has_pending_daemon_work(fence));
    let later = NOW + 60 * MS;
    let fence = held(&mut coord, grace, &await_query(later), alive(), later).is_some();
    assert!(!coord.has_pending_daemon_work(fence));

    let mut coord = ActorDaemonCoordinator::new();
    let sid = alive_root_sid("finishing");
    open_unattributed_commit_root(&mut coord, &sid, NOW);
    read_root_atexit(&mut coord, &sid, NOW);
    assert!(!wait_is_over(&mut coord, grace, None, 60 * MS, alive()));
    let fence = held(&mut coord, grace, &await_query(later), alive(), later).is_some();
    assert!(coord.has_pending_daemon_work(fence));
}

#[test]
fn readonly_trace_connection_close_without_atexit_clears_tracking() {
    let mut coord = ActorDaemonCoordinator::new();
    let sid = "20260411T120000.000000-Psid-readonly-close";
    coord.ingress.trace_root_connection_opened(sid);
    let mut start = start_frame(sid, &["git", "status", "--short"], "");
    assert!(!prepare(&mut coord.ingress, &mut start, &read_only(), None, NOW));

    assert!(coord.ingress.record_trace_connection_close(&strings(&[sid])).is_empty());
    if let Some(root) = coord.ingress.roots.get(sid) {
        assert!(root.argv.is_none());
        assert!(!root.definitely_read_only);
        assert!(root.open_connections.is_none());
    }
}

#[test]
fn noise_frame_is_dropped_before_any_bookkeeping() {
    let coord = ActorDaemonCoordinator::new();
    let line = r#"{"event":"data","sid":"noise-root","category":"index","label":"x"}"#;
    assert!(read_trace_line(line, None).is_none());
    assert!(coord.ingress.roots.is_empty());

    // A frame that the start of its line does not give away.
    let late = r#"{"sid":"noise-root","event":"data"}"#;
    let payload = read_trace_line(late, None).expect("it is read");
    assert_eq!(trace_frame_use(&payload), FrameUse::Ignore);
}

#[test]
fn drain_probe_frame_advances_watermark_without_root_bookkeeping() {
    let mut coord = ActorDaemonCoordinator::new();
    coord.probes.record_trace_drain_probe(999);
    assert_eq!(coord.probes.observed, 0);

    for _ in 0..7 {
        coord.probes.issue_trace_drain_probe_id();
    }
    let payload =
        read_trace_line(r#"{"event":"git_ai_drain_probe","git_ai_probe_id":7}"#, None).unwrap();
    match trace_frame_use(&payload) {
        FrameUse::Probe(Some(id)) => coord.probes.record_trace_drain_probe(id),
        other => panic!("{other:?}"),
    }
    assert_eq!(coord.probes.observed, 7);
    assert!(coord.ingress.roots.is_empty());

    coord.probes.record_trace_drain_probe(5);
    assert_eq!(coord.probes.observed, 7);
}

#[test]
fn late_reflog_capture_after_terminal_event_does_not_leak_root_state() {
    let mut coord = ActorDaemonCoordinator::new();
    let sid = "20260411T120000.000000-Plateoffsets";
    coord.ingress.trace_root_connection_opened(sid);
    let mut start = start_frame(sid, &["git", "commit", "-m", "late capture"], "");
    assert!(prepare(&mut coord.ingress, &mut start, &mutating(None), None, NOW));

    let mut def_repo = frame(&format!(
        "{{\"event\":\"def_repo\",\"sid\":\"{sid}\",\"worktree\":\"/tmp/late-offsets-worktree\"}}"
    ));
    let hint = trace_payload_worktree_hint(&def_repo, &no_invocation(), &FileSnapshot::new());
    let under_way = coord
        .ingress
        .track_trace_payload_for_ingest(&def_repo, &hint, &mutating(None), NOW)
        .unwrap();
    assert_eq!(under_way.capture, Some(RepoPath::parse("/tmp/late-offsets-worktree")));

    let mut atexit = make_atexit_payload(sid);
    assert!(prepare(&mut coord.ingress, &mut atexit, &mutating(None), None, NOW));
    coord.ingress.finish_tracked_frame(
        under_way,
        &mut def_repo,
        Some(vec![("worktree:x:HEAD".to_string(), 1)]),
    );

    let root = coord.ingress.roots.get(sid).unwrap();
    assert!(root.reflog_start_offsets.is_none());
    assert!(root.worktree.is_none());
    assert!(root.last_activity_ns.is_none());
}

#[test]
fn checkpoint_fence_does_not_wait_for_unidentified_trace_connection() {
    let mut coord = ActorDaemonCoordinator::new();
    coord.ingress.trace_unidentified_connection_opened();
    assert_eq!(coord.ingress.unidentified_open_connections, 1);
    assert!(wait_is_over(&mut coord, GRACE, None, 0, alive()));
    coord.ingress.trace_unidentified_connection_identified_or_closed();
    assert_eq!(coord.ingress.unidentified_open_connections, 0);
    assert!(wait_is_over(&mut coord, GRACE, None, 0, alive()));
}

#[test]
fn checkpoint_fence_waits_for_open_branch_mutation_root() {
    let mut coord = ActorDaemonCoordinator::new();
    let sid = "20260411T120000.000000-Psid1";
    coord.ingress.trace_root_connection_opened(sid);
    let mut payload = make_start_payload(&["git", "branch", "-D", "feature"]);
    assert!(prepare(&mut coord.ingress, &mut payload, &mutating(None), None, NOW));
    assert!(!wait_is_over(&mut coord, GRACE, None, 50 * MS, alive()));
    coord.ingress.record_trace_connection_close(&strings(&[sid]));
    assert!(!wait_is_over(&mut coord, GRACE, None, 50 * MS, alive()));
    coord.clear_trace_root_tracking(sid);
    assert!(wait_is_over(&mut coord, GRACE, None, 0, alive()));
}

#[test]
fn checkpoint_fence_does_not_wait_for_open_branch_readonly_root() {
    let mut coord = ActorDaemonCoordinator::new();
    let sid = "20260411T120000.000000-Psid-readonly-branch";
    coord.ingress.trace_root_connection_opened(sid);
    let mut payload = start_frame(sid, &["git", "branch", "--show-current"], "");
    assert!(!prepare(&mut coord.ingress, &mut payload, &read_only(), None, NOW));
    assert!(wait_is_over(&mut coord, GRACE, None, 0, alive()));
}

#[test]
fn enqueue_before_worker_start_returns_error() {
    let mut coord = ActorDaemonCoordinator::new();
    let mut payload = frame(
        "{\"event\":\"start\",\"sid\":\"20260411T120000.000000-Ptest0001\",\
         \"__git_ai_ingest_seq\":1,\"argv\":[\"git\",\"commit\",\"-m\",\"test\"]}",
    );
    let result = coord.queue.enqueue_trace_payload(&mut payload, QueueRoom::NotStarted);
    assert_eq!(result, Err(EnqueueError::NotStarted));
}

#[test]
fn enqueue_accounting_error_does_not_allocate_ingest_sequence() {
    let mut coord = ActorDaemonCoordinator::new();
    for (room, error, shuts_down) in [
        (QueueRoom::NotStarted, EnqueueError::NotStarted, false),
        (QueueRoom::Closed, EnqueueError::WorkerGone, true),
        (QueueRoom::Full, EnqueueError::QueueFull, true),
    ] {
        let mut payload = start_frame(
            "20260411T120000.000000-Paccounting",
            &["git", "commit", "-m", "test"],
            "",
        );
        let result = coord.queue.enqueue_trace_payload(&mut payload, room);
        assert_eq!(result, Err(error));
        assert_eq!(error.shuts_down(), shuts_down);
        assert_eq!(coord.queue.next_seq, 0);
        assert_eq!(coord.queue.queued, 0);
        assert_eq!(payload.ingest_seq, SeqField::Absent);
    }
    assert_eq!(coord.queue.dropped_queue_full, 1);
}

#[test]
fn checkpoint_trace_ingest_drain_returns_on_shutdown() {
    let mut coord = ActorDaemonCoordinator::new();
    coord.queue.next_seq = 1;
    coord.queue.processed_seq = 0;
    assert!(!wait_is_over(&mut coord, GRACE, None, 0, alive()));
    let ActorDaemonCoordinator { lifecycle, gate, .. } = &mut coord;
    lifecycle.request_shutdown(gate);
    assert!(wait_is_over(&mut coord, GRACE, None, 0, alive()));
}

#[test]
fn concurrent_mutating_enqueues_do_not_deadlock() {
    let mut coord = ActorDaemonCoordinator::new();
    let mut queued = vec![];
    for task_id in 0..8usize {
        for i in 0..20usize {
            let sid = format!("20260411T120000.000000-P{:08x}", task_id * 1000 + i);
            let mut payload = start_frame(&sid, &["git", "commit", "-m", "msg"], "");
            assert!(prepare(&mut coord.ingress, &mut payload, &mutating(None), None, NOW));
            coord.queue.enqueue_trace_payload(&mut payload, QueueRoom::Room).unwrap();
            queued.push(payload);
        }
    }
    assert_eq!(coord.queue.queued, 160);
    queued.reverse();
    work_off(&mut coord, queued);
    assert_eq!(coord.queue.queued, 0);
    assert!(coord.queue.processed_through(160));
}

#[test]
fn a_written_root_is_released_at_its_own_cap() {
    let grace: u64 = 20_000_000;
    let cap = (grace * FAMILY_WRITTEN_ROOT_FENCE_CAP_MULTIPLIER) as u128;
    let mut coord = ActorDaemonCoordinator::new();
    let family = "/repo/.git";
    let sid = alive_root_sid("hook");
    open_attributed_root(&mut coord, &sid, family, &["git", "commit", "-m", "hook"], NOW);
    append_ready_rebase(&mut coord, family, NOW);
    assert!(is_fenced(disposition(&mut coord, grace, family, reflog(true), NOW + cap - 1)));
    assert_eq!(
        disposition(&mut coord, grace, family, reflog(true), NOW + cap),
        FamilyFrontDisposition::Ready
    );
}

#[test]
fn a_root_that_started_later_fences_nothing() {
    let mut coord = ActorDaemonCoordinator::new();
    let family = "/repo/.git";
    append_ready_rebase(&mut coord, family, NOW);
    let sid = alive_root_sid("later");
    coord.ingress.trace_root_connection_opened(&sid);
    let mut start = start_frame(
        &sid,
        &["git", "commit", "-m", "later"],
        &format!(",\"worktree\":\"/repo\",\"time_ns\":{}", NOW + 1),
    );
    assert!(prepare(&mut coord.ingress, &mut start, &mutating(Some(family)), None, NOW + 1));
    assert_eq!(
        disposition(&mut coord, 1_000_000_000, family, alive(), NOW + 2),
        FamilyFrontDisposition::Ready
    );
}

#[test]
fn a_connection_observes_each_root_once() {
    let mut state = TraceIngressState::new();
    state.trace_unidentified_connection_opened();
    let mut observed = vec![];
    let first = start_frame("r1", &["git", "commit"], "");
    let child = start_frame("r1/c1", &["git", "gc"], "");
    let second = start_frame("r0", &["git", "commit"], "");
    observe_frame_root(&mut state, &mut observed, &first);
    observe_frame_root(&mut state, &mut observed, &child);
    observe_frame_root(&mut state, &mut observed, &second);
    observed.sort();
    assert_eq!(observed, strings(&["r0", "r1"]));
    assert_eq!(state.unidentified_open_connections, 0);
    assert_eq!(state.roots.get("r1").unwrap().open_connections, Some(1));
}

#[test]
fn a_connection_without_roots_is_just_closed() {
    let mut state = TraceIngressState::new();
    state.trace_unidentified_connection_opened();
    assert!(finalize_trace_connection_roots(&mut state, &vec![]).is_empty());
    assert_eq!(state.unidentified_open_connections, 0);
}

#[test]
fn a_frame_that_says_no_number_in_its_place_is_not_numbered_and_refused() {
    for place in ["\"7\"", "null", "-1", "1.5", "true", "[1]", "{}"] {
        let mut queue = TraceQueue::new();
        let more = format!(",\"git_ai_ingest_seq\":{place}");
        let mut payload = start_frame("s", &["git", "commit"], &more);
        assert_eq!(payload.ingest_seq, SeqField::NotNumber, "{place}");
        queue.enqueue_trace_payload(&mut payload, QueueRoom::Room).unwrap();
        assert_eq!(payload.ingest_seq, SeqField::NotNumber, "{place}");
        assert_eq!(queue.next_seq, 0);
        assert_eq!(queue.queued, 1);
        let mut buffer = ReorderBuffer::new(3);
        assert_eq!(buffer.receive(payload), Err(ReorderError::MissingSeq));
        assert_eq!(buffer.buffered(), 0);
    }
    let mut queue = TraceQueue::new();
    let mut payload = start_frame("s", &["git", "commit"], ",\"git_ai_ingest_seq\":4");
    queue.enqueue_trace_payload(&mut payload, QueueRoom::Room).unwrap();
    assert_eq!(payload.ingest_seq, SeqField::Number(4));
    assert_eq!(queue.next_seq, 0);
}

#[test]
fn frames_are_worked_off_by_number() {
    let mut queue = TraceQueue::new();
    let mut frames = vec![];
    for name in ["a", "b", "c"] {
        let mut payload = start_frame(name, &["git", "commit"], "");
        queue.enqueue_trace_payload(&mut payload, QueueRoom::Room).unwrap();
        frames.push(payload);
    }
    let mut buffer = ReorderBuffer::new(3);
    let third = frames.pop().unwrap();
    let second = frames.pop().unwrap();
    buffer.receive(third).unwrap();
    buffer.receive(second).unwrap();
    assert!(buffer.take_next().is_none(), "the first is missing");
    buffer.receive(frames.pop().unwrap()).unwrap();
    let order: Vec<u64> = std::iter::from_fn(|| buffer.take_next()).map(|f| f.seq).collect();
    assert_eq!(order, vec![1, 2, 3]);
    assert_eq!(buffer.buffered(), 0);
}
