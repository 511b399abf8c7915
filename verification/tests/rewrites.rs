//! What commands did to history.
use git_ai_daemon::commands::{
    is_non_auxiliary_ref, is_valid_oid, is_zero_oid, parsed_invocation_for_normalized_command,
    resolve_heads_for_command, AppliedCommand, CommandFacts, NormalizedCommand, PullStrategy,
    RefChange, ResetKind, SemanticEvent, StashOpKind,
};
use git_ai_daemon::event_effects::{
    checkout_effect, event_effect, event_follow_up, pull_fast_forward, push_skips_notes,
    recent_checkout_switch_prerequisite_from_command, ref_update_effect,
    timestamp_snapshot_commit, CheckoutEffect, EventContext, RecentReplayPrerequisite,
    RefUpdateEffect, SideEffect,
};
use git_ai_daemon::paths::RepoPath;
use git_ai_daemon::pending::{worktree_state_key, PendingRewrites};
use git_ai_daemon::questions::{ancestry_queries, cherry_pick_heads, stash_queries};
use git_ai_daemon::repo_state::FileSnapshot;
use git_ai_daemon::rewrite::{
    cherry_pick_state_exists_for_worktree, collapse_changes, commit_parent_pairs,
    conflict_log_range, explicit_rebase_branch_ref_name, files_outside_pathspecs,
    no_commit_mappings, parents_in_log, plan_non_ff_rewrites, qualifying_diff_pairs,
    rebase_onto_from_command, resolve_stash_sha, revert_specs,
    rewrite_metric_branch_for_transition, stash_pathspecs_from_command, Ancestry, MetricBranch,
    PendingRebase, RewriteOperation, RewriteStep,
};
use git_ai_daemon::side_effects::{
    detect_non_ff_rewrites, note_stopped_cherry_pick, note_stopped_rebase, side_effect_steps,
    CommandAnswers, EffectStep, SideEffectError, SourceAnswer, SweepTrigger,
};
use git_ai_daemon::sources::{
    cherry_pick_command_has_flag, cherry_pick_range_has_omitted_side,
    cherry_pick_source_args_for_side_effect, cherry_pick_source_is_range,
    commits_in_range_answer, commits_in_type_answer, resolved_sources,
    revert_source_args_for_side_effect, rewrite_head_source_arg_for_side_effect, source_queries,
    SourceQuery,
};
use git_ai_daemon::trace::ParsedGitInvocation;
use git_ai_daemon::working_logs::{
    checkpoints_outside_pathspecs, metric_contexts, MetricContext,
};

const A: &str = "aaaaaaaaaaaaaaaaaaaaaaaaaaaaaaaaaaaaaaaa";
const B: &str = "bbbbbbbbbbbbbbbbbbbbbbbbbbbbbbbbbbbbbbbb";
const C: &str = "cccccccccccccccccccccccccccccccccccccccc";
const D: &str = "dddddddddddddddddddddddddddddddddddddddd";
const ZERO: &str = "0000000000000000000000000000000000000000";
const KEY: &str = "/repo/.git";

fn strings(list: &[&str]) -> Vec<String> {
    list.iter().map(|s| s.to_string()).collect()
}

fn change(reference: &str, old: &str, new: &str) -> RefChange {
    RefChange { reference: reference.to_string(), old: old.to_string(), new: new.to_string() }
}

fn command(primary: &str, args: &[&str], ref_changes: Vec<RefChange>) -> NormalizedCommand {
    NormalizedCommand {
        family_key: Some(KEY.to_string()),
        worktree: Some("/repo".to_string()),
        root_sid: "sid".to_string(),
        raw_argv: vec![],
        primary_command: Some(primary.to_string()),
        invoked_command: Some(primary.to_string()),
        invoked_args: strings(args),
        exit_code: 0,
        started_at_ns: 1,
        finished_at_ns: 2,
        stash_target_oid: None,
        cherry_pick_source_oids: vec![],
        revert_source_oids: vec![],
        ref_changes,
    }
}

fn facts(command: &str, args: &[&str]) -> CommandFacts {
    CommandFacts {
        parsed: ParsedGitInvocation {
            global_args: vec![],
            command: Some(command.to_string()),
            command_args: strings(args),
        },
        pathspecs: vec![],
        rebase_control_mode: false,
        rebase_branch_arg: None,
        dry_run: false,
    }
}

fn pairs(list: &[(&str, &str)]) -> Vec<(String, String)> {
    list.iter().map(|(a, b)| (a.to_string(), b.to_string())).collect()
}

fn ancestry(list: &[(&str, &str)]) -> Ancestry {
    Ancestry { pairs: pairs(list) }
}

fn answers() -> CommandAnswers {
    CommandAnswers {
        ancestry: ancestry(&[]),
        explicit_sources: Ok(vec![]),
        event_sources: vec![],
        revert_sources: Ok(vec![]),
        cherry_pick_under_way: false,
        stash_bases: vec![],
    }
}

fn applied(command: NormalizedCommand, events: Vec<SemanticEvent>) -> AppliedCommand {
    AppliedCommand { command, seq: 1, events }
}

fn created(base: Option<&str>, new_head: &str) -> SemanticEvent {
    SemanticEvent::CommitCreated {
        base: base.map(|b| b.to_string()),
        new_head: new_head.to_string(),
    }
}

#[test]
fn a_checkout_of_paths_leaves_the_other_entries() {
    let checkpoints = vec![
        strings(&["src/a.rs", "docs/x.md", "src/b.rs"]),
        strings(&["src/a.rs"]),
        strings(&["docs/y.md"]),
        strings(&[]),
    ];
    let left = checkpoints_outside_pathspecs(&checkpoints, &strings(&["src"]));
    assert_eq!(left, vec![(0, vec![1]), (2, vec![0])]);
    let left = checkpoints_outside_pathspecs(&checkpoints, &strings(&[]));
    assert_eq!(left, vec![(0, vec![0, 1, 2]), (1, vec![0]), (2, vec![0])]);
}

#[test]
fn rewritten_commits_are_counted_against_their_parents() {
    let pair = |commit: &str, parent: &str| (commit.to_string(), parent.to_string());
    let pairs = vec![pair(A, B), pair(C, A), pair(A, D)];
    let contexts = metric_contexts(&strings(&[A, C, B]), &pairs, &vec![true, false, false]);
    let expected = vec![
        MetricContext { parent: Some(D.to_string()), compared: true },
        MetricContext { parent: Some(A.to_string()), compared: false },
        MetricContext { parent: None, compared: false },
    ];
    assert_eq!(contexts, expected);
    assert!(metric_contexts(&strings(&[]), &pairs, &vec![]).is_empty());
}

#[test]
fn object_ids_and_refs() {
    assert!(is_valid_oid(A));
    assert!(is_zero_oid(ZERO));
    assert!(!is_zero_oid(A));
    assert!(is_non_auxiliary_ref("refs/heads/main"));
    assert!(!is_non_auxiliary_ref("refs/notes/ai"));
}

#[test]
fn heads_come_from_the_moves_of_head() {
    let cmd = command("commit", &[], vec![change("HEAD", A, B), change("HEAD", B, C)]);
    assert_eq!(resolve_heads_for_command(&cmd), (A.to_string(), C.to_string()));
    let none = command("commit", &[], vec![]);
    assert_eq!(resolve_heads_for_command(&none), (String::new(), String::new()));
}

#[test]
fn a_steps_list_of_a_commit() {
    let cmd = applied(command("commit", &[], vec![]), vec![created(Some(A), B)]);
    assert_eq!(
        side_effect_steps(&cmd, &facts("commit", &[])),
        vec![EffectStep::Event(0), EffectStep::Sweep(SweepTrigger::PostCommit)]
    );
}

#[test]
fn a_dry_run_push_sweeps_nothing() {
    let push = || vec![SemanticEvent::PushCompleted { remote: None }];
    let mut dry = facts("push", &["--dry-run"]);
    dry.dry_run = true;
    let cmd = applied(command("push", &[], vec![]), push());
    assert_eq!(
        side_effect_steps(&cmd, &dry),
        vec![EffectStep::DetectRewrites, EffectStep::Event(0)]
    );
    assert_eq!(
        side_effect_steps(&cmd, &facts("push", &[])),
        vec![
            EffectStep::DetectRewrites,
            EffectStep::Event(0),
            EffectStep::Sweep(SweepTrigger::PostPush),
        ]
    );
}

#[test]
fn a_failed_rebase_is_only_noted() {
    let mut failed = command("rebase", &["main"], vec![change("HEAD", A, B)]);
    failed.exit_code = 1;
    assert_eq!(
        side_effect_steps(&applied(failed, vec![created(Some(A), B)]), &facts("rebase", &[])),
        vec![EffectStep::NoteStoppedRebase]
    );
    let aborted = command("rebase", &["--abort"], vec![change("HEAD", B, A)]);
    assert_eq!(
        side_effect_steps(&applied(aborted, vec![]), &facts("rebase", &["--abort"])),
        vec![EffectStep::ClearRebase]
    );
}

#[test]
fn a_stash_put_back_with_conflicts_still_counts() {
    let mut pop = command("stash", &["pop"], vec![]);
    pop.exit_code = 1;
    let event = SemanticEvent::StashOperation { kind: StashOpKind::Pop, head: None };
    assert_eq!(
        side_effect_steps(&applied(pop, vec![event]), &facts("stash", &["pop"])),
        vec![EffectStep::Event(0)]
    );
}

#[test]
fn a_checkout_that_merged_with_conflicts_still_counts() {
    let mut checkout = command("checkout", &["--merge", "other"], vec![]);
    checkout.exit_code = 1;
    assert_eq!(
        side_effect_steps(&applied(checkout, vec![]), &facts("checkout", &["--merge", "other"])),
        vec![EffectStep::Checkout]
    );
}

#[test]
fn a_pull_is_followed_forward() {
    let pull = command("pull", &[], vec![change("HEAD", A, B)]);
    let event = SemanticEvent::PullCompleted { strategy: PullStrategy::Merge };
    assert_eq!(
        side_effect_steps(&applied(pull, vec![event]), &facts("pull", &[])),
        vec![EffectStep::DetectRewrites, EffectStep::Event(0), EffectStep::PullFastForward]
    );
    let pull = command("pull", &[], vec![change("HEAD", A, B)]);
    assert_eq!(
        pull_fast_forward(&pull, &ancestry(&[(A, B)])),
        Some((A.to_string(), B.to_string()))
    );
    assert_eq!(pull_fast_forward(&pull, &ancestry(&[])), None);
}

#[test]
fn ref_updates_are_taken_up_one_by_one() {
    let update = |reference: &str| SemanticEvent::RefUpdated {
        reference: reference.to_string(),
        old: A.to_string(),
        new: B.to_string(),
    };
    let cmd = command("update-ref", &[], vec![]);
    let events = vec![update("refs/heads/main"), SemanticEvent::Other, update("HEAD")];
    assert_eq!(
        side_effect_steps(&applied(cmd, events), &facts("update-ref", &[])),
        vec![
            EffectStep::DetectRewrites,
            EffectStep::Event(0),
            EffectStep::Event(1),
            EffectStep::Event(2),
            EffectStep::RefUpdate(0),
            EffectStep::RefUpdate(2),
        ]
    );
    let cmd = command("update-ref", &[], vec![change("HEAD", A, B)]);
    let forward = ancestry(&[(A, B)]);
    let effect = ref_update_effect(&cmd, &forward, false, true, "refs/heads/main", A, B);
    assert!(matches!(effect, Some(RefUpdateEffect::Carry { post_commit: true })));
    let effect = ref_update_effect(&cmd, &forward, false, false, "HEAD", A, B);
    assert!(matches!(effect, Some(RefUpdateEffect::Carry { post_commit: false })));
    let effect = ref_update_effect(&cmd, &ancestry(&[]), false, true, "HEAD", A, B);
    assert!(matches!(effect, Some(RefUpdateEffect::NonFastForward)));
    assert!(ref_update_effect(&cmd, &forward, true, true, "HEAD", A, B).is_none());
    assert!(ref_update_effect(&cmd, &forward, false, true, "refs/tags/v1", A, B).is_none());
    assert!(ref_update_effect(&cmd, &forward, false, true, "HEAD", A, A).is_none());
}

#[test]
fn moves_of_one_ref_are_taken_together() {
    let together = collapse_changes(&vec![
        change("refs/heads/a", A, B),
        change("refs/heads/b", A, D),
        change("refs/heads/a", B, C),
    ]);
    let seen: Vec<(&str, &str, &str)> = together
        .iter()
        .map(|c| (c.reference.as_str(), c.old.as_str(), c.new.as_str()))
        .collect();
    assert_eq!(seen, vec![("refs/heads/a", A, C), ("refs/heads/b", A, D)]);
}

#[test]
fn fast_forwards_rewrite_nothing() {
    let cmd = command("merge", &[], vec![change("refs/heads/main", A, B)]);
    assert!(plan_non_ff_rewrites(&cmd, false, &None, false, &ancestry(&[(A, B)])).is_empty());
    let steps = plan_non_ff_rewrites(&cmd, false, &None, false, &ancestry(&[]));
    assert_eq!(steps.len(), 1);
    match &steps[0] {
        RewriteStep::Rewrite { old_tip, new_tip, onto, operation, reference } => {
            assert_eq!((old_tip.as_str(), new_tip.as_str()), (A, B));
            assert_eq!(onto, &None);
            assert_eq!(*operation, RewriteOperation::NonFastForward);
            assert_eq!(reference.as_deref(), Some("refs/heads/main"));
        }
        RewriteStep::Rename { .. } => panic!("not in lite mode"),
    }
}

#[test]
fn a_resumed_rebase_rewrites_from_where_it_had_started() {
    let mut pending = PendingRewrites::new();
    let mut stopped = command(
        "rebase",
        &["main"],
        vec![change("HEAD", A, B)],
    );
    stopped.exit_code = 1;
    note_stopped_rebase(&mut pending, &Some(KEY.to_string()), &stopped, &facts("rebase", &["main"]))
        .unwrap();
    let noted = pending.rebases.get(KEY).unwrap();
    assert_eq!((noted.original_head.as_str(), noted.onto.as_deref()), (A, Some(B)));

    let resumed = command(
        "rebase",
        &["--continue"],
        vec![change("HEAD", B, C), change("refs/heads/topic", A, C)],
    );
    let mut control = facts("rebase", &["--continue"]);
    control.rebase_control_mode = true;
    let known = ancestry(&[(B, C)]);
    let steps = detect_non_ff_rewrites(&mut pending, KEY, &resumed, &control, false, &known);
    assert!(pending.rebases.get(KEY).is_none());
    match &steps[..] {
        [RewriteStep::Rewrite { old_tip, new_tip, onto, operation, reference }] => {
            assert_eq!((old_tip.as_str(), new_tip.as_str()), (A, C));
            assert_eq!(onto.as_deref(), Some(B));
            assert_eq!(*operation, RewriteOperation::Rebase);
            assert_eq!(reference, &None);
        }
        _ => panic!("one rewrite"),
    }
}

#[test]
fn in_lite_mode_only_working_logs_move() {
    let pending = Some(PendingRebase { original_head: A.to_string(), onto: None });
    let resumed = command("rebase", &["--continue"], vec![change("refs/heads/topic", A, C)]);
    let steps = plan_non_ff_rewrites(&resumed, true, &pending, true, &ancestry(&[]));
    match &steps[..] {
        [RewriteStep::Rename { old_tip, new_tip }] => {
            assert_eq!((old_tip.as_str(), new_tip.as_str()), (A, C))
        }
        _ => panic!("one rename"),
    }
    let merge = command("merge", &[], vec![change("refs/heads/main", A, B)]);
    assert!(plan_non_ff_rewrites(&merge, false, &None, true, &ancestry(&[])).is_empty());
    let update = command(
        "update-ref",
        &[],
        vec![change("refs/heads/main", A, B), change("HEAD", A, B)],
    );
    let steps = plan_non_ff_rewrites(&update, false, &None, true, &ancestry(&[]));
    assert!(matches!(&steps[..], [RewriteStep::Rename { .. }]));
    let elsewhere = command("update-ref", &[], vec![change("refs/heads/other", A, B)]);
    assert!(plan_non_ff_rewrites(&elsewhere, false, &None, true, &ancestry(&[])).is_empty());
}

#[test]
fn rebases_need_a_worktree() {
    let mut pending = PendingRewrites::new();
    let cmd = command("rebase", &[], vec![]);
    let error = note_stopped_rebase(&mut pending, &None, &cmd, &facts("rebase", &[])).unwrap_err();
    assert_eq!(error.message(), "rebase side-effect state requires worktree sid=sid");
    let error = note_stopped_cherry_pick(
        &mut pending,
        &None,
        &command("cherry-pick", &[], vec![]),
        &facts("cherry-pick", &[]),
        &answers(),
        false,
    )
    .unwrap_err();
    assert_eq!(error.message(), "cherry-pick side-effect state requires worktree sid=sid");
    assert_eq!(SideEffectError::Git { reason: "no".to_string() }.message(), "no");
}

#[test]
fn an_aborted_rebase_is_forgotten() {
    let mut pending = PendingRewrites::new();
    pending.set_pending_rebase_original_head_for_worktree(KEY.to_string(), A.to_string(), None);
    let mut abort = command("rebase", &["--abort"], vec![]);
    abort.exit_code = 1;
    note_stopped_rebase(
        &mut pending,
        &Some(KEY.to_string()),
        &abort,
        &facts("rebase", &["--abort"]),
    )
    .unwrap();
    assert!(pending.take_pending_rebase_original_head_for_worktree(KEY).is_none());
}

#[test]
fn a_stopped_cherry_pick_leaves_its_rest() {
    let mut pending = PendingRewrites::new();
    let mut stopped = command("cherry-pick", &[B, C, D], vec![change("HEAD", A, ZERO)]);
    stopped.ref_changes = vec![change("HEAD", A, "1111111111111111111111111111111111111111")];
    stopped.exit_code = 1;
    stopped.cherry_pick_source_oids = strings(&[B, C, D]);
    let plan = note_stopped_cherry_pick(
        &mut pending,
        &Some(KEY.to_string()),
        &stopped,
        &facts("cherry-pick", &[B, C, D]),
        &answers(),
        false,
    )
    .unwrap();
    let rewrite = plan.rewrite.unwrap();
    assert_eq!(rewrite.original_head, A);
    assert_eq!(rewrite.sources, strings(&[B, C, D]));
    assert_eq!(rewrite.destinations, strings(&["1111111111111111111111111111111111111111"]));
    let remaining = plan.remaining.unwrap();
    assert_eq!(remaining, strings(&[C, D]));
    pending.set_pending_cherry_pick_sources_for_worktree(KEY.to_string(), remaining);

    // Skipping the one that stopped leaves the last one.
    let mut skipped = command("cherry-pick", &["--skip"], vec![]);
    skipped.exit_code = 1;
    let plan = note_stopped_cherry_pick(
        &mut pending,
        &Some(KEY.to_string()),
        &skipped,
        &facts("cherry-pick", &["--skip"]),
        &answers(),
        false,
    )
    .unwrap();
    assert!(plan.rewrite.is_none());
    assert_eq!(plan.remaining, Some(strings(&[D])));
}

fn context<'a>(
    cmd: &'a NormalizedCommand,
    facts: &'a CommandFacts,
    answers: &'a CommandAnswers,
) -> EventContext<'a> {
    EventContext { cmd, facts, answers, key: KEY, lite: false, replaying: false }
}

#[test]
fn a_squash_ends_with_the_commit_on_its_base() {
    let mut pending = PendingRewrites::new();
    let merge = command("merge", &["--squash", "topic"], vec![]);
    let merge_facts = facts("merge", &["--squash", "topic"]);
    let none = answers();
    let mut reverted = false;
    let squash =
        SemanticEvent::MergeSquash { source_head: B.to_string(), onto: A.to_string() };
    let effect =
        event_effect(&mut pending, &mut reverted, &context(&merge, &merge_facts, &none), &squash);
    assert!(effect.unwrap().is_none());

    let commit = command("commit", &[], vec![]);
    let commit_facts = facts("commit", &[]);
    let ctx = context(&commit, &commit_facts, &none);
    let elsewhere = event_effect(&mut pending, &mut reverted, &ctx, &created(Some(D), C)).unwrap();
    assert!(matches!(elsewhere, Some(SideEffect::PostCommit { .. })));
    assert!(pending.squash_merges.contains(KEY), "it is still waited for");
    match event_effect(&mut pending, &mut reverted, &ctx, &created(Some(A), C)).unwrap() {
        Some(SideEffect::SquashMerge { source_head, squash_commit, onto }) => {
            assert_eq!((source_head.as_str(), squash_commit.as_str(), onto.as_str()), (B, C, A))
        }
        _ => panic!("the squash"),
    }
    assert!(!pending.squash_merges.contains(KEY));
}

#[test]
fn commits_without_a_base_have_none() {
    let mut pending = PendingRewrites::new();
    let commit = command("commit", &[], vec![]);
    let commit_facts = facts("commit", &[]);
    let none = answers();
    let mut reverted = false;
    for base in [Some("initial"), Some(""), None] {
        let ctx = context(&commit, &commit_facts, &none);
        match event_effect(&mut pending, &mut reverted, &ctx, &created(base, C)).unwrap() {
            Some(SideEffect::PostCommit { base: None, new_head }) => assert_eq!(new_head, C),
            _ => panic!("a commit"),
        }
    }
}

#[test]
fn a_pick_without_commit_is_taken_up_by_the_commit() {
    let mut pending = PendingRewrites::new();
    let pick = command("cherry-pick", &["-n", B], vec![]);
    let pick_facts = facts("cherry-pick", &["-n", B]);
    let none = answers();
    let mut reverted = false;
    let picked = SemanticEvent::CherryPickNoCommit {
        source_commits: strings(&[B]),
        head: A.to_string(),
    };
    event_effect(&mut pending, &mut reverted, &context(&pick, &pick_facts, &none), &picked)
        .unwrap();
    let commit = command("commit", &[], vec![]);
    let commit_facts = facts("commit", &[]);
    let ctx = context(&commit, &commit_facts, &none);
    let done = event_effect(&mut pending, &mut reverted, &ctx, &created(Some(A), C)).unwrap();
    let committed = matches!(done, Some(SideEffect::PostCommit { .. }));
    match event_follow_up(&mut pending, &ctx, &created(Some(A), C), committed) {
        Some(SideEffect::PickWithoutCommit { sources, parent_head, new_head }) => {
            assert_eq!(sources, strings(&[B]));
            assert_eq!((parent_head.as_str(), new_head.as_str()), (A, C));
        }
        _ => panic!("the pick"),
    }
    assert!(pending.no_commits.is_empty());
}

#[test]
fn a_revert_is_rewritten_once() {
    let mut pending = PendingRewrites::new();
    let mut revert = command("revert", &[A], vec![change("HEAD", B, C), change("HEAD", C, D)]);
    revert.revert_source_oids = strings(&[A, B]);
    let revert_facts = facts("revert", &[A]);
    let none = answers();
    let ctx = context(&revert, &revert_facts, &none);
    let mut reverted = false;
    match event_effect(&mut pending, &mut reverted, &ctx, &created(Some(B), D)).unwrap() {
        Some(SideEffect::Revert { sources }) => assert_eq!(sources, strings(&[A, B])),
        _ => panic!("the revert"),
    }
    assert!(event_effect(&mut pending, &mut reverted, &ctx, &created(Some(C), D))
        .unwrap()
        .is_none());
    let specs = revert_specs(&revert, &strings(&[A, B]));
    let seen: Vec<(&str, Option<&str>, Option<&str>)> = specs
        .iter()
        .map(|s| (s.revert_commit.as_str(), s.parent.as_deref(), s.reverted_commit.as_deref()))
        .collect();
    assert_eq!(seen, vec![(C, Some(B), Some(A)), (D, Some(C), Some(B))]);
}

#[test]
fn replayed_commits_keep_their_notes() {
    let mut pending = PendingRewrites::new();
    let rebase = command("rebase", &["main"], vec![]);
    let rebase_facts = facts("rebase", &["main"]);
    let none = answers();
    let mut ctx = context(&rebase, &rebase_facts, &none);
    ctx.replaying = true;
    let mut reverted = false;
    assert!(event_effect(&mut pending, &mut reverted, &ctx, &created(Some(A), B))
        .unwrap()
        .is_none());
}

#[test]
fn resets_go_back_forward_or_elsewhere() {
    let mut pending = PendingRewrites::new();
    let reset = command("reset", &[], vec![]);
    let reset_facts = facts("reset", &[]);
    let mut reverted = false;
    let mut effect = |kind: ResetKind, pairs: &[(&str, &str)]| {
        let mut known = answers();
        known.ancestry = ancestry(pairs);
        let event = SemanticEvent::Reset {
            kind,
            old_head: A.to_string(),
            new_head: B.to_string(),
        };
        event_effect(
            &mut pending,
            &mut reverted,
            &context(&reset, &reset_facts, &known),
            &event,
        )
        .unwrap()
    };
    assert!(matches!(effect(ResetKind::Hard, &[]), Some(SideEffect::DeleteWorkingLog { .. })));
    assert!(matches!(
        effect(ResetKind::Soft, &[(B, A)]),
        Some(SideEffect::BackwardReset { .. })
    ));
    assert!(matches!(
        effect(ResetKind::Mixed, &[(A, B)]),
        Some(SideEffect::RenameWorkingLog { .. })
    ));
    assert!(matches!(effect(ResetKind::Mixed, &[]), Some(SideEffect::NonFastForward { .. })));
}

#[test]
fn stashes_are_made_put_back_and_dropped() {
    let mut pending = PendingRewrites::new();
    let mut cmd = command("stash", &["push", "--", "src"], vec![change("refs/stash", ZERO, B)]);
    let stash_facts = facts("stash", &["push", "--", "src"]);
    let mut known = answers();
    known.stash_bases = pairs(&[(B, A), (D, A)]);
    let mut reverted = false;
    let event = |kind| SemanticEvent::StashOperation { kind, head: Some(C.to_string()) };
    let ctx = context(&cmd, &stash_facts, &known);
    match event_effect(&mut pending, &mut reverted, &ctx, &event(StashOpKind::Push)).unwrap() {
        Some(SideEffect::CreateStash { stash, head, pathspecs }) => {
            assert_eq!((stash.as_str(), head.as_str()), (B, A));
            assert_eq!(pathspecs, strings(&["src"]));
        }
        _ => panic!("a stash"),
    }
    cmd.stash_target_oid = Some(D.to_string());
    let ctx = context(&cmd, &stash_facts, &known);
    match event_effect(&mut pending, &mut reverted, &ctx, &event(StashOpKind::Pop)).unwrap() {
        Some(SideEffect::RestoreStash { stash, pop, head }) => {
            assert_eq!((stash.as_str(), pop, head.as_deref()), (D, true, Some(C)))
        }
        _ => panic!("a pop"),
    }
    match event_effect(&mut pending, &mut reverted, &ctx, &event(StashOpKind::Branch)).unwrap() {
        Some(SideEffect::RestoreStash { pop, head, .. }) => {
            assert_eq!((pop, head.as_deref()), (false, Some(A)))
        }
        _ => panic!("a branch"),
    }
    let dropped =
        event_effect(&mut pending, &mut reverted, &ctx, &event(StashOpKind::Drop)).unwrap();
    assert!(matches!(dropped, Some(SideEffect::DropStash { .. })));
    let listed =
        event_effect(&mut pending, &mut reverted, &ctx, &event(StashOpKind::List)).unwrap();
    assert!(listed.is_none());
    assert_eq!(resolve_stash_sha(&cmd, false).as_deref(), Some(D));
}

fn asked(
    applied: &AppliedCommand,
    facts: &CommandFacts,
    pending: &PendingRewrites,
    lite: bool,
) -> Vec<(String, String)> {
    let steps = side_effect_steps(applied, facts);
    ancestry_queries(&steps, applied, facts, pending, KEY, lite)
}

#[test]
fn git_is_asked_about_every_pair_that_is_looked_up() {
    let none = PendingRewrites::new();
    let moved = command("fetch", &[], vec![change("refs/heads/m", A, B)]);
    let moved = applied(moved, vec![]);
    assert_eq!(asked(&moved, &facts("fetch", &[]), &none, false), pairs(&[(A, B)]));
    assert!(asked(&moved, &facts("fetch", &[]), &none, true).is_empty());

    let changes = || {
        vec![change("HEAD", A, C), change("HEAD", C, B), change("refs/heads/m", A, B)]
    };
    let rebase = applied(command("rebase", &["c"], changes()), vec![]);
    assert_eq!(
        asked(&rebase, &facts("rebase", &["c"]), &none, false),
        pairs(&[(A, B), (C, B)])
    );

    let mut stopped = PendingRewrites::new();
    stopped.set_pending_rebase_original_head_for_worktree(
        KEY.to_string(),
        A.to_string(),
        Some(D.to_string()),
    );
    assert_eq!(
        asked(&rebase, &facts("rebase", &["--continue"]), &stopped, false),
        pairs(&[(A, B), (C, B), (D, B)])
    );
    let other = applied(command("merge", &["c"], changes()), vec![]);
    assert_eq!(asked(&other, &facts("merge", &["c"]), &stopped, false), pairs(&[(A, B)]));
}

#[test]
fn git_is_asked_about_resets_pulls_and_refs_that_were_set() {
    let none = PendingRewrites::new();
    let reset = |kind| {
        let event = SemanticEvent::Reset { kind, old_head: A.to_string(), new_head: B.to_string() };
        applied(command("reset", &[], vec![]), vec![event])
    };
    let reset_facts = facts("reset", &[]);
    for lite in [false, true] {
        assert_eq!(
            asked(&reset(ResetKind::Mixed), &reset_facts, &none, lite),
            pairs(&[(B, A), (A, B)])
        );
        assert!(asked(&reset(ResetKind::Hard), &reset_facts, &none, lite).is_empty());
    }

    let event = SemanticEvent::PullCompleted { strategy: PullStrategy::FastForwardOnly };
    let pull = applied(command("pull", &[], vec![change("HEAD", A, B)]), vec![event]);
    assert_eq!(asked(&pull, &facts("pull", &[]), &none, true), pairs(&[(A, B)]));

    let set = |reference: &str, old: &str| SemanticEvent::RefUpdated {
        reference: reference.to_string(),
        old: old.to_string(),
        new: C.to_string(),
    };
    let events = vec![set("refs/heads/m", B), set("refs/tags/t", A), set("HEAD", ZERO)];
    let update = applied(command("update-ref", &[], vec![]), events);
    assert_eq!(asked(&update, &facts("update-ref", &[]), &none, false), pairs(&[(B, C)]));
    assert!(asked(&update, &facts("update-ref", &[]), &none, true).is_empty());
}

#[test]
fn what_is_not_asked_about_changes_nothing() {
    let changes = vec![
        change("HEAD", A, D),
        change("HEAD", D, C),
        change("HEAD", C, B),
        change("refs/heads/m", A, B),
    ];
    let cmd = command("rebase", &["c"], changes);
    let few = ancestry(&[(C, B)]);
    let more = ancestry(&[(C, B), (B, A), (D, A), (C, A), (A, C), (B, C)]);
    let plan = |known| format!("{:?}", plan_non_ff_rewrites(&cmd, false, &None, false, known));
    assert_eq!(plan(&few), plan(&more));
    assert_ne!(plan(&few), plan(&ancestry(&[])));
}

#[test]
fn each_event_is_read_from_its_own_head_and_stash() {
    let picked = |original_head: &str, sources: &[&str]| SemanticEvent::CherryPickComplete {
        original_head: original_head.to_string(),
        new_head: B.to_string(),
        source_commits: strings(sources),
        new_commits: vec![],
    };
    let named = facts("cherry-pick", &["topic"]);
    let events = vec![picked(A, &[]), picked(C, &[]), picked(A, &[]), picked(D, &[C])];
    let pick = applied(command("cherry-pick", &["topic"], vec![]), events);
    let steps = side_effect_steps(&pick, &named);
    assert_eq!(cherry_pick_heads(&steps, &pick, &named, false), strings(&[A, C]));
    assert!(cherry_pick_heads(&steps, &pick, &named, true).is_empty());
    let resumed = facts("cherry-pick", &["--continue"]);
    assert!(cherry_pick_heads(&steps, &pick, &resumed, false).is_empty());

    let mut known = answers();
    known.event_sources = vec![
        SourceAnswer { head: A.to_string(), sources: Ok(strings(&[D])) },
        SourceAnswer { head: C.to_string(), sources: Err("gone".to_string()) },
    ];
    let mut pending = PendingRewrites::new();
    let mut reverted = false;
    let ctx = context(&pick.command, &named, &known);
    match event_effect(&mut pending, &mut reverted, &ctx, &pick.events[0]).unwrap() {
        Some(SideEffect::CherryPick { sources, .. }) => assert_eq!(sources, strings(&[D])),
        _ => panic!("a cherry-pick"),
    }
    match event_effect(&mut pending, &mut reverted, &ctx, &pick.events[1]) {
        Err(error) => assert!(error.message().contains("gone")),
        Ok(_) => panic!("an error"),
    }

    let stashes = |kinds: &[StashOpKind]| {
        let event = |kind: &StashOpKind| SemanticEvent::StashOperation { kind: *kind, head: None };
        let cmd = command("stash", &[], vec![change("refs/stash", A, B)]);
        let stash = applied(cmd, kinds.iter().map(event).collect());
        stash_queries(&side_effect_steps(&stash, &facts("stash", &[])), &stash)
    };
    assert_eq!(stashes(&[StashOpKind::Push]), strings(&[B]));
    assert_eq!(stashes(&[StashOpKind::Pop, StashOpKind::Apply]), strings(&[A]));
    assert_eq!(stashes(&[StashOpKind::Branch, StashOpKind::Unknown]), strings(&[A, B]));
    assert!(stashes(&[StashOpKind::Drop, StashOpKind::List]).is_empty());
}

#[test]
fn stash_paths_are_what_is_no_option() {
    let parsed = |args: &[&str]| ParsedGitInvocation {
        global_args: vec![],
        command: Some("stash".to_string()),
        command_args: strings(args),
    };
    assert_eq!(
        stash_pathspecs_from_command(&parsed(&["push", "-m", "msg", "--", "a", "b"])),
        strings(&["a", "b"])
    );
    assert_eq!(stash_pathspecs_from_command(&parsed(&["push"])), Vec::<String>::new());
}

#[test]
fn checkouts_carry_forget_or_delete() {
    let moved = || vec![change("HEAD", A, B)];
    let plain = command("checkout", &["other"], moved());
    match checkout_effect(&plain, &facts("checkout", &["other"])) {
        Some(CheckoutEffect::Rename { old_head, new_head }) => {
            assert_eq!((old_head.as_str(), new_head.as_str()), (A, B))
        }
        _ => panic!("a rename"),
    }
    let forced = command("checkout", &["-f", "other"], moved());
    assert!(matches!(
        checkout_effect(&forced, &facts("checkout", &["-f", "other"])),
        Some(CheckoutEffect::Delete { .. })
    ));
    let merged = command("switch", &["--merge", "other"], moved());
    assert!(matches!(
        checkout_effect(&merged, &facts("switch", &["--merge", "other"])),
        Some(CheckoutEffect::CarryMerged { .. })
    ));
    match recent_checkout_switch_prerequisite_from_command(&plain, &facts("checkout", &["other"])) {
        Some(RecentReplayPrerequisite::CheckoutSwitchRename { target_head, old_head }) => {
            assert_eq!((target_head.as_str(), old_head.as_str()), (B, A))
        }
        None => panic!("a prerequisite"),
    }
}

#[test]
fn pushes_may_leave_notes_at_home() {
    assert!(push_skips_notes(&strings(&["--dry-run"]), true, false));
    assert!(push_skips_notes(&strings(&[]), false, true));
    assert!(!push_skips_notes(&strings(&["origin"]), false, false));
}

#[test]
fn times_are_noted_of_commits_that_were_made() {
    let made = command("commit", &[], vec![change("HEAD", A, B)]);
    assert_eq!(timestamp_snapshot_commit(&made, false).as_deref(), Some(B));
    let amended = command("commit", &["--amend"], vec![change("HEAD", A, B)]);
    assert_eq!(timestamp_snapshot_commit(&amended, true), None);
    assert_eq!(timestamp_snapshot_commit(&amended, false).as_deref(), Some(B));
    let other = command("merge", &[], vec![change("HEAD", A, B)]);
    assert_eq!(timestamp_snapshot_commit(&other, false), None);
}

#[test]
fn branches_are_named_in_full() {
    assert_eq!(explicit_rebase_branch_ref_name("topic").as_deref(), Some("refs/heads/topic"));
    assert_eq!(
        explicit_rebase_branch_ref_name("refs/heads/topic").as_deref(),
        Some("refs/heads/topic")
    );
    assert_eq!(explicit_rebase_branch_ref_name(A), None);
}

#[test]
fn the_base_of_a_rebase_lies_before_its_tip() {
    let cmd = command("rebase", &[], vec![change("HEAD", A, B), change("HEAD", B, C)]);
    let known = ancestry(&[(B, C)]);
    assert_eq!(rebase_onto_from_command(&cmd, &known, A, C).as_deref(), Some(B));
    assert_eq!(rebase_onto_from_command(&cmd, &ancestry(&[]), A, C), None);
}

#[test]
fn rewrites_are_counted_by_branch() {
    let cmd = command("rebase", &[], vec![change("refs/heads/topic", A, B)]);
    let branch = rewrite_metric_branch_for_transition(&cmd, A, B, &None);
    match branch {
        MetricBranch::OfReference(name) => assert_eq!(name, "refs/heads/topic"),
        other => panic!("{other:?}"),
    }
}

#[test]
fn picked_commits_follow_one_another() {
    assert_eq!(
        commit_parent_pairs(A, &strings(&[B, C])),
        vec![(B.to_string(), A.to_string()), (C.to_string(), B.to_string())]
    );
    assert_eq!(
        no_commit_mappings(&strings(&[A, B]), C),
        vec![(A.to_string(), C.to_string()), (B.to_string(), C.to_string())]
    );
}

#[test]
fn conflict_logs_are_found_by_parent() {
    assert_eq!(conflict_log_range(&Some(A.to_string()), B), Some(format!("{A}..{B}")));
    assert_eq!(conflict_log_range(&None, B), None);
    assert_eq!(conflict_log_range(&Some(String::new()), B), None);
    let log = format!("{B} {A}\n{C} {B} {D}\n{D}\n");
    let pairs = parents_in_log(&log);
    assert_eq!(
        pairs,
        vec![(B.to_string(), A.to_string()), (C.to_string(), B.to_string())]
    );
    assert_eq!(
        qualifying_diff_pairs(&pairs, &vec![false, true]),
        vec![(B.to_string(), C.to_string())]
    );
    assert_eq!(
        files_outside_pathspecs(&strings(&["src/a.rs", "docs/b.md"]), &strings(&["src"])),
        vec![false, true]
    );
}

#[test]
fn a_cherry_pick_under_way_leaves_a_file() {
    let worktree = RepoPath::parse("/repo");
    let mut files = FileSnapshot::new();
    files.add_file(RepoPath::parse("/repo/.git/HEAD"), Some("ref: refs/heads/main".to_string()));
    files.add_dir(RepoPath::parse("/repo/.git"));
    assert!(!cherry_pick_state_exists_for_worktree(&worktree, &files));
    files.add_file(RepoPath::parse("/repo/.git/CHERRY_PICK_HEAD"), Some(A.to_string()));
    assert!(cherry_pick_state_exists_for_worktree(&worktree, &files));
    assert_eq!(worktree_state_key(&RepoPath::parse("/repo/src"), &files), "/repo");
    files.add_canonical(RepoPath::parse("/repo"), RepoPath::parse("/real/repo"));
    assert_eq!(worktree_state_key(&worktree, &files), "/real/repo");
}

#[test]
fn sources_are_ranges_or_single_commits() {
    assert!(cherry_pick_source_is_range("a..b"));
    assert!(!cherry_pick_source_is_range("a"));
    assert!(cherry_pick_range_has_omitted_side("..b"));
    assert!(cherry_pick_range_has_omitted_side("a.."));
    assert!(!cherry_pick_range_has_omitted_side("a..b"));
    assert_eq!(rewrite_head_source_arg_for_side_effect("HEAD~2", A), format!("{A}~2"));
    assert_eq!(rewrite_head_source_arg_for_side_effect("main", A), "main");
    assert_eq!(
        rewrite_head_source_arg_for_side_effect("HEAD~3..HEAD", A),
        format!("{A}~3..{A}")
    );
    let queries = source_queries(&strings(&["HEAD~1", "a..b"]), &Some(A.to_string()));
    match &queries[..] {
        [SourceQuery::Single(one), SourceQuery::Range(range)] => {
            assert_eq!(one, &format!("{A}~1^{{commit}}\n"));
            assert_eq!(range, "a..b");
        }
        other => panic!("{other:?}"),
    }
}

#[test]
fn answers_name_commits_once() {
    assert_eq!(commits_in_range_answer(&format!("{A}\n{B}\n")), strings(&[A, B]));
    assert_eq!(commits_in_type_answer(&format!("{A} commit\n")), strings(&[A]));
    assert!(commits_in_type_answer(&format!("{A} tree\n")).is_empty());
    assert_eq!(
        resolved_sources(&vec![strings(&[A, B]), strings(&[B, C])]),
        strings(&[A, B, C])
    );
}

#[test]
fn source_arguments_depend_on_the_command() {
    let pick = command("cherry-pick", &["-x", B], vec![]);
    let parsed = facts("cherry-pick", &["-x", B]).parsed;
    assert_eq!(cherry_pick_source_args_for_side_effect(&pick, &parsed), strings(&[B]));
    assert!(revert_source_args_for_side_effect(&pick, &parsed).is_empty());
    assert!(cherry_pick_command_has_flag(&pick, &parsed, "-x"));
    assert!(!cherry_pick_command_has_flag(&pick, &parsed, "--skip"));
    let parsed = parsed_invocation_for_normalized_command(&pick, facts("x", &[]).parsed);
    assert_eq!(parsed.command.as_deref(), Some("cherry-pick"));
    assert_eq!(parsed.command_args, strings(&["-x", B]));
}

#[test]
fn live_cherry_picks_survive_a_cleanup() {
    let mut pending = PendingRewrites::new();
    pending.set_pending_cherry_pick_sources_for_worktree("w".to_string(), strings(&[A]));
    pending.set_pending_cherry_pick_sources_for_worktree("e".to_string(), vec![]);
    pending.set_pending_squash_merge_for_worktree("s".to_string(), B.to_string(), A.to_string());
    pending.drop_stale();
    assert_eq!(pending.pending_cherry_pick_sources_for_worktree("w"), strings(&[A]));
    assert!(pending.pending_cherry_pick_sources_for_worktree("e").is_empty());
    assert_eq!(pending.take_pending_cherry_pick_sources_for_worktree("w"), strings(&[A]));
    assert!(pending.take_pending_cherry_pick_sources_for_worktree("w").is_empty());
    assert!(pending.take_pending_squash_merge_for_worktree("s").is_some());
}
