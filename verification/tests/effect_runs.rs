//! Taking the steps that follow from a command.
use git_ai_daemon::commands::{
    AppliedCommand, CommandFacts, NormalizedCommand, RefChange, SemanticEvent, StashOpKind,
};
use git_ai_daemon::effect_run::{EffectRun, RunAction, RunEvent, RunPhase};
use git_ai_daemon::effects::ReplayPrerequisites;
use git_ai_daemon::event_effects::{CheckoutEffect, EventContext, RefUpdateEffect, SideEffect};
use git_ai_daemon::pending::PendingRewrites;
use git_ai_daemon::rewrite::{Ancestry, RewriteOperation, RewriteStep};
use git_ai_daemon::side_effects::{is_replaying, CommandAnswers, SweepTrigger};
use git_ai_daemon::trace::ParsedGitInvocation;

const KEY: &str = "/repo";
const A: &str = "aaaaaaaaaaaaaaaaaaaaaaaaaaaaaaaaaaaaaaaa";
const B: &str = "bbbbbbbbbbbbbbbbbbbbbbbbbbbbbbbbbbbbbbbb";
const C: &str = "cccccccccccccccccccccccccccccccccccccccc";
const D: &str = "dddddddddddddddddddddddddddddddddddddddd";

fn strings(list: &[&str]) -> Vec<String> {
    list.iter().map(|s| s.to_string()).collect()
}

fn change(reference: &str, old: &str, new: &str) -> RefChange {
    RefChange { reference: reference.to_string(), old: old.to_string(), new: new.to_string() }
}

fn command(name: &str, args: &[&str], ref_changes: Vec<RefChange>) -> NormalizedCommand {
    NormalizedCommand {
        family_key: Some("family".to_string()),
        worktree: Some("/repo".to_string()),
        root_sid: "root".to_string(),
        raw_argv: vec![],
        primary_command: Some(name.to_string()),
        invoked_command: Some(name.to_string()),
        invoked_args: strings(args),
        exit_code: 0,
        started_at_ns: 1,
        finished_at_ns: 2,
        stash_target_oid: None,
        cherry_pick_source_oids: vec![],
        revert_source_oids: vec![],
        ref_changes,
    }
}

fn facts(name: &str, args: &[&str]) -> CommandFacts {
    CommandFacts {
        parsed: ParsedGitInvocation {
            global_args: vec![],
            command: Some(name.to_string()),
            command_args: strings(args),
        },
        pathspecs: vec![],
        rebase_control_mode: false,
        rebase_branch_arg: None,
        dry_run: false,
    }
}

fn answers(pairs: &[(&str, &str)]) -> CommandAnswers {
    CommandAnswers {
        ancestry: Ancestry {
            pairs: pairs.iter().map(|(a, b)| (a.to_string(), b.to_string())).collect(),
        },
        explicit_sources: Ok(vec![]),
        event_sources: vec![],
        revert_sources: Ok(vec![]),
        cherry_pick_under_way: false,
        stash_bases: vec![],
    }
}

fn created(base: &str, new_head: &str) -> SemanticEvent {
    SemanticEvent::CommitCreated { base: Some(base.to_string()), new_head: new_head.to_string() }
}

/// Runs what follows from a command to its end; the action at `failing` fails.
fn run_all(
    applied: &AppliedCommand,
    facts: &CommandFacts,
    answers: &CommandAnswers,
    pending: &mut PendingRewrites,
    kept: &mut ReplayPrerequisites,
    failing: Option<usize>,
) -> (Vec<String>, Result<(), String>) {
    let ctx = EventContext {
        cmd: &applied.command,
        facts,
        answers,
        key: KEY,
        lite: false,
        replaying: is_replaying(applied),
    };
    let mut run = EffectRun::new(applied, facts);
    let mut seen: Vec<String> = vec![];
    let mut event = RunEvent::Go;
    loop {
        let action = run.step(pending, kept, "family", applied, &ctx, event);
        event = match action {
            RunAction::Next => {
                event = RunEvent::Go;
                continue;
            }
            RunAction::Finish(result) => {
                assert_eq!(run.phase, RunPhase::Over);
                return (seen, result);
            }
            RunAction::AskLog { head } => {
                seen.push(format!("ask {}", &head[..1]));
                event = RunEvent::Log(true);
                continue;
            }
            RunAction::Rewrite(step) => {
                seen.push(match step {
                    RewriteStep::Rename { old_tip, new_tip } => {
                        format!("rename {}{}", &old_tip[..1], &new_tip[..1])
                    }
                    RewriteStep::Rewrite { old_tip, new_tip, operation, .. } => {
                        let rebase = operation == RewriteOperation::Rebase;
                        format!("rewrite {}{} {}", &old_tip[..1], &new_tip[..1], rebase)
                    }
                });
                RunEvent::Done
            }
            RunAction::Pick(picked) => {
                seen.push(format!("pick {}", picked.sources.len()));
                RunEvent::Done
            }
            RunAction::Effect(effect) => {
                seen.push(
                    match effect {
                        SideEffect::PostCommit { .. } => "post-commit",
                        SideEffect::PickWithoutCommit { .. } => "take the pick in",
                        SideEffect::RestoreStash { .. } => "restore",
                        SideEffect::SquashMerge { .. } => "squash",
                        _ => "other",
                    }
                    .to_string(),
                );
                RunEvent::Done
            }
            RunAction::CheckOut(effect) => {
                let renamed = matches!(effect, CheckoutEffect::Rename { .. });
                seen.push(format!("check out {}", renamed));
                RunEvent::Done
            }
            RunAction::Carry { old_head, new_head } => {
                seen.push(format!("carry {}{}", &old_head[..1], &new_head[..1]));
                RunEvent::Done
            }
            RunAction::UpdateRef { effect, .. } => {
                seen.push(
                    match effect {
                        RefUpdateEffect::Carry { post_commit: true } => "carry with a look",
                        RefUpdateEffect::Carry { post_commit: false } => "carry",
                        RefUpdateEffect::NonFastForward => "rewrite",
                    }
                    .to_string(),
                );
                RunEvent::Done
            }
            RunAction::Sweep(trigger) => {
                seen.push(format!("sweep {}", trigger == SweepTrigger::PostCommit));
                RunEvent::Done
            }
        };
        if failing == Some(seen.len() - 1) {
            event = RunEvent::Failed("it broke".to_string());
        }
    }
}

fn run(applied: &AppliedCommand, facts: &CommandFacts, answers: &CommandAnswers) -> Vec<String> {
    let mut pending = PendingRewrites::new();
    let mut kept = ReplayPrerequisites::new();
    let (seen, result) = run_all(applied, facts, answers, &mut pending, &mut kept, None);
    assert_eq!(result, Ok(()));
    seen
}

#[test]
fn a_commit_is_looked_at_and_then_swept() {
    let applied =
        AppliedCommand { command: command("commit", &[], vec![]), seq: 1, events: vec![created(A, B)] };
    assert_eq!(
        run(&applied, &facts("commit", &[]), &answers(&[])),
        strings(&["post-commit", "sweep true"]),
    );
}

#[test]
fn a_commit_takes_a_pick_in_once_it_was_looked_at() {
    let mut pending = PendingRewrites::new();
    let mut kept = ReplayPrerequisites::new();
    pending.set_pending_cherry_pick_no_commit_for_worktree(
        KEY.to_string(),
        strings(&[D]),
        A.to_string(),
    );
    let applied =
        AppliedCommand { command: command("commit", &[], vec![]), seq: 1, events: vec![created(A, B)] };
    let commit = facts("commit", &[]);
    let none = answers(&[]);
    let (seen, result) = run_all(&applied, &commit, &none, &mut pending, &mut kept, Some(0));
    assert_eq!(seen, strings(&["post-commit"]));
    assert_eq!(result, Err("it broke".to_string()));
    assert!(pending.no_commits.contains(KEY), "a commit that failed takes nothing in");
    let (seen, result) = run_all(&applied, &commit, &none, &mut pending, &mut kept, None);
    assert_eq!(seen, strings(&["post-commit", "take the pick in", "sweep true"]));
    assert_eq!(result, Ok(()));
    assert!(!pending.no_commits.contains(KEY));
}

#[test]
fn a_failed_run_does_nothing_more() {
    let applied =
        AppliedCommand { command: command("commit", &[], vec![]), seq: 1, events: vec![created(A, B)] };
    let commit = facts("commit", &[]);
    let none = answers(&[]);
    let ctx = EventContext {
        cmd: &applied.command,
        facts: &commit,
        answers: &none,
        key: KEY,
        lite: false,
        replaying: false,
    };
    let mut pending = PendingRewrites::new();
    let mut kept = ReplayPrerequisites::new();
    let mut run = EffectRun::new(&applied, &commit);
    let first = run.step(&mut pending, &mut kept, "family", &applied, &ctx, RunEvent::Go);
    assert!(matches!(first, RunAction::Effect(SideEffect::PostCommit { .. })));
    let early = run.step(&mut pending, &mut kept, "family", &applied, &ctx, RunEvent::Log(true));
    assert!(matches!(early, RunAction::Next), "out of turn");
    let failed = RunEvent::Failed("no".to_string());
    let ended = run.step(&mut pending, &mut kept, "family", &applied, &ctx, failed);
    assert!(matches!(ended, RunAction::Finish(Err(ref words)) if words == "no"));
    for event in [RunEvent::Go, RunEvent::Done, RunEvent::Log(false)] {
        let after = run.step(&mut pending, &mut kept, "family", &applied, &ctx, event);
        assert!(matches!(after, RunAction::Next));
    }
    assert_eq!(run.begun, 1);
}

#[test]
fn a_rebase_rewrites_every_branch_it_moved() {
    let moves = vec![
        change("refs/heads/one", A, B),
        change("refs/heads/two", C, D),
        change("HEAD", A, B),
    ];
    let applied = AppliedCommand { command: command("rebase", &["main"], moves), seq: 1, events: vec![] };
    let seen = run(&applied, &facts("rebase", &["main"]), &answers(&[]));
    assert_eq!(seen, strings(&["rewrite ab true", "rewrite cd true"]));
}

#[test]
fn a_rebase_without_a_worktree_cannot_be_noted() {
    let mut stopped = command("rebase", &["main"], vec![change("HEAD", A, B)]);
    stopped.exit_code = 1;
    stopped.worktree = None;
    let applied = AppliedCommand { command: stopped, seq: 1, events: vec![] };
    let mut pending = PendingRewrites::new();
    let mut kept = ReplayPrerequisites::new();
    let (seen, result) = run_all(
        &applied,
        &facts("rebase", &["main"]),
        &answers(&[]),
        &mut pending,
        &mut kept,
        None,
    );
    assert!(seen.is_empty());
    assert_eq!(result, Err("rebase side-effect state requires worktree sid=root".to_string()));
}

#[test]
fn what_a_stopped_pick_left_is_noted_behind_the_rewrite() {
    let mut stopped = command("cherry-pick", &[A, D], vec![change("HEAD", B, C)]);
    stopped.exit_code = 1;
    stopped.cherry_pick_source_oids = strings(&[A, D]);
    let applied = AppliedCommand { command: stopped, seq: 1, events: vec![] };
    let mut pending = PendingRewrites::new();
    let mut kept = ReplayPrerequisites::new();
    let pick = facts("cherry-pick", &[A, D]);
    let none = answers(&[]);
    let (_, result) = run_all(&applied, &pick, &none, &mut pending, &mut kept, Some(0));
    assert!(result.is_err());
    assert!(!pending.cherry_picks.contains(KEY), "the rewrite failed");
    let (seen, result) = run_all(&applied, &pick, &none, &mut pending, &mut kept, None);
    assert_eq!((seen, result), (strings(&["pick 2"]), Ok(())));
    assert_eq!(pending.pending_cherry_pick_sources_for_worktree(KEY), strings(&[D]));
}

#[test]
fn a_switch_is_remembered_and_carries_the_log() {
    let moved = command("switch", &["topic"], vec![change("HEAD", A, B)]);
    let applied = AppliedCommand { command: moved, seq: 1, events: vec![] };
    let mut pending = PendingRewrites::new();
    let mut kept = ReplayPrerequisites::new();
    let (seen, result) = run_all(
        &applied,
        &facts("switch", &["topic"]),
        &answers(&[]),
        &mut pending,
        &mut kept,
        None,
    );
    assert_eq!((seen, result), (strings(&["check out true"]), Ok(())));
    assert!(kept.by_family.contains("family"));
}

#[test]
fn a_pull_that_went_forward_carries_the_log() {
    let moved = command("pull", &[], vec![change("HEAD", A, B)]);
    let strategy = git_ai_daemon::commands::PullStrategy::Merge;
    let events = vec![SemanticEvent::PullCompleted { strategy }];
    let applied = AppliedCommand { command: moved, seq: 1, events };
    assert_eq!(
        run(&applied, &facts("pull", &[]), &answers(&[(A, B)])),
        strings(&["other", "carry ab"]),
    );
}

#[test]
fn a_ref_that_was_set_carries_the_log_or_rewrites_history() {
    let moved = |old: &str, new: &str| {
        let events = vec![SemanticEvent::RefUpdated {
            reference: "HEAD".to_string(),
            old: old.to_string(),
            new: new.to_string(),
        }];
        let cmd = command("update-ref", &["HEAD", new], vec![change("HEAD", old, new)]);
        AppliedCommand { command: cmd, seq: 1, events }
    };
    let set = facts("update-ref", &[]);
    assert_eq!(
        run(&moved(A, B), &set, &answers(&[(A, B)])),
        strings(&["ask a", "carry with a look"]),
    );
    assert_eq!(
        run(&moved(C, D), &set, &answers(&[])),
        strings(&["rewrite cd false", "ask c", "rewrite"]),
    );
}

#[test]
fn a_stash_that_came_back_with_conflicts_is_restored() {
    let mut pop = command("stash", &["pop"], vec![]);
    pop.exit_code = 1;
    pop.stash_target_oid = Some(D.to_string());
    let events = vec![SemanticEvent::StashOperation { kind: StashOpKind::Pop, head: None }];
    let applied = AppliedCommand { command: pop, seq: 1, events };
    assert_eq!(run(&applied, &facts("stash", &["pop"]), &answers(&[])), strings(&["restore"]));
}
