//! Taking the steps that follow from a command, one by one: what is to be done next, and
//! what is noted once it is done.
use crate::commands::{AppliedCommand, CommandFacts, NormalizedCommand, SemanticEvent};
use crate::effects::{newest, ReplayPrerequisites, MAX_RECENT_REPLAY_PREREQUISITES_PER_FAMILY};
use crate::event_effects::{
    checkout_effect, checks_out_paths, counts_ref_update, event_effect, event_follow_up,
    event_outcome, follow_up_of, moves_head, moves_what_is_checked_out, new_head_of, old_head_of,
    only_carries, pending_after, pending_after_done, pull_fast_forward,
    recent_checkout_switch_prerequisite_from_command, ref_update_effect, revert_handled_after,
    CheckoutEffect, EventContext, RecentReplayPrerequisite, RefUpdateEffect, SideEffect,
};
use crate::pending::{pending_sources, PendingRewrites};
use crate::rewrite::{rewrite_steps_of, steps_view, RewriteStep, StepModel};
use crate::side_effects::{
    aborts_rebase, asks_for_sources, detect_non_ff_rewrites, detects, event_steps, first_steps,
    has_arg, last_steps, note_stopped_cherry_pick, note_stopped_rebase, rebase_like, rebase_noted,
    ref_update_steps, side_effect_steps, some_event, step_if, steps_of, stopped_plan,
    stopped_sources, switches, CherryPickRewrite, EffectStep, EventTest, SideEffectError,
    StoppedCherryPick, SweepTrigger,
};
use crate::sources::calls;
use crate::text::views;
use vstd::prelude::*;

verus! {

/// What a run waits for.
#[derive(Debug, Clone, Copy, PartialEq, Eq, Structural)]
pub enum RunPhase {
    /// To be sent on.
    Ready,
    /// A rewrite of history to be done.
    Rewriting,
    /// Picked commits to be rewritten.
    Picking,
    /// What the event at this place came to to be done; `committed` says whether that is
    /// to look at a commit for who wrote it.
    Effecting { event: usize, committed: bool },
    /// Word on whether there is a working log for the ref update at this place.
    Asking { event: usize },
    /// The last thing of a step to be done.
    Finishing,
    /// Nothing.
    Over,
}

/// What happened to a run.
#[derive(Debug)]
pub enum RunEvent {
    /// It is sent on.
    Go,
    /// What it asked for was done.
    Done,
    /// What it asked for could not be done.
    Failed(String),
    /// Whether there is a working log.
    Log(bool),
}

/// What a run asks for.
#[derive(Debug)]
pub enum RunAction {
    /// Nothing; it is to be sent on.
    Next,
    Rewrite(RewriteStep),
    Pick(CherryPickRewrite),
    Effect(SideEffect),
    CheckOut(CheckoutEffect),
    /// Carry the working log over.
    Carry { old_head: String, new_head: String },
    /// Say whether there is a working log.
    AskLog { head: String },
    UpdateRef { effect: RefUpdateEffect, old: String, new: String },
    Sweep(SweepTrigger),
    /// It is over.
    Finish(Result<(), String>),
}

/// The steps that follow from a command while they are taken.
#[derive(Debug)]
pub struct EffectRun {
    pub steps: Vec<EffectStep>,
    /// How many of them were begun.
    pub begun: usize,
    pub phase: RunPhase,
    /// The rewrites of the step that are still to be done.
    pub rewrites: Vec<RewriteStep>,
    /// What a cherry-pick that stopped has still to apply.
    pub remaining: Option<Vec<String>>,
    /// Whether the commits of a revert were taken up.
    pub revert_handled: bool,
}

/// Whether a step speaks of one of so many events.
pub open spec fn step_fits(step: EffectStep, events: nat) -> bool {
    match step {
        EffectStep::Event(i) => i < events,
        EffectStep::RefUpdate(i) => i < events,
        _ => true,
    }
}

/// Whether nothing that is unfinished was touched.
pub open spec fn keeps(before: PendingRewrites, after: PendingRewrites) -> bool {
    after.rebases@ == before.rebases@ && after.cherry_picks@ == before.cherry_picks@
        && after.no_commits@ == before.no_commits@ && after.squash_merges@ == before.squash_merges@
}

/// The rewrites of history that a command comes to.
pub open spec fn rewrites_of(ctx: EventContext, pending: PendingRewrites) -> Seq<StepModel> {
    if ctx.cmd.worktree is None {
        Seq::empty()
    } else {
        rewrite_steps_of(
            *ctx.cmd,
            ctx.facts.rebase_control_mode,
            if ctx.cmd.primary() == Some("rebase"@) && pending.rebases@.contains_key(ctx.key@) {
                Some(pending.rebases@[ctx.key@])
            } else {
                None
            },
            ctx.lite,
            ctx.answers.ancestry,
        )
    }
}

/// Whether a cherry-pick is resumed, or skips a commit.
pub open spec fn is_resumed(ctx: EventContext) -> bool {
    let args = views(ctx.facts.parsed.command_args@);
    calls(*ctx.cmd, ctx.facts.parsed, "cherry-pick"@) && (args.contains("--skip"@)
        || args.contains("--continue"@))
}

/// Whether a cherry-pick skips a commit.
pub open spec fn is_skipping(ctx: EventContext) -> bool {
    calls(*ctx.cmd, ctx.facts.parsed, "cherry-pick"@) && views(
        ctx.facts.parsed.command_args@,
    ).contains("--skip"@)
}

/// Whether a plan for a cherry-pick that stopped is the right one for the command.
pub open spec fn is_stopped_plan(
    plan: StoppedCherryPick,
    ctx: EventContext,
    pending: PendingRewrites,
) -> bool {
    if ctx.lite || has_arg(*ctx.cmd, "--abort"@) {
        plan.rewrite is None && plan.remaining is None
    } else {
        stopped_plan(
            plan,
            *ctx.cmd,
            stopped_sources(
                *ctx.cmd,
                views(ctx.answers.explicit_sources->Ok_0@),
                ctx.answers.cherry_pick_under_way,
                is_resumed(ctx),
                pending_sources(pending, ctx.key@),
            ),
            is_resumed(ctx),
            is_skipping(ctx),
        )
    }
}

/// Why what a cherry-pick that stopped left cannot be noted.
pub open spec fn stopped_pick_error(ctx: EventContext) -> Option<SideEffectError> {
    if ctx.cmd.worktree is None {
        Some(SideEffectError::CherryPickWithoutWorktree { sid: ctx.cmd.root_sid })
    } else if !has_arg(*ctx.cmd, "--abort"@) && !ctx.lite && asks_for_sources(
        *ctx.cmd,
        ctx.answers.cherry_pick_under_way,
    ) && ctx.answers.explicit_sources is Err {
        Some(SideEffectError::Git { reason: ctx.answers.explicit_sources->Err_0 })
    } else {
        None
    }
}

/// The picks that are unfinished once the ones left over were noted.
pub open spec fn picks_left(
    before: Map<Seq<char>, Vec<String>>,
    key: Seq<char>,
    remaining: Option<Vec<String>>,
) -> Map<Seq<char>, Vec<String>> {
    match remaining {
        None => before,
        Some(left) => if left@.len() == 0 {
            before.remove(key)
        } else {
            before.insert(key, left)
        },
    }
}

/// Whether a run ended with these words.
pub open spec fn ends_with_words(r: RunAction, words: Seq<char>) -> bool {
    r matches RunAction::Finish(Err(e)) && e@ == words
}

/// Where a run stands: its phase and what it holds back.
pub open spec fn stands(run: EffectRun, phase: RunPhase) -> bool {
    run.phase == phase && run.rewrites@.len() == 0 && run.remaining is None
}

/// What the step that looks for rewritten history does.
pub open spec fn detected(
    ctx: EventContext,
    before: PendingRewrites,
    after: PendingRewrites,
    run: EffectRun,
    r: RunAction,
) -> bool {
    let found = rewrites_of(ctx, before);
    &&& after.rebases@ == if ctx.cmd.worktree is Some && ctx.cmd.primary() == Some("rebase"@) {
        before.rebases@.remove(ctx.key@)
    } else {
        before.rebases@
    }
    &&& after.cherry_picks == before.cherry_picks
    &&& after.no_commits == before.no_commits
    &&& after.squash_merges == before.squash_merges
    &&& if found.len() == 0 {
        r is Next && stands(run, RunPhase::Ready)
    } else {
        &&& r matches RunAction::Rewrite(step) && step@ == found[0]
        &&& run.phase == RunPhase::Rewriting
        &&& steps_view(run.rewrites@) == found.skip(1)
        &&& run.remaining is None
    }
}

/// What the step that notes a rebase that stopped does.
pub open spec fn noted_stopped_rebase(
    ctx: EventContext,
    before: PendingRewrites,
    after: PendingRewrites,
    run: EffectRun,
    r: RunAction,
) -> bool {
    &&& after.cherry_picks == before.cherry_picks
    &&& after.no_commits == before.no_commits
    &&& after.squash_merges == before.squash_merges
    &&& if ctx.cmd.worktree is None {
        &&& ends_with_words(
            r,
            (SideEffectError::RebaseWithoutWorktree { sid: ctx.cmd.root_sid }).words(),
        )
        &&& stands(run, RunPhase::Over)
        &&& after.rebases == before.rebases
    } else {
        &&& r is Next
        &&& stands(run, RunPhase::Ready)
        &&& rebase_noted(before.rebases@, after.rebases@, ctx.key@, *ctx.cmd, *ctx.facts)
    }
}

/// What the step that notes a cherry-pick that stopped does: the commits that it did
/// apply are rewritten before what is left is noted.
pub open spec fn noted_stopped_pick(
    ctx: EventContext,
    before: PendingRewrites,
    after: PendingRewrites,
    run: EffectRun,
    r: RunAction,
) -> bool {
    let aborted = has_arg(*ctx.cmd, "--abort"@);
    &&& after.rebases == before.rebases
    &&& after.squash_merges == before.squash_merges
    &&& match stopped_pick_error(ctx) {
        Some(error) => ends_with_words(r, error.words()) && stands(run, RunPhase::Over) && keeps(
            before,
            after,
        ),
        None => exists|plan: StoppedCherryPick| #[trigger]
            is_stopped_plan(plan, ctx, before) && {
                &&& after.no_commits@ == if aborted {
                    before.no_commits@.remove(ctx.key@)
                } else {
                    before.no_commits@
                }
                &&& match plan.rewrite {
                    Some(picked) => {
                        &&& r == RunAction::Pick(picked)
                        &&& run.phase == RunPhase::Picking
                        &&& run.rewrites@.len() == 0
                        &&& run.remaining == plan.remaining
                        &&& after.cherry_picks@ == before.cherry_picks@
                    },
                    None => {
                        &&& r is Next
                        &&& stands(run, RunPhase::Ready)
                        &&& after.cherry_picks@ == if aborted {
                            before.cherry_picks@.remove(ctx.key@)
                        } else {
                            picks_left(before.cherry_picks@, ctx.key@, plan.remaining)
                        }
                    },
                }
            },
    }
}

/// What the step that takes an event up does.
pub open spec fn event_taken(
    ctx: EventContext,
    event: SemanticEvent,
    place: usize,
    handled: bool,
    before: PendingRewrites,
    after: PendingRewrites,
    run: EffectRun,
    r: RunAction,
) -> bool {
    &&& pending_after(before, after, ctx, event)
    &&& run.revert_handled == revert_handled_after(handled, before, ctx, event)
    &&& match event_outcome(before, handled, ctx, event) {
        Err(error) => ends_with_words(r, error.words()) && stands(run, RunPhase::Over),
        Ok(Some(effect)) => {
            &&& r matches RunAction::Effect(it) && it@ == effect
            &&& stands(
                run,
                RunPhase::Effecting { event: place, committed: effect is PostCommit },
            )
        },
        Ok(None) => r is Next && stands(
            run,
            RunPhase::Effecting { event: place, committed: false },
        ),
    }
}

/// What is kept of the branch switches of a family.
pub open spec fn switch_noted(
    before: ReplayPrerequisites,
    after: ReplayPrerequisites,
    family: Seq<char>,
    ctx: EventContext,
) -> bool {
    if only_carries(*ctx.cmd, *ctx.facts) {
        &&& forall|other: Seq<char>|
            other != family ==> #[trigger] after.entries(other) == before.entries(other)
        &&& exists|noted: RecentReplayPrerequisite|
            {
                &&& #[trigger] says_switch(noted, *ctx.cmd)
                &&& after.entries(family) == newest(
                    before.entries(family).push(noted),
                    MAX_RECENT_REPLAY_PREREQUISITES_PER_FAMILY as nat,
                )
            }
    } else {
        after == before
    }
}

/// Whether a note says from where to where a branch switch went.
pub open spec fn says_switch(noted: RecentReplayPrerequisite, cmd: NormalizedCommand) -> bool {
    match noted {
        RecentReplayPrerequisite::CheckoutSwitchRename { target_head, old_head } => target_head@
            == new_head_of(cmd) && old_head@ == old_head_of(cmd),
    }
}

/// Whether a branch switch does this to the working log.
pub open spec fn says_checkout(effect: CheckoutEffect, ctx: EventContext) -> bool {
    let cmd = *ctx.cmd;
    let facts = *ctx.facts;
    let paths = checks_out_paths(cmd, facts);
    let forced = crate::event_effects::forces(cmd, facts);
    let merged = crate::side_effects::asks_merge(facts);
    match effect {
        CheckoutEffect::ForgetPaths { head, pathspecs } => paths && head@ == old_head_of(cmd)
            && pathspecs@ == facts.pathspecs@,
        CheckoutEffect::Delete { head } => !paths && forced && head@ == old_head_of(cmd),
        CheckoutEffect::CarryMerged { old_head, new_head } => !paths && !forced && merged
            && old_head@ == old_head_of(cmd) && new_head@ == new_head_of(cmd),
        CheckoutEffect::Rename { old_head, new_head } => !paths && !forced && !merged && old_head@
            == old_head_of(cmd) && new_head@ == new_head_of(cmd),
    }
}

/// Whether a branch switch does anything to the working log.
pub open spec fn has_checkout_effect(ctx: EventContext) -> bool {
    ctx.cmd.worktree is Some && if checks_out_paths(*ctx.cmd, *ctx.facts) {
        old_head_of(*ctx.cmd).len() > 0
    } else {
        moves_head(*ctx.cmd)
    }
}

/// What a step does.
pub open spec fn step_taken(
    step: EffectStep,
    applied: AppliedCommand,
    ctx: EventContext,
    family: Seq<char>,
    handled: bool,
    pending: (PendingRewrites, PendingRewrites),
    kept: (ReplayPrerequisites, ReplayPrerequisites),
    run: EffectRun,
    r: RunAction,
) -> bool {
    let (before, after) = pending;
    &&& step is Checkout || kept.1 == kept.0
    &&& step is Event || run.revert_handled == handled
    &&& match step {
        EffectStep::ClearRebase => {
            &&& r is Next
            &&& stands(run, RunPhase::Ready)
            &&& after.rebases@ == before.rebases@.remove(ctx.key@)
            &&& after.cherry_picks == before.cherry_picks
            &&& after.no_commits == before.no_commits
            &&& after.squash_merges == before.squash_merges
        },
        EffectStep::DetectRewrites => detected(ctx, before, after, run, r),
        EffectStep::NoteStoppedRebase => noted_stopped_rebase(ctx, before, after, run, r),
        EffectStep::NoteStoppedCherryPick => noted_stopped_pick(ctx, before, after, run, r),
        EffectStep::Event(i) => event_taken(
            ctx,
            applied.events@[i as int],
            i,
            handled,
            before,
            after,
            run,
            r,
        ),
        EffectStep::Checkout => {
            &&& after == before
            &&& switch_noted(kept.0, kept.1, family, ctx)
            &&& if has_checkout_effect(ctx) {
                &&& r matches RunAction::CheckOut(effect) && says_checkout(effect, ctx)
                &&& stands(run, RunPhase::Finishing)
            } else {
                r is Next && stands(run, RunPhase::Ready)
            }
        },
        EffectStep::PullFastForward => {
            let (old, new) = (old_head_of(*ctx.cmd), new_head_of(*ctx.cmd));
            &&& after == before
            &&& if moves_head(*ctx.cmd) && ctx.answers.ancestry.holds(old, new) {
                &&& r matches RunAction::Carry { old_head, new_head } && old_head@ == old
                    && new_head@ == new
                &&& stands(run, RunPhase::Finishing)
            } else {
                r is Next && stands(run, RunPhase::Ready)
            }
        },
        EffectStep::RefUpdate(i) => {
            &&& after == before
            &&& match applied.events@[i as int] {
                SemanticEvent::RefUpdated { old, .. } => {
                    &&& r matches RunAction::AskLog { head } && head@ == old@
                    &&& stands(run, RunPhase::Asking { event: i })
                },
                _ => r is Next && stands(run, RunPhase::Ready),
            }
        },
        EffectStep::Sweep(trigger) => {
            &&& after == before
            &&& r == RunAction::Sweep(trigger)
            &&& stands(run, RunPhase::Finishing)
        },
    }
}

/// Whether all steps speak of some of so many events.
pub open spec fn all_fit(steps: Seq<EffectStep>, events: nat) -> bool {
    forall|k: int| 0 <= k < steps.len() ==> step_fits(#[trigger] steps[k], events)
}

/// Whether this is asked for once it is known whether a ref that was set has a working log.
pub open spec fn ref_update_answered(
    ctx: EventContext,
    event: SemanticEvent,
    has_log: bool,
    run: EffectRun,
    r: RunAction,
) -> bool {
    match event {
        SemanticEvent::RefUpdated { reference, old, new } => {
            let counts = counts_ref_update(ctx.lite, reference@, old@, new@);
            let forward = ctx.answers.ancestry.holds(old@, new@);
            let moved = moves_what_is_checked_out(*ctx.cmd, reference@, old@, new@);
            if !counts || forward && !moved {
                r is Next && stands(run, RunPhase::Ready)
            } else {
                &&& r matches RunAction::UpdateRef { effect, old: from, new: to } && from@ == old@
                    && to@ == new@ && effect == if forward {
                    RefUpdateEffect::Carry { post_commit: has_log }
                } else {
                    RefUpdateEffect::NonFastForward
                }
                &&& stands(run, RunPhase::Finishing)
            }
        },
        _ => r is Next && stands(run, RunPhase::Ready),
    }
}

/// Whether a run is where it should be after an event: the next step is begun only once
/// the one before it is done, and what fails ends the run.
pub open spec fn run_goes_on(
    before: EffectRun,
    after: EffectRun,
    event: RunEvent,
    applied: AppliedCommand,
    ctx: EventContext,
    family: Seq<char>,
    pending: (PendingRewrites, PendingRewrites),
    kept: (ReplayPrerequisites, ReplayPrerequisites),
    r: RunAction,
) -> bool {
    let idle = pending.1 == pending.0 && kept.1 == kept.0 && after.revert_handled
        == before.revert_handled;
    let same_step = after.begun == before.begun;
    &&& after.steps == before.steps
    &&& match (before.phase, event) {
        (RunPhase::Over, _) => idle && same_step && r is Next && after == before,
        (_, RunEvent::Failed(words)) => {
            &&& idle && same_step
            &&& r == RunAction::Finish(Err::<(), String>(words))
            &&& stands(after, RunPhase::Over)
        },
        (RunPhase::Ready, RunEvent::Go) => if before.begun >= before.steps@.len() {
            &&& idle && same_step
            &&& r == RunAction::Finish(Ok::<(), String>(()))
            &&& stands(after, RunPhase::Over)
        } else {
            &&& after.begun == before.begun + 1
            &&& step_taken(
                before.steps@[before.begun as int],
                applied,
                ctx,
                family,
                before.revert_handled,
                pending,
                kept,
                after,
                r,
            )
        },
        (RunPhase::Rewriting, RunEvent::Done) => {
            let left = steps_view(before.rewrites@);
            &&& idle && same_step
            &&& if left.len() == 0 {
                r is Next && stands(after, RunPhase::Ready)
            } else {
                &&& r matches RunAction::Rewrite(step) && step@ == left[0]
                &&& after.phase == RunPhase::Rewriting
                &&& steps_view(after.rewrites@) == left.skip(1)
                &&& after.remaining is None
            }
        },
        (RunPhase::Picking, RunEvent::Done) => {
            &&& same_step && kept.1 == kept.0 && after.revert_handled == before.revert_handled
            &&& r is Next && stands(after, RunPhase::Ready)
            &&& pending.1.cherry_picks@ == picks_left(
                pending.0.cherry_picks@,
                ctx.key@,
                before.remaining,
            )
            &&& pending.1.rebases == pending.0.rebases
            &&& pending.1.no_commits == pending.0.no_commits
            &&& pending.1.squash_merges == pending.0.squash_merges
        },
        (RunPhase::Effecting { event: place, committed }, RunEvent::Go | RunEvent::Done) => {
            let taken = applied.events@[place as int];
            &&& same_step && kept.1 == kept.0 && after.revert_handled == before.revert_handled
            &&& pending_after_done(pending.0, pending.1, ctx, taken, committed)
            &&& match follow_up_of(pending.0, ctx, taken, committed) {
                Some(effect) => {
                    &&& r matches RunAction::Effect(it) && it@ == effect
                    &&& stands(after, RunPhase::Finishing)
                },
                None => r is Next && stands(after, RunPhase::Ready),
            }
        },
        (RunPhase::Asking { event: place }, RunEvent::Log(has_log)) => {
            &&& idle && same_step
            &&& ref_update_answered(ctx, applied.events@[place as int], has_log, after, r)
        },
        (RunPhase::Finishing, RunEvent::Done) => {
            &&& idle && same_step
            &&& r is Next && stands(after, RunPhase::Ready)
        },
        _ => idle && same_step && r is Next && after == before,
    }
}

proof fn lemma_both_fit(a: Seq<EffectStep>, b: Seq<EffectStep>, events: nat)
    requires
        all_fit(a, events),
        all_fit(b, events),
    ensures
        all_fit(a + b, events),
{
    assert forall|k: int| 0 <= k < (a + b).len() implies step_fits(
        #[trigger] (a + b)[k],
        events,
    ) by {
        if k < a.len() {
            assert((a + b)[k] == a[k]);
        } else {
            assert((a + b)[k] == b[k - a.len()]);
        }
    }
}

proof fn lemma_ref_updates_fit(events: Seq<SemanticEvent>, n: nat)
    requires
        n <= events.len() <= usize::MAX,
    ensures
        all_fit(ref_update_steps(events, n), events.len()),
    decreases n,
{
    if n > 0 {
        let before = ref_update_steps(events, (n - 1) as nat);
        lemma_ref_updates_fit(events, (n - 1) as nat);
        let step = EffectStep::RefUpdate((n - 1) as usize);
        assert(before.push(step) =~= before + seq![step]);
        lemma_both_fit(before, seq![step], events.len());
    }
}

proof fn lemma_steps_fit(cmd: NormalizedCommand, events: Seq<SemanticEvent>, facts: CommandFacts)
    requires
        events.len() <= usize::MAX,
    ensures
        all_fit(steps_of(cmd, events, facts), events.len()),
{
    let n = events.len();
    let aborted = step_if(aborts_rebase(cmd) && cmd.worktree is Some, EffectStep::ClearRebase);
    let looked = step_if(detects(cmd, events), EffectStep::DetectRewrites);
    let rebase = step_if(
        cmd.exit_code != 0 && rebase_like(cmd, events),
        EffectStep::NoteStoppedRebase,
    );
    let pick = step_if(
        cmd.exit_code != 0 && cmd.primary() == Some("cherry-pick"@),
        EffectStep::NoteStoppedCherryPick,
    );
    lemma_both_fit(aborted, looked, n);
    lemma_both_fit(aborted + looked, rebase, n);
    lemma_both_fit(aborted + looked + rebase, pick, n);
    let each = if cmd.worktree is Some {
        event_steps(n)
    } else {
        Seq::empty()
    };
    let checkout = step_if(switches(cmd), EffectStep::Checkout);
    let pull = step_if(
        some_event(events, EventTest::Pull) && cmd.worktree is Some,
        EffectStep::PullFastForward,
    );
    let updates = if cmd.primary() == Some("update-ref"@) && cmd.worktree is Some {
        ref_update_steps(events, n)
    } else {
        Seq::empty()
    };
    let commit = step_if(
        some_event(events, EventTest::Commit),
        EffectStep::Sweep(SweepTrigger::PostCommit),
    );
    let push = step_if(
        some_event(events, EventTest::Push) && !facts.dry_run,
        EffectStep::Sweep(SweepTrigger::PostPush),
    );
    lemma_ref_updates_fit(events, n);
    lemma_both_fit(each, checkout, n);
    lemma_both_fit(each + checkout, pull, n);
    lemma_both_fit(each + checkout + pull, updates, n);
    lemma_both_fit(commit, push, n);
    lemma_both_fit(each + checkout + pull + updates, commit + push, n);
    lemma_both_fit(first_steps(cmd, events), last_steps(cmd, events, facts), n);
}

impl EffectRun {
    /// Whether the run can be taken on with a command of so many events.
    pub open spec fn fits(self, events: nat) -> bool {
        &&& self.begun <= self.steps@.len()
        &&& all_fit(self.steps@, events)
        &&& self.phase == RunPhase::Rewriting || self.rewrites@.len() == 0
        &&& self.phase == RunPhase::Picking || self.remaining is None
        &&& match self.phase {
            RunPhase::Effecting { event, .. } => event < events,
            RunPhase::Asking { event } => {
                &&& event < events
                &&& self.begun > 0
                &&& self.steps@[self.begun - 1] == EffectStep::RefUpdate(event)
            },
            _ => true,
        }
    }

    /// A run at its beginning.
    pub fn new(applied: &AppliedCommand, facts: &CommandFacts) -> (r: EffectRun)
        ensures
            r.steps@ == steps_of(applied.command, applied.events@, *facts),
            r.begun == 0,
            stands(r, RunPhase::Ready),
            !r.revert_handled,
            r.fits(applied.events@.len()),
    {
        let steps = side_effect_steps(applied, facts);
        let n: usize = applied.events.len();
        proof {
            lemma_steps_fit(applied.command, applied.events@, *facts);
        }
        EffectRun {
            steps,
            begun: 0,
            phase: RunPhase::Ready,
            rewrites: Vec::new(),
            remaining: None,
            revert_handled: false,
        }
    }

    /// The run goes on to the next step.
    fn go_on(&mut self) -> (r: RunAction)
        ensures
            r is Next,
            stands(*final(self), RunPhase::Ready),
            final(self).steps == old(self).steps,
            final(self).begun == old(self).begun,
            final(self).revert_handled == old(self).revert_handled,
    {
        self.wait_in(RunPhase::Ready);
        RunAction::Next
    }

    /// The run waits in a phase and holds nothing back.
    fn wait_in(&mut self, phase: RunPhase)
        ensures
            stands(*final(self), phase),
            final(self).steps == old(self).steps,
            final(self).begun == old(self).begun,
            final(self).revert_handled == old(self).revert_handled,
    {
        self.phase = phase;
        self.rewrites = Vec::new();
        self.remaining = None;
    }

    /// The run is over.
    fn give_up(&mut self, words: String) -> (r: RunAction)
        ensures
            r == RunAction::Finish(Err::<(), String>(words)),
            stands(*final(self), RunPhase::Over),
            final(self).steps == old(self).steps,
            final(self).begun == old(self).begun,
            final(self).revert_handled == old(self).revert_handled,
    {
        self.wait_in(RunPhase::Over);
        RunAction::Finish(Err(words))
    }

    fn look_for_rewrites(&mut self, pending: &mut PendingRewrites, ctx: &EventContext) -> (r: RunAction)
        ensures
            detected(*ctx, *old(pending), *final(pending), *final(self), r),
            final(self).steps == old(self).steps,
            final(self).begun == old(self).begun,
            final(self).revert_handled == old(self).revert_handled,
    {
        if ctx.cmd.worktree.is_none() {
            return self.go_on();
        }
        let mut found = detect_non_ff_rewrites(
            pending,
            ctx.key,
            ctx.cmd,
            ctx.facts,
            ctx.lite,
            &ctx.answers.ancestry,
        );
        let ghost all = steps_view(found@);
        assert(all.len() == found@.len());
        if found.len() == 0 {
            return self.go_on();
        }
        let first = found.remove(0);
        assert(first@ == all[0]);
        assert(steps_view(found@) =~= all.skip(1));
        self.wait_in(RunPhase::Rewriting);
        self.rewrites = found;
        RunAction::Rewrite(first)
    }

    fn note_rebase(&mut self, pending: &mut PendingRewrites, ctx: &EventContext) -> (r: RunAction)
        ensures
            noted_stopped_rebase(*ctx, *old(pending), *final(pending), *final(self), r),
            final(self).steps == old(self).steps,
            final(self).begun == old(self).begun,
            final(self).revert_handled == old(self).revert_handled,
    {
        let key = key_of(ctx);
        match note_stopped_rebase(pending, &key, ctx.cmd, ctx.facts) {
            Ok(_) => self.go_on(),
            Err(error) => self.give_up(error.message()),
        }
    }

    fn note_pick(&mut self, pending: &mut PendingRewrites, ctx: &EventContext) -> (r: RunAction)
        ensures
            noted_stopped_pick(*ctx, *old(pending), *final(pending), *final(self), r),
            final(self).steps == old(self).steps,
            final(self).begun == old(self).begun,
            final(self).revert_handled == old(self).revert_handled,
    {
        let key = key_of(ctx);
        let noted = note_stopped_cherry_pick(
            pending,
            &key,
            ctx.cmd,
            ctx.facts,
            ctx.answers,
            ctx.lite,
        );
        let plan = match noted {
            Ok(plan) => plan,
            Err(error) => {
                return self.give_up(error.message());
            },
        };
        let ghost the_plan = plan;
        assert(is_stopped_plan(the_plan, *ctx, *old(pending)));
        match plan.rewrite {
            Some(picked) => {
                self.wait_in(RunPhase::Picking);
                self.remaining = plan.remaining;
                RunAction::Pick(picked)
            },
            None => {
                if let Some(left) = plan.remaining {
                    pending.set_pending_cherry_pick_sources_for_worktree(ctx.key.to_owned(), left);
                }
                self.go_on()
            },
        }
    }
}

impl EffectRun {
    fn take_event(
        &mut self,
        pending: &mut PendingRewrites,
        ctx: &EventContext,
        event: &SemanticEvent,
        place: usize,
    ) -> (r: RunAction)
        ensures
            event_taken(
                *ctx,
                *event,
                place,
                old(self).revert_handled,
                *old(pending),
                *final(pending),
                *final(self),
                r,
            ),
            final(self).steps == old(self).steps,
            final(self).begun == old(self).begun,
    {
        let mut handled = self.revert_handled;
        let outcome = event_effect(pending, &mut handled, ctx, event);
        self.revert_handled = handled;
        match outcome {
            Ok(Some(effect)) => {
                let committed = matches!(effect, SideEffect::PostCommit { .. });
                self.wait_in(RunPhase::Effecting { event: place, committed });
                RunAction::Effect(effect)
            },
            Ok(None) => {
                self.wait_in(RunPhase::Effecting { event: place, committed: false });
                RunAction::Next
            },
            Err(error) => self.give_up(error.message()),
        }
    }

    fn switch_branches(&mut self, kept: &mut ReplayPrerequisites, family: &str, ctx: &EventContext) -> (r:
        RunAction)
        requires
            old(kept).wf(),
        ensures
            final(kept).wf(),
            switch_noted(*old(kept), *final(kept), family@, *ctx),
            if has_checkout_effect(*ctx) {
                &&& r matches RunAction::CheckOut(effect) && says_checkout(effect, *ctx)
                &&& stands(*final(self), RunPhase::Finishing)
            } else {
                r is Next && stands(*final(self), RunPhase::Ready)
            },
            final(self).steps == old(self).steps,
            final(self).begun == old(self).begun,
            final(self).revert_handled == old(self).revert_handled,
    {
        if let Some(noted) = recent_checkout_switch_prerequisite_from_command(ctx.cmd, ctx.facts) {
            assert(says_switch(noted, *ctx.cmd));
            kept.record_recent_replay_prerequisite(family, noted);
        }
        match checkout_effect(ctx.cmd, ctx.facts) {
            Some(effect) => {
                self.wait_in(RunPhase::Finishing);
                RunAction::CheckOut(effect)
            },
            None => self.go_on(),
        }
    }

    fn take_step(
        &mut self,
        pending: &mut PendingRewrites,
        kept: &mut ReplayPrerequisites,
        family: &str,
        applied: &AppliedCommand,
        ctx: &EventContext,
    ) -> (r: RunAction)
        requires
            old(self).fits(applied.events@.len()),
            old(self).begun < old(self).steps@.len(),
            stands(*old(self), RunPhase::Ready),
            old(kept).wf(),
        ensures
            final(kept).wf(),
            final(self).fits(applied.events@.len()),
            final(self).steps == old(self).steps,
            final(self).begun == old(self).begun + 1,
            step_taken(
                old(self).steps@[old(self).begun as int],
                *applied,
                *ctx,
                family@,
                old(self).revert_handled,
                (*old(pending), *final(pending)),
                (*old(kept), *final(kept)),
                *final(self),
                r,
            ),
    {
        let total: usize = self.steps.len();
        assert(self.begun < total);
        let step = self.steps[self.begun];
        assert(step_fits(step, applied.events@.len()));
        self.begun = self.begun + 1;
        match step {
            EffectStep::ClearRebase => {
                pending.clear_pending_rebase_original_head_for_worktree(ctx.key);
                self.go_on()
            },
            EffectStep::DetectRewrites => self.look_for_rewrites(pending, ctx),
            EffectStep::NoteStoppedRebase => self.note_rebase(pending, ctx),
            EffectStep::NoteStoppedCherryPick => self.note_pick(pending, ctx),
            EffectStep::Event(i) => self.take_event(pending, ctx, &applied.events[i], i),
            EffectStep::Checkout => self.switch_branches(kept, family, ctx),
            EffectStep::PullFastForward => match pull_fast_forward(
                ctx.cmd,
                &ctx.answers.ancestry,
            ) {
                Some((old_head, new_head)) => {
                    self.wait_in(RunPhase::Finishing);
                    RunAction::Carry { old_head, new_head }
                },
                None => self.go_on(),
            },
            EffectStep::RefUpdate(i) => match &applied.events[i] {
                SemanticEvent::RefUpdated { old, .. } => {
                    self.wait_in(RunPhase::Asking { event: i });
                    RunAction::AskLog { head: old.clone() }
                },
                _ => self.go_on(),
            },
            EffectStep::Sweep(trigger) => {
                self.wait_in(RunPhase::Finishing);
                RunAction::Sweep(trigger)
            },
        }
    }
}

impl EffectRun {
    /// Takes a run on: says what is to be done next. What is out of turn changes nothing.
    pub fn step(
        &mut self,
        pending: &mut PendingRewrites,
        kept: &mut ReplayPrerequisites,
        family: &str,
        applied: &AppliedCommand,
        ctx: &EventContext,
        event: RunEvent,
    ) -> (r: RunAction)
        requires
            old(self).fits(applied.events@.len()),
            old(kept).wf(),
        ensures
            final(self).fits(applied.events@.len()),
            final(kept).wf(),
            run_goes_on(
                *old(self),
                *final(self),
                event,
                *applied,
                *ctx,
                family@,
                (*old(pending), *final(pending)),
                (*old(kept), *final(kept)),
                r,
            ),
    {
        match (self.phase, event) {
            (RunPhase::Over, _) => RunAction::Next,
            (_, RunEvent::Failed(words)) => self.give_up(words),
            (RunPhase::Ready, RunEvent::Go) => {
                if self.begun >= self.steps.len() {
                    self.wait_in(RunPhase::Over);
                    return RunAction::Finish(Ok(()));
                }
                self.take_step(pending, kept, family, applied, ctx)
            },
            (RunPhase::Rewriting, RunEvent::Done) => {
                let ghost left = steps_view(self.rewrites@);
                assert(left.len() == self.rewrites@.len());
                if self.rewrites.len() == 0 {
                    return self.go_on();
                }
                let first = self.rewrites.remove(0);
                assert(first@ == left[0]);
                assert(steps_view(self.rewrites@) =~= left.skip(1));
                RunAction::Rewrite(first)
            },
            (RunPhase::Picking, RunEvent::Done) => {
                if let Some(left) = self.remaining.take() {
                    pending.set_pending_cherry_pick_sources_for_worktree(ctx.key.to_owned(), left);
                }
                self.go_on()
            },
            (RunPhase::Effecting { event: place, committed }, RunEvent::Go | RunEvent::Done) => {
                match event_follow_up(pending, ctx, &applied.events[place], committed) {
                    Some(effect) => {
                        self.wait_in(RunPhase::Finishing);
                        RunAction::Effect(effect)
                    },
                    None => self.go_on(),
                }
            },
            (RunPhase::Asking { event: place }, RunEvent::Log(has_log)) => self.answer_ref_update(
                ctx,
                &applied.events[place],
                has_log,
            ),
            (RunPhase::Finishing, RunEvent::Done) => self.go_on(),
            _ => RunAction::Next,
        }
    }

    fn answer_ref_update(&mut self, ctx: &EventContext, event: &SemanticEvent, has_log: bool) -> (r:
        RunAction)
        ensures
            ref_update_answered(*ctx, *event, has_log, *final(self), r),
            final(self).steps == old(self).steps,
            final(self).begun == old(self).begun,
            final(self).revert_handled == old(self).revert_handled,
    {
        match event {
            SemanticEvent::RefUpdated { reference, old, new } => {
                let effect = ref_update_effect(
                    ctx.cmd,
                    &ctx.answers.ancestry,
                    ctx.lite,
                    has_log,
                    reference.as_str(),
                    old.as_str(),
                    new.as_str(),
                );
                match effect {
                    Some(effect) => {
                        self.wait_in(RunPhase::Finishing);
                        RunAction::UpdateRef { effect, old: old.clone(), new: new.clone() }
                    },
                    None => self.go_on(),
                }
            },
            _ => self.go_on(),
        }
    }
}

fn key_of(ctx: &EventContext) -> (r: Option<String>)
    ensures
        r is Some <==> ctx.cmd.worktree is Some,
        r is Some ==> (r->0)@ == ctx.key@,
{
    if ctx.cmd.worktree.is_some() {
        Some(ctx.key.to_owned())
    } else {
        None
    }
}

/// Once something fails, nothing more is done: whatever happens to the run then, nothing
/// that is unfinished changes and nothing is asked for.
pub proof fn law_what_fails_ends_the_run(
    runs: (EffectRun, EffectRun, EffectRun),
    words: String,
    event: RunEvent,
    applied: AppliedCommand,
    ctx: EventContext,
    family: Seq<char>,
    pending: (PendingRewrites, PendingRewrites, PendingRewrites),
    kept: (ReplayPrerequisites, ReplayPrerequisites, ReplayPrerequisites),
    actions: (RunAction, RunAction),
)
    requires
        runs.0.phase != RunPhase::Over,
        run_goes_on(
            runs.0,
            runs.1,
            RunEvent::Failed(words),
            applied,
            ctx,
            family,
            (pending.0, pending.1),
            (kept.0, kept.1),
            actions.0,
        ),
        run_goes_on(
            runs.1,
            runs.2,
            event,
            applied,
            ctx,
            family,
            (pending.1, pending.2),
            (kept.1, kept.2),
            actions.1,
        ),
    ensures
        actions.0 == RunAction::Finish(Err::<(), String>(words)),
        actions.1 is Next,
        runs.2 == runs.1,
        pending.2 == pending.0,
        kept.2 == kept.0,
{
}

/// A run that ends well has taken every step.
pub proof fn law_a_good_end_leaves_no_step(
    before: EffectRun,
    after: EffectRun,
    event: RunEvent,
    applied: AppliedCommand,
    ctx: EventContext,
    family: Seq<char>,
    pending: (PendingRewrites, PendingRewrites),
    kept: (ReplayPrerequisites, ReplayPrerequisites),
)
    requires
        run_goes_on(
            before,
            after,
            event,
            applied,
            ctx,
            family,
            pending,
            kept,
            RunAction::Finish(Ok::<(), String>(())),
        ),
    ensures
        before.phase == RunPhase::Ready,
        before.begun >= before.steps@.len(),
{
}

/// A step is begun only when the one before it is done: while a run waits for anything,
/// no event makes it begin another.
pub proof fn law_steps_are_taken_one_by_one(
    before: EffectRun,
    after: EffectRun,
    event: RunEvent,
    applied: AppliedCommand,
    ctx: EventContext,
    family: Seq<char>,
    pending: (PendingRewrites, PendingRewrites),
    kept: (ReplayPrerequisites, ReplayPrerequisites),
    r: RunAction,
)
    requires
        run_goes_on(before, after, event, applied, ctx, family, pending, kept, r),
    ensures
        before.phase != RunPhase::Ready ==> after.begun == before.begun,
        after.begun == before.begun || after.begun == before.begun + 1,
{
}

} // verus!
