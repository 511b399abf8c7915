//! A run over the effects of a command does, step by step, what each of them comes to.
use crate::commands::{AppliedCommand, CommandFacts, SemanticEvent};
use crate::effect_run::{EffectRun, RunAction, RunEvent};
use crate::effects::ReplayPrerequisites;
use crate::event_effects::{
    checkout_effect, effect_view, event_effect, event_follow_up, pull_fast_forward,
    recent_checkout_switch_prerequisite_from_command, ref_update_effect, CheckoutEffect,
    EventContext, RecentReplayPrerequisite, RefUpdateEffect, SideEffect,
};
use crate::pending::PendingRewrites;
use crate::rewrite::{steps_view, RewriteStep};
use crate::side_effects::{
    detect_non_ff_rewrites, note_stopped_cherry_pick, note_stopped_rebase, side_effect_steps,
    EffectStep, SideEffectError, StoppedCherryPick,
};
use crate::text::views;
use vstd::prelude::*;

verus! {

/// A run takes exactly the steps of its command, from the first.
pub proof fn law_a_run_takes_the_steps_of_its_command(
    applied: AppliedCommand,
    facts: CommandFacts,
    run: EffectRun,
    steps: Vec<EffectStep>,
)
    requires
        call_ensures(EffectRun::new, (&applied, &facts), run),
        call_ensures(side_effect_steps, (&applied, &facts), steps),
    ensures
        run.steps@ == steps@,
        run.begun == 0,
        run.phase is Ready,
        !run.revert_handled,
{
}

/// Sent on, a run takes up its next step, and when there is none it ends well.
pub proof fn law_a_run_goes_step_by_step(
    run: &mut EffectRun,
    pending: &mut PendingRewrites,
    kept: &mut ReplayPrerequisites,
    family: &str,
    applied: AppliedCommand,
    ctx: EventContext,
    r: RunAction,
)
    requires
        old(run).fits(applied.events@.len()),
        old(kept).wf(),
        old(run).phase is Ready,
        call_ensures(
            EffectRun::step,
            (run, pending, kept, family, &applied, &ctx, RunEvent::Go),
            r,
        ),
    ensures
        final(run).steps == old(run).steps,
        old(run).begun < old(run).steps@.len() ==> final(run).begun == old(run).begun + 1,
        r is Finish && r->Finish_0 is Ok <==> old(run).begun == old(run).steps@.len(),
        r is Finish ==> final(run).phase is Over,
        r is Next ==> final(run).phase is Ready || final(run).phase is Effecting,
{
}

/// What could not be done ends the run with its words, whatever was being done, and nothing
/// that is kept changes.
pub proof fn law_a_failure_ends_the_run(
    run: &mut EffectRun,
    pending: &mut PendingRewrites,
    kept: &mut ReplayPrerequisites,
    family: &str,
    applied: AppliedCommand,
    ctx: EventContext,
    words: String,
    r: RunAction,
)
    requires
        old(run).fits(applied.events@.len()),
        old(kept).wf(),
        !(old(run).phase is Over),
        call_ensures(
            EffectRun::step,
            (run, pending, kept, family, &applied, &ctx, RunEvent::Failed(words)),
            r,
        ),
    ensures
        r == RunAction::Finish(Err(words)),
        final(run).phase is Over,
        *final(pending) == *old(pending),
        *final(kept) == *old(kept),
{
}

/// A run that is over asks for nothing more.
pub proof fn law_what_is_over_stays_over(
    run: &mut EffectRun,
    pending: &mut PendingRewrites,
    kept: &mut ReplayPrerequisites,
    family: &str,
    applied: AppliedCommand,
    ctx: EventContext,
    event: RunEvent,
    r: RunAction,
)
    requires
        old(run).fits(applied.events@.len()),
        old(kept).wf(),
        old(run).phase is Over,
        call_ensures(
            EffectRun::step,
            (run, pending, kept, family, &applied, &ctx, event),
            r,
        ),
    ensures
        r is Next,
        *final(run) == *old(run),
        *final(pending) == *old(pending),
        *final(kept) == *old(kept),
{
}

/// A rebase to be forgotten is forgotten in its worktree, and in no other.
pub proof fn law_the_rebase_of_the_worktree_is_forgotten(
    run: &mut EffectRun,
    pending: &mut PendingRewrites,
    kept: &mut ReplayPrerequisites,
    family: &str,
    applied: AppliedCommand,
    ctx: EventContext,
    other: Seq<char>,
    r: RunAction,
)
    requires
        old(run).fits(applied.events@.len()),
        old(kept).wf(),
        old(run).phase is Ready,
        old(run).begun < old(run).steps@.len(),
        old(run).steps@[old(run).begun as int] is ClearRebase,
        call_ensures(
            EffectRun::step,
            (run, pending, kept, family, &applied, &ctx, RunEvent::Go),
            r,
        ),
    ensures
        r is Next,
        !final(pending).rebases@.contains_key(ctx.key@),
        other != ctx.key@ ==> final(pending).rebases@.contains_key(other) == old(pending).rebases@.contains_key(other),
        final(pending).cherry_picks == old(pending).cherry_picks,
        final(pending).no_commits == old(pending).no_commits,
        final(pending).squash_merges == old(pending).squash_merges,
{
}

/// The rewrites of a command are done one after another, in the order in which they were
/// found, and all of them.
pub proof fn law_rewrites_are_done_in_order(
    run: &mut EffectRun,
    pending: &mut PendingRewrites,
    kept: &mut ReplayPrerequisites,
    family: &str,
    applied: AppliedCommand,
    ctx: EventContext,
    r: RunAction,
    apart: &mut PendingRewrites,
    found: Vec<RewriteStep>,
)
    requires
        old(run).fits(applied.events@.len()),
        old(kept).wf(),
        old(run).phase is Ready,
        old(run).begun < old(run).steps@.len(),
        old(run).steps@[old(run).begun as int] is DetectRewrites,
        ctx.cmd.worktree is Some,
        call_ensures(
            EffectRun::step,
            (run, pending, kept, family, &applied, &ctx, RunEvent::Go),
            r,
        ),
        *old(apart) == *old(pending),
        call_ensures(
            detect_non_ff_rewrites,
            (apart, ctx.key, ctx.cmd, ctx.facts, ctx.lite, &ctx.answers.ancestry),
            found,
        ),
    ensures
        found@.len() == 0 ==> r is Next && final(run).phase is Ready,
        found@.len() > 0 ==> r is Rewrite && r->Rewrite_0@ == found@[0]@ && final(run).phase
            is Rewriting && steps_view(final(run).rewrites@) == steps_view(found@).skip(1),
        final(pending).rebases@ == final(apart).rebases@,
        final(pending).cherry_picks == old(pending).cherry_picks,
{
    assert(steps_view(found@).len() == found@.len());
    if found@.len() > 0 {
        assert(steps_view(found@)[0] == found@[0]@);
    }
}

/// Of the rewrites that are left, the first is asked for next, once the one before it is done.
pub proof fn law_the_next_rewrite_follows(
    run: &mut EffectRun,
    pending: &mut PendingRewrites,
    kept: &mut ReplayPrerequisites,
    family: &str,
    applied: AppliedCommand,
    ctx: EventContext,
    r: RunAction,
)
    requires
        old(run).fits(applied.events@.len()),
        old(kept).wf(),
        old(run).phase is Rewriting,
        call_ensures(
            EffectRun::step,
            (run, pending, kept, family, &applied, &ctx, RunEvent::Done),
            r,
        ),
    ensures
        old(run).rewrites@.len() == 0 ==> r is Next && final(run).phase is Ready,
        old(run).rewrites@.len() > 0 ==> r is Rewrite && r->Rewrite_0@ == old(run).rewrites@[0]@
            && final(run).phase is Rewriting && steps_view(final(run).rewrites@) == steps_view(
            old(run).rewrites@,
        ).skip(1),
        *final(pending) == *old(pending),
        final(run).begun == old(run).begun,
{
    assert(steps_view(old(run).rewrites@).len() == old(run).rewrites@.len());
    if old(run).rewrites@.len() > 0 {
        assert(steps_view(old(run).rewrites@)[0] == old(run).rewrites@[0]@);
    }
}

/// A rebase that stopped is noted for the worktree of its command; without one the run ends
/// with the error.
pub proof fn law_a_run_notes_the_rebase_that_stopped(
    run: &mut EffectRun,
    pending: &mut PendingRewrites,
    kept: &mut ReplayPrerequisites,
    family: &str,
    applied: AppliedCommand,
    ctx: EventContext,
    r: RunAction,
    apart: &mut PendingRewrites,
    key: Option<String>,
    noted: Result<(), SideEffectError>,
)
    requires
        old(run).fits(applied.events@.len()),
        old(kept).wf(),
        old(run).phase is Ready,
        old(run).begun < old(run).steps@.len(),
        old(run).steps@[old(run).begun as int] is NoteStoppedRebase,
        call_ensures(
            EffectRun::step,
            (run, pending, kept, family, &applied, &ctx, RunEvent::Go),
            r,
        ),
        *old(apart) == *old(pending),
        key is Some <==> ctx.cmd.worktree is Some,
        key is Some ==> key->0@ == ctx.key@,
        call_ensures(note_stopped_rebase, (apart, &key, ctx.cmd, ctx.facts), noted),
    ensures
        noted is Ok <==> r is Next,
        noted is Err <==> r is Finish && r->Finish_0 is Err,
        final(pending).rebases@.dom() == final(apart).rebases@.dom(),
        forall|other: Seq<char>|
            other != ctx.key@ && final(pending).rebases@.contains_key(other) ==> final(pending).rebases@[other] == #[trigger] final(apart).rebases@[other],
        final(pending).cherry_picks == old(pending).cherry_picks,
        final(pending).no_commits == old(pending).no_commits,
{
    assert(final(pending).rebases@.dom() =~= final(apart).rebases@.dom());
}

/// A cherry-pick that stopped rewrites what it made, and what it has still to apply is noted
/// once that is done.
pub proof fn law_a_run_takes_up_the_pick_that_stopped(
    run: &mut EffectRun,
    pending: &mut PendingRewrites,
    kept: &mut ReplayPrerequisites,
    family: &str,
    applied: AppliedCommand,
    ctx: EventContext,
    r: RunAction,
    apart: &mut PendingRewrites,
    key: Option<String>,
    noted: Result<StoppedCherryPick, SideEffectError>,
)
    requires
        old(run).fits(applied.events@.len()),
        old(kept).wf(),
        old(run).phase is Ready,
        old(run).begun < old(run).steps@.len(),
        old(run).steps@[old(run).begun as int] is NoteStoppedCherryPick,
        call_ensures(
            EffectRun::step,
            (run, pending, kept, family, &applied, &ctx, RunEvent::Go),
            r,
        ),
        *old(apart) == *old(pending),
        key is Some <==> ctx.cmd.worktree is Some,
        key is Some ==> key->0@ == ctx.key@,
        call_ensures(
            note_stopped_cherry_pick,
            (apart, &key, ctx.cmd, ctx.facts, ctx.answers, ctx.lite),
            noted,
        ),
    ensures
        noted is Err <==> r is Finish && r->Finish_0 is Err,
        noted is Ok && noted->Ok_0.rewrite is Some <==> r is Pick,
        r is Pick ==> {
            let mine = r->Pick_0;
            let told = noted->Ok_0.rewrite->0;
            &&& mine.original_head@ == told.original_head@
            &&& views(mine.sources@) == views(told.sources@)
            &&& views(mine.destinations@) == views(told.destinations@)
            &&& final(run).phase is Picking
            &&& final(run).remaining is Some && views(final(run).remaining->0@) == views(
                noted->Ok_0.remaining->0@,
            )
        },
        r is Next && noted->Ok_0.remaining is Some ==> {
            let left = noted->Ok_0.remaining->0@;
            &&& left.len() == 0 ==> !final(pending).cherry_picks@.contains_key(ctx.key@)
            &&& left.len() > 0 ==> final(pending).cherry_picks@.contains_key(ctx.key@) && views(
                final(pending).cherry_picks@[ctx.key@]@,
            ) == views(left)
        },
{
    if noted is Ok && noted->Ok_0.remaining is Some {
        assert(views(noted->Ok_0.remaining->0@).len() == noted->Ok_0.remaining->0@.len());
    }
    if ctx.cmd.worktree is Some && r is Next && final(pending).cherry_picks@.contains_key(ctx.key@) {
        assert(views(final(pending).cherry_picks@[ctx.key@]@).len() == final(pending).cherry_picks@[ctx.key@]@.len());
    }
}

/// Once what a stopped cherry-pick made is rewritten, what it has still to apply is what is
/// left over in its worktree; nothing else changes.
pub proof fn law_what_a_pick_has_left_is_noted(
    run: &mut EffectRun,
    pending: &mut PendingRewrites,
    kept: &mut ReplayPrerequisites,
    family: &str,
    applied: AppliedCommand,
    ctx: EventContext,
    r: RunAction,
)
    requires
        old(run).fits(applied.events@.len()),
        old(kept).wf(),
        old(run).phase is Picking,
        old(run).remaining is Some,
        call_ensures(
            EffectRun::step,
            (run, pending, kept, family, &applied, &ctx, RunEvent::Done),
            r,
        ),
    ensures
        r is Next && final(run).phase is Ready,
        old(run).remaining->0@.len() > 0 ==> final(pending).cherry_picks@.contains_key(ctx.key@)
            && final(pending).cherry_picks@[ctx.key@] == old(run).remaining->0,
        old(run).remaining->0@.len() == 0 ==> !final(pending).cherry_picks@.contains_key(ctx.key@),
        final(pending).rebases == old(pending).rebases,
        final(pending).no_commits == old(pending).no_commits,
        final(pending).squash_merges == old(pending).squash_merges,
{
}

/// An event comes in a run to what it comes to by itself.
pub proof fn law_a_run_takes_up_its_events(
    run: &mut EffectRun,
    pending: &mut PendingRewrites,
    kept: &mut ReplayPrerequisites,
    family: &str,
    applied: AppliedCommand,
    ctx: EventContext,
    i: usize,
    r: RunAction,
    apart: &mut PendingRewrites,
    handled: &mut bool,
    alone: Result<Option<SideEffect>, SideEffectError>,
)
    requires
        old(run).fits(applied.events@.len()),
        old(kept).wf(),
        old(run).phase is Ready,
        old(run).begun < old(run).steps@.len(),
        old(run).steps@[old(run).begun as int] == EffectStep::Event(i),
        call_ensures(
            EffectRun::step,
            (run, pending, kept, family, &applied, &ctx, RunEvent::Go),
            r,
        ),
        *old(apart) == *old(pending),
        *old(handled) == old(run).revert_handled,
        call_ensures(event_effect, (apart, handled, &ctx, &applied.events@[i as int]), alone),
    ensures
        alone is Err ==> r is Finish && r->Finish_0 is Err && final(run).phase is Over,
        alone is Ok && alone->Ok_0 is None ==> r is Next,
        alone is Ok && alone->Ok_0 is Some ==> r is Effect && effect_view(Some(r->Effect_0))
            == effect_view(alone->Ok_0),
        alone is Ok ==> final(run).phase is Effecting && final(run).phase->Effecting_event == i,
        final(run).revert_handled == *final(handled),
{
}

/// A branch switch does in a run what it does by itself, and what is remembered of it is
/// remembered of its family.
pub proof fn law_a_run_switches_branches(
    run: &mut EffectRun,
    pending: &mut PendingRewrites,
    kept: &mut ReplayPrerequisites,
    family: &str,
    applied: AppliedCommand,
    ctx: EventContext,
    r: RunAction,
    alone: Option<CheckoutEffect>,
    noted: Option<RecentReplayPrerequisite>,
)
    requires
        old(run).fits(applied.events@.len()),
        old(kept).wf(),
        old(run).phase is Ready,
        old(run).begun < old(run).steps@.len(),
        old(run).steps@[old(run).begun as int] is Checkout,
        call_ensures(
            EffectRun::step,
            (run, pending, kept, family, &applied, &ctx, RunEvent::Go),
            r,
        ),
        call_ensures(checkout_effect, (ctx.cmd, ctx.facts), alone),
        call_ensures(
            recent_checkout_switch_prerequisite_from_command,
            (ctx.cmd, ctx.facts),
            noted,
        ),
    ensures
        alone is None ==> r is Next,
        alone is Some ==> r is CheckOut,
        alone is Some ==> match (alone->0, r->CheckOut_0) {
            (
                CheckoutEffect::ForgetPaths { head: a, pathspecs: p },
                CheckoutEffect::ForgetPaths { head: b, pathspecs: q },
            ) => a@ == b@ && p@ == q@,
            (CheckoutEffect::Delete { head: a }, CheckoutEffect::Delete { head: b }) => a@ == b@,
            (
                CheckoutEffect::CarryMerged { old_head: a, new_head: p },
                CheckoutEffect::CarryMerged { old_head: b, new_head: q },
            ) => a@ == b@ && p@ == q@,
            (
                CheckoutEffect::Rename { old_head: a, new_head: p },
                CheckoutEffect::Rename { old_head: b, new_head: q },
            ) => a@ == b@ && p@ == q@,
            _ => false,
        },
        noted is None ==> *final(kept) == *old(kept),
        noted is Some ==> final(kept).entries(family@).len() > 0 && match (
            final(kept).entries(family@).last(),
            noted->0,
        ) {
            (
                RecentReplayPrerequisite::CheckoutSwitchRename { target_head: a, old_head: p },
                RecentReplayPrerequisite::CheckoutSwitchRename { target_head: b, old_head: q },
            ) => a@ == b@ && p@ == q@,
        },
        *final(pending) == *old(pending),
{
}

/// A pull that went forward carries the working log over between its heads; any other pull
/// carries nothing.
pub proof fn law_a_run_carries_the_log_of_a_pull(
    run: &mut EffectRun,
    pending: &mut PendingRewrites,
    kept: &mut ReplayPrerequisites,
    family: &str,
    applied: AppliedCommand,
    ctx: EventContext,
    r: RunAction,
    alone: Option<(String, String)>,
)
    requires
        old(run).fits(applied.events@.len()),
        old(kept).wf(),
        old(run).phase is Ready,
        old(run).begun < old(run).steps@.len(),
        old(run).steps@[old(run).begun as int] is PullFastForward,
        call_ensures(
            EffectRun::step,
            (run, pending, kept, family, &applied, &ctx, RunEvent::Go),
            r,
        ),
        call_ensures(pull_fast_forward, (ctx.cmd, &ctx.answers.ancestry), alone),
    ensures
        alone is None ==> r is Next,
        alone is Some ==> (r matches RunAction::Carry { old_head, new_head } && old_head@ == (
        alone->0).0@ && new_head@ == (alone->0).1@),
        *final(pending) == *old(pending),
        *final(kept) == *old(kept),
{
}

/// Of a ref that was set it is first asked whether there is a working log for where it stood;
/// with the answer it comes to what it comes to by itself.
pub proof fn law_a_run_updates_refs(
    run: &mut EffectRun,
    pending: &mut PendingRewrites,
    kept: &mut ReplayPrerequisites,
    family: &str,
    applied: AppliedCommand,
    ctx: EventContext,
    i: usize,
    reference: String,
    old_oid: String,
    new_oid: String,
    names: (&str, &str, &str),
    has_log: bool,
    asked: RunAction,
    after: &mut EffectRun,
    later: &mut PendingRewrites,
    remembered: &mut ReplayPrerequisites,
    r: RunAction,
    alone: Option<RefUpdateEffect>,
)
    requires
        old(run).fits(applied.events@.len()),
        old(kept).wf(),
        old(run).phase is Ready,
        old(run).begun < old(run).steps@.len(),
        old(run).steps@[old(run).begun as int] == EffectStep::RefUpdate(i),
        applied.events@[i as int] == (SemanticEvent::RefUpdated {
            reference,
            old: old_oid,
            new: new_oid,
        }),
        call_ensures(
            EffectRun::step,
            (run, pending, kept, family, &applied, &ctx, RunEvent::Go),
            asked,
        ),
        *old(after) == *final(run),
        *old(later) == *final(pending),
        *old(remembered) == *final(kept),
        call_ensures(
            EffectRun::step,
            (after, later, remembered, family, &applied, &ctx, RunEvent::Log(has_log)),
            r,
        ),
        names.0@ == reference@ && names.1@ == old_oid@ && names.2@ == new_oid@,
        call_ensures(
            ref_update_effect,
            (ctx.cmd, &ctx.answers.ancestry, ctx.lite, has_log, names.0, names.1, names.2),
            alone,
        ),
    ensures
        asked matches RunAction::AskLog { head } && head@ == old_oid@,
        alone is None ==> r is Next && final(after).phase is Ready,
        alone is Some ==> (r matches RunAction::UpdateRef { effect, old: from, new: to } && from@
            == old_oid@ && to@ == new_oid@ && effect == alone->0),
        *final(later) == *old(pending),
        *final(remembered) == *old(kept),
{
}

/// What follows an event in a run is what follows it by itself, once it is done.
pub proof fn law_a_run_follows_up_its_events(
    run: &mut EffectRun,
    pending: &mut PendingRewrites,
    kept: &mut ReplayPrerequisites,
    family: &str,
    applied: AppliedCommand,
    ctx: EventContext,
    r: RunAction,
    apart: &mut PendingRewrites,
    alone: Option<SideEffect>,
)
    requires
        old(run).fits(applied.events@.len()),
        old(kept).wf(),
        old(run).phase is Effecting,
        call_ensures(
            EffectRun::step,
            (run, pending, kept, family, &applied, &ctx, RunEvent::Done),
            r,
        ),
        *old(apart) == *old(pending),
        call_ensures(
            event_follow_up,
            (
                apart,
                &ctx,
                &applied.events@[old(run).phase->Effecting_event as int],
                old(run).phase->committed,
            ),
            alone,
        ),
    ensures
        alone is None ==> r is Next && final(run).phase is Ready,
        alone is Some ==> r is Effect && effect_view(Some(r->Effect_0)) == effect_view(alone)
            && final(run).phase is Finishing,
{
}

} // verus!
