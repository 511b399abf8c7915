//! Which steps follow from a command.
use crate::commands::{AppliedCommand, CommandFacts, PullStrategy, SemanticEvent, StashOpKind};
use crate::side_effects::{
    aborts_rebase, detects, event_steps, first_steps, is_replaying, last_steps, meets,
    rebase_like, ref_update_steps, side_effect_steps, some_event, step_if, steps_of, sweep_steps,
    switches, works_though_failed, EffectStep, EventTest, SweepTrigger,
};
use crate::text::views;
use vstd::prelude::*;

verus! {

/// The names of the commands that are told apart are different.
pub proof fn lemma_command_names()
    ensures
        "rebase"@ != "pull"@,
        "rebase"@ != "checkout"@,
        "rebase"@ != "switch"@,
        "rebase"@ != "branch"@,
        "rebase"@ != "stash"@,
        "rebase"@ != "merge"@,
        "rebase"@ != "commit"@,
        "rebase"@ != "revert"@,
        "rebase"@ != "cherry-pick"@,
        "rebase"@ != "update-ref"@,
        "pull"@ != "checkout"@,
        "pull"@ != "switch"@,
        "pull"@ != "branch"@,
        "pull"@ != "stash"@,
        "pull"@ != "merge"@,
        "pull"@ != "cherry-pick"@,
        "pull"@ != "update-ref"@,
        "checkout"@ != "switch"@,
        "checkout"@ != "branch"@,
        "checkout"@ != "stash"@,
        "checkout"@ != "merge"@,
        "checkout"@ != "cherry-pick"@,
        "checkout"@ != "update-ref"@,
        "switch"@ != "branch"@,
        "switch"@ != "stash"@,
        "switch"@ != "merge"@,
        "switch"@ != "cherry-pick"@,
        "switch"@ != "update-ref"@,
        "stash"@ != "merge"@,
        "stash"@ != "cherry-pick"@,
        "stash"@ != "update-ref"@,
        "stash"@ != "branch"@,
        "merge"@ != "cherry-pick"@,
        "merge"@ != "update-ref"@,
        "merge"@ != "branch"@,
        "update-ref"@ != "cherry-pick"@,
        "update-ref"@ != "branch"@,
        "branch"@ != "cherry-pick"@,
        "commit"@ != "revert"@,
        "commit"@ != "cherry-pick"@,
{
    reveal_strlit("rebase");
    reveal_strlit("pull");
    reveal_strlit("checkout");
    reveal_strlit("switch");
    reveal_strlit("branch");
    reveal_strlit("stash");
    reveal_strlit("merge");
    reveal_strlit("commit");
    reveal_strlit("revert");
    reveal_strlit("cherry-pick");
    reveal_strlit("update-ref");
    assert("rebase"@.len() == 6 && "pull"@.len() == 4 && "checkout"@.len() == 8);
    assert("switch"@.len() == 6 && "branch"@.len() == 6 && "stash"@.len() == 5);
    assert("merge"@.len() == 5 && "commit"@.len() == 6 && "revert"@.len() == 6);
    assert("cherry-pick"@.len() == 11 && "update-ref"@.len() == 10);
    assert("rebase"@[0] == 'r' && "switch"@[0] == 's' && "branch"@[0] == 'b');
    assert("commit"@[0] == 'c' && "revert"@[2] == 'v' && "rebase"@[2] == 'b');
    assert("stash"@[0] == 's' && "merge"@[0] == 'm');
}

proof fn lemma_in_either(a: Seq<EffectStep>, b: Seq<EffectStep>, step: EffectStep)
    ensures
        (a + b).contains(step) <==> a.contains(step) || b.contains(step),
{
    if a.contains(step) {
        assert((a + b)[a.index_of(step)] == step);
    }
    if b.contains(step) {
        assert((a + b)[a.len() + b.index_of(step)] == step);
    }
    if (a + b).contains(step) {
        let k = (a + b).index_of(step);
        if k < a.len() {
            assert(a[k] == step);
        } else {
            assert(b[k - a.len()] == step);
        }
    }
}

proof fn lemma_ref_updates(events: Seq<SemanticEvent>, n: nat, step: EffectStep)
    requires
        n <= events.len() <= usize::MAX,
    ensures
        ref_update_steps(events, n).contains(step) <==> (step matches EffectStep::RefUpdate(i) && i
            < n && events[i as int] is RefUpdated),
    decreases n,
{
    if n > 0 {
        let before = ref_update_steps(events, (n - 1) as nat);
        lemma_ref_updates(events, (n - 1) as nat, step);
        let last = EffectStep::RefUpdate((n - 1) as usize);
        assert(before.push(last) =~= before + seq![last]);
        lemma_in_either(before, seq![last], step);
        assert(seq![last].contains(step) <==> step == last) by {
            assert(seq![last][0] == last);
        }
    }
}

proof fn lemma_one(condition: bool, only: EffectStep, step: EffectStep)
    ensures
        step_if(condition, only).contains(step) <==> condition && step == only,
{
    if condition {
        assert(seq![only][0] == only);
    }
}

proof fn lemma_first(applied: AppliedCommand, step: EffectStep)
    ensures
        ({
            let cmd = applied.command;
            let events = applied.events@;
            first_steps(cmd, events).contains(step) <==> {
                ||| step is ClearRebase && aborts_rebase(cmd) && cmd.worktree
                    is Some
                ||| step is DetectRewrites && detects(cmd, events)
                ||| step is NoteStoppedRebase && cmd.exit_code != 0
                    && rebase_like(cmd, events)
                ||| step is NoteStoppedCherryPick && cmd.exit_code != 0 && cmd.primary() == Some(
                    "cherry-pick"@,
                )
            }
        }),
{
    let cmd = applied.command;
    let events = applied.events@;
    let a = step_if(
        aborts_rebase(cmd) && cmd.worktree is Some,
        EffectStep::ClearRebase,
    );
    let b = step_if(
        detects(cmd, events),
        EffectStep::DetectRewrites,
    );
    let c = step_if(
        cmd.exit_code != 0 && rebase_like(cmd, events),
        EffectStep::NoteStoppedRebase,
    );
    let d = step_if(
        cmd.exit_code != 0 && cmd.primary() == Some("cherry-pick"@),
        EffectStep::NoteStoppedCherryPick,
    );
    lemma_in_either(a, b, step);
    lemma_in_either(a + b, c, step);
    lemma_in_either(a + b + c, d, step);
    lemma_one(
        aborts_rebase(cmd) && cmd.worktree is Some,
        EffectStep::ClearRebase,
        step,
    );
    lemma_one(detects(cmd, events), EffectStep::DetectRewrites, step);
    lemma_one(
        cmd.exit_code != 0 && rebase_like(cmd, events),
        EffectStep::NoteStoppedRebase,
        step,
    );
    lemma_one(
        cmd.exit_code != 0 && cmd.primary() == Some("cherry-pick"@),
        EffectStep::NoteStoppedCherryPick,
        step,
    );
}

proof fn lemma_last(applied: AppliedCommand, facts: CommandFacts, step: EffectStep)
    requires
        applied.events@.len() <= usize::MAX,
    ensures
        ({
            let cmd = applied.command;
            let events = applied.events@;
            last_steps(cmd, events, facts).contains(step) <==> {
                ||| step matches EffectStep::Event(i) && i < events.len() && cmd.worktree is Some
                ||| step is Checkout && switches(cmd)
                ||| step is PullFastForward && some_event(events, EventTest::Pull) && cmd.worktree
                    is Some
                ||| step matches EffectStep::RefUpdate(i) && i < events.len()
                    && events[i as int] is RefUpdated && cmd.primary() == Some("update-ref"@)
                    && cmd.worktree is Some
                ||| step == EffectStep::Sweep(SweepTrigger::PostCommit) && some_event(
                    events,
                    EventTest::Commit,
                )
                ||| step == EffectStep::Sweep(SweepTrigger::PostPush) && some_event(
                    events,
                    EventTest::Push,
                ) && !facts.dry_run
            }
        }),
{
    let cmd = applied.command;
    let events = applied.events@;
    let each = if cmd.worktree is Some {
        event_steps(events.len())
    } else {
        Seq::empty()
    };
    let pulled = some_event(events, EventTest::Pull) && cmd.worktree is Some;
    let checkout = step_if(switches(cmd), EffectStep::Checkout);
    let pull = step_if(pulled, EffectStep::PullFastForward);
    let updates = if cmd.primary() == Some("update-ref"@) && cmd.worktree is Some {
        ref_update_steps(events, events.len())
    } else {
        Seq::empty()
    };
    let committed = some_event(events, EventTest::Commit);
    let pushed = some_event(events, EventTest::Push) && !facts.dry_run;
    let commit = step_if(committed, EffectStep::Sweep(SweepTrigger::PostCommit));
    let push = step_if(pushed, EffectStep::Sweep(SweepTrigger::PostPush));
    assert(event_steps(events.len()).contains(step) <==> (step matches EffectStep::Event(i) && i
        < events.len())) by {
        if let EffectStep::Event(i) = step {
            if i < events.len() {
                assert(event_steps(events.len())[i as int] == step);
            }
        }
    }
    lemma_ref_updates(events, events.len(), step);
    lemma_one(switches(cmd), EffectStep::Checkout, step);
    lemma_one(pulled, EffectStep::PullFastForward, step);
    lemma_one(committed, EffectStep::Sweep(SweepTrigger::PostCommit), step);
    lemma_one(pushed, EffectStep::Sweep(SweepTrigger::PostPush), step);
    lemma_in_either(each, checkout, step);
    lemma_in_either(each + checkout, pull, step);
    lemma_in_either(each + checkout + pull, updates, step);
    lemma_in_either(commit, push, step);
    lemma_in_either(
        each + checkout + pull + updates,
        sweep_steps(events, facts.dry_run),
        step,
    );
}

proof fn lemma_all(applied: AppliedCommand, facts: CommandFacts, step: EffectStep)
    requires
        applied.events@.len() <= usize::MAX,
    ensures
        ({
            let cmd = applied.command;
            let events = applied.events@;
            steps_of(cmd, events, facts).contains(step) <==> first_steps(cmd, events).contains(step)
                || !(cmd.exit_code != 0 && !works_though_failed(cmd, events, facts)) && last_steps(
                cmd,
                events,
                facts,
            ).contains(step)
        }),
{
    lemma_in_either(
        first_steps(applied.command, applied.events@),
        last_steps(applied.command, applied.events@, facts),
        step,
    );
}

proof fn lemma_named(applied: AppliedCommand, facts: CommandFacts, step: EffectStep)
    ensures
        ({
            let cmd = applied.command;
            let events = applied.events@;
            let steps = steps_of(cmd, events, facts);
            let works = cmd.exit_code == 0 || works_though_failed(cmd, events, facts);
            &&& step is DetectRewrites ==> (steps.contains(step) <==> detects(cmd, events))
            &&& step is ClearRebase ==> (steps.contains(step) <==> aborts_rebase(cmd)
                && cmd.worktree is Some)
            &&& step is NoteStoppedRebase ==> (steps.contains(step) <==> cmd.exit_code != 0
                && rebase_like(cmd, events))
            &&& step is NoteStoppedCherryPick ==> (steps.contains(step) <==> cmd.exit_code != 0
                && cmd.primary() == Some("cherry-pick"@))
            &&& step is Checkout ==> (steps.contains(step) <==> works && switches(cmd))
            &&& step is PullFastForward ==> (steps.contains(step) <==> works && some_event(
                events,
                EventTest::Pull,
            ) && cmd.worktree is Some)
            &&& (step matches EffectStep::Event(i) ==> (steps.contains(step) <==> works && i
                < events.len() && cmd.worktree is Some))
            &&& (step matches EffectStep::RefUpdate(i) ==> (steps.contains(step) <==> works && i
                < events.len() && events[i as int] is RefUpdated && cmd.primary() == Some(
                "update-ref"@,
            ) && cmd.worktree is Some))
            &&& step == EffectStep::Sweep(SweepTrigger::PostCommit) ==> (steps.contains(step)
                <==> works && some_event(events, EventTest::Commit))
            &&& step == EffectStep::Sweep(SweepTrigger::PostPush) ==> (steps.contains(step)
                <==> works && some_event(events, EventTest::Push) && !facts.dry_run)
        }),
{
    assert(applied.events@.len() == applied.events.len());
    lemma_all(applied, facts, step);
    lemma_first(applied, step);
    lemma_last(applied, facts, step);
}

/// A rebase that went through and was not given up is looked at for rewritten history before
/// anything else, whatever its events are; and it counts as one that replays commits.
pub proof fn law_a_rebase_is_looked_at_first(
    applied: AppliedCommand,
    facts: CommandFacts,
    steps: Vec<EffectStep>,
    replaying: bool,
)
    requires
        call_ensures(side_effect_steps, (&applied, &facts), steps),
        call_ensures(is_replaying, (&applied,), replaying),
        applied.command.primary() == Some("rebase"@),
        applied.command.exit_code == 0,
        !views(applied.command.invoked_args@).contains("--abort"@),
    ensures
        steps@.len() > 0,
        steps@[0] is DetectRewrites,
        replaying,
{
    lemma_command_names();
    let cmd = applied.command;
    assert(detects(cmd, applied.events@));
    assert(first_steps(cmd, applied.events@)[0] is DetectRewrites);
}

/// A pull that rebased is looked at for rewritten history before anything else, and counts
/// as one that replays commits.
pub proof fn law_a_rebasing_pull_is_looked_at_first(
    applied: AppliedCommand,
    facts: CommandFacts,
    steps: Vec<EffectStep>,
    replaying: bool,
    i: int,
    strategy: PullStrategy,
)
    requires
        call_ensures(side_effect_steps, (&applied, &facts), steps),
        call_ensures(is_replaying, (&applied,), replaying),
        applied.command.primary() == Some("pull"@),
        applied.command.exit_code == 0,
        0 <= i < applied.events@.len(),
        applied.events@[i] == (SemanticEvent::PullCompleted { strategy }),
        strategy == PullStrategy::Rebase || strategy == PullStrategy::RebaseMerges,
    ensures
        steps@.len() > 0,
        steps@[0] is DetectRewrites,
        replaying,
{
    lemma_command_names();
    let cmd = applied.command;
    assert(meets(applied.events@[i], EventTest::RebasingPull));
    assert(detects(cmd, applied.events@));
    assert(first_steps(cmd, applied.events@)[0] is DetectRewrites);
}

/// Nothing but a rebase that is not given up and a pull that rebased replays commits: a
/// command of another name, a rebase that is given up and a pull that merged do not.
pub proof fn law_other_commands_replay_nothing(applied: AppliedCommand, replaying: bool)
    requires
        call_ensures(is_replaying, (&applied,), replaying),
        replaying,
    ensures
        ({
            let cmd = applied.command;
            ||| cmd.primary() == Some("rebase"@) && !views(cmd.invoked_args@).contains("--abort"@)
            ||| cmd.primary() == Some("pull"@) && exists|i: int, strategy: PullStrategy|
                {
                    &&& 0 <= i < applied.events@.len()
                    &&& #[trigger] applied.events@[i] == (SemanticEvent::PullCompleted { strategy })
                    &&& #[trigger] rebases(strategy)
                }
        }),
{
    let cmd = applied.command;
    if cmd.primary() == Some("pull"@) {
        lemma_command_names();
        let i = choose|i: int|
            0 <= i < applied.events@.len() && meets(
                #[trigger] applied.events@[i],
                EventTest::RebasingPull,
            );
        if let SemanticEvent::PullCompleted { strategy } = applied.events@[i] {
            assert(applied.events@[i] == (SemanticEvent::PullCompleted { strategy }));
            assert(rebases(strategy));
        }
    }
}

/// Whether a pull of this strategy rebases.
pub open spec fn rebases(strategy: PullStrategy) -> bool {
    match strategy {
        PullStrategy::Rebase => true,
        PullStrategy::RebaseMerges => true,
        PullStrategy::Merge => false,
        PullStrategy::FastForwardOnly => false,
    }
}

/// A rebase that is given up is forgotten, and is never looked at for rewritten history.
pub proof fn law_an_aborted_rebase_is_forgotten(
    applied: AppliedCommand,
    facts: CommandFacts,
    steps: Vec<EffectStep>,
)
    requires
        call_ensures(side_effect_steps, (&applied, &facts), steps),
        applied.command.primary() == Some("rebase"@),
        views(applied.command.invoked_args@).contains("--abort"@),
    ensures
        applied.command.worktree is Some ==> steps@.len() > 0 && steps@[0] is ClearRebase,
        !steps@.contains(EffectStep::DetectRewrites),
{
    lemma_command_names();
    lemma_named(applied, facts, EffectStep::DetectRewrites);
    if applied.command.worktree is Some {
        assert(first_steps(applied.command, applied.events@)[0] is ClearRebase);
    }
}

/// Only a rebase that is given up is forgotten.
pub proof fn law_no_other_command_forgets_a_rebase(
    applied: AppliedCommand,
    facts: CommandFacts,
    steps: Vec<EffectStep>,
)
    requires
        call_ensures(side_effect_steps, (&applied, &facts), steps),
        steps@.contains(EffectStep::ClearRebase),
    ensures
        applied.command.primary() == Some("rebase"@),
        views(applied.command.invoked_args@).contains("--abort"@),
{
    lemma_named(applied, facts, EffectStep::ClearRebase);
}

/// A command that went well and replays nothing is looked at for rewritten history exactly
/// when no event of it is handled on its own: it made or amended no commit, picked none and
/// reset nothing. Switching branches and handling branches or stashes rewrites nothing.
pub proof fn law_other_commands_are_looked_at_unless_handled(
    applied: AppliedCommand,
    facts: CommandFacts,
    steps: Vec<EffectStep>,
    replaying: bool,
)
    requires
        call_ensures(side_effect_steps, (&applied, &facts), steps),
        call_ensures(is_replaying, (&applied,), replaying),
        !replaying,
        applied.command.exit_code == 0,
        applied.command.primary() != Some("rebase"@),
    ensures
        ({
            let cmd = applied.command;
            let handled = exists|i: int|
                0 <= i < applied.events@.len() && #[trigger] is_handled_alone(applied.events@[i]);
            steps@.contains(EffectStep::DetectRewrites) <==> !handled && cmd.primary() != Some(
                "checkout"@,
            ) && cmd.primary() != Some("switch"@) && cmd.primary() != Some("branch"@)
                && cmd.primary() != Some("stash"@)
        }),
{
    lemma_named(applied, facts, EffectStep::DetectRewrites);
    let events = applied.events@;
    if some_event(events, EventTest::OwnRewrite) {
        let i = choose|i: int|
            0 <= i < events.len() && meets(#[trigger] events[i], EventTest::OwnRewrite);
        assert(is_handled_alone(events[i]));
    }
    if exists|i: int| 0 <= i < events.len() && #[trigger] is_handled_alone(events[i]) {
        let i = choose|i: int| 0 <= i < events.len() && #[trigger] is_handled_alone(events[i]);
        assert(meets(events[i], EventTest::OwnRewrite));
    }
}

/// Whether an event is handled on its own, so that the moves of refs say nothing more.
pub open spec fn is_handled_alone(event: SemanticEvent) -> bool {
    match event {
        SemanticEvent::CommitCreated { .. } => true,
        SemanticEvent::CommitAmended { .. } => true,
        SemanticEvent::CherryPickComplete { .. } => true,
        SemanticEvent::Reset { .. } => true,
        _ => false,
    }
}

/// A command that failed is never looked at for rewritten history.
pub proof fn law_failures_rewrite_nothing(
    applied: AppliedCommand,
    facts: CommandFacts,
    steps: Vec<EffectStep>,
)
    requires
        call_ensures(side_effect_steps, (&applied, &facts), steps),
        applied.command.exit_code != 0,
    ensures
        !steps@.contains(EffectStep::DetectRewrites),
{
    lemma_named(applied, facts, EffectStep::DetectRewrites);
}

/// A rebase or a cherry-pick that stopped is noted, and one that went through is not; a
/// command of another name is never taken for one.
pub proof fn law_what_stopped_is_noted(
    applied: AppliedCommand,
    facts: CommandFacts,
    steps: Vec<EffectStep>,
)
    requires
        call_ensures(side_effect_steps, (&applied, &facts), steps),
    ensures
        ({
            let cmd = applied.command;
            &&& steps@.contains(EffectStep::NoteStoppedCherryPick) <==> cmd.exit_code != 0
                && cmd.primary() == Some("cherry-pick"@)
            &&& cmd.primary() == Some("rebase"@) ==> (steps@.contains(EffectStep::NoteStoppedRebase)
                <==> cmd.exit_code != 0)
            &&& cmd.exit_code == 0 ==> !steps@.contains(EffectStep::NoteStoppedRebase)
            &&& cmd.primary() != Some("rebase"@) && cmd.primary() != Some("pull"@)
                ==> !steps@.contains(EffectStep::NoteStoppedRebase)
        }),
{
    lemma_command_names();
    lemma_named(applied, facts, EffectStep::NoteStoppedCherryPick);
    lemma_named(applied, facts, EffectStep::NoteStoppedRebase);
}

/// A pull that failed half way is noted like a rebase that stopped, where it rebases or has
/// moved `HEAD` from one commit to another.
pub proof fn law_a_stopped_pull_is_noted(
    applied: AppliedCommand,
    facts: CommandFacts,
    steps: Vec<EffectStep>,
    i: int,
)
    requires
        call_ensures(side_effect_steps, (&applied, &facts), steps),
        applied.command.exit_code != 0,
        applied.command.primary() == Some("pull"@),
        0 <= i < applied.command.ref_changes@.len(),
        ({
            let change = applied.command.ref_changes@[i];
            change.reference@ == "HEAD"@ && crate::commands::real_oid(change.old@)
                && crate::commands::real_oid(change.new@)
        }),
    ensures
        steps@.contains(EffectStep::NoteStoppedRebase),
{
    lemma_named(applied, facts, EffectStep::NoteStoppedRebase);
    let rule = crate::commands::real_change(crate::commands::head_scope());
    crate::laws::refs::lemma_first_exists(applied.command.ref_changes@, rule, i);
}

/// Every event of a command that went well in a worktree is taken up, and in their order;
/// without a worktree none is.
pub proof fn law_events_are_taken_up_in_order(
    applied: AppliedCommand,
    facts: CommandFacts,
    steps: Vec<EffectStep>,
)
    requires
        call_ensures(side_effect_steps, (&applied, &facts), steps),
        applied.command.exit_code == 0,
    ensures
        forall|i: usize| #[trigger]
            steps@.contains(EffectStep::Event(i)) <==> i < applied.events@.len()
                && applied.command.worktree is Some,
        applied.command.worktree is Some ==> exists|at: int|
            0 <= at && #[trigger] events_from(steps@, at, applied.events@.len()),
{
    assert forall|i: usize| #[trigger]
        steps@.contains(EffectStep::Event(i)) <==> i < applied.events@.len()
            && applied.command.worktree is Some by {
        lemma_named(applied, facts, EffectStep::Event(i));
    }
    let at = first_steps(applied.command, applied.events@).len() as int;
    if applied.command.worktree is Some {
        assert(events_from(steps@, at, applied.events@.len()));
    }
}

/// Whether the steps from a place on take up so many events, one behind the other.
pub open spec fn events_from(steps: Seq<EffectStep>, at: int, n: nat) -> bool {
    at + n <= steps.len() && forall|i: int|
        0 <= i < n ==> #[trigger] steps[at + i] == EffectStep::Event(i as usize)
}

/// A command that failed has its events taken up only where it still did its work: a
/// checkout or switch that was asked to merge, a stash that was put back, and a squashed
/// merge.
pub proof fn law_failures_that_did_their_work(
    applied: AppliedCommand,
    facts: CommandFacts,
    steps: Vec<EffectStep>,
    i: usize,
)
    requires
        call_ensures(side_effect_steps, (&applied, &facts), steps),
        applied.command.exit_code != 0,
        applied.command.worktree is Some,
        i < applied.events@.len(),
    ensures
        ({
            let cmd = applied.command;
            let args = views(facts.parsed.command_args@);
            let restored = exists|k: int|
                0 <= k < applied.events@.len() && #[trigger] puts_back(applied.events@[k]);
            let squashed = exists|k: int|
                0 <= k < applied.events@.len() && (#[trigger] applied.events@[k]) is MergeSquash;
            steps@.contains(EffectStep::Event(i)) <==> {
                ||| (cmd.primary() == Some("checkout"@) || cmd.primary() == Some("switch"@)) && (
                args.contains("--merge"@) || args.contains("-m"@))
                ||| cmd.primary() == Some("stash"@) && restored
                ||| cmd.primary() == Some("merge"@) && squashed
            }
        }),
{
    lemma_named(applied, facts, EffectStep::Event(i));
    let events = applied.events@;
    if some_event(events, EventTest::StashRestore) {
        let k = choose|k: int|
            0 <= k < events.len() && meets(#[trigger] events[k], EventTest::StashRestore);
        assert(puts_back(events[k]));
    }
    if exists|k: int| 0 <= k < events.len() && #[trigger] puts_back(events[k]) {
        let k = choose|k: int| 0 <= k < events.len() && #[trigger] puts_back(events[k]);
        assert(meets(events[k], EventTest::StashRestore));
    }
    if some_event(events, EventTest::MergeSquash) {
        let k = choose|k: int|
            0 <= k < events.len() && meets(#[trigger] events[k], EventTest::MergeSquash);
        assert(events[k] is MergeSquash);
    }
    if exists|k: int| 0 <= k < events.len() && (#[trigger] events[k]) is MergeSquash {
        let k = choose|k: int| 0 <= k < events.len() && (#[trigger] events[k]) is MergeSquash;
        assert(meets(events[k], EventTest::MergeSquash));
    }
}

/// Whether an event puts stashed changes back.
pub open spec fn puts_back(event: SemanticEvent) -> bool {
    match event {
        SemanticEvent::StashOperation { kind, .. } => match kind {
            StashOpKind::Pop | StashOpKind::Apply | StashOpKind::Branch => true,
            _ => false,
        },
        _ => false,
    }
}

/// A checkout or switch that went well carries the working log over, and no other command
/// does so in its way; a pull that went well looks whether it went forward.
pub proof fn law_switches_and_pulls_carry_the_working_log(
    applied: AppliedCommand,
    facts: CommandFacts,
    steps: Vec<EffectStep>,
)
    requires
        call_ensures(side_effect_steps, (&applied, &facts), steps),
        applied.command.exit_code == 0,
    ensures
        steps@.contains(EffectStep::Checkout) <==> applied.command.primary() == Some("checkout"@)
            || applied.command.primary() == Some("switch"@),
        steps@.contains(EffectStep::PullFastForward) <==> applied.command.worktree is Some
            && exists|k: int|
            0 <= k < applied.events@.len() && (#[trigger] applied.events@[k]) is PullCompleted,
{
    lemma_named(applied, facts, EffectStep::Checkout);
    lemma_named(applied, facts, EffectStep::PullFastForward);
    let events = applied.events@;
    if some_event(events, EventTest::Pull) {
        let k = choose|k: int| 0 <= k < events.len() && meets(#[trigger] events[k], EventTest::Pull);
        assert(events[k] is PullCompleted);
    }
    if exists|k: int| 0 <= k < events.len() && (#[trigger] events[k]) is PullCompleted {
        let k = choose|k: int| 0 <= k < events.len() && (#[trigger] events[k]) is PullCompleted;
        assert(meets(events[k], EventTest::Pull));
    }
}

/// Every ref that an `update-ref` set is taken up, and those of no other command.
pub proof fn law_refs_that_were_set_are_taken_up(
    applied: AppliedCommand,
    facts: CommandFacts,
    steps: Vec<EffectStep>,
    i: usize,
)
    requires
        call_ensures(side_effect_steps, (&applied, &facts), steps),
        applied.command.exit_code == 0,
        applied.command.worktree is Some,
        i < applied.events@.len(),
    ensures
        steps@.contains(EffectStep::RefUpdate(i)) <==> applied.events@[i as int] is RefUpdated
            && applied.command.primary() == Some("update-ref"@),
{
    lemma_named(applied, facts, EffectStep::RefUpdate(i));
}

/// The transcripts are swept after a commit that was made or amended, and after a push that
/// did not only pretend.
pub proof fn law_transcripts_are_swept_after_commits_and_pushes(
    applied: AppliedCommand,
    facts: CommandFacts,
    steps: Vec<EffectStep>,
)
    requires
        call_ensures(side_effect_steps, (&applied, &facts), steps),
        applied.command.exit_code == 0,
    ensures
        ({
            let events = applied.events@;
            let committed = exists|k: int|
                0 <= k < events.len() && ((#[trigger] events[k]) is CommitCreated
                    || events[k] is CommitAmended);
            let pushed = exists|k: int|
                0 <= k < events.len() && (#[trigger] events[k]) is PushCompleted;
            &&& steps@.contains(EffectStep::Sweep(SweepTrigger::PostCommit)) <==> committed
            &&& steps@.contains(EffectStep::Sweep(SweepTrigger::PostPush)) <==> pushed
                && !facts.dry_run
        }),
{
    let events = applied.events@;
    lemma_named(applied, facts, EffectStep::Sweep(SweepTrigger::PostCommit));
    lemma_named(applied, facts, EffectStep::Sweep(SweepTrigger::PostPush));
    if some_event(events, EventTest::Commit) {
        let k = choose|k: int|
            0 <= k < events.len() && meets(#[trigger] events[k], EventTest::Commit);
        assert(events[k] is CommitCreated || events[k] is CommitAmended);
    }
    if exists|k: int|
        0 <= k < events.len() && ((#[trigger] events[k]) is CommitCreated
            || events[k] is CommitAmended) {
        let k = choose|k: int|
            0 <= k < events.len() && ((#[trigger] events[k]) is CommitCreated
                || events[k] is CommitAmended);
        assert(meets(events[k], EventTest::Commit));
    }
    if some_event(events, EventTest::Push) {
        let k = choose|k: int| 0 <= k < events.len() && meets(#[trigger] events[k], EventTest::Push);
        assert(events[k] is PushCompleted);
    }
    if exists|k: int| 0 <= k < events.len() && (#[trigger] events[k]) is PushCompleted {
        let k = choose|k: int| 0 <= k < events.len() && (#[trigger] events[k]) is PushCompleted;
        assert(meets(events[k], EventTest::Push));
    }
}

/// The transcripts are swept behind everything else.
pub proof fn law_transcripts_are_swept_last(
    applied: AppliedCommand,
    facts: CommandFacts,
    steps: Vec<EffectStep>,
    a: int,
    b: int,
)
    requires
        call_ensures(side_effect_steps, (&applied, &facts), steps),
        applied.command.exit_code == 0,
        0 <= a < b < steps@.len(),
        steps@[a] is Sweep,
    ensures
        steps@[b] is Sweep,
{
    let sweeps = sweep_steps(applied.events@, facts.dry_run);
    let rest = steps@.len() - sweeps.len();
    if a < rest {
        lemma_only_sweeps_sweep(applied, facts, a);
    }
    assert(steps@[b] == sweeps[b - rest]);
}

proof fn lemma_ref_updates_are_no_sweeps(events: Seq<SemanticEvent>, n: nat)
    requires
        n <= events.len(),
    ensures
        forall|k: int|
            0 <= k < ref_update_steps(events, n).len() ==> (#[trigger] ref_update_steps(
                events,
                n,
            )[k]) is RefUpdate,
    decreases n,
{
    if n > 0 {
        lemma_ref_updates_are_no_sweeps(events, (n - 1) as nat);
    }
}

proof fn lemma_only_sweeps_sweep(applied: AppliedCommand, facts: CommandFacts, a: int)
    requires
        applied.command.exit_code == 0,
        0 <= a < steps_of(applied.command, applied.events@, facts).len() - sweep_steps(
            applied.events@,
            facts.dry_run,
        ).len(),
    ensures
        steps_of(applied.command, applied.events@, facts)[a] !is Sweep,
{
    let cmd = applied.command;
    let events = applied.events@;
    let first = first_steps(cmd, events);
    if a < first.len() {
        assert(steps_of(cmd, events, facts)[a] == first[a]);
        assert(first.contains(first[a]));
        lemma_first(applied, first[a]);
    } else {
        let each = if cmd.worktree is Some {
            event_steps(events.len())
        } else {
            Seq::empty()
        };
        let checkout = step_if(switches(cmd), EffectStep::Checkout);
        let pull = step_if(
            some_event(events, EventTest::Pull) && cmd.worktree is Some,
            EffectStep::PullFastForward,
        );
        let updates = if cmd.primary() == Some("update-ref"@) && cmd.worktree is Some {
            ref_update_steps(events, events.len())
        } else {
            Seq::empty()
        };
        let front = each + checkout + pull + updates;
        lemma_ref_updates_are_no_sweeps(events, events.len());
        let b = a - first.len();
        assert(steps_of(cmd, events, facts)[a] == last_steps(cmd, events, facts)[b]);
        assert(last_steps(cmd, events, facts)[b] == front[b]);
        if b < each.len() {
            assert(front[b] == each[b]);
        } else if b < each.len() + checkout.len() {
            assert(front[b] == checkout[b - each.len()]);
        } else if b < each.len() + checkout.len() + pull.len() {
            assert(front[b] == pull[b - each.len() - checkout.len()]);
        } else {
            assert(front[b] == updates[b - each.len() - checkout.len() - pull.len()]);
        }
    }
}

} // verus!
