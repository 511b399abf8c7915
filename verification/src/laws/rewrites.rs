//! What is done about rewritten history.
use crate::commands::{
    all_picked, head_scope, last_picked, moved_change, picks, real_change, real_oid,
    CommandFacts, NormalizedCommand, RefChange, RefScopeModel,
};
use crate::laws::refs::{
    goes, lemma_all_is_filter, lemma_first, lemma_first_exists, lemma_last, lemma_last_exists,
    lemma_moves_go, moves_head,
};
use crate::laws::steps::lemma_command_names;
use crate::pending::PendingRewrites;
use crate::rewrite::{
    branch_from, commit_parent_pairs, conflict_log_range, explicit_rebase_branch_ref_name,
    files_outside_pathspecs, history_moves, no_commit_mappings, onto_in, plan_non_ff_rewrites,
    qualifying_diff_pairs, rebase_new_tip_from_command, rebase_onto_from_command, revert_specs,
    rewrite_metric_branch_for_transition, stash_pathspecs_from_command, step_for, steps_for,
    steps_view, strict_rebase_original_head_from_command, taken_together, Ancestry, MetricBranch,
    Move, PendingRebase, RevertSpec, RewriteOperation, RewriteStep, StepModel,
};
use crate::side_effects::{detect_non_ff_rewrites, note_stopped_rebase, SideEffectError};
use crate::text::{has_prefix, opt_view, views};
use crate::trace::ParsedGitInvocation;
use vstd::prelude::*;

verus! {

proof fn lemma_steps_for(
    cmd: NormalizedCommand,
    lite: bool,
    known: Ancestry,
    moves: Seq<Move>,
    step: StepModel,
)
    ensures
        steps_for(cmd, lite, known, moves).contains(step) <==> exists|i: int|
            0 <= i < moves.len() && step_for(cmd, lite, known, #[trigger] moves[i]) == Some(step),
    decreases moves.len(),
{
    if moves.len() > 0 {
        let rest = moves.drop_last();
        let before = steps_for(cmd, lite, known, rest);
        lemma_steps_for(cmd, lite, known, rest, step);
        let whole = steps_for(cmd, lite, known, moves);
        if before.contains(step) {
            let k = before.index_of(step);
            assert(whole[k] == step);
            let i = choose|i: int|
                0 <= i < rest.len() && step_for(cmd, lite, known, #[trigger] rest[i]) == Some(step);
            assert(moves[i] == rest[i]);
        }
        if step_for(cmd, lite, known, moves.last()) == Some(step) {
            assert(whole[before.len() as int] == step);
            assert(moves[moves.len() - 1] == moves.last());
        }
        if whole.contains(step) {
            let k = whole.index_of(step);
            if k < before.len() {
                assert(before[k] == step);
            }
        }
        if exists|i: int|
            0 <= i < moves.len() && step_for(cmd, lite, known, #[trigger] moves[i]) == Some(step) {
            let i = choose|i: int|
                0 <= i < moves.len() && step_for(cmd, lite, known, #[trigger] moves[i]) == Some(
                    step,
                );
            if i < rest.len() {
                assert(rest[i] == moves[i]);
            }
        }
    }
}

/// The moves that count as history: those of branches between objects, and those of `HEAD`
/// where no branch moved.
pub open spec fn counted(changes: Seq<RefChange>) -> Seq<RefChange> {
    let branches = changes.filter(
        |c: RefChange|
            has_prefix(c.reference@, "refs/heads/"@) && real_oid(c.old@) && real_oid(c.new@),
    );
    if branches.len() > 0 {
        branches
    } else {
        changes.filter(
            |c: RefChange| c.reference@ == "HEAD"@ && real_oid(c.old@) && real_oid(c.new@),
        )
    }
}

proof fn lemma_counted(changes: Seq<RefChange>)
    ensures
        history_moves(changes) == counted(changes),
{
    let branches = real_change(RefScopeModel::Branches);
    let heads = real_change(head_scope());
    lemma_all_is_filter(changes, branches);
    lemma_all_is_filter(changes, heads);
    assert((|c: RefChange| picks(branches, c)) =~= (|c: RefChange|
        has_prefix(c.reference@, "refs/heads/"@) && real_oid(c.old@) && real_oid(c.new@)));
    assert((|c: RefChange| picks(heads, c)) =~= (|c: RefChange|
        c.reference@ == "HEAD"@ && real_oid(c.old@) && real_oid(c.new@)));
}

/// The notes go from where a branch was to where it ended, and only where the one does not
/// lead to the other: every step of a plan is such a rewrite, of a ref that went that way.
pub proof fn law_only_rewritten_refs_are_rewritten(
    cmd: NormalizedCommand,
    control_mode: bool,
    known: Ancestry,
    r: Vec<RewriteStep>,
    at: int,
)
    requires
        call_ensures(plan_non_ff_rewrites, (&cmd, control_mode, &None, false, &known), r),
        0 <= at < r@.len(),
    ensures
        r@[at] matches RewriteStep::Rewrite { old_tip, new_tip, reference, operation, .. } && {
            &&& old_tip@ != new_tip@
            &&& !known.holds(old_tip@, new_tip@)
            &&& reference is Some
            &&& goes(counted(cmd.ref_changes@), reference->0@, old_tip@, new_tip@)
            &&& operation == RewriteOperation::Rebase <==> cmd.primary() == Some("rebase"@)
            &&& operation == RewriteOperation::UpdateRef <==> cmd.primary() == Some("update-ref"@)
        },
{
    lemma_command_names();
    lemma_counted(cmd.ref_changes@);
    let moves = taken_together(history_moves(cmd.ref_changes@));
    let steps = steps_view(r@);
    assert(steps[at] == r@[at]@);
    assert(steps.contains(r@[at]@));
    lemma_steps_for(cmd, false, known, moves, r@[at]@);
    let i = choose|i: int|
        0 <= i < moves.len() && step_for(cmd, false, known, #[trigger] moves[i]) == Some(r@[at]@);
    lemma_moves_go(history_moves(cmd.ref_changes@), i);
}

/// Every ref that was taken from one commit to another that it does not lead to is rewritten:
/// none is passed over.
pub proof fn law_every_rewritten_ref_is_rewritten(
    cmd: NormalizedCommand,
    control_mode: bool,
    known: Ancestry,
    r: Vec<RewriteStep>,
    reference: Seq<char>,
    old_tip: Seq<char>,
    new_tip: Seq<char>,
)
    requires
        call_ensures(plan_non_ff_rewrites, (&cmd, control_mode, &None, false, &known), r),
        goes(counted(cmd.ref_changes@), reference, old_tip, new_tip),
        old_tip != new_tip,
        !known.holds(old_tip, new_tip),
    ensures
        exists|at: int|
            0 <= at < r@.len() && #[trigger] rewrites(r@[at], reference, old_tip, new_tip),
{
    lemma_counted(cmd.ref_changes@);
    let changes = history_moves(cmd.ref_changes@);
    let moves = taken_together(changes);
    crate::rewrite::law_moves_are_one_per_ref(changes);
    let (i, j) = choose|i: int, j: int|
        {
            &&& 0 <= i < changes.len() && 0 <= j < changes.len()
            &&& (#[trigger] changes[i]).reference@ == reference && changes[i].old@ == old_tip
            &&& (#[trigger] changes[j]).reference@ == reference && changes[j].new@ == new_tip
            &&& forall|k: int| 0 <= k < i ==> (#[trigger] changes[k]).reference@ != reference
            &&& forall|k: int|
                j < k < changes.len() ==> (#[trigger] changes[k]).reference@ != reference
        };
    assert(crate::rewrite::has_move(moves, changes[i].reference@));
    let m = choose|m: int| 0 <= m < moves.len() && (#[trigger] moves[m]).reference == reference;
    lemma_moves_go(changes, m);
    let (a, b) = choose|a: int, b: int|
        {
            &&& 0 <= a < changes.len() && 0 <= b < changes.len()
            &&& (#[trigger] changes[a]).reference@ == reference && changes[a].old@ == moves[m].old
            &&& (#[trigger] changes[b]).reference@ == reference && changes[b].new@ == moves[m].new
            &&& forall|k: int| 0 <= k < a ==> (#[trigger] changes[k]).reference@ != reference
            &&& forall|k: int|
                b < k < changes.len() ==> (#[trigger] changes[k]).reference@ != reference
        };
    assert(a == i && b == j) by {
        if a < i {
            assert(changes[a].reference@ != reference);
        }
        if i < a {
            assert(changes[i].reference@ != reference);
        }
        if b < j {
            assert(changes[j].reference@ != reference);
        }
        if j < b {
            assert(changes[b].reference@ != reference);
        }
    }
    let step = step_for(cmd, false, known, moves[m])->0;
    assert(step_for(cmd, false, known, moves[m]) == Some(step));
    lemma_steps_for(cmd, false, known, moves, step);
    let at = steps_view(r@).index_of(step);
    assert(r@[at]@ == step);
    assert(rewrites(r@[at], reference, old_tip, new_tip));
}

/// Whether a step rewrites a ref from one commit to another.
pub open spec fn rewrites(
    step: RewriteStep,
    from: Seq<char>,
    old: Seq<char>,
    new: Seq<char>,
) -> bool {
    match step {
        RewriteStep::Rewrite { old_tip, new_tip, reference, .. } => old_tip@ == old && new_tip@
            == new && opt_view(reference) == Some(from),
        RewriteStep::Rename { .. } => false,
    }
}

/// With only the working logs kept up nothing is rewritten: the working log is carried over,
/// by a rebase, a pull or an `update-ref` alone, and between different commits.
pub proof fn law_lite_plans_only_carry_the_working_log(
    cmd: NormalizedCommand,
    control_mode: bool,
    pending: Option<PendingRebase>,
    known: Ancestry,
    r: Vec<RewriteStep>,
    at: int,
)
    requires
        call_ensures(plan_non_ff_rewrites, (&cmd, control_mode, &pending, true, &known), r),
        0 <= at < r@.len(),
    ensures
        r@[at] matches RewriteStep::Rename { old_tip, new_tip } && old_tip@ != new_tip@,
        pending is None ==> cmd.primary() == Some("rebase"@) || cmd.primary() == Some("pull"@)
            || cmd.primary() == Some("update-ref"@),
{
    let moves = taken_together(history_moves(cmd.ref_changes@));
    let steps = steps_view(r@);
    assert(steps[at] == r@[at]@);
    assert(steps.contains(r@[at]@));
    lemma_steps_for(cmd, true, known, moves, r@[at]@);
}

/// A rebase that had stopped is, once it ends, one rewrite from where it had started to where
/// its branch ended, and nothing else; where the one leads to the other there is nothing to do.
pub proof fn law_a_finished_rebase_is_one_rewrite(
    cmd: NormalizedCommand,
    control_mode: bool,
    pending: PendingRebase,
    lite: bool,
    known: Ancestry,
    started: &str,
    tip: Option<String>,
    r: Vec<RewriteStep>,
)
    requires
        started@ == pending.original_head@,
        call_ensures(rebase_new_tip_from_command, (&cmd, control_mode, started), tip),
        tip is Some,
        call_ensures(plan_non_ff_rewrites, (&cmd, control_mode, &Some(pending), lite, &known), r),
    ensures
        started@ == tip->0@ || !lite && known.holds(started@, tip->0@) ==> r@.len() == 0,
        started@ != tip->0@ && lite ==> r@.len() == 1 && (r@[0] matches RewriteStep::Rename {
            old_tip,
            new_tip,
        } && old_tip@ == started@ && new_tip@ == tip->0@),
        started@ != tip->0@ && !lite && !known.holds(started@, tip->0@) ==> r@.len() == 1 && (
        r@[0] matches RewriteStep::Rewrite { old_tip, new_tip, operation, onto, .. } && old_tip@
            == started@ && new_tip@ == tip->0@ && operation == RewriteOperation::Rebase && (
        pending.onto is Some && pending.onto->0@ != started@ && pending.onto->0@ != tip->0@
            && known.holds(pending.onto->0@, tip->0@) ==> opt_view(onto) == Some(
            pending.onto->0@,
        ))),
{
    let steps = steps_view(r@);
    assert(steps.len() == r@.len());
    if r@.len() > 0 {
        assert(steps[0] == r@[0]@);
    }
}

/// A rebase ends where the branch went that was last taken from its original head; only a
/// rebase that was steered looks elsewhere.
pub proof fn law_a_rebase_ends_where_its_branch_went(
    cmd: NormalizedCommand,
    control_mode: bool,
    original_head: &str,
    i: int,
    r: Option<String>,
)
    requires
        call_ensures(rebase_new_tip_from_command, (&cmd, control_mode, original_head), r),
        0 <= i < cmd.ref_changes@.len(),
        leaves(cmd.ref_changes@[i], original_head@),
        forall|k: int|
            i < k < cmd.ref_changes@.len() ==> !leaves(#[trigger] cmd.ref_changes@[k], original_head@),
    ensures
        r is Some && r->0@ == cmd.ref_changes@[i].new@,
{
    let rule = branch_from(original_head@);
    let changes = cmd.ref_changes@;
    assert(picks(rule, changes[i]));
    lemma_last_exists(changes, rule, i);
    let at = lemma_last(changes, rule);
    assert(at == i) by {
        if at > i {
            assert(leaves(changes[at], original_head@));
        }
        if at < i {
            assert(!picks(rule, changes[i]));
        }
    }
}

/// Whether a change takes a branch from a commit to another.
pub open spec fn leaves(c: RefChange, from: Seq<char>) -> bool {
    has_prefix(c.reference@, "refs/heads/"@) && c.old@ == from && real_oid(c.old@) && real_oid(
        c.new@,
    ) && c.old@ != c.new@
}

/// Unless it was steered, a rebase that took no branch from its original head has no end.
pub proof fn law_a_rebase_without_its_branch_has_no_end(
    cmd: NormalizedCommand,
    original_head: &str,
    r: Option<String>,
)
    requires
        call_ensures(rebase_new_tip_from_command, (&cmd, false, original_head), r),
        forall|k: int|
            0 <= k < cmd.ref_changes@.len() ==> !leaves(#[trigger] cmd.ref_changes@[k], original_head@),
    ensures
        r is None,
{
    let rule = branch_from(original_head@);
    if last_picked(cmd.ref_changes@, rule) is Some {
        let at = lemma_last(cmd.ref_changes@, rule);
        assert(leaves(cmd.ref_changes@[at], original_head@));
    }
}

proof fn lemma_onto(
    heads: Seq<RefChange>,
    original_head: Seq<char>,
    new_tip: Seq<char>,
    known: Ancestry,
    from_start: bool,
)
    ensures
        onto_in(heads, original_head, new_tip, known, from_start) is Some ==> {
            let onto = onto_in(heads, original_head, new_tip, known, from_start)->0;
            &&& known.holds(onto, new_tip)
            &&& onto != original_head && onto != new_tip
            &&& exists|i: int|
                0 <= i < heads.len() && (onto == (#[trigger] heads[i]).new@ || onto
                    == heads[i].old@)
        },
    decreases heads.len(),
{
    if heads.len() > 0 {
        lemma_onto(heads.skip(1), original_head, new_tip, known, from_start);
        let found = onto_in(heads.skip(1), original_head, new_tip, known, from_start);
        if found is Some {
            let i = choose|i: int|
                0 <= i < heads.skip(1).len() && (found->0 == (#[trigger] heads.skip(1)[i]).new@
                    || found->0 == heads.skip(1)[i].old@);
            assert(heads[i + 1] == heads.skip(1)[i]);
        }
    }
}

/// What a rebase went onto leads to its new end, is neither of its ends, and is where a move of
/// `HEAD` came from or went to.
pub proof fn law_what_a_rebase_went_onto_leads_to_its_end(
    cmd: NormalizedCommand,
    known: Ancestry,
    original_head: &str,
    new_tip: &str,
    r: Option<String>,
)
    requires
        call_ensures(rebase_onto_from_command, (&cmd, &known, original_head, new_tip), r),
        r is Some,
    ensures
        known.holds(r->0@, new_tip@),
        r->0@ != original_head@ && r->0@ != new_tip@,
        exists|i: int|
            0 <= i < cmd.ref_changes@.len() && moves_head(#[trigger] cmd.ref_changes@[i]) && (r->0@
                == cmd.ref_changes@[i].new@ || r->0@ == cmd.ref_changes@[i].old@),
{
    let rule = moved_change(head_scope());
    let heads = all_picked(cmd.ref_changes@, rule);
    lemma_onto(heads, original_head@, new_tip@, known, true);
    lemma_onto(heads, original_head@, new_tip@, known, false);
    let i = choose|i: int|
        0 <= i < heads.len() && (r->0@ == (#[trigger] heads[i]).new@ || r->0@ == heads[i].old@);
    lemma_from(cmd.ref_changes@, i);
}

proof fn lemma_from(changes: Seq<RefChange>, i: int)
    requires
        0 <= i < all_picked(changes, moved_change(head_scope())).len(),
    ensures
        exists|k: int|
            0 <= k < changes.len() && #[trigger] changes[k] == all_picked(
                changes,
                moved_change(head_scope()),
            )[i] && moves_head(changes[k]),
    decreases changes.len(),
{
    let rule = moved_change(head_scope());
    let rest = changes.drop_last();
    let before = all_picked(rest, rule);
    if i < before.len() {
        lemma_from(rest, i);
        let k = choose|k: int|
            0 <= k < rest.len() && #[trigger] rest[k] == before[i] && moves_head(rest[k]);
        assert(changes[k] == rest[k]);
    } else {
        assert(changes[changes.len() - 1] == changes.last());
    }
}

/// Where `HEAD` first left the original head for a commit that leads to the new end, that is
/// what the rebase went onto.
pub proof fn law_a_rebase_goes_onto_where_head_first_went(
    cmd: NormalizedCommand,
    known: Ancestry,
    original_head: &str,
    new_tip: &str,
    r: Option<String>,
)
    requires
        call_ensures(rebase_onto_from_command, (&cmd, &known, original_head, new_tip), r),
        cmd.ref_changes@.len() > 0,
        moves_head(cmd.ref_changes@[0]),
        cmd.ref_changes@[0].old@ == original_head@,
        cmd.ref_changes@[0].new@ != new_tip@,
        known.holds(cmd.ref_changes@[0].new@, new_tip@),
    ensures
        r is Some && r->0@ == cmd.ref_changes@[0].new@,
{
    let rule = moved_change(head_scope());
    assert(picks(rule, cmd.ref_changes@[0]));
    crate::laws::refs::lemma_first_of_filter(cmd.ref_changes@, rule);
}

/// A rebase that stops with its branch named starts where that branch was; else where `HEAD`
/// was seen; else where a branch was left, and last where `HEAD` was.
pub proof fn law_a_rebase_starts_where_its_branch_was(
    cmd: NormalizedCommand,
    branch: Option<String>,
    seen: &str,
    i: int,
    r: Option<String>,
)
    requires
        call_ensures(strict_rebase_original_head_from_command, (&cmd, &branch, seen), r),
    ensures
        branch is Some && has_prefix(branch->0@, "refs/"@) && 0 <= i < cmd.ref_changes@.len()
            && cmd.ref_changes@[i].reference@ == branch->0@ && real_oid(cmd.ref_changes@[i].old@)
            && (forall|k: int|
            0 <= k < i ==> (#[trigger] cmd.ref_changes@[k]).reference@ != branch->0@) ==> r is Some
            && r->0@ == cmd.ref_changes@[i].old@,
        branch is None && real_oid(seen@) ==> r is Some && r->0@ == seen@,
        r is Some ==> real_oid(r->0@),
{
    let changes = cmd.ref_changes@;
    if branch is Some && has_prefix(branch->0@, "refs/"@) && 0 <= i < changes.len()
        && changes[i].reference@ == branch->0@ && real_oid(changes[i].old@) && (forall|k: int|
        0 <= k < i ==> (#[trigger] changes[k]).reference@ != branch->0@) {
        let rule = crate::commands::left_object(RefScopeModel::Named(branch->0@));
        lemma_first_exists(changes, rule, i);
        let at = lemma_first(changes, rule);
        assert(at == i) by {
            if at > i {
                assert(!picks(rule, changes[i]));
            }
        }
    }
    if r is Some {
        lemma_left_is_real(changes, RefScopeModel::Branches);
        lemma_left_is_real(changes, head_scope());
        if branch is Some {
            match crate::rewrite::branch_ref_of(branch->0@) {
                Some(reference) => lemma_left_is_real(changes, RefScopeModel::Named(reference)),
                None => {},
            }
        }
    }
}

proof fn lemma_left_is_real(changes: Seq<RefChange>, scope: RefScopeModel)
    ensures
        crate::rewrite::first_left(changes, scope) is Some ==> real_oid(
            crate::rewrite::first_left(changes, scope)->0,
        ),
{
    let rule = crate::commands::left_object(scope);
    if crate::commands::first_picked(changes, rule) is Some {
        let at = lemma_first(changes, rule);
    }
}

/// A branch that is named in full is its own ref, one that is named short lies under
/// `refs/heads/`; an object id and `HEAD` name no branch.
pub proof fn law_branch_names_become_refs(name: &str, r: Option<String>)
    requires
        call_ensures(explicit_rebase_branch_ref_name, (name,), r),
    ensures
        has_prefix(name@, "refs/"@) ==> opt_view(r) == Some(name@),
        name@ == "HEAD"@ ==> r is None,
        real_oid(name@) && !has_prefix(name@, "refs/"@) ==> r is None,
        r is Some && !has_prefix(name@, "refs/"@) ==> r->0@ == "refs/heads/"@ + name@,
        name@ == "main"@ || name@ == "topic"@ ==> r is Some,
{
    reveal_strlit("HEAD");
    reveal_strlit("refs/");
    reveal_strlit("main");
    reveal_strlit("topic");
    reveal_strlit("@{");
    assert("HEAD"@.len() == 4 && "refs/"@.len() == 5 && "main"@.len() == 4 && "topic"@.len() == 5);
    assert("@{"@.len() == 2 && "@{"@[0] == '@');
    assert("main"@[0] == 'm' && "topic"@[0] == 't' && "HEAD"@[0] == 'H' && "refs/"@[0] == 'r');
    if has_prefix(name@, "@{"@) {
        assert(name@.subrange(0, 2)[0] == name@[0]);
    }
    if has_prefix(name@, "refs/"@) {
        assert(name@.subrange(0, 5)[0] == name@[0]);
    }
}

/// A rebase that stopped is noted for its worktree, with what it went onto: where `HEAD` first
/// went from one commit to another. One that is given up is forgotten, one that was only
/// steered stays noted as it was.
pub proof fn law_stopped_rebases_are_noted(
    pending: &mut PendingRewrites,
    key: String,
    cmd: NormalizedCommand,
    facts: CommandFacts,
    r: Result<(), SideEffectError>,
)
    requires
        call_ensures(note_stopped_rebase, (pending, &Some(key), &cmd, &facts), r),
    ensures
        r is Ok,
        views(cmd.invoked_args@).contains("--abort"@) ==> !final(pending).rebases@.contains_key(
            key@,
        ),
        !views(cmd.invoked_args@).contains("--abort"@) && facts.rebase_control_mode ==> final(pending).rebases@ == old(pending).rebases@,
        !views(cmd.invoked_args@).contains("--abort"@) && !facts.rebase_control_mode
            && facts.rebase_branch_arg is None && cmd.ref_changes@.len() > 0 && moves_head(
            cmd.ref_changes@[0],
        ) ==> final(pending).rebases@.contains_key(key@) && final(pending).rebases@[key@].original_head@ == cmd.ref_changes@[0].old@ && opt_view(
            final(pending).rebases@[key@].onto,
        ) == Some(cmd.ref_changes@[0].new@),
        forall|other: Seq<char>|
            other != key@ ==> (#[trigger] final(pending).rebases@.contains_key(other) <==> old(pending).rebases@.contains_key(other)),
{
    if cmd.ref_changes@.len() > 0 && moves_head(cmd.ref_changes@[0]) {
        assert(picks(real_change(head_scope()), cmd.ref_changes@[0]));
    }
}

/// Without a worktree a rebase that stopped cannot be noted.
pub proof fn law_rebases_without_a_worktree_are_refused(
    pending: &mut PendingRewrites,
    cmd: NormalizedCommand,
    facts: CommandFacts,
    r: Result<(), SideEffectError>,
)
    requires
        call_ensures(note_stopped_rebase, (pending, &None, &cmd, &facts), r),
    ensures
        r is Err && r->Err_0 == (SideEffectError::RebaseWithoutWorktree { sid: cmd.root_sid }),
        *final(pending) == *old(pending),
{
}

/// What was noted of a rebase is used up by the next rebase that is looked at, and by no other
/// command; other worktrees keep theirs.
pub proof fn law_a_noted_rebase_is_used_once(
    pending: &mut PendingRewrites,
    key: &str,
    cmd: NormalizedCommand,
    facts: CommandFacts,
    lite: bool,
    known: Ancestry,
    r: Vec<RewriteStep>,
)
    requires
        call_ensures(detect_non_ff_rewrites, (pending, key, &cmd, &facts, lite, &known), r),
    ensures
        cmd.primary() == Some("rebase"@) ==> !final(pending).rebases@.contains_key(key@),
        cmd.primary() != Some("rebase"@) ==> final(pending).rebases@ == old(pending).rebases@,
        forall|other: Seq<char>|
            other != key@ ==> (#[trigger] final(pending).rebases@.contains_key(other) <==> old(pending).rebases@.contains_key(other)),
{
}

/// The commits of a revert are where `HEAD` went, each behind the one before it, and each undoes
/// the source at its place.
pub proof fn law_reverts_pair_commits_with_their_sources(
    cmd: NormalizedCommand,
    sources: Vec<String>,
    r: Vec<RevertSpec>,
    i: int,
)
    requires
        call_ensures(revert_specs, (&cmd, &sources), r),
        0 <= i < r@.len(),
    ensures
        ({
            let moves = cmd.ref_changes@.filter(|c: RefChange| moves_head(c));
            &&& r@.len() == moves.len()
            &&& r@[i].revert_commit@ == moves[i].new@
            &&& opt_view(r@[i].parent) == Some(moves[i].old@)
            &&& i < sources@.len() ==> opt_view(r@[i].reverted_commit) == Some(sources@[i]@)
            &&& i >= sources@.len() ==> r@[i].reverted_commit is None
        }),
{
    let rule = moved_change(head_scope());
    lemma_all_is_filter(cmd.ref_changes@, rule);
    assert((|c: RefChange| picks(rule, c)) =~= (|c: RefChange| moves_head(c)));
}

/// Each commit of a series stands on the one before it, the first on the original head.
pub proof fn law_series_stand_on_one_another(
    original_head: &str,
    commits: Vec<String>,
    r: Vec<(String, String)>,
    i: int,
)
    requires
        call_ensures(commit_parent_pairs, (original_head, &commits), r),
        0 <= i < commits@.len(),
    ensures
        r@.len() == commits@.len(),
        r@[i].0@ == commits@[i]@,
        i == 0 ==> r@[i].1@ == original_head@,
        i > 0 ==> r@[i].1@ == r@[i - 1].0@,
{
}

/// What was picked without being committed all became the one commit that took it in.
pub proof fn law_uncommitted_picks_become_one_commit(
    sources: Vec<String>,
    new_head: &str,
    r: Vec<(String, String)>,
)
    requires
        call_ensures(no_commit_mappings, (&sources, new_head), r),
    ensures
        new_head@.len() == 0 ==> r@.len() == 0,
        new_head@.len() > 0 ==> r@.len() == sources@.len(),
        forall|i: int|
            0 <= i < r@.len() ==> (#[trigger] r@[i]).0@ == sources@[i]@ && r@[i].1@ == new_head@,
{
}

/// A rewrite is counted under the branch that is hinted at, else under a branch that moved
/// between just its two commits.
pub proof fn law_rewrites_are_counted_under_their_branch(
    cmd: NormalizedCommand,
    old_tip: &str,
    new_tip: &str,
    hinted: Option<String>,
    r: MetricBranch,
)
    requires
        call_ensures(rewrite_metric_branch_for_transition, (&cmd, old_tip, new_tip, &hinted), r),
    ensures
        hinted is Some ==> (r matches MetricBranch::Named(name) && name@ == hinted->0@),
        hinted is None ==> !(r is Named),
        r is OfReference ==> exists|i: int|
            0 <= i < cmd.ref_changes@.len() && #[trigger] went(
                cmd.ref_changes@[i],
                old_tip@,
                new_tip@,
            ) && cmd.ref_changes@[i].reference@ == r->OfReference_0@,
        hinted is None && (exists|i: int|
            0 <= i < cmd.ref_changes@.len() && #[trigger] went(
                cmd.ref_changes@[i],
                old_tip@,
                new_tip@,
            )) ==> r is OfReference,
{
    let rule = crate::commands::RefRule {
        old_is: Some(old_tip@),
        new_is: Some(new_tip@),
        ..crate::commands::any_change(RefScopeModel::Branches)
    };
    let changes = cmd.ref_changes@;
    if last_picked(changes, rule) is Some {
        let at = lemma_last(changes, rule);
        assert(went(changes[at], old_tip@, new_tip@));
    }
    if exists|i: int| 0 <= i < changes.len() && #[trigger] went(changes[i], old_tip@, new_tip@) {
        let i = choose|i: int|
            0 <= i < changes.len() && #[trigger] went(changes[i], old_tip@, new_tip@);
        lemma_last_exists(changes, rule, i);
    }
}

/// Whether a branch went from one commit to another.
pub open spec fn went(c: RefChange, old: Seq<char>, new: Seq<char>) -> bool {
    has_prefix(c.reference@, "refs/heads/"@) && c.old@ == old && c.new@ == new
}

/// The conflicts of a rebase are looked for between what it went onto and its new end; where
/// the former is not known, nowhere.
pub proof fn law_conflicts_lie_behind_the_base(onto: Option<String>, new_tip: &str, r: Option<String>)
    requires
        call_ensures(conflict_log_range, (&onto, new_tip), r),
    ensures
        r is Some <==> onto is Some && onto->0@.len() > 0,
        r is Some ==> r->0@ == onto->0@ + ".."@ + new_tip@,
{
}

/// Only commits whose parent has a working log are compared, each from its parent to itself.
pub proof fn law_commits_are_compared_with_their_parent(
    pairs: Vec<(String, String)>,
    has_log: Vec<bool>,
    r: Vec<(String, String)>,
    commit: Seq<char>,
    parent: Seq<char>,
)
    requires
        pairs@.len() == has_log@.len(),
        call_ensures(qualifying_diff_pairs, (&pairs, &has_log), r),
    ensures
        (exists|k: int|
            0 <= k < r@.len() && (#[trigger] r@[k]).0@ == parent && r@[k].1@ == commit) <==> (
        exists|i: int|
            0 <= i < pairs@.len() && (#[trigger] pairs@[i]).0@ == commit && pairs@[i].1@ == parent
                && has_log@[i]),
{
    let models = crate::rewrite::pair_views(pairs@);
    let found = crate::rewrite::pair_views(r@);
    lemma_compared(models, has_log@, commit, parent);
    if found.contains((parent, commit)) {
        let k = found.index_of((parent, commit));
        assert(r@[k].0@ == parent && r@[k].1@ == commit);
        let i = choose|i: int|
            0 <= i < models.len() && #[trigger] models[i] == (commit, parent) && has_log@[i];
        assert(pairs@[i].0@ == commit && pairs@[i].1@ == parent);
    }
    if exists|k: int| 0 <= k < r@.len() && (#[trigger] r@[k]).0@ == parent && r@[k].1@ == commit {
        let k = choose|k: int|
            0 <= k < r@.len() && (#[trigger] r@[k]).0@ == parent && r@[k].1@ == commit;
        assert(found[k] == (parent, commit));
    }
    if exists|i: int|
        0 <= i < pairs@.len() && (#[trigger] pairs@[i]).0@ == commit && pairs@[i].1@ == parent
            && has_log@[i] {
        let i = choose|i: int|
            0 <= i < pairs@.len() && (#[trigger] pairs@[i]).0@ == commit && pairs@[i].1@ == parent
                && has_log@[i];
        assert(models[i] == (commit, parent));
    }
}

proof fn lemma_compared(
    pairs: Seq<(Seq<char>, Seq<char>)>,
    marked: Seq<bool>,
    commit: Seq<char>,
    parent: Seq<char>,
)
    requires
        pairs.len() == marked.len(),
    ensures
        crate::rewrite::diff_pairs_of(pairs, marked).contains((parent, commit)) <==> exists|i: int|
            0 <= i < pairs.len() && #[trigger] pairs[i] == (commit, parent) && marked[i],
    decreases pairs.len(),
{
    if pairs.len() > 0 {
        let (rest, marks) = (pairs.drop_last(), marked.drop_last());
        let before = crate::rewrite::diff_pairs_of(rest, marks);
        let whole = crate::rewrite::diff_pairs_of(pairs, marked);
        lemma_compared(rest, marks, commit, parent);
        if before.contains((parent, commit)) {
            assert(whole[before.index_of((parent, commit))] == (parent, commit));
            let i = choose|i: int|
                0 <= i < rest.len() && #[trigger] rest[i] == (commit, parent) && marks[i];
            assert(pairs[i] == rest[i] && marked[i] == marks[i]);
        }
        if marked.last() && pairs.last() == (commit, parent) {
            assert(whole[before.len() as int] == (parent, commit));
            assert(pairs[pairs.len() - 1] == (commit, parent) && marked[pairs.len() - 1]);
        }
        if whole.contains((parent, commit)) {
            let k = whole.index_of((parent, commit));
            if k < before.len() {
                assert(before[k] == (parent, commit));
            }
        }
        if exists|i: int|
            0 <= i < pairs.len() && #[trigger] pairs[i] == (commit, parent) && marked[i] {
            let i = choose|i: int|
                0 <= i < pairs.len() && #[trigger] pairs[i] == (commit, parent) && marked[i];
            if i < rest.len() {
                assert(rest[i] == pairs[i] && marks[i] == marked[i]);
            }
        }
    }
}

/// What is limited to pathspecs leaves every other file outside, and only those.
pub proof fn law_files_outside_are_not_covered(
    files: Vec<String>,
    pathspecs: Vec<String>,
    outside: Vec<bool>,
    i: int,
    file: &str,
    covered: bool,
)
    requires
        call_ensures(files_outside_pathspecs, (&files, &pathspecs), outside),
        0 <= i < files@.len(),
        file@ == files@[i]@,
        call_ensures(crate::trace::matches_any_pathspec, (file, &pathspecs), covered),
    ensures
        outside@.len() == files@.len(),
        outside@[i] == !covered,
{
}

/// Everything behind a lone `--` of a stash is a path, but for further ones.
pub proof fn law_stash_paths_stand_behind_the_dashes(
    parsed: ParsedGitInvocation,
    paths: Seq<Seq<char>>,
    r: Vec<String>,
)
    requires
        opt_view(parsed.command) == Some("stash"@),
        views(parsed.command_args@) == seq!["push"@, "--"@] + paths,
        !paths.contains("--"@),
        call_ensures(stash_pathspecs_from_command, (&parsed,), r),
    ensures
        views(r@) == paths,
{
    reveal_strlit("push");
    reveal_strlit("--");
    reveal_strlit("-");
    let args = views(parsed.command_args@);
    assert("push"@.len() == 4 && "--"@.len() == 2 && "-"@.len() == 1);
    assert("push"@[0] == 'p' && "-"@[0] == '-');
    assert(args[0] == "push"@ && args[1] == "--"@);
    if has_prefix("push"@, "-"@) {
        assert("push"@.subrange(0, 1)[0] == 'p');
    }
    reveal_with_fuel(crate::rewrite::stash_paths_from, 3);
    lemma_no_separators(args, 2);
    assert(args.skip(2) =~= paths);
}

proof fn lemma_no_separators(args: Seq<Seq<char>>, i: nat)
    requires
        i <= args.len(),
        forall|k: int| i <= k < args.len() ==> args[k] != "--"@,
    ensures
        crate::rewrite::without_separators(args, i) == args.skip(i as int),
    decreases args.len() - i,
{
    if i < args.len() {
        lemma_no_separators(args, i + 1);
        assert(args.skip(i as int) =~= seq![args[i as int]] + args.skip(i as int + 1));
    } else {
        assert(args.skip(i as int) =~= Seq::empty());
    }
}

/// A message is no path of a stash, and neither is an option or the stash's own word.
pub proof fn law_messages_are_no_stash_paths(
    parsed: ParsedGitInvocation,
    message: Seq<char>,
    path: Seq<char>,
    r: Vec<String>,
)
    requires
        opt_view(parsed.command) == Some("stash"@),
        views(parsed.command_args@) == seq!["push"@, "-m"@, message, "--all"@, path],
        path.len() > 0 && path[0] != '-',
        call_ensures(stash_pathspecs_from_command, (&parsed,), r),
    ensures
        views(r@) == seq![path],
{
    reveal_strlit("push");
    reveal_strlit("-m");
    reveal_strlit("--");
    reveal_strlit("-");
    reveal_strlit("--all");
    reveal_strlit("--message");
    reveal_strlit("--pathspec-from-file");
    reveal_strlit("--pathspec-file-nul");
    let args = views(parsed.command_args@);
    assert("push"@.len() == 4 && "--"@.len() == 2 && "-"@.len() == 1 && "-m"@.len() == 2);
    assert("--all"@.len() == 5 && "--message"@.len() == 9);
    assert("--pathspec-from-file"@.len() == 20 && "--pathspec-file-nul"@.len() == 19);
    assert("push"@[0] == 'p' && "-"@[0] == '-' && "-m"@[1] == 'm' && "--"@[1] == '-');
    assert(args[0] == "push"@ && args[1] == "-m"@ && args[3] == "--all"@ && args[4] == path);
    assert("-m"@.subrange(0, 1) =~= "-"@ && "--all"@.subrange(0, 1) =~= "-"@);
    if has_prefix("push"@, "-"@) {
        assert("push"@.subrange(0, 1)[0] == 'p');
    }
    if has_prefix(path, "-"@) {
        assert(path.subrange(0, 1)[0] == path[0]);
    }
    assert(path != "--"@);
    reveal_with_fuel(crate::rewrite::stash_paths_from, 6);
    assert(seq![path] + Seq::<Seq<char>>::empty() =~= seq![path]);
}

/// With only the working logs kept up, a rebase and a pull carry the working log with every ref
/// that they took from one commit to another. An `update-ref` carries it only where `HEAD` itself
/// went from the one to the other.
pub proof fn law_lite_plans_carry_with_what_moved(
    cmd: NormalizedCommand,
    control_mode: bool,
    known: Ancestry,
    r: Vec<RewriteStep>,
    at: int,
)
    requires
        call_ensures(plan_non_ff_rewrites, (&cmd, control_mode, &None, true, &known), r),
        0 <= at < r@.len(),
    ensures
        r@[at] matches RewriteStep::Rename { old_tip, new_tip } && {
            let heads = cmd.ref_changes@.filter(
                |c: RefChange| c.reference@ == "HEAD"@ && real_oid(c.old@) && real_oid(c.new@),
            );
            &&& exists|reference: Seq<char>| #[trigger]
                goes(counted(cmd.ref_changes@), reference, old_tip@, new_tip@)
            &&& cmd.primary() == Some("update-ref"@) ==> heads.len() > 0 && heads[0].old@
                == old_tip@ && heads.last().new@ == new_tip@
        },
{
    lemma_command_names();
    reveal_strlit("update-ref");
    reveal_strlit("rebase");
    reveal_strlit("pull");
    assert("update-ref"@[0] == 'u' && "rebase"@[0] == 'r' && "pull"@[0] == 'p');
    lemma_counted(cmd.ref_changes@);
    let rule = real_change(head_scope());
    lemma_all_is_filter(cmd.ref_changes@, rule);
    assert((|c: RefChange| picks(rule, c)) =~= (|c: RefChange|
        c.reference@ == "HEAD"@ && real_oid(c.old@) && real_oid(c.new@)));
    let moves = taken_together(history_moves(cmd.ref_changes@));
    let steps = steps_view(r@);
    assert(steps[at] == r@[at]@);
    assert(steps.contains(r@[at]@));
    lemma_steps_for(cmd, true, known, moves, r@[at]@);
    let i = choose|i: int|
        0 <= i < moves.len() && step_for(cmd, true, known, #[trigger] moves[i]) == Some(r@[at]@);
    lemma_moves_go(history_moves(cmd.ref_changes@), i);
    assert(goes(
        counted(cmd.ref_changes@),
        moves[i].reference,
        r@[at]->Rename_old_tip@,
        r@[at]->Rename_new_tip@,
    ));
}

} // verus!
