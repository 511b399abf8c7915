//! What git is asked about a command before the steps that follow from it are taken.
use crate::commands::{
    all_picked, find_all, head, head_scope, moved_change, resolve_heads_for_command,
    AppliedCommand, CommandFacts, NormalizedCommand, RefChange, RefFilter, RefScope, ResetKind,
    SemanticEvent, StashOpKind,
};
use crate::effect_run::{
    is_stopped_plan, noted_stopped_pick, picks_left, rewrites_of, run_goes_on, says_checkout,
    stands, step_fits, step_taken, stopped_pick_error, EffectRun, RunAction, RunEvent, RunPhase,
};
use crate::effects::ReplayPrerequisites;
use crate::event_effects::{
    counts_ref_update, event_outcome, is_counted_ref_update, moves_head, names_sources,
    new_head_of, old_head_of, pending_after, reset_outcome, revert_handled_after, EventContext,
};
use crate::pending::PendingRewrites;
use crate::rewrite::{
    collapse_changes, history_moves, moves_of, onto_in, pair_is, rebase_new_tip_from_command,
    rebase_onto_of, rebase_tip_of, resolve_stash_sha, rewrite_steps_of, stash_of, steps_for,
    taken_together, Ancestry, Move, PendingRebase,
};
use crate::side_effects::{
    aborts_rebase, event_steps, first_steps, has_arg, known_base, last_steps,
    law_an_aborted_rebase_rewrites_nothing, ref_update_steps, some_event, sources_read_from,
    step_if, steps_of, sweep_steps, switches, CommandAnswers, EffectStep, EventTest,
    StoppedCherryPick,
};
use crate::sources::cherry_pick_source_args_for_side_effect;
use crate::text::{contains_str, opt_view, str_eq, views};
use vstd::prelude::*;

verus! {

/// Two commits, of which it is asked whether the first comes before the second.
pub type CommitPair = (Seq<char>, Seq<char>);

/// The pairs of a list.
pub open spec fn pairs_in(list: Seq<(String, String)>) -> Set<CommitPair> {
    Set::new(
        |p: CommitPair|
            exists|i: int| 0 <= i < list.len() && pair_is(#[trigger] list[i], p.0, p.1),
    )
}

/// Whether no pair stands in a list twice.
pub open spec fn each_pair_once(list: Seq<(String, String)>) -> bool {
    forall|i: int, j: int|
        0 <= i < j < list.len() ==> !pair_is(
            #[trigger] list[i],
            (#[trigger] list[j]).0@,
            list[j].1@,
        )
}

/// What is asked to find the commit that a rebase from one head to another went onto, given
/// the moves of `HEAD`.
pub open spec fn onto_pairs(
    heads: Seq<RefChange>,
    original_head: Seq<char>,
    new_tip: Seq<char>,
) -> Set<CommitPair>
    decreases heads.len(),
{
    if heads.len() == 0 {
        Set::empty()
    } else {
        let rest = onto_pairs(heads.skip(1), original_head, new_tip);
        let candidate = if heads[0].old@ == original_head {
            heads[0].new@
        } else {
            heads[0].old@
        };
        if candidate != original_head && candidate != new_tip {
            rest.insert((candidate, new_tip))
        } else {
            rest
        }
    }
}

/// What is asked about one move of a ref.
pub open spec fn move_pairs(cmd: NormalizedCommand, m: Move) -> Set<CommitPair> {
    if m.old == m.new {
        Set::empty()
    } else if cmd.primary() == Some("rebase"@) {
        onto_pairs(
            all_picked(cmd.ref_changes@, moved_change(head_scope())),
            m.old,
            m.new,
        ).insert((m.old, m.new))
    } else {
        Set::empty().insert((m.old, m.new))
    }
}

/// What is asked about the moves of refs.
pub open spec fn moves_pairs(cmd: NormalizedCommand, moves: Seq<Move>) -> Set<CommitPair>
    decreases moves.len(),
{
    if moves.len() == 0 {
        Set::empty()
    } else {
        moves_pairs(cmd, moves.drop_last()).union(move_pairs(cmd, moves.last()))
    }
}

/// What is asked about a rebase that had stopped and now ended at `new_tip`.
pub open spec fn finished_pairs(
    cmd: NormalizedCommand,
    pending: PendingRebase,
    new_tip: Seq<char>,
) -> Set<CommitPair> {
    let original = pending.original_head@;
    let found = onto_pairs(
        all_picked(cmd.ref_changes@, moved_change(head_scope())),
        original,
        new_tip,
    ).insert((original, new_tip));
    if original == new_tip {
        Set::empty()
    } else {
        match opt_view(pending.onto) {
            Some(onto) => if onto != original && onto != new_tip {
                found.insert((onto, new_tip))
            } else {
                found
            },
            None => found,
        }
    }
}

/// What is asked to tell whether a command rewrote history.
pub open spec fn rewrite_pairs(
    cmd: NormalizedCommand,
    control_mode: bool,
    pending: Option<PendingRebase>,
    lite: bool,
) -> Set<CommitPair> {
    let finished = match pending {
        Some(p) => rebase_tip_of(cmd.ref_changes@, control_mode, p.original_head@),
        None => None,
    };
    if lite {
        Set::empty()
    } else if finished is Some {
        finished_pairs(cmd, pending->0, finished->0)
    } else {
        moves_pairs(cmd, taken_together(history_moves(cmd.ref_changes@)))
    }
}

/// What is asked about a reset.
pub open spec fn reset_pairs(
    kind: ResetKind,
    old_head: Seq<char>,
    new_head: Seq<char>,
) -> Set<CommitPair> {
    if old_head.len() == 0 || new_head.len() == 0 || old_head == new_head || kind
        == ResetKind::Hard {
        Set::empty()
    } else {
        Set::empty().insert((new_head, old_head)).insert((old_head, new_head))
    }
}

/// The rebase of a worktree that had stopped, where the command may take it up.
pub open spec fn stopped_before(
    cmd: NormalizedCommand,
    pending: PendingRewrites,
    key: Seq<char>,
) -> Option<PendingRebase> {
    if cmd.primary() == Some("rebase"@) && pending.rebases@.contains_key(key) {
        Some(pending.rebases@[key])
    } else {
        None
    }
}

/// What is asked for one step.
pub open spec fn step_pairs(
    step: EffectStep,
    applied: AppliedCommand,
    facts: CommandFacts,
    pending: PendingRewrites,
    key: Seq<char>,
    lite: bool,
) -> Set<CommitPair> {
    let cmd = applied.command;
    let events = applied.events@;
    match step {
        EffectStep::DetectRewrites => if cmd.worktree is Some {
            rewrite_pairs(cmd, facts.rebase_control_mode, stopped_before(cmd, pending, key), lite)
        } else {
            Set::empty()
        },
        EffectStep::PullFastForward => if moves_head(cmd) {
            Set::empty().insert((old_head_of(cmd), new_head_of(cmd)))
        } else {
            Set::empty()
        },
        EffectStep::Event(i) => if i < events.len() {
            match events[i as int] {
                SemanticEvent::Reset { kind, old_head, new_head } => reset_pairs(
                    kind,
                    old_head@,
                    new_head@,
                ),
                _ => Set::empty(),
            }
        } else {
            Set::empty()
        },
        EffectStep::RefUpdate(i) => if i < events.len() {
            match events[i as int] {
                SemanticEvent::RefUpdated { reference, old, new } => if counts_ref_update(
                    lite,
                    reference@,
                    old@,
                    new@,
                ) {
                    Set::empty().insert((old@, new@))
                } else {
                    Set::empty()
                },
                _ => Set::empty(),
            }
        } else {
            Set::empty()
        },
        _ => Set::empty(),
    }
}

/// What is asked for the steps.
pub open spec fn asked_pairs(
    steps: Seq<EffectStep>,
    applied: AppliedCommand,
    facts: CommandFacts,
    pending: PendingRewrites,
    key: Seq<char>,
    lite: bool,
) -> Set<CommitPair>
    decreases steps.len(),
{
    if steps.len() == 0 {
        Set::empty()
    } else {
        asked_pairs(steps.drop_last(), applied, facts, pending, key, lite).union(
            step_pairs(steps.last(), applied, facts, pending, key, lite),
        )
    }
}

fn has_pair(list: &Vec<(String, String)>, a: &str, b: &str) -> (r: bool)
    ensures
        r == pairs_in(list@).contains((a@, b@)),
{
    let mut i: usize = 0;
    while i < list.len()
        invariant
            i <= list.len(),
            forall|j: int| 0 <= j < i ==> !pair_is(#[trigger] list@[j], a@, b@),
        decreases list.len() - i,
    {
        if str_eq(list[i].0.as_str(), a) && str_eq(list[i].1.as_str(), b) {
            assert(pair_is(list@[i as int], a@, b@));
            return true;
        }
        i += 1;
    }
    false
}

fn ask(out: &mut Vec<(String, String)>, a: &str, b: &str)
    ensures
        pairs_in(final(out)@) == pairs_in(old(out)@).insert((a@, b@)),
        each_pair_once(old(out)@) ==> each_pair_once(final(out)@),
{
    let ghost before = out@;
    if has_pair(out, a, b) {
        assert(pairs_in(before) =~= pairs_in(before).insert((a@, b@)));
        return;
    }
    out.push((a.to_owned(), b.to_owned()));
    assert forall|p: CommitPair| #[trigger]
        pairs_in(out@).contains(p) == pairs_in(before).insert((a@, b@)).contains(p) by {
        if pairs_in(before).contains(p) {
            let i = choose|i: int|
                0 <= i < before.len() && pair_is(#[trigger] before[i], p.0, p.1);
            assert(pair_is(out@[i], p.0, p.1));
        }
        if p == (a@, b@) {
            assert(pair_is(out@[before.len() as int], p.0, p.1));
        }
        if pairs_in(out@).contains(p) {
            let i = choose|i: int| 0 <= i < out@.len() && pair_is(#[trigger] out@[i], p.0, p.1);
            if i < before.len() {
                assert(pair_is(before[i], p.0, p.1));
            }
        }
    }
    assert(pairs_in(out@) =~= pairs_in(before).insert((a@, b@)));
}

fn ask_onto(
    out: &mut Vec<(String, String)>,
    heads: &Vec<RefChange>,
    original_head: &str,
    new_tip: &str,
)
    ensures
        pairs_in(final(out)@) == pairs_in(old(out)@).union(
            onto_pairs(heads@, original_head@, new_tip@),
        ),
        each_pair_once(old(out)@) ==> each_pair_once(final(out)@),
{
    let ghost before = pairs_in(out@);
    let ghost all = onto_pairs(heads@, original_head@, new_tip@);
    let mut i: usize = 0;
    assert(heads@.skip(0) =~= heads@);
    while i < heads.len()
        invariant
            i <= heads.len(),
            all == onto_pairs(heads@, original_head@, new_tip@),
            before.union(all) =~= pairs_in(out@).union(
                onto_pairs(heads@.skip(i as int), original_head@, new_tip@),
            ),
            each_pair_once(old(out)@) ==> each_pair_once(out@),
        decreases heads.len() - i,
    {
        assert(heads@.skip(i as int)[0] == heads@[i as int]);
        assert(heads@.skip(i as int).skip(1) =~= heads@.skip(i + 1));
        let candidate = if str_eq(heads[i].old.as_str(), original_head) {
            heads[i].new.as_str()
        } else {
            heads[i].old.as_str()
        };
        if !str_eq(candidate, original_head) && !str_eq(candidate, new_tip) {
            ask(out, candidate, new_tip);
        }
        i += 1;
    }
    assert(pairs_in(out@) =~= before.union(all));
}

fn ask_about_moves(out: &mut Vec<(String, String)>, cmd: &NormalizedCommand)
    ensures
        pairs_in(final(out)@) == pairs_in(old(out)@).union(
            moves_pairs(*cmd, taken_together(history_moves(cmd.ref_changes@))),
        ),
        each_pair_once(old(out)@) ==> each_pair_once(final(out)@),
{
    let ghost before = pairs_in(out@);
    let mut changes = find_all(
        &cmd.ref_changes,
        &RefFilter::between_objects(RefScope::Branches),
    );
    if changes.len() == 0 {
        changes = find_all(&cmd.ref_changes, &RefFilter::between_objects(head()));
    }
    let moves = collapse_changes(&changes);
    let heads = find_all(&cmd.ref_changes, &RefFilter::moved(head()));
    let rebase = cmd.is("rebase");
    let ghost all = moves_of(moves@);
    let mut i: usize = 0;
    assert(all.take(0) =~= Seq::<Move>::empty());
    while i < moves.len()
        invariant
            i <= moves.len(),
            all == moves_of(moves@),
            rebase == (cmd.primary() == Some("rebase"@)),
            heads@ == all_picked(cmd.ref_changes@, moved_change(head_scope())),
            pairs_in(out@) =~= before.union(moves_pairs(*cmd, all.take(i as int))),
            each_pair_once(old(out)@) ==> each_pair_once(out@),
        decreases moves.len() - i,
    {
        assert(all.take(i + 1).drop_last() =~= all.take(i as int));
        assert(all.take(i + 1).last() == all[i as int]);
        let (from, to) = (moves[i].old.as_str(), moves[i].new.as_str());
        if !str_eq(from, to) {
            ask(out, from, to);
            if rebase {
                ask_onto(out, &heads, from, to);
            }
        }
        i += 1;
    }
    assert(all.take(all.len() as int) =~= all);
}

fn ask_about_rebase(
    out: &mut Vec<(String, String)>,
    cmd: &NormalizedCommand,
    pending: &PendingRebase,
    new_tip: &str,
)
    ensures
        pairs_in(final(out)@) == pairs_in(old(out)@).union(
            finished_pairs(*cmd, *pending, new_tip@),
        ),
        each_pair_once(old(out)@) ==> each_pair_once(final(out)@),
{
    let ghost before = pairs_in(out@);
    let original = pending.original_head.as_str();
    if str_eq(original, new_tip) {
        assert(pairs_in(out@) =~= before.union(Set::empty()));
        return;
    }
    ask(out, original, new_tip);
    let heads = find_all(&cmd.ref_changes, &RefFilter::moved(head()));
    ask_onto(out, &heads, original, new_tip);
    if let Some(onto) = &pending.onto {
        if !str_eq(onto.as_str(), original) && !str_eq(onto.as_str(), new_tip) {
            ask(out, onto.as_str(), new_tip);
        }
    }
    assert(pairs_in(out@) =~= before.union(finished_pairs(*cmd, *pending, new_tip@)));
}

fn ask_about_rewrites(
    out: &mut Vec<(String, String)>,
    cmd: &NormalizedCommand,
    control_mode: bool,
    pending: Option<&PendingRebase>,
    lite: bool,
)
    ensures
        pairs_in(final(out)@) == pairs_in(old(out)@).union(
            rewrite_pairs(
                *cmd,
                control_mode,
                match pending {
                    Some(p) => Some(*p),
                    None => None,
                },
                lite,
            ),
        ),
        each_pair_once(old(out)@) ==> each_pair_once(final(out)@),
{
    if lite {
        assert(pairs_in(out@) =~= pairs_in(out@).union(Set::empty()));
        return;
    }
    if let Some(p) = pending {
        if let Some(new_tip) = rebase_new_tip_from_command(
            cmd,
            control_mode,
            p.original_head.as_str(),
        ) {
            ask_about_rebase(out, cmd, p, new_tip.as_str());
            return;
        }
    }
    ask_about_moves(out, cmd);
}

fn ask_about_step(
    out: &mut Vec<(String, String)>,
    step: EffectStep,
    applied: &AppliedCommand,
    facts: &CommandFacts,
    pending: &PendingRewrites,
    key: &str,
    lite: bool,
)
    ensures
        pairs_in(final(out)@) == pairs_in(old(out)@).union(
            step_pairs(step, *applied, *facts, *pending, key@, lite),
        ),
        each_pair_once(old(out)@) ==> each_pair_once(final(out)@),
{
    let ghost before = pairs_in(out@);
    let cmd = &applied.command;
    assert(before.union(Set::empty()) =~= before);
    match step {
        EffectStep::DetectRewrites => {
            if cmd.worktree.is_some() {
                let stopped = if cmd.is("rebase") {
                    pending.rebases.get(key)
                } else {
                    None
                };
                ask_about_rewrites(out, cmd, facts.rebase_control_mode, stopped, lite);
            }
        },
        EffectStep::PullFastForward => {
            let (old_head, new_head) = resolve_heads_for_command(cmd);
            if old_head.as_str().unicode_len() > 0 && new_head.as_str().unicode_len() > 0
                && !str_eq(old_head.as_str(), new_head.as_str()) {
                ask(out, old_head.as_str(), new_head.as_str());
            }
        },
        EffectStep::Event(i) => {
            if i < applied.events.len() {
                if let SemanticEvent::Reset { kind, old_head, new_head } = &applied.events[i] {
                    let (from, to) = (old_head.as_str(), new_head.as_str());
                    if from.unicode_len() > 0 && to.unicode_len() > 0 && !str_eq(from, to) && *kind
                        != ResetKind::Hard {
                        ask(out, to, from);
                        ask(out, from, to);
                    }
                }
            }
        },
        EffectStep::RefUpdate(i) => {
            if i < applied.events.len() {
                if let SemanticEvent::RefUpdated { reference, old, new } = &applied.events[i] {
                    let (from, to) = (old.as_str(), new.as_str());
                    if is_counted_ref_update(lite, reference.as_str(), from, to) {
                        ask(out, from, to);
                    }
                }
            }
        },
        _ => {},
    }
    assert(pairs_in(out@) =~= before.union(
        step_pairs(step, *applied, *facts, *pending, key@, lite),
    ));
}

/// Of which commits git is to be asked whether one comes before the other, for the steps
/// that follow from a command: each pair once. `pending` is what is unfinished before the
/// first step, `key` the name of the worktree's state.
pub fn ancestry_queries(
    steps: &Vec<EffectStep>,
    applied: &AppliedCommand,
    facts: &CommandFacts,
    pending: &PendingRewrites,
    key: &str,
    lite: bool,
) -> (r: Vec<(String, String)>)
    ensures
        pairs_in(r@) == asked_pairs(steps@, *applied, *facts, *pending, key@, lite),
        each_pair_once(r@),
{
    let mut out: Vec<(String, String)> = Vec::new();
    let mut i: usize = 0;
    assert(steps@.take(0) =~= Seq::<EffectStep>::empty());
    assert(pairs_in(out@) =~= Set::empty());
    while i < steps.len()
        invariant
            i <= steps.len(),
            pairs_in(out@) == asked_pairs(
                steps@.take(i as int),
                *applied,
                *facts,
                *pending,
                key@,
                lite,
            ),
            each_pair_once(out@),
        decreases steps.len() - i,
    {
        assert(steps@.take(i + 1).drop_last() =~= steps@.take(i as int));
        assert(steps@.take(i + 1).last() == steps@[i as int]);
        ask_about_step(&mut out, steps[i], applied, facts, pending, key, lite);
        i += 1;
    }
    assert(steps@.take(steps@.len() as int) =~= steps@);
    out
}

/// The heads from which the sources of a cherry-pick are read for one step; the empty one
/// stands for none.
pub open spec fn step_heads(
    step: EffectStep,
    applied: AppliedCommand,
    facts: CommandFacts,
    lite: bool,
) -> Set<Seq<char>> {
    match step {
        EffectStep::Event(i) => if i < applied.events@.len() {
            match applied.events@[i as int] {
                SemanticEvent::CherryPickComplete { original_head, new_head, source_commits, .. } =>
                    if !lite && new_head@.len() > 0 && source_commits@.len() == 0 && names_sources(
                    applied.command,
                    facts,
                ) {
                    Set::empty().insert(original_head@)
                } else {
                    Set::empty()
                },
                _ => Set::empty(),
            }
        } else {
            Set::empty()
        },
        _ => Set::empty(),
    }
}

/// The heads from which the sources of a cherry-pick are read for the steps.
pub open spec fn asked_heads(
    steps: Seq<EffectStep>,
    applied: AppliedCommand,
    facts: CommandFacts,
    lite: bool,
) -> Set<Seq<char>>
    decreases steps.len(),
{
    if steps.len() == 0 {
        Set::empty()
    } else {
        asked_heads(steps.drop_last(), applied, facts, lite).union(
            step_heads(steps.last(), applied, facts, lite),
        )
    }
}

/// The stash of which one step must know the commit that it was made on.
pub open spec fn step_stash(step: EffectStep, applied: AppliedCommand) -> Option<Seq<char>> {
    match step {
        EffectStep::Event(i) => if i < applied.events@.len() {
            match applied.events@[i as int] {
                SemanticEvent::StashOperation { kind, .. } => match kind {
                    StashOpKind::Push | StashOpKind::Unknown => stash_of(applied.command, true),
                    StashOpKind::Pop | StashOpKind::Apply | StashOpKind::Branch => stash_of(
                        applied.command,
                        false,
                    ),
                    _ => None,
                },
                _ => None,
            }
        } else {
            None
        },
        _ => None,
    }
}

/// The stashes of which the steps must know the commits that they were made on.
pub open spec fn asked_stashes(steps: Seq<EffectStep>, applied: AppliedCommand) -> Set<Seq<char>>
    decreases steps.len(),
{
    if steps.len() == 0 {
        Set::empty()
    } else {
        let before = asked_stashes(steps.drop_last(), applied);
        match step_stash(steps.last(), applied) {
            Some(stash) => before.insert(stash),
            None => before,
        }
    }
}

fn put(out: &mut Vec<String>, text: &str)
    ensures
        views(final(out)@).to_set() == views(old(out)@).to_set().insert(text@),
        views(old(out)@).no_duplicates() ==> views(final(out)@).no_duplicates(),
{
    let ghost before = views(out@);
    if contains_str(out, text) {
        assert(before.to_set() =~= before.to_set().insert(text@));
        return;
    }
    out.push(text.to_owned());
    let ghost after = views(out@);
    assert(after =~= before.push(text@));
    assert forall|x: Seq<char>| #[trigger]
        after.to_set().contains(x) == before.to_set().insert(text@).contains(x) by {
        if before.contains(x) {
            assert(after[before.index_of(x)] == x);
        }
        assert(after[before.len() as int] == text@);
        if after.contains(x) && x != text@ {
            assert(before[after.index_of(x)] == x);
        }
    }
    assert(after.to_set() =~= before.to_set().insert(text@));
}

/// The heads from which the commits that a cherry-pick names are to be read, for the steps
/// that follow from a command: each once. The empty one stands for none.
pub fn cherry_pick_heads(
    steps: &Vec<EffectStep>,
    applied: &AppliedCommand,
    facts: &CommandFacts,
    lite: bool,
) -> (r: Vec<String>)
    ensures
        views(r@).to_set() == asked_heads(steps@, *applied, *facts, lite),
        views(r@).no_duplicates(),
{
    let names = cherry_pick_source_args_for_side_effect(&applied.command, &facts.parsed);
    assert(views(names@).len() == names@.len());
    let mut out: Vec<String> = Vec::new();
    let mut i: usize = 0;
    assert(steps@.take(0) =~= Seq::<EffectStep>::empty());
    assert(views(out@).to_set() =~= Set::empty());
    while i < steps.len()
        invariant
            i <= steps.len(),
            names@.len() > 0 <==> names_sources(applied.command, *facts),
            views(out@).to_set() =~= asked_heads(steps@.take(i as int), *applied, *facts, lite),
            views(out@).no_duplicates(),
        decreases steps.len() - i,
    {
        assert(steps@.take(i + 1).drop_last() =~= steps@.take(i as int));
        assert(steps@.take(i + 1).last() == steps@[i as int]);
        if let EffectStep::Event(at) = steps[i] {
            if at < applied.events.len() {
                if let SemanticEvent::CherryPickComplete {
                    original_head,
                    new_head,
                    source_commits,
                    ..
                } = &applied.events[at] {
                    if !lite && new_head.as_str().unicode_len() > 0 && source_commits.len() == 0
                        && names.len() > 0 {
                        put(&mut out, original_head.as_str());
                    }
                }
            }
        }
        i += 1;
    }
    assert(steps@.take(steps@.len() as int) =~= steps@);
    out
}

/// The stashes of which the commits that they were made on are to be read, for the steps
/// that follow from a command: each once.
pub fn stash_queries(steps: &Vec<EffectStep>, applied: &AppliedCommand) -> (r: Vec<String>)
    ensures
        views(r@).to_set() == asked_stashes(steps@, *applied),
        views(r@).no_duplicates(),
{
    let mut out: Vec<String> = Vec::new();
    let mut i: usize = 0;
    assert(steps@.take(0) =~= Seq::<EffectStep>::empty());
    assert(views(out@).to_set() =~= Set::empty());
    while i < steps.len()
        invariant
            i <= steps.len(),
            views(out@).to_set() =~= asked_stashes(steps@.take(i as int), *applied),
            views(out@).no_duplicates(),
        decreases steps.len() - i,
    {
        assert(steps@.take(i + 1).drop_last() =~= steps@.take(i as int));
        assert(steps@.take(i + 1).last() == steps@[i as int]);
        if let EffectStep::Event(at) = steps[i] {
            if at < applied.events.len() {
                if let SemanticEvent::StashOperation { kind, .. } = &applied.events[at] {
                    let stash = match kind {
                        StashOpKind::Push | StashOpKind::Unknown => resolve_stash_sha(
                            &applied.command,
                            true,
                        ),
                        StashOpKind::Pop | StashOpKind::Apply | StashOpKind::Branch =>
                            resolve_stash_sha(&applied.command, false),
                        _ => None,
                    };
                    if let Some(stash) = stash {
                        put(&mut out, stash.as_str());
                    }
                }
            }
        }
        i += 1;
    }
    assert(steps@.take(steps@.len() as int) =~= steps@);
    out
}

/// Whether two answers say the same of these pairs.
pub open spec fn agree_on(x: Ancestry, y: Ancestry, pairs: Set<CommitPair>) -> bool {
    forall|a: Seq<char>, b: Seq<char>| #[trigger]
        pairs.contains((a, b)) ==> x.holds(a, b) == y.holds(a, b)
}

proof fn lemma_onto_agrees(
    heads: Seq<RefChange>,
    original_head: Seq<char>,
    new_tip: Seq<char>,
    x: Ancestry,
    y: Ancestry,
    from_start: bool,
)
    requires
        agree_on(x, y, onto_pairs(heads, original_head, new_tip)),
    ensures
        onto_in(heads, original_head, new_tip, x, from_start) == onto_in(
            heads,
            original_head,
            new_tip,
            y,
            from_start,
        ),
    decreases heads.len(),
{
    if heads.len() > 0 {
        let all = onto_pairs(heads, original_head, new_tip);
        let rest = onto_pairs(heads.skip(1), original_head, new_tip);
        assert(agree_on(x, y, rest)) by {
            assert forall|a: Seq<char>, b: Seq<char>| #[trigger] rest.contains((a, b)) implies x.holds(
                a,
                b,
            ) == y.holds(a, b) by {
                assert(all.contains((a, b)));
            }
        }
        lemma_onto_agrees(heads.skip(1), original_head, new_tip, x, y, from_start);
        let candidate = if heads[0].old@ == original_head {
            heads[0].new@
        } else {
            heads[0].old@
        };
        if candidate != original_head && candidate != new_tip {
            assert(all.contains((candidate, new_tip)));
        }
    }
}

proof fn lemma_smaller_agrees(
    x: Ancestry,
    y: Ancestry,
    part: Set<CommitPair>,
    all: Set<CommitPair>,
)
    requires
        agree_on(x, y, all),
        part.subset_of(all),
    ensures
        agree_on(x, y, part),
{
    assert forall|a: Seq<char>, b: Seq<char>| #[trigger] part.contains((a, b)) implies x.holds(a, b)
        == y.holds(a, b) by {
        assert(all.contains((a, b)));
    }
}

proof fn lemma_rebase_onto_agrees(
    cmd: NormalizedCommand,
    original_head: Seq<char>,
    new_tip: Seq<char>,
    x: Ancestry,
    y: Ancestry,
)
    requires
        agree_on(
            x,
            y,
            onto_pairs(
                all_picked(cmd.ref_changes@, moved_change(head_scope())),
                original_head,
                new_tip,
            ),
        ),
    ensures
        rebase_onto_of(cmd.ref_changes@, original_head, new_tip, x) == rebase_onto_of(
            cmd.ref_changes@,
            original_head,
            new_tip,
            y,
        ),
{
    let heads = all_picked(cmd.ref_changes@, moved_change(head_scope()));
    lemma_onto_agrees(heads, original_head, new_tip, x, y, true);
    lemma_onto_agrees(heads, original_head, new_tip, x, y, false);
}

proof fn lemma_moves_agree(
    cmd: NormalizedCommand,
    lite: bool,
    moves: Seq<Move>,
    x: Ancestry,
    y: Ancestry,
)
    requires
        !lite ==> agree_on(x, y, moves_pairs(cmd, moves)),
    ensures
        steps_for(cmd, lite, x, moves) == steps_for(cmd, lite, y, moves),
    decreases moves.len(),
{
    if moves.len() > 0 {
        let m = moves.last();
        let all = moves_pairs(cmd, moves);
        if !lite {
            lemma_smaller_agrees(x, y, moves_pairs(cmd, moves.drop_last()), all);
            lemma_smaller_agrees(x, y, move_pairs(cmd, m), all);
            if m.old != m.new {
                assert(move_pairs(cmd, m).contains((m.old, m.new)));
                if cmd.primary() == Some("rebase"@) {
                    let heads = all_picked(cmd.ref_changes@, moved_change(head_scope()));
                    lemma_smaller_agrees(
                        x,
                        y,
                        onto_pairs(heads, m.old, m.new),
                        move_pairs(cmd, m),
                    );
                    lemma_rebase_onto_agrees(cmd, m.old, m.new, x, y);
                }
            }
        }
        lemma_moves_agree(cmd, lite, moves.drop_last(), x, y);
    }
}

/// What is done about rewritten history rests on nothing but the pairs that are asked about:
/// whatever else is known, the steps are the same.
pub proof fn law_rewrites_rest_on_what_is_asked(
    cmd: NormalizedCommand,
    control_mode: bool,
    pending: Option<PendingRebase>,
    lite: bool,
    x: Ancestry,
    y: Ancestry,
)
    requires
        agree_on(x, y, rewrite_pairs(cmd, control_mode, pending, lite)),
    ensures
        rewrite_steps_of(cmd, control_mode, pending, lite, x) == rewrite_steps_of(
            cmd,
            control_mode,
            pending,
            lite,
            y,
        ),
{
    let finished = match pending {
        Some(p) => rebase_tip_of(cmd.ref_changes@, control_mode, p.original_head@),
        None => None,
    };
    if finished is Some {
        let p = pending->0;
        let original = p.original_head@;
        let new_tip = finished->0;
        if original != new_tip && !lite {
            let all = finished_pairs(cmd, p, new_tip);
            let heads = all_picked(cmd.ref_changes@, moved_change(head_scope()));
            assert(all.contains((original, new_tip)));
            lemma_smaller_agrees(x, y, onto_pairs(heads, original, new_tip), all);
            lemma_rebase_onto_agrees(cmd, original, new_tip, x, y);
            if p.onto is Some && p.onto->0@ != original && p.onto->0@ != new_tip {
                assert(all.contains((p.onto->0@, new_tip)));
            }
        }
    } else {
        lemma_moves_agree(cmd, lite, taken_together(history_moves(cmd.ref_changes@)), x, y);
    }
}

/// What a reset comes to rests on nothing but the pairs that are asked about.
pub proof fn law_resets_rest_on_what_is_asked(
    lite: bool,
    kind: ResetKind,
    old_head: Seq<char>,
    new_head: Seq<char>,
    x: Ancestry,
    y: Ancestry,
)
    requires
        agree_on(x, y, reset_pairs(kind, old_head, new_head)),
    ensures
        reset_outcome(x, lite, kind, old_head, new_head) == reset_outcome(
            y,
            lite,
            kind,
            old_head,
            new_head,
        ),
{
    let all = reset_pairs(kind, old_head, new_head);
    if old_head.len() > 0 && new_head.len() > 0 && old_head != new_head && kind != ResetKind::Hard {
        assert(all.contains((new_head, old_head)));
        assert(all.contains((old_head, new_head)));
    }
}

/// Whether two sets of answers say the same on everything that is asked for the steps of a
/// command; `start` is what was unfinished when it was asked.
pub open spec fn answers_agree(
    x: CommandAnswers,
    y: CommandAnswers,
    steps: Seq<EffectStep>,
    applied: AppliedCommand,
    facts: CommandFacts,
    start: PendingRewrites,
    key: Seq<char>,
    lite: bool,
) -> bool {
    &&& agree_on(
        x.ancestry,
        y.ancestry,
        asked_pairs(steps, applied, facts, start, key, lite),
    )
    &&& forall|head: Seq<char>| #[trigger]
        asked_heads(steps, applied, facts, lite).contains(head) ==> sources_read_from(
            x.event_sources@,
            head,
        ) == sources_read_from(y.event_sources@, head)
    &&& forall|stash: Seq<char>| #[trigger]
        asked_stashes(steps, applied).contains(stash) ==> known_base(x.stash_bases@, stash)
            == known_base(y.stash_bases@, stash)
    &&& x.explicit_sources == y.explicit_sources
    &&& x.revert_sources == y.revert_sources
    &&& x.cherry_pick_under_way == y.cherry_pick_under_way
}

proof fn lemma_step_is_asked(
    steps: Seq<EffectStep>,
    k: int,
    applied: AppliedCommand,
    facts: CommandFacts,
    start: PendingRewrites,
    key: Seq<char>,
    lite: bool,
)
    requires
        0 <= k < steps.len(),
    ensures
        step_pairs(steps[k], applied, facts, start, key, lite).subset_of(
            asked_pairs(steps, applied, facts, start, key, lite),
        ),
        step_heads(steps[k], applied, facts, lite).subset_of(
            asked_heads(steps, applied, facts, lite),
        ),
        step_stash(steps[k], applied) is Some ==> asked_stashes(steps, applied).contains(
            step_stash(steps[k], applied)->0,
        ),
    decreases steps.len(),
{
    if k < steps.len() - 1 {
        lemma_step_is_asked(steps.drop_last(), k, applied, facts, start, key, lite);
    }
}

/// Whether none of the steps looks for rewritten history.
spec fn none_looks(steps: Seq<EffectStep>) -> bool {
    forall|k: int| 0 <= k < steps.len() ==> (#[trigger] steps[k]) !is DetectRewrites
}

proof fn lemma_none_looks(a: Seq<EffectStep>, b: Seq<EffectStep>)
    requires
        none_looks(a),
        none_looks(b),
    ensures
        none_looks(a + b),
{
    assert forall|k: int| 0 <= k < (a + b).len() implies (#[trigger] (a + b)[k])
        !is DetectRewrites by {
        if k < a.len() {
            assert((a + b)[k] == a[k]);
        } else {
            assert((a + b)[k] == b[k - a.len()]);
        }
    }
}

proof fn lemma_ref_updates_do_not_look(events: Seq<SemanticEvent>, n: nat)
    requires
        n <= events.len(),
    ensures
        none_looks(ref_update_steps(events, n)),
    decreases n,
{
    if n > 0 {
        lemma_ref_updates_do_not_look(events, (n - 1) as nat);
    }
}

proof fn lemma_last_steps_do_not_look(
    cmd: NormalizedCommand,
    events: Seq<SemanticEvent>,
    facts: CommandFacts,
)
    ensures
        none_looks(last_steps(cmd, events, facts)),
{
    let each = if cmd.worktree is Some {
        event_steps(events.len())
    } else {
        Seq::empty()
    };
    let checkout = step_if(switches(cmd), EffectStep::Checkout);
    let pull = step_if(
        some_event(events, EventTest::Pull) && cmd.worktree is Some,
        EffectStep::PullFastForward,
    );
    let updates = if cmd.primary() == Some("update-ref"@) && cmd.worktree is Some {
        ref_update_steps(events, events.len())
    } else {
        Seq::empty()
    };
    lemma_ref_updates_do_not_look(events, events.len());
    lemma_none_looks(each, checkout);
    lemma_none_looks(each + checkout, pull);
    lemma_none_looks(each + checkout + pull, updates);
    lemma_none_looks(each + checkout + pull + updates, sweep_steps(events, facts.dry_run));
}

/// Rewritten history is looked for before anything else is done, so that what is unfinished
/// is still what it was when git was asked.
pub proof fn law_rewrites_are_looked_for_first(
    cmd: NormalizedCommand,
    events: Seq<SemanticEvent>,
    facts: CommandFacts,
    k: int,
)
    requires
        0 <= k < steps_of(cmd, events, facts).len(),
        steps_of(cmd, events, facts)[k] is DetectRewrites,
    ensures
        k == 0,
{
    let first = first_steps(cmd, events);
    lemma_last_steps_do_not_look(cmd, events, facts);
    if k >= first.len() {
        assert(steps_of(cmd, events, facts)[k] == last_steps(cmd, events, facts)[k - first.len()]);
    } else {
        assert(steps_of(cmd, events, facts)[k] == first[k]);
        if aborts_rebase(cmd) {
            law_an_aborted_rebase_rewrites_nothing(cmd, events);
        }
    }
}

proof fn lemma_events_agree(
    event: SemanticEvent,
    place: usize,
    handled: bool,
    applied: AppliedCommand,
    one: EventContext,
    other: EventContext,
    start: PendingRewrites,
    pending: (PendingRewrites, PendingRewrites),
)
    requires
        place < applied.events@.len(),
        event == applied.events@[place as int],
        *one.cmd == applied.command,
        other == (EventContext { answers: other.answers, ..one }),
        agree_on(
            one.answers.ancestry,
            other.answers.ancestry,
            step_pairs(
                EffectStep::Event(place),
                applied,
                *one.facts,
                start,
                one.key@,
                one.lite,
            ),
        ),
        forall|head: Seq<char>| #[trigger]
            step_heads(EffectStep::Event(place), applied, *one.facts, one.lite).contains(head)
                ==> sources_read_from(one.answers.event_sources@, head) == sources_read_from(
                other.answers.event_sources@,
                head,
            ),
        step_stash(EffectStep::Event(place), applied) is Some ==> known_base(
            one.answers.stash_bases@,
            step_stash(EffectStep::Event(place), applied)->0,
        ) == known_base(
            other.answers.stash_bases@,
            step_stash(EffectStep::Event(place), applied)->0,
        ),
        one.answers.explicit_sources == other.answers.explicit_sources,
        one.answers.revert_sources == other.answers.revert_sources,
    ensures
        event_outcome(pending.0, handled, one, event) == event_outcome(
            pending.0,
            handled,
            other,
            event,
        ),
        pending_after(pending.0, pending.1, one, event) == pending_after(
            pending.0,
            pending.1,
            other,
            event,
        ),
        revert_handled_after(handled, pending.0, one, event) == revert_handled_after(
            handled,
            pending.0,
            other,
            event,
        ),
{
    let step = EffectStep::Event(place);
    match event {
        SemanticEvent::Reset { kind, old_head, new_head } => {
            law_resets_rest_on_what_is_asked(
                one.lite,
                kind,
                old_head@,
                new_head@,
                one.answers.ancestry,
                other.answers.ancestry,
            );
        },
        SemanticEvent::CherryPickComplete { original_head, new_head, source_commits, .. } => {
            let asked = step_heads(step, applied, *one.facts, one.lite);
            assert(views(source_commits@).len() == source_commits@.len());
            if !one.lite && new_head@.len() > 0 && source_commits@.len() == 0 && names_sources(
                applied.command,
                *one.facts,
            ) {
                assert(asked.contains(original_head@));
            }
        },
        _ => {},
    }
}

/// Whether two sets of answers say the same on what is asked for one step.
spec fn step_agrees(
    x: CommandAnswers,
    y: CommandAnswers,
    step: EffectStep,
    applied: AppliedCommand,
    facts: CommandFacts,
    start: PendingRewrites,
    key: Seq<char>,
    lite: bool,
) -> bool {
    &&& agree_on(x.ancestry, y.ancestry, step_pairs(step, applied, facts, start, key, lite))
    &&& forall|head: Seq<char>| #[trigger]
        step_heads(step, applied, facts, lite).contains(head) ==> sources_read_from(
            x.event_sources@,
            head,
        ) == sources_read_from(y.event_sources@, head)
    &&& step_stash(step, applied) is Some ==> known_base(
        x.stash_bases@,
        step_stash(step, applied)->0,
    ) == known_base(y.stash_bases@, step_stash(step, applied)->0)
    &&& x.explicit_sources == y.explicit_sources
    &&& x.revert_sources == y.revert_sources
    &&& x.cherry_pick_under_way == y.cherry_pick_under_way
}

proof fn lemma_detection_agrees(
    applied: AppliedCommand,
    one: EventContext,
    other: EventContext,
    start: PendingRewrites,
    before: PendingRewrites,
)
    requires
        *one.cmd == applied.command,
        other == (EventContext { answers: other.answers, ..one }),
        step_agrees(
            *one.answers,
            *other.answers,
            EffectStep::DetectRewrites,
            applied,
            *one.facts,
            start,
            one.key@,
            one.lite,
        ),
        before.rebases@ == start.rebases@,
    ensures
        rewrites_of(one, before) == rewrites_of(other, before),
{
    if one.cmd.worktree is Some {
        law_rewrites_rest_on_what_is_asked(
            *one.cmd,
            one.facts.rebase_control_mode,
            stopped_before(*one.cmd, start, one.key@),
            one.lite,
            one.answers.ancestry,
            other.answers.ancestry,
        );
    }
}

proof fn lemma_stopped_picks_agree(
    one: EventContext,
    other: EventContext,
    before: PendingRewrites,
    after: PendingRewrites,
    run: EffectRun,
    r: RunAction,
)
    requires
        other == (EventContext { answers: other.answers, ..one }),
        one.answers.explicit_sources == other.answers.explicit_sources,
        one.answers.cherry_pick_under_way == other.answers.cherry_pick_under_way,
        noted_stopped_pick(one, before, after, run, r),
    ensures
        noted_stopped_pick(other, before, after, run, r),
{
    assert(stopped_pick_error(one) == stopped_pick_error(other));
    if stopped_pick_error(one) is None {
        let aborted = has_arg(*one.cmd, "--abort"@);
        let plan = choose|plan: StoppedCherryPick| #[trigger]
            is_stopped_plan(plan, one, before) && {
                &&& after.no_commits@ == if aborted {
                    before.no_commits@.remove(one.key@)
                } else {
                    before.no_commits@
                }
                &&& match plan.rewrite {
                    Some(picked) => {
                        &&& r == RunAction::Pick(picked)
                        &&& run.phase == RunPhase::Picking
                        &&& run.rewrites@.len() == 0
                        &&& run.remaining == plan.remaining
                        &&& after.cherry_picks@ == before.cherry_picks@
                    },
                    None => {
                        &&& r is Next
                        &&& stands(run, RunPhase::Ready)
                        &&& after.cherry_picks@ == if aborted {
                            before.cherry_picks@.remove(one.key@)
                        } else {
                            picks_left(before.cherry_picks@, one.key@, plan.remaining)
                        }
                    },
                }
            };
        assert(is_stopped_plan(plan, other, before));
    }
}

proof fn lemma_steps_agree(
    step: EffectStep,
    applied: AppliedCommand,
    one: EventContext,
    other: EventContext,
    family: Seq<char>,
    handled: bool,
    start: PendingRewrites,
    pending: (PendingRewrites, PendingRewrites),
    kept: (ReplayPrerequisites, ReplayPrerequisites),
    run: EffectRun,
    r: RunAction,
)
    requires
        step_fits(step, applied.events@.len()),
        *one.cmd == applied.command,
        other == (EventContext { answers: other.answers, ..one }),
        step_agrees(
            *one.answers,
            *other.answers,
            step,
            applied,
            *one.facts,
            start,
            one.key@,
            one.lite,
        ),
        step is DetectRewrites ==> pending.0.rebases@ == start.rebases@,
    ensures
        step_taken(step, applied, one, family, handled, pending, kept, run, r) == step_taken(
            step,
            applied,
            other,
            family,
            handled,
            pending,
            kept,
            run,
            r,
        ),
{
    match step {
        EffectStep::DetectRewrites => {
            lemma_detection_agrees(applied, one, other, start, pending.0);
        },
        EffectStep::PullFastForward => {
            let asked = step_pairs(step, applied, *one.facts, start, one.key@, one.lite);
            if moves_head(*one.cmd) {
                assert(asked.contains((old_head_of(*one.cmd), new_head_of(*one.cmd))));
            }
        },
        EffectStep::NoteStoppedCherryPick => {
            assert(one == (EventContext { answers: one.answers, ..other }));
            if noted_stopped_pick(one, pending.0, pending.1, run, r) {
                lemma_stopped_picks_agree(one, other, pending.0, pending.1, run, r);
            }
            if noted_stopped_pick(other, pending.0, pending.1, run, r) {
                lemma_stopped_picks_agree(other, one, pending.0, pending.1, run, r);
            }
        },
        EffectStep::Event(i) => {
            lemma_events_agree(
                applied.events@[i as int],
                i,
                handled,
                applied,
                one,
                other,
                start,
                pending,
            );
        },
        EffectStep::Checkout => {
            if let RunAction::CheckOut(effect) = r {
                assert(says_checkout(effect, one) == says_checkout(effect, other));
            }
        },
        _ => {},
    }
}

/// A run rests on nothing but what git is asked: with answers that say the same on every
/// question of the command, whatever they say beyond, it goes on in the same ways.
pub proof fn law_runs_rest_on_what_is_asked(
    before: EffectRun,
    after: EffectRun,
    event: RunEvent,
    applied: AppliedCommand,
    one: EventContext,
    other: EventContext,
    family: Seq<char>,
    start: PendingRewrites,
    pending: (PendingRewrites, PendingRewrites),
    kept: (ReplayPrerequisites, ReplayPrerequisites),
    r: RunAction,
)
    requires
        before.fits(applied.events@.len()),
        before.steps@ == steps_of(applied.command, applied.events@, *one.facts),
        *one.cmd == applied.command,
        other == (EventContext { answers: other.answers, ..one }),
        answers_agree(
            *one.answers,
            *other.answers,
            before.steps@,
            applied,
            *one.facts,
            start,
            one.key@,
            one.lite,
        ),
        before.begun == 0 ==> pending.0.rebases@ == start.rebases@,
    ensures
        run_goes_on(before, after, event, applied, one, family, pending, kept, r) == run_goes_on(
            before,
            after,
            event,
            applied,
            other,
            family,
            pending,
            kept,
            r,
        ),
{
    let steps = before.steps@;
    let (facts, key, lite) = (*one.facts, one.key@, one.lite);
    let all = asked_pairs(steps, applied, facts, start, key, lite);
    if before.phase == RunPhase::Ready && event is Go && before.begun < steps.len() {
        let k = before.begun as int;
        lemma_step_is_asked(steps, k, applied, facts, start, key, lite);
        lemma_smaller_agrees(
            one.answers.ancestry,
            other.answers.ancestry,
            step_pairs(steps[k], applied, facts, start, key, lite),
            all,
        );
        if steps[k] is DetectRewrites {
            law_rewrites_are_looked_for_first(applied.command, applied.events@, facts, k);
        }
        lemma_steps_agree(
            steps[k],
            applied,
            one,
            other,
            family,
            before.revert_handled,
            start,
            pending,
            kept,
            after,
            r,
        );
    } else if let RunPhase::Asking { event: place } = before.phase {
        let k = before.begun - 1;
        let asked = step_pairs(steps[k], applied, facts, start, key, lite);
        lemma_step_is_asked(steps, k, applied, facts, start, key, lite);
        lemma_smaller_agrees(one.answers.ancestry, other.answers.ancestry, asked, all);
        if let SemanticEvent::RefUpdated { reference, old, new } = applied.events@[place as int] {
            if counts_ref_update(lite, reference@, old@, new@) {
                assert(asked.contains((old@, new@)));
            }
        }
    }
}

} // verus!
