//! What is asked of git before the steps of a command are taken.
use crate::commands::{
    is_real_oid, resolve_heads_for_command, AppliedCommand, CommandFacts, ResetKind, SemanticEvent,
};
use crate::pending::PendingRewrites;
use crate::questions::{
    ancestry_queries, asked_pairs, cherry_pick_heads, pairs_in, stash_queries, step_pairs, step_stash,
};
use crate::rewrite::pair_is;
use crate::side_effects::EffectStep;
use crate::text::{has_prefix, views};
use vstd::prelude::*;

verus! {

/// Whether a list asks whether one commit comes before another.
pub open spec fn asks(list: Seq<(String, String)>, a: Seq<char>, b: Seq<char>) -> bool {
    exists|i: int| 0 <= i < list.len() && (#[trigger] list[i]).0@ == a && list[i].1@ == b
}

proof fn lemma_asks(list: Seq<(String, String)>, a: Seq<char>, b: Seq<char>)
    ensures
        asks(list, a, b) <==> pairs_in(list).contains((a, b)),
{
    if asks(list, a, b) {
        let i = choose|i: int|
            0 <= i < list.len() && (#[trigger] list[i]).0@ == a && list[i].1@ == b;
        assert(pair_is(list[i], a, b));
    }
    if pairs_in(list).contains((a, b)) {
        let i = choose|i: int| 0 <= i < list.len() && pair_is(#[trigger] list[i], a, b);
        assert(list[i].0@ == a && list[i].1@ == b);
    }
}

proof fn lemma_one_step(
    steps: Seq<EffectStep>,
    applied: AppliedCommand,
    facts: CommandFacts,
    pending: PendingRewrites,
    key: Seq<char>,
    lite: bool,
)
    requires
        steps.len() == 1,
    ensures
        asked_pairs(steps, applied, facts, pending, key, lite) == step_pairs(
            steps[0],
            applied,
            facts,
            pending,
            key,
            lite,
        ),
{
    reveal_with_fuel(asked_pairs, 2);
    assert(steps.drop_last().len() == 0);
    assert(asked_pairs(steps, applied, facts, pending, key, lite) =~= step_pairs(
        steps[0],
        applied,
        facts,
        pending,
        key,
        lite,
    ));
}

/// Of a pull it is asked whether what it left comes before what it came to, and nothing else.
pub proof fn law_a_pull_asks_about_its_heads(
    steps: Vec<EffectStep>,
    applied: AppliedCommand,
    facts: CommandFacts,
    pending: PendingRewrites,
    key: &str,
    lite: bool,
    heads: (String, String),
    r: Vec<(String, String)>,
    a: Seq<char>,
    b: Seq<char>,
)
    requires
        steps@ == seq![EffectStep::PullFastForward],
        call_ensures(
            ancestry_queries,
            (&steps, &applied, &facts, &pending, key, lite),
            r,
        ),
        call_ensures(resolve_heads_for_command, (&applied.command,), heads),
    ensures
        asks(r@, a, b) ==> a == heads.0@ && b == heads.1@,
        heads.0@.len() > 0 && heads.1@.len() > 0 && heads.0@ != heads.1@ ==> asks(
            r@,
            heads.0@,
            heads.1@,
        ),
        heads.0@ == heads.1@ ==> !asks(r@, a, b),
{
    lemma_one_step(steps@, applied, facts, pending, key@, lite);
    lemma_asks(r@, a, b);
    lemma_asks(r@, heads.0@, heads.1@);
}

/// Of a reset it is asked both ways between its heads, and of a hard one nothing.
pub proof fn law_a_reset_asks_about_its_heads(
    steps: Vec<EffectStep>,
    applied: AppliedCommand,
    facts: CommandFacts,
    pending: PendingRewrites,
    key: &str,
    lite: bool,
    kind: ResetKind,
    old_head: String,
    new_head: String,
    r: Vec<(String, String)>,
    a: Seq<char>,
    b: Seq<char>,
)
    requires
        steps@ == seq![EffectStep::Event(0)],
        applied.events@.len() > 0,
        applied.events@[0] == (SemanticEvent::Reset { kind, old_head, new_head }),
        call_ensures(
            ancestry_queries,
            (&steps, &applied, &facts, &pending, key, lite),
            r,
        ),
    ensures
        kind is Hard || old_head@ == new_head@ ==> !asks(r@, a, b),
        !(kind is Hard) && old_head@.len() > 0 && new_head@.len() > 0 && old_head@ != new_head@
            ==> asks(r@, old_head@, new_head@) && asks(r@, new_head@, old_head@),
        asks(r@, a, b) ==> (a == old_head@ && b == new_head@) || (a == new_head@ && b == old_head@),
{
    lemma_one_step(steps@, applied, facts, pending, key@, lite);
    lemma_asks(r@, a, b);
    lemma_asks(r@, old_head@, new_head@);
    lemma_asks(r@, new_head@, old_head@);
}

/// Of a branch or the head that was set it is asked whether it went forward; of other refs, and
/// where only the working logs are kept up, nothing.
pub proof fn law_a_ref_that_was_set_asks_whether_it_went_forward(
    steps: Vec<EffectStep>,
    applied: AppliedCommand,
    facts: CommandFacts,
    pending: PendingRewrites,
    key: &str,
    lite: bool,
    reference: String,
    old_oid: String,
    new_oid: String,
    names: (&str, &str),
    genuine: (bool, bool),
    r: Vec<(String, String)>,
    a: Seq<char>,
    b: Seq<char>,
)
    requires
        steps@ == seq![EffectStep::RefUpdate(0)],
        applied.events@.len() > 0,
        applied.events@[0] == (SemanticEvent::RefUpdated {
            reference,
            old: old_oid,
            new: new_oid,
        }),
        names.0@ == old_oid@ && names.1@ == new_oid@,
        call_ensures(is_real_oid, (names.0,), genuine.0),
        call_ensures(is_real_oid, (names.1,), genuine.1),
        call_ensures(
            ancestry_queries,
            (&steps, &applied, &facts, &pending, key, lite),
            r,
        ),
    ensures
        asks(r@, a, b) ==> a == old_oid@ && b == new_oid@ && !lite,
        !lite && (reference@ == "HEAD"@ || has_prefix(reference@, "refs/heads/"@)) && genuine.0
            && genuine.1 && old_oid@ != new_oid@ ==> asks(r@, old_oid@, new_oid@),
        reference@ != "HEAD"@ && !has_prefix(reference@, "refs/heads/"@) ==> !asks(r@, a, b),
{
    lemma_one_step(steps@, applied, facts, pending, key@, lite);
    lemma_asks(r@, a, b);
    lemma_asks(r@, old_oid@, new_oid@);
}

/// Nothing is asked for a step that rests on no ancestry, and nothing is asked twice.
pub proof fn law_nothing_is_asked_in_vain(
    steps: Vec<EffectStep>,
    applied: AppliedCommand,
    facts: CommandFacts,
    pending: PendingRewrites,
    key: &str,
    lite: bool,
    r: Vec<(String, String)>,
    i: int,
    j: int,
)
    requires
        call_ensures(
            ancestry_queries,
            (&steps, &applied, &facts, &pending, key, lite),
            r,
        ),
        0 <= i < j < r@.len(),
    ensures
        r@[i].0@ != r@[j].0@ || r@[i].1@ != r@[j].1@,
        steps@.len() == 1 ==> !(steps@[0] is ClearRebase) && !(steps@[0] is Checkout)
            && !(steps@[0] is Sweep) && !(steps@[0] is NoteStoppedRebase) && !(steps@[0]
            is NoteStoppedCherryPick),
{
    assert(!pair_is(r@[i], r@[j].0@, r@[j].1@));
    if steps@.len() == 1 {
        lemma_one_step(steps@, applied, facts, pending, key@, lite);
        lemma_asks(r@, r@[i].0@, r@[i].1@);
        assert(asks(r@, r@[i].0@, r@[i].1@));
    }
}

/// The base is asked of the stash that is created or put back.
pub proof fn law_stashes_are_asked_about(
    steps: Vec<EffectStep>,
    applied: AppliedCommand,
    r: Vec<String>,
    stash: Seq<char>,
)
    requires
        steps@.len() == 1,
        call_ensures(stash_queries, (&steps, &applied), r),
    ensures
        views(r@).contains(stash) <==> step_stash(steps@[0], applied) == Some(stash),
        r@.len() <= 1,
{
    reveal_with_fuel(crate::questions::asked_stashes, 2);
    let all = views(r@);
    assert(steps@.drop_last().len() == 0);
    assert(all.to_set().contains(stash) == all.contains(stash));
    if r@.len() > 1 {
        assert(all[0] != all[1]);
        assert(all.to_set().contains(all[0]) && all.to_set().contains(all[1]));
    }
}

/// The sources of a cherry-pick are read from the head that it started at, where they were not
/// seen and it names some; where only the working logs are kept up nothing is read.
pub proof fn law_sources_are_read_from_where_a_pick_started(
    steps: Vec<EffectStep>,
    applied: AppliedCommand,
    facts: CommandFacts,
    lite: bool,
    original_head: String,
    new_head: String,
    source_commits: Vec<String>,
    new_commits: Vec<String>,
    named: Vec<String>,
    r: Vec<String>,
    head: Seq<char>,
)
    requires
        steps@ == seq![EffectStep::Event(0)],
        applied.events@.len() > 0,
        applied.events@[0] == (SemanticEvent::CherryPickComplete {
            original_head,
            new_head,
            source_commits,
            new_commits,
        }),
        call_ensures(cherry_pick_heads, (&steps, &applied, &facts, lite), r),
        call_ensures(
            crate::sources::cherry_pick_source_args_for_side_effect,
            (&applied.command, &facts.parsed),
            named,
        ),
    ensures
        views(r@).contains(head) ==> head == original_head@ && !lite && source_commits@.len() == 0
            && named@.len() > 0,
        !lite && new_head@.len() > 0 && source_commits@.len() == 0 && named@.len() > 0 ==> views(
            r@,
        ).contains(original_head@),
{
    reveal_with_fuel(crate::questions::asked_heads, 2);
    let all = views(r@);
    assert(steps@.drop_last().len() == 0);
    assert(steps@.last() == EffectStep::Event(0));
    assert(all.to_set().contains(head) == all.contains(head));
    assert(all.to_set().contains(original_head@) == all.contains(original_head@));
    assert(views(named@).len() == named@.len());
}

} // verus!
