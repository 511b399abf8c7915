//! The sequence in which the commands and checkpoints of a family are worked off.
use crate::sequencer::{
    comes_first, free_answers, sequencer_entry_identity, Drained, EntryFacts, EntryKind,
    FamilyFrontDisposition, FamilySequencerEntry, FamilySequencerOrder, FamilySequencerSlot,
    FamilySequencers,
};
use crate::text::{opt_view, views};
use vstd::prelude::*;

verus! {

pub(crate) proof fn lemma_place(
    entries: Seq<(FamilySequencerOrder, FamilySequencerSlot)>,
    order: FamilySequencerOrder,
)
    ensures
        crate::sequencer::place_of(entries, order) <= entries.len(),
        forall|i: int|
            0 <= i < crate::sequencer::place_of(entries, order) ==> comes_first(
                (#[trigger] entries[i]).0,
                order,
            ),
        crate::sequencer::place_of(entries, order) < entries.len() ==> !comes_first(
            entries[crate::sequencer::place_of(entries, order) as int].0,
            order,
        ),
    decreases entries.len(),
{
    if entries.len() > 0 && comes_first(entries[0].0, order) {
        let rest = entries.skip(1);
        lemma_place(rest, order);
        let n = crate::sequencer::place_of(rest, order);
        assert forall|i: int| 0 <= i < n + 1 implies comes_first(
            (#[trigger] entries[i]).0,
            order,
        ) by {
            if i > 0 {
                assert(rest[i - 1] == entries[i]);
            }
        }
        if n < rest.len() {
            assert(rest[n as int] == entries[n as int + 1]);
        }
    }
}

/// A family is worked off in the order in which its commands started: what is entered stands
/// behind everything that started before it and ahead of everything that started after it, and
/// what came first goes first among what started together. Nothing that was entered before is
/// lost, and other families are left alone.
pub proof fn law_entries_stand_by_their_start(
    all: &mut FamilySequencers,
    family: &str,
    started_at_ns: u128,
    enqueued_at_ns: u128,
    entry: FamilySequencerEntry,
    other: Seq<char>,
    k: int,
) -> (at: int)
    requires
        old(all).wf(),
        call_ensures(
            FamilySequencers::append_family_sequencer_entry,
            (all, family, started_at_ns, enqueued_at_ns, entry),
            (),
        ),
        forall|i: int|
            0 <= i < old(all).entries(family@).len() ==> (
            #[trigger] old(all).entries(family@)[i]).0.ordinal < old(all).ordinal(family@),
    ensures
        ({
            let before = old(all).entries(family@);
            let after = final(all).entries(family@);
            &&& 0 <= at < after.len() == before.len() + 1
            &&& after[at].0.started_at_ns == started_at_ns && after[at].1.entry == entry
                && after[at].1.enqueued_at_ns == enqueued_at_ns
            &&& after.remove(at) == before
            &&& 0 <= k < at ==> after[k].0.started_at_ns <= started_at_ns
            &&& at < k < after.len() ==> after[k].0.started_at_ns > started_at_ns
        }),
        other != family@ ==> final(all).entries(other) == old(all).entries(other),
{
    let before = old(all).entries(family@);
    let after = final(all).entries(family@);
    let order = FamilySequencerOrder { started_at_ns, ordinal: old(all).ordinal(family@) };
    let at = crate::sequencer::place_of(before, order) as int;
    lemma_place(before, order);
    if at < before.len() {
        assert(before[at].0.ordinal < order.ordinal);
        assert(before[at].0 != order);
    }
    assert(after.remove(at) =~= before);
    if 0 <= k < at {
        assert(after[k] == before[k]);
    }
    if at < k < after.len() {
        assert(after[k] == before[k - 1]);
        if k - 1 > at {
            assert(comes_first(before[at].0, before[k - 1].0));
        }
        assert(before[at].0.started_at_ns > started_at_ns);
    }
    at
}

proof fn lemma_free(holds: Seq<Option<u128>>)
    ensures
        free_answers(holds) <= holds.len(),
        forall|i: int| 0 <= i < free_answers(holds) ==> (#[trigger] holds[i]) is None,
        free_answers(holds) < holds.len() ==> holds[free_answers(holds) as int] is Some,
    decreases holds.len(),
{
    if holds.len() > 0 && holds[0] is None {
        let rest = holds.skip(1);
        lemma_free(rest);
        assert forall|i: int| 0 <= i < free_answers(holds) implies (#[trigger] holds[i]) is None by {
            if i > 0 {
                assert(holds[i] == rest[i - 1]);
            }
        }
    }
}

/// What is worked off comes off the front, in order, and nothing is lost: what was taken and
/// what is left are together what was there.
pub proof fn law_what_is_worked_off_comes_off_the_front(
    all: &mut FamilySequencers,
    family: &str,
    unadmitted: u64,
    holds: Vec<Option<u128>>,
    r: Drained,
    i: int,
)
    requires
        old(all).wf(),
        call_ensures(FamilySequencers::drain_ready, (all, family, unadmitted, &holds), r),
        0 <= i < old(all).entries(family@).len(),
    ensures
        r.ready@.len() + final(all).entries(family@).len() == old(all).entries(family@).len(),
        i < r.ready@.len() ==> r.ready@[i].1 == old(all).entries(family@)[i].1.entry
            && r.ready@[i].0 == old(all).entries(family@)[i].0.ordinal,
        i >= r.ready@.len() ==> final(all).entries(family@)[i - r.ready@.len()] == old(
            all,
        ).entries(family@)[i],
{
    lemma_free(holds@);
}

/// Nothing is worked off past an entry that is held, nor past the last of which it is known
/// that it is free, nor while accepted checkpoints are still to be entered. Everything up to
/// there is, and the hold is told.
pub proof fn law_work_stops_at_the_first_hold(
    all: &mut FamilySequencers,
    family: &str,
    unadmitted: u64,
    holds: Vec<Option<u128>>,
    r: Drained,
    i: int,
)
    requires
        old(all).wf(),
        call_ensures(FamilySequencers::drain_ready, (all, family, unadmitted, &holds), r),
    ensures
        unadmitted > 0 ==> r.ready@.len() == 0 && r.held is None,
        r.ready@.len() <= holds@.len(),
        0 <= i < holds@.len() && holds@[i] is Some ==> r.ready@.len() <= i,
        unadmitted == 0 && 0 <= i < holds@.len() && i < old(all).entries(family@).len()
            && holds@[i] is Some && (forall|k: int| 0 <= k < i ==> (#[trigger] holds@[k]) is None)
            ==> r.ready@.len() == i && r.held == holds@[i],
        unadmitted == 0 && (forall|k: int| 0 <= k < holds@.len() ==> (#[trigger] holds@[k]) is None)
            && holds@.len() >= old(all).entries(family@).len() ==> r.ready@.len() == old(
            all,
        ).entries(family@).len() && r.held is None,
{
    lemma_free(holds@);
    let n = free_answers(holds@) as int;
    if 0 <= i < holds@.len() && holds@[i] is Some && n < holds@.len() {
        assert(holds@[n] is Some);
    }
}

/// To work off one family leaves the others alone.
pub proof fn law_families_are_worked_off_apart(
    all: &mut FamilySequencers,
    family: &str,
    unadmitted: u64,
    holds: Vec<Option<u128>>,
    r: Drained,
    other: Seq<char>,
)
    requires
        old(all).wf(),
        call_ensures(FamilySequencers::drain_ready, (all, family, unadmitted, &holds), r),
        other != family@,
    ensures
        final(all).entries(other) == old(all).entries(other),
        final(all).ordinal(other) == old(all).ordinal(other),
{
}

/// The first entry of a family can be worked off exactly when working it off takes it.
pub proof fn law_what_is_ready_is_worked_off(
    all: &mut FamilySequencers,
    family: &str,
    unadmitted: u64,
    hold: Option<u128>,
    holds: Vec<Option<u128>>,
    front: FamilyFrontDisposition,
    r: Drained,
)
    requires
        old(all).wf(),
        call_ensures(
            FamilySequencers::family_front_entry_disposition,
            (old(all), family, unadmitted, hold),
            front,
        ),
        holds@ == seq![hold],
        call_ensures(FamilySequencers::drain_ready, (all, family, unadmitted, &holds), r),
    ensures
        front is Ready <==> r.ready@.len() == 1,
        front is Fenced <==> r.held is Some,
        front is Fenced ==> r.held == Some(front->retry_in_ns),
        front is Idle <==> unadmitted > 0 || old(all).entries(family@).len() == 0,
{
    lemma_free(holds@);
    reveal_with_fuel(free_answers, 2);
    assert(holds@[0] == hold);
    assert(holds@.skip(1).len() == 0);
}

/// What is known of an entry is what was entered: when its command started, which root it
/// came from, and how long it has waited.
pub proof fn law_entries_are_known_by_what_was_entered(
    all: &mut FamilySequencers,
    family: &str,
    started_at_ns: u128,
    enqueued_at_ns: u128,
    entry: FamilySequencerEntry,
    now_ns: u128,
    identity: (Option<String>, EntryKind),
    r: Option<EntryFacts>,
    beyond: Option<EntryFacts>,
)
    requires
        old(all).wf(),
        old(all).entries(family@).len() == 0,
        enqueued_at_ns <= now_ns,
        call_ensures(
            FamilySequencers::append_family_sequencer_entry,
            (all, family, started_at_ns, enqueued_at_ns, entry),
            (),
        ),
        call_ensures(FamilySequencers::entry_facts, (final(all), family, 0, now_ns), r),
        call_ensures(FamilySequencers::entry_facts, (final(all), family, 1, now_ns), beyond),
        call_ensures(sequencer_entry_identity, (&entry,), identity),
    ensures
        r is Some && beyond is None,
        r->0.started_at_ns == started_at_ns,
        r->0.waited_ns == now_ns - enqueued_at_ns,
        opt_view(r->0.root_sid) == opt_view(identity.0) && r->0.kind == identity.1,
{
    let after = final(all).entries(family@);
    assert(after.len() == 1);
}

/// Commands, before and after they were applied, come from their roots; checkpoints from none.
pub proof fn law_entries_come_from_their_roots(
    entry: FamilySequencerEntry,
    r: (Option<String>, EntryKind),
)
    requires
        call_ensures(sequencer_entry_identity, (&entry,), r),
    ensures
        entry is Checkpoint <==> r.0 is None,
        entry is Checkpoint <==> r.1 is Checkpoint,
        entry is ReadyCommand ==> r.1 is Command && r.0->0@ == entry->ReadyCommand_0.root_sid@,
        entry is AppliedSideEffects ==> r.1 is AppliedSideEffects && r.0->0@
            == entry->AppliedSideEffects_0.command.root_sid@,
{
}

/// There is something to work off exactly when some family has an entry, and those families are
/// the ones that are listed.
pub proof fn law_families_with_entries_are_listed(
    all: FamilySequencers,
    listed: Vec<String>,
    some: bool,
    family: Seq<char>,
)
    requires
        call_ensures(FamilySequencers::families_with_entries, (&all,), listed),
        call_ensures(FamilySequencers::has_entries, (&all,), some),
    ensures
        views(listed@).contains(family) <==> all.entries(family).len() > 0,
        some <==> listed@.len() > 0,
{
    if listed@.len() > 0 {
        assert(views(listed@)[0] == listed@[0]@);
        assert(views(listed@).contains(listed@[0]@));
        assert(all.entries(listed@[0]@).len() > 0);
    }
    if some {
        let f = choose|f: Seq<char>| all.entries(f).len() > 0;
        assert(views(listed@).contains(f));
        assert(views(listed@).len() == listed@.len());
    }
}

/// To forget idle families takes nothing that is to be worked off.
pub proof fn law_forgetting_idle_families_loses_nothing(
    all: &mut FamilySequencers,
    family: Seq<char>,
)
    requires
        old(all).wf(),
        call_ensures(FamilySequencers::drop_idle, (all,), ()),
    ensures
        final(all).entries(family) == old(all).entries(family),
        old(all).entries(family).len() == 0 ==> !final(all).by_family@.contains_key(family),
{
}

} // verus!
