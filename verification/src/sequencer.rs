//! The order in which what happened in a family of worktrees is worked off.
use crate::checkpoint::CheckpointRequest;
use crate::commands::{AppliedCommand, NormalizedCommand};
use crate::keyed::{retained, KeyMap};
use crate::quota::CheckpointIngressReservation;
use crate::text::{opt_view, views};
use vstd::prelude::*;

verus! {

/// One thing to work off.
#[derive(Debug)]
pub enum FamilySequencerEntry {
    /// A finished command.
    ReadyCommand(NormalizedCommand),
    /// A command whose effect on its family is known; what follows from it is not done yet.
    AppliedSideEffects(AppliedCommand),
    /// An accepted checkpoint.
    Checkpoint {
        request: CheckpointRequest,
        receipt_seq: u64,
        reservation: CheckpointIngressReservation,
    },
}

/// Where an entry stands: when its command started, a checkpoint when it was
/// received; among those of one moment, in the order in which they came.
#[derive(Debug, Clone, Copy, PartialEq, Eq, Structural)]
pub struct FamilySequencerOrder {
    pub started_at_ns: u128,
    pub ordinal: u64,
}

/// An entry, with the moment at which it became ready.
#[derive(Debug)]
pub struct FamilySequencerSlot {
    pub enqueued_at_ns: u128,
    pub entry: FamilySequencerEntry,
}

/// What is to be worked off in one family.
#[derive(Debug)]
pub struct FamilySequencerState {
    pub next_ordinal: u64,
    pub entries: Vec<(FamilySequencerOrder, FamilySequencerSlot)>,
}

/// What an entry is, for reports.
#[derive(Debug, Clone, Copy, PartialEq, Eq, Structural)]
pub enum EntryKind {
    Command,
    AppliedSideEffects,
    Checkpoint,
}

impl EntryKind {
    /// The kind in words.
    pub fn as_str(&self) -> (r: &'static str)
        ensures
            r@ == (match *self {
                EntryKind::Command => "command"@,
                EntryKind::AppliedSideEffects => "applied_side_effects"@,
                EntryKind::Checkpoint => "checkpoint"@,
            }),
    {
        match self {
            EntryKind::Command => "command",
            EntryKind::AppliedSideEffects => "applied_side_effects",
            EntryKind::Checkpoint => "checkpoint",
        }
    }
}

/// Whether one entry comes before the other.
pub open spec fn comes_first(a: FamilySequencerOrder, b: FamilySequencerOrder) -> bool {
    a.started_at_ns < b.started_at_ns || a.started_at_ns == b.started_at_ns && a.ordinal
        < b.ordinal
}

/// Whether the entries stand in order, no two at one place.
pub open spec fn in_sequence(entries: Seq<(FamilySequencerOrder, FamilySequencerSlot)>) -> bool {
    forall|i: int, j: int|
        0 <= i < j < entries.len() ==> comes_first(
            (#[trigger] entries[i]).0,
            (#[trigger] entries[j]).0,
        )
}

/// How many entries come before this place.
pub open spec fn place_of(
    entries: Seq<(FamilySequencerOrder, FamilySequencerSlot)>,
    order: FamilySequencerOrder,
) -> nat
    decreases entries.len(),
{
    if entries.len() == 0 {
        0
    } else if comes_first(entries[0].0, order) {
        1 + place_of(entries.skip(1), order)
    } else {
        0
    }
}

/// The entries with one more; one at the same place gives way.
pub open spec fn with_entry(
    entries: Seq<(FamilySequencerOrder, FamilySequencerSlot)>,
    order: FamilySequencerOrder,
    slot: FamilySequencerSlot,
) -> Seq<(FamilySequencerOrder, FamilySequencerSlot)> {
    let at = place_of(entries, order);
    if at < entries.len() && entries[at as int].0 == order {
        entries.update(at as int, (order, slot))
    } else {
        entries.insert(at as int, (order, slot))
    }
}

proof fn lemma_place(
    entries: Seq<(FamilySequencerOrder, FamilySequencerSlot)>,
    order: FamilySequencerOrder,
)
    requires
        in_sequence(entries),
    ensures
        place_of(entries, order) <= entries.len(),
        forall|i: int|
            0 <= i < place_of(entries, order) ==> comes_first((#[trigger] entries[i]).0, order),
        forall|i: int|
            place_of(entries, order) <= i < entries.len() ==> !comes_first(
                (#[trigger] entries[i]).0,
                order,
            ),
    decreases entries.len(),
{
    if entries.len() > 0 {
        let rest = entries.skip(1);
        assert forall|i: int, j: int| 0 <= i < j < rest.len() implies comes_first(
            (#[trigger] rest[i]).0,
            (#[trigger] rest[j]).0,
        ) by {
            assert(rest[i] == entries[i + 1] && rest[j] == entries[j + 1]);
        }
        lemma_place(rest, order);
        if comes_first(entries[0].0, order) {
            assert forall|i: int| 0 <= i < place_of(entries, order) implies comes_first(
                (#[trigger] entries[i]).0,
                order,
            ) by {
                if i > 0 {
                    assert(entries[i] == rest[i - 1]);
                }
            }
            assert forall|i: int|
                place_of(entries, order) <= i < entries.len() implies !comes_first(
                (#[trigger] entries[i]).0,
                order,
            ) by {
                assert(entries[i] == rest[i - 1]);
            }
        } else {
            assert forall|i: int| 0 <= i < entries.len() implies !comes_first(
                (#[trigger] entries[i]).0,
                order,
            ) by {
                if i > 0 {
                    assert(comes_first(entries[0].0, entries[i].0));
                }
            }
        }
    }
}

/// Adding an entry keeps the entries in order.
pub proof fn law_entries_stay_in_sequence(
    entries: Seq<(FamilySequencerOrder, FamilySequencerSlot)>,
    order: FamilySequencerOrder,
    slot: FamilySequencerSlot,
)
    requires
        in_sequence(entries),
    ensures
        in_sequence(with_entry(entries, order, slot)),
{
    lemma_place(entries, order);
    let at = place_of(entries, order) as int;
    let more = with_entry(entries, order, slot);
    assert forall|i: int, j: int| 0 <= i < j < more.len() implies comes_first(
        (#[trigger] more[i]).0,
        (#[trigger] more[j]).0,
    ) by {
        if at < entries.len() && entries[at].0 == order {
            let a = entries[i];
            let b = entries[j];
            assert(comes_first(a.0, b.0));
        } else {
            if i != at && j != at {
                let a = entries[if i < at { i } else { i - 1 }];
                let b = entries[if j < at { j } else { j - 1 }];
                assert(more[i] == a && more[j] == b);
                assert(comes_first(a.0, b.0));
            } else if i == at {
                let b = entries[j - 1];
                assert(more[j] == b);
                assert(!comes_first(b.0, order));
                if at < entries.len() {
                    let c = entries[at];
                    assert(c.0 != order);
                    assert(!comes_first(c.0, order));
                }
            } else {
                let a = entries[i];
                assert(more[i] == a);
            }
        }
    }
}

fn is_first(a: FamilySequencerOrder, b: FamilySequencerOrder) -> (r: bool)
    ensures
        r == comes_first(a, b),
{
    a.started_at_ns < b.started_at_ns || (a.started_at_ns == b.started_at_ns && a.ordinal
        < b.ordinal)
}

fn find_place(
    entries: &Vec<(FamilySequencerOrder, FamilySequencerSlot)>,
    order: FamilySequencerOrder,
) -> (r: usize)
    ensures
        r == place_of(entries@, order),
        r <= entries@.len(),
{
    let mut i: usize = 0;
    assert(entries@.skip(0) =~= entries@);
    while i < entries.len()
        invariant
            i <= entries.len(),
            place_of(entries@, order) == i + place_of(entries@.skip(i as int), order),
        decreases entries.len() - i,
    {
        assert(entries@.skip(i as int)[0] == entries@[i as int]);
        assert(entries@.skip(i as int).skip(1) =~= entries@.skip(i + 1));
        if !is_first(entries[i].0, order) {
            return i;
        }
        i += 1;
    }
    i
}

impl FamilySequencerState {
    /// The entries stand in order, and the next one has a number.
    pub open spec fn wf(self) -> bool {
        in_sequence(self.entries@) && self.next_ordinal >= 1
    }

    fn new() -> (r: FamilySequencerState)
        ensures
            r.next_ordinal == 1,
            r.entries@.len() == 0,
            r.wf(),
    {
        FamilySequencerState { next_ordinal: 1, entries: Vec::new() }
    }
}

/// The next number, which stops at its limit.
pub open spec fn next_after(ordinal: u64) -> u64 {
    if ordinal < u64::MAX {
        (ordinal + 1) as u64
    } else {
        u64::MAX
    }
}

/// The trace root that an entry came from; a checkpoint has none.
pub open spec fn entry_root(entry: FamilySequencerEntry) -> Option<Seq<char>> {
    match entry {
        FamilySequencerEntry::ReadyCommand(command) => Some(command.root_sid@),
        FamilySequencerEntry::AppliedSideEffects(applied) => Some(applied.command.root_sid@),
        FamilySequencerEntry::Checkpoint { .. } => None,
    }
}

/// What an entry is.
pub open spec fn entry_kind(entry: FamilySequencerEntry) -> EntryKind {
    match entry {
        FamilySequencerEntry::ReadyCommand(_) => EntryKind::Command,
        FamilySequencerEntry::AppliedSideEffects(_) => EntryKind::AppliedSideEffects,
        FamilySequencerEntry::Checkpoint { .. } => EntryKind::Checkpoint,
    }
}

/// The trace root that an entry came from, so that it never waits for itself, and what it is.
pub fn sequencer_entry_identity(entry: &FamilySequencerEntry) -> (r: (Option<String>, EntryKind))
    ensures
        opt_view(r.0) == entry_root(*entry),
        r.1 == entry_kind(*entry),
{
    match entry {
        FamilySequencerEntry::ReadyCommand(command) => (
            Some(command.root_sid.clone()),
            EntryKind::Command,
        ),
        FamilySequencerEntry::AppliedSideEffects(applied) => (
            Some(applied.command.root_sid.clone()),
            EntryKind::AppliedSideEffects,
        ),
        FamilySequencerEntry::Checkpoint { .. } => (None, EntryKind::Checkpoint),
    }
}

/// What can be done with the first entry of a family.
#[derive(Debug, Clone, Copy, PartialEq, Eq, Structural)]
pub enum FamilyFrontDisposition {
    /// Nothing: there is none, or accepted checkpoints come first.
    Idle,
    /// It can be worked off.
    Ready,
    /// An open root holds it; look again after this many nanoseconds.
    Fenced { retry_in_ns: u128 },
}

/// What is asked of the fence for one entry.
#[derive(Debug)]
pub struct EntryFacts {
    pub started_at_ns: u128,
    pub root_sid: Option<String>,
    pub kind: EntryKind,
    pub waited_ns: u128,
}

/// What a drain takes out: the entries with their numbers, in order, and for
/// how long the next one is held.
#[derive(Debug)]
pub struct Drained {
    pub ready: Vec<(u64, FamilySequencerEntry)>,
    pub held: Option<u128>,
}

/// What is to be worked off, by family.
pub struct FamilySequencers {
    pub by_family: KeyMap<FamilySequencerState>,
}

/// How many of the first answers hold nothing.
pub open spec fn free_answers(holds: Seq<Option<u128>>) -> nat
    decreases holds.len(),
{
    if holds.len() == 0 || holds[0] is Some {
        0
    } else {
        1 + free_answers(holds.skip(1))
    }
}

/// How many entries a drain takes out.
pub open spec fn drained_count(entries: nat, holds: Seq<Option<u128>>) -> nat {
    if free_answers(holds) <= entries {
        free_answers(holds)
    } else {
        entries
    }
}

/// Whether the entries that were taken out are these.
pub open spec fn are_taken(
    ready: Seq<(u64, FamilySequencerEntry)>,
    entries: Seq<(FamilySequencerOrder, FamilySequencerSlot)>,
) -> bool {
    &&& ready.len() == entries.len()
    &&& forall|i: int|
        0 <= i < ready.len() ==> (#[trigger] ready[i]).0 == entries[i].0.ordinal && ready[i].1
            == entries[i].1.entry
}

/// The test for a family with something to work off.
pub open spec fn has_entries() -> spec_fn(FamilySequencerState) -> bool {
    |state: FamilySequencerState| state.entries@.len() > 0
}

impl FamilySequencers {
    /// The entries of a family.
    pub open spec fn entries(self, family: Seq<char>) -> Seq<
        (FamilySequencerOrder, FamilySequencerSlot),
    > {
        if self.by_family@.contains_key(family) {
            self.by_family@[family].entries@
        } else {
            Seq::empty()
        }
    }

    /// What can be done with the first entry of a family.
    pub open spec fn front(
        self,
        family: Seq<char>,
        unadmitted: u64,
        held: Option<u128>,
    ) -> FamilyFrontDisposition {
        if unadmitted > 0 || self.entries(family).len() == 0 {
            FamilyFrontDisposition::Idle
        } else {
            match held {
                None => FamilyFrontDisposition::Ready,
                Some(retry_in_ns) => FamilyFrontDisposition::Fenced { retry_in_ns },
            }
        }
    }

    /// The number that the next entry of a family gets.
    pub open spec fn ordinal(self, family: Seq<char>) -> u64 {
        if self.by_family@.contains_key(family) {
            self.by_family@[family].next_ordinal
        } else {
            1
        }
    }

    /// The entries of every family stand in order.
    pub open spec fn wf(self) -> bool {
        forall|family: Seq<char>| #[trigger]
            self.by_family@.contains_key(family) ==> self.by_family@[family].wf()
    }

    /// Whether `after` is this with one entry more, which stands where its start puts it; the
    /// other families are as they were.
    pub open spec fn is_followed_by(
        self,
        after: FamilySequencers,
        family: Seq<char>,
        started_at_ns: u128,
        slot: FamilySequencerSlot,
    ) -> bool {
        &&& after.entries(family) == with_entry(
            self.entries(family),
            FamilySequencerOrder { started_at_ns, ordinal: self.ordinal(family) },
            slot,
        )
        &&& after.ordinal(family) == next_after(self.ordinal(family))
        &&& after.by_family@ == self.by_family@.insert(family, after.by_family@[family])
    }

    /// Nothing is to be worked off.
    pub fn new() -> (r: FamilySequencers)
        ensures
            r.by_family@ == Map::<Seq<char>, FamilySequencerState>::empty(),
            r.wf(),
    {
        FamilySequencers { by_family: KeyMap::new() }
    }

    /// Adds an entry where its start puts it.
    pub fn append_family_sequencer_entry(
        &mut self,
        family: &str,
        started_at_ns: u128,
        enqueued_at_ns: u128,
        entry: FamilySequencerEntry,
    )
        requires
            old(self).wf(),
        ensures
            final(self).wf(),
            old(self).is_followed_by(
                *final(self),
                family@,
                started_at_ns,
                (FamilySequencerSlot { enqueued_at_ns, entry }),
            ),
    {
        let mut state = match self.by_family.remove(family) {
            Some(state) => state,
            None => FamilySequencerState::new(),
        };
        assert(state.entries@ =~= old(self).entries(family@));
        let order = FamilySequencerOrder { started_at_ns, ordinal: state.next_ordinal };
        let slot = FamilySequencerSlot { enqueued_at_ns, entry };
        proof {
            law_entries_stay_in_sequence(state.entries@, order, slot);
        }
        state.next_ordinal = state.next_ordinal.saturating_add(1);
        let at: usize = find_place(&state.entries, order);
        if at < state.entries.len() && state.entries[at].0 == order {
            state.entries.set(at, (order, slot));
        } else {
            state.entries.insert(at, (order, slot));
        }
        let ghost kept = state;
        self.by_family.insert(family.to_owned(), state);
        assert(self.by_family@[family@] == kept);
        assert(self.by_family@ =~= old(self).by_family@.insert(family@, kept));
    }

    /// What the fence is asked for an entry of a family, at its place in the order.
    pub fn entry_facts(&self, family: &str, i: usize, now_ns: u128) -> (r: Option<EntryFacts>)
        ensures
            r is Some <==> i < self.entries(family@).len(),
            r is Some ==> {
                let entry = self.entries(family@)[i as int];
                &&& (r->0).started_at_ns == entry.0.started_at_ns
                &&& opt_view((r->0).root_sid) == entry_root(entry.1.entry)
                &&& (r->0).kind == entry_kind(entry.1.entry)
                &&& (r->0).waited_ns == if now_ns >= entry.1.enqueued_at_ns {
                    (now_ns - entry.1.enqueued_at_ns) as u128
                } else {
                    0
                }
            },
    {
        match self.by_family.get(family) {
            Some(state) => {
                if i >= state.entries.len() {
                    return None;
                }
                let order = state.entries[i].0;
                let slot = &state.entries[i].1;
                let (root_sid, kind) = sequencer_entry_identity(&slot.entry);
                Some(
                    EntryFacts {
                        started_at_ns: order.started_at_ns,
                        root_sid,
                        kind,
                        waited_ns: now_ns.saturating_sub(slot.enqueued_at_ns),
                    },
                )
            },
            None => None,
        }
    }

    /// What can be done with the first entry of a family: `unadmitted` checkpoints
    /// come first, and `held` is the fence's answer for it.
    pub fn family_front_entry_disposition(
        &self,
        family: &str,
        unadmitted: u64,
        held: Option<u128>,
    ) -> (r: FamilyFrontDisposition)
        ensures
            r == self.front(family@, unadmitted, held),
    {
        if unadmitted > 0 {
            return FamilyFrontDisposition::Idle;
        }
        let waiting = match self.by_family.get(family) {
            Some(state) => state.entries.len() > 0,
            None => false,
        };
        if !waiting {
            return FamilyFrontDisposition::Idle;
        }
        match held {
            None => FamilyFrontDisposition::Ready,
            Some(retry_in_ns) => FamilyFrontDisposition::Fenced { retry_in_ns },
        }
    }

    /// Takes out the entries of a family that nothing holds, up to the first that is held.
    /// `holds` are the fence's answers, in order, up to the first that holds; while
    /// accepted checkpoints are not yet admitted nothing is taken out.
    pub fn drain_ready(&mut self, family: &str, unadmitted: u64, holds: &Vec<Option<u128>>) -> (r:
        Drained)
        requires
            old(self).wf(),
        ensures
            final(self).wf(),
            ({
                let before = old(self).entries(family@);
                let n: nat = if unadmitted > 0 {
                    0
                } else {
                    drained_count(before.len(), holds@)
                };
                &&& are_taken(r.ready@, before.take(n as int))
                &&& final(self).entries(family@) == before.skip(n as int)
                &&& r.held == if unadmitted == 0 && n < before.len() && n < holds@.len() {
                    holds@[n as int]
                } else {
                    None
                }
            }),
            final(self).ordinal(family@) == old(self).ordinal(family@),
            final(self).by_family@.dom() == old(self).by_family@.dom(),
            forall|other: Seq<char>|
                other != family@ ==> final(self).entries(other) == old(self).entries(other)
                    && final(self).ordinal(other) == old(self).ordinal(other),
    {
        let ghost before = self.entries(family@);
        let mut ready: Vec<(u64, FamilySequencerEntry)> = Vec::new();
        assert(before.skip(0) =~= before);
        if unadmitted > 0 {
            return Drained { ready, held: None };
        }
        let mut state = match self.by_family.remove(family) {
            Some(state) => state,
            None => {
                assert(drained_count(before.len(), holds@) == 0);
                return Drained { ready, held: None };
            },
        };
        let ghost ordinal = state.next_ordinal;
        let mut n: usize = 0;
        assert(holds@.skip(0) =~= holds@);
        while n < holds.len() && state.entries.len() > 0 && holds[n].is_none()
            invariant
                n <= holds@.len(),
                n <= before.len(),
                state.entries@ == before.skip(n as int),
                state.next_ordinal == ordinal,
                are_taken(ready@, before.take(n as int)),
                free_answers(holds@) == n + free_answers(holds@.skip(n as int)),
            decreases state.entries@.len(),
        {
            assert(holds@.skip(n as int)[0] == holds@[n as int]);
            assert(holds@.skip(n as int).skip(1) =~= holds@.skip(n + 1));
            let ghost left = state.entries@;
            let (order, slot) = state.entries.remove(0);
            assert(left[0] == before[n as int]);
            assert(state.entries@ =~= before.skip(n + 1));
            ready.push((order.ordinal, slot.entry));
            n += 1;
        }
        proof {
            if n < holds@.len() {
                assert(holds@.skip(n as int)[0] == holds@[n as int]);
            }
            assert(n == drained_count(before.len(), holds@));
            let left = before.skip(n as int);
            assert forall|i: int, j: int| 0 <= i < j < left.len() implies comes_first(
                (#[trigger] left[i]).0,
                (#[trigger] left[j]).0,
            ) by {
                assert(left[i] == before[i + n] && left[j] == before[j + n]);
            }
        }
        let held = if n < holds.len() && state.entries.len() > 0 {
            holds[n]
        } else {
            None
        };
        let ghost kept = state;
        self.by_family.insert(family.to_owned(), state);
        assert(self.by_family@[family@] == kept);
        assert(self.by_family@.dom() =~= old(self).by_family@.dom());
        Drained { ready, held }
    }

    /// The families with something to work off, each once.
    pub fn families_with_entries(&self) -> (r: Vec<String>)
        ensures
            forall|family: Seq<char>| #[trigger]
                views(r@).contains(family) <==> self.entries(family).len() > 0,
            views(r@).no_duplicates(),
    {
        let n: usize = self.by_family.len();
        let mut out: Vec<String> = Vec::new();
        let mut i: usize = 0;
        assert(views(out@) =~= Seq::<Seq<char>>::empty());
        while i < n
            invariant
                i <= n,
                n == self.by_family.keys().len(),
                self.by_family.keys().no_duplicates(),
                views(out@).no_duplicates(),
                forall|family: Seq<char>| #[trigger]
                    views(out@).contains(family) <==> exists|j: int|
                        0 <= j < i && #[trigger] self.by_family.keys()[j] == family && self.entries(
                            family,
                        ).len() > 0,
            decreases n - i,
        {
            let ghost was = views(out@);
            let waiting = self.by_family.value_at(i).entries.len() > 0;
            if waiting {
                let key = self.by_family.key_at(i).clone();
                let ghost name = key@;
                out.push(key);
                assert(views(out@) =~= was.push(name));
                assert(!was.contains(name)) by {
                    if was.contains(name) {
                        let j = choose|j: int|
                            0 <= j < i && #[trigger] self.by_family.keys()[j] == name;
                        assert(self.by_family.keys()[i as int] == name);
                    }
                }
                assert(views(out@).no_duplicates()) by {
                    assert forall|a: int, b: int|
                        0 <= a < views(out@).len() && 0 <= b < views(out@).len() && a
                            != b implies views(out@)[a] != views(out@)[b] by {
                        if a == was.len() {
                            assert(was.contains(was[b]));
                        } else if b == was.len() {
                            assert(was.contains(was[a]));
                        }
                    }
                }
                assert forall|family: Seq<char>| #[trigger]
                    views(out@).contains(family) <==> exists|j: int|
                        0 <= j < i + 1 && #[trigger] self.by_family.keys()[j] == family
                            && self.entries(family).len() > 0 by {
                    if views(out@).contains(family) && family != name {
                        let a = views(out@).index_of(family);
                        assert(was[a] == family);
                        assert(was.contains(family));
                    }
                    if was.contains(family) {
                        assert(views(out@)[was.index_of(family)] == family);
                    }
                    assert(views(out@)[was.len() as int] == name);
                    assert(self.by_family.keys()[i as int] == name);
                }
            } else {
                assert(self.by_family@.contains_key(self.by_family.keys()[i as int]));
                assert(self.entries(self.by_family.keys()[i as int]).len() == 0);
            }
            i += 1;
        }
        assert forall|family: Seq<char>| self.entries(family).len() > 0 implies exists|j: int|
            0 <= j < n && #[trigger] self.by_family.keys()[j] == family by {
            assert(self.by_family@.contains_key(family));
            assert(self.by_family.keys().contains(family));
        }
        out
    }

    /// Whether any family has something to work off.
    pub fn has_entries(&self) -> (r: bool)
        ensures
            r == exists|family: Seq<char>| self.entries(family).len() > 0,
    {
        let families = self.families_with_entries();
        let r = families.len() > 0;
        proof {
            if r {
                assert(views(families@)[0] == families@[0]@);
                assert(views(families@).contains(families@[0]@));
            } else {
                assert forall|family: Seq<char>| self.entries(family).len() == 0 by {
                    if self.entries(family).len() > 0 {
                        assert(views(families@).contains(family));
                    }
                }
            }
        }
        r
    }

    /// Drops the families with nothing to work off.
    pub fn drop_idle(&mut self)
        requires
            old(self).wf(),
        ensures
            final(self).wf(),
            final(self).by_family@ == retained(old(self).by_family@, has_entries()),
            forall|family: Seq<char>| #[trigger]
                final(self).entries(family) == old(self).entries(family),
    {
        let n: usize = self.by_family.len();
        let mut keep: Vec<bool> = Vec::new();
        let mut i: usize = 0;
        while i < n
            invariant
                i <= n,
                n == self.by_family.keys().len(),
                keep@.len() == i,
                forall|j: int|
                    0 <= j < i ==> #[trigger] keep@[j] == has_entries()(
                        self.by_family@[self.by_family.keys()[j]],
                    ),
            decreases n - i,
        {
            let state = self.by_family.value_at(i);
            keep.push(state.entries.len() > 0);
            i += 1;
        }
        self.by_family.retain(&keep, Ghost(has_entries()));
        assert forall|family: Seq<char>| #[trigger] self.entries(family) == old(self).entries(
            family,
        ) by {
            if old(self).by_family@.contains_key(family) && !has_entries()(
                old(self).by_family@[family],
            ) {
                assert(old(self).entries(family) =~= Seq::empty());
            }
        }
    }
}

/// What a drain takes out comes before everything that it leaves, and what it
/// takes out is in order.
pub proof fn law_drains_follow_the_sequence(
    entries: Seq<(FamilySequencerOrder, FamilySequencerSlot)>,
    n: nat,
    i: int,
    j: int,
)
    requires
        in_sequence(entries),
        n <= entries.len(),
        0 <= i < n,
    ensures
        i < j < n ==> comes_first(entries.take(n as int)[i].0, entries.take(n as int)[j].0),
        0 <= j < entries.len() - n ==> comes_first(
            entries.take(n as int)[i].0,
            entries.skip(n as int)[j].0,
        ),
{
    let a = entries[i];
    if i < j < n {
        let b = entries[j];
    }
    if 0 <= j < entries.len() - n {
        let b = entries[j + n];
    }
}

/// A drain loses nothing: what it takes out and what it leaves is what was there.
pub proof fn law_drains_lose_nothing(
    entries: Seq<(FamilySequencerOrder, FamilySequencerSlot)>,
    n: nat,
)
    requires
        n <= entries.len(),
    ensures
        entries.take(n as int) + entries.skip(n as int) == entries,
{
    assert(entries.take(n as int) + entries.skip(n as int) =~= entries);
}

/// A later start never overtakes an earlier one: an entry that is added stands
/// behind every entry whose command started before.
pub proof fn law_earlier_starts_stay_ahead(
    entries: Seq<(FamilySequencerOrder, FamilySequencerSlot)>,
    order: FamilySequencerOrder,
    i: int,
)
    requires
        in_sequence(entries),
        0 <= i < entries.len(),
        entries[i].0.started_at_ns < order.started_at_ns,
    ensures
        i < place_of(entries, order),
{
    lemma_place(entries, order);
    if i >= place_of(entries, order) {
        assert(!comes_first(entries[i].0, order));
    }
}

} // verus!
