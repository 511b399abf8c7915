//! Which families are being drained, and when a family's drain ends.
use crate::ingress::FenceScope;
use crate::keyed::KeyMap;
use crate::sequencer::{FamilyFrontDisposition, FamilySequencers};
use crate::text::views;
use vstd::prelude::*;

verus! {

/// The families that have a drain, each at most one.
pub struct ScheduledDrains {
    pub families: KeyMap<()>,
}

/// What happened to a family's drain.
#[derive(Debug, Clone, Copy, PartialEq, Eq, Structural)]
pub enum DrainEvent {
    /// It just started, or a fence changed, or its time was up.
    Go,
    /// A pass ended. Where an entry is held back, for how long; and what stands in front
    /// of the family's entries now.
    Passed { held: Option<u128>, front: FamilyFrontDisposition },
    /// A pass failed.
    Failed,
    /// The daemon shuts down.
    ShutDown,
}

/// What a family's drain does next.
#[derive(Debug, Clone, Copy, PartialEq, Eq, Structural)]
pub enum DrainAction {
    /// Makes a pass.
    Pass,
    /// Waits until a fence changes, and no longer than this.
    Wait { ns: u128 },
    /// Ends.
    End,
}

/// What a drain does after an event.
pub open spec fn drain_action(event: DrainEvent) -> DrainAction {
    match event {
        DrainEvent::Go => DrainAction::Pass,
        DrainEvent::Passed { held: Some(ns), .. } => DrainAction::Wait { ns },
        DrainEvent::Passed { held: None, front } => match front {
            FamilyFrontDisposition::Idle => DrainAction::End,
            FamilyFrontDisposition::Ready => DrainAction::Pass,
            FamilyFrontDisposition::Fenced { retry_in_ns } => DrainAction::Wait { ns: retry_in_ns },
        },
        DrainEvent::Failed => DrainAction::End,
        DrainEvent::ShutDown => DrainAction::End,
    }
}

impl ScheduledDrains {
    /// No family has a drain.
    pub fn new() -> (r: ScheduledDrains)
        ensures
            r.families@ == Map::<Seq<char>, ()>::empty(),
    {
        ScheduledDrains { families: KeyMap::new() }
    }

    /// Asks for a drain of a family; says whether one has to be started, which it has
    /// unless there is one.
    pub fn schedule_family_drain(&mut self, family: &str) -> (r: bool)
        ensures
            r == !old(self).families@.contains_key(family@),
            final(self).families@ == old(self).families@.insert(family@, ()),
    {
        let known = self.families.contains(family);
        if !known {
            self.families.insert(family.to_owned(), ());
        }
        assert(self.families@ =~= old(self).families@.insert(family@, ()));
        !known
    }

    /// Takes up what happened to a family's drain. Only one that ends gives way to
    /// another.
    pub fn step(&mut self, family: &str, event: DrainEvent) -> (r: DrainAction)
        ensures
            r == drain_action(event),
            final(self).families@ == (if drain_action(event) is End {
                old(self).families@.remove(family@)
            } else {
                old(self).families@
            }),
    {
        let action = match event {
            DrainEvent::Go => DrainAction::Pass,
            DrainEvent::Passed { held, front } => match held {
                Some(ns) => DrainAction::Wait { ns },
                None => match front {
                    FamilyFrontDisposition::Idle => DrainAction::End,
                    FamilyFrontDisposition::Ready => DrainAction::Pass,
                    FamilyFrontDisposition::Fenced { retry_in_ns } => DrainAction::Wait {
                        ns: retry_in_ns,
                    },
                },
            },
            DrainEvent::Failed => DrainAction::End,
            DrainEvent::ShutDown => DrainAction::End,
        };
        if let DrainAction::End = action {
            self.families.remove(family);
        }
        action
    }
}

/// The families to drain once a root that fenced them was cleared.
pub fn drains_after_root_cleared(fenced: Option<FenceScope>, sequencers: &FamilySequencers) -> (r:
    Vec<String>)
    ensures
        match fenced {
            None => r@.len() == 0,
            Some(FenceScope::Family(family)) => views(r@) == seq![family@],
            Some(FenceScope::EveryFamily) => {
                &&& forall|name: Seq<char>| #[trigger]
                    views(r@).contains(name) <==> sequencers.entries(name).len() > 0
                &&& views(r@).no_duplicates()
            },
        },
{
    match fenced {
        None => Vec::new(),
        Some(FenceScope::Family(family)) => {
            let mut one: Vec<String> = Vec::new();
            one.push(family);
            assert(views(one@) =~= seq![family@]);
            one
        },
        Some(FenceScope::EveryFamily) => sequencers.families_with_entries(),
    }
}

/// How the drains of all families ended, together: which of them have to be drained again
/// by themselves, and the first error.
pub struct DrainedAll {
    pub again: Vec<String>,
    pub error: Option<String>,
}

/// The families among the first `n` that are held back.
pub open spec fn held_families(outcomes: Seq<(String, Result<Option<u128>, String>)>) -> Seq<
    Seq<char>,
>
    decreases outcomes.len(),
{
    if outcomes.len() == 0 {
        Seq::empty()
    } else {
        let before = held_families(outcomes.drop_last());
        match outcomes.last().1 {
            Ok(Some(_)) => before.push(outcomes.last().0@),
            _ => before,
        }
    }
}

/// The first error.
pub open spec fn first_error(outcomes: Seq<(String, Result<Option<u128>, String>)>) -> Option<
    Seq<char>,
>
    decreases outcomes.len(),
{
    if outcomes.len() == 0 {
        None
    } else {
        match first_error(outcomes.drop_last()) {
            Some(error) => Some(error),
            None => match outcomes.last().1 {
                Err(error) => Some(error@),
                Ok(_) => None,
            },
        }
    }
}

/// Takes the drains of all families together.
pub fn drained_all(outcomes: &Vec<(String, Result<Option<u128>, String>)>) -> (r: DrainedAll)
    ensures
        views(r.again@) == held_families(outcomes@),
        crate::text::opt_view(r.error) == first_error(outcomes@),
{
    let mut again: Vec<String> = Vec::new();
    let mut error: Option<String> = None;
    let mut i: usize = 0;
    assert(views(again@) =~= held_families(outcomes@.take(0)));
    while i < outcomes.len()
        invariant
            i <= outcomes.len(),
            views(again@) == held_families(outcomes@.take(i as int)),
            crate::text::opt_view(error) == first_error(outcomes@.take(i as int)),
        decreases outcomes.len() - i,
    {
        assert(outcomes@.take(i + 1).drop_last() =~= outcomes@.take(i as int));
        let ghost was = views(again@);
        match &outcomes[i].1 {
            Ok(Some(_)) => {
                again.push(outcomes[i].0.clone());
                assert(views(again@) =~= was.push(outcomes@[i as int].0@));
            },
            Ok(None) => {},
            Err(e) => {
                if error.is_none() {
                    error = Some(e.clone());
                }
            },
        }
        i += 1;
    }
    assert(outcomes@.take(outcomes@.len() as int) =~= outcomes@);
    DrainedAll { again, error }
}

/// A drain that ends after a pass leaves no entry behind, unless accepted checkpoints come
/// first: what stood in front was looked at when it ended.
pub proof fn law_no_entry_is_left_behind(
    sequencers: FamilySequencers,
    family: Seq<char>,
    unadmitted: u64,
    front_held: Option<u128>,
    held: Option<u128>,
)
    requires
        drain_action(
            DrainEvent::Passed { held, front: sequencers.front(family, unadmitted, front_held) },
        ) is End,
    ensures
        sequencers.entries(family).len() == 0 || unadmitted > 0,
{
}

} // verus!
