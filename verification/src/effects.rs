//! The bookkeeping round what commands lead to: what is being done, what
//! failed, what was carried over, and what is reported of it.
use crate::commands::AppliedCommand;
use crate::event_effects::RecentReplayPrerequisite;
use crate::keyed::{retained, KeyMap};
use crate::text::{clone_opt, opt_view};
use vstd::prelude::*;

verus! {

/// How many errors are kept of each family.
pub const MAX_SIDE_EFFECT_ERRORS_PER_FAMILY: usize = 256;

/// How many carried working logs are remembered of each family.
pub const MAX_RECENT_REPLAY_PREREQUISITES_PER_FAMILY: usize = 256;

/// How many passes of each family are being done.
pub struct InflightEffects {
    pub counts: KeyMap<usize>,
}

impl InflightEffects {
    /// Every family that is counted has a pass.
    pub open spec fn wf(self) -> bool {
        forall|family: Seq<char>| #[trigger]
            self.counts@.contains_key(family) ==> self.counts@[family] >= 1
    }

    /// How many passes of a family are being done.
    pub open spec fn count(self, family: Seq<char>) -> nat {
        if self.counts@.contains_key(family) {
            self.counts@[family] as nat
        } else {
            0
        }
    }

    /// The counts once a pass of a family began.
    pub open spec fn begun(self, family: Seq<char>) -> Map<Seq<char>, usize> {
        let count = if self.count(family) < usize::MAX {
            self.count(family) + 1
        } else {
            usize::MAX as nat
        };
        self.counts@.insert(family, count as usize)
    }

    /// The counts once a pass of a family ended.
    pub open spec fn ended(self, family: Seq<char>) -> Map<Seq<char>, usize> {
        if self.count(family) <= 1 {
            self.counts@.remove(family)
        } else {
            self.counts@.insert(family, (self.count(family) - 1) as usize)
        }
    }

    /// Nothing is being done.
    pub fn new() -> (r: InflightEffects)
        ensures
            r.counts@ == Map::<Seq<char>, usize>::empty(),
            r.wf(),
    {
        InflightEffects { counts: KeyMap::new() }
    }

    /// A pass of a family begins.
    pub fn begin_family_effect(&mut self, family: &str)
        ensures
            final(self).counts@ == old(self).begun(family@),
            old(self).wf() ==> final(self).wf(),
    {
        let count: usize = match self.counts.get(family) {
            Some(count) => count.saturating_add(1),
            None => 1,
        };
        self.counts.insert(family.to_owned(), count);
    }

    /// A pass of a family ends.
    pub fn end_family_effect(&mut self, family: &str)
        ensures
            final(self).counts@ == old(self).ended(family@),
            old(self).wf() ==> final(self).wf(),
    {
        let count: usize = match self.counts.get(family) {
            Some(count) => *count,
            None => 0,
        };
        if count <= 1 {
            self.counts.remove(family);
        } else {
            self.counts.insert(family.to_owned(), count - 1);
        }
    }

    /// Whether a pass of any family is being done.
    pub fn has_inflight_family_effects(&self) -> (r: bool)
        ensures
            r == (self.counts@ != Map::<Seq<char>, usize>::empty()),
    {
        !self.counts.is_empty()
    }
}

/// A pass that ends leaves its family as it was before the pass began, as
/// long as the count did not reach its limit.
pub proof fn law_end_undoes_begin(
    before: InflightEffects,
    during: InflightEffects,
    family: Seq<char>,
)
    requires
        before.wf(),
        before.count(family) < usize::MAX,
        during.counts@ == before.begun(family),
    ensures
        during.ended(family) == before.counts@,
{
    assert(during.ended(family) =~= before.counts@);
}

/// The errors of a family with their texts.
pub open spec fn error_views(errors: Seq<(u64, String)>) -> Seq<(u64, Seq<char>)> {
    errors.map_values(|e: (u64, String)| (e.0, e.1@))
}

/// Whether the errors stand in the order of their numbers, each number once.
pub open spec fn errors_in_order(errors: Seq<(u64, Seq<char>)>) -> bool {
    forall|i: int, j: int|
        0 <= i < j < errors.len() ==> (#[trigger] errors[i]).0 < (#[trigger] errors[j]).0
}

/// Where an error with this number stands, or would stand.
pub open spec fn error_place(errors: Seq<(u64, Seq<char>)>, seq: u64) -> nat
    decreases errors.len(),
{
    if errors.len() == 0 {
        0
    } else if errors[0].0 < seq {
        1 + error_place(errors.skip(1), seq)
    } else {
        0
    }
}

/// The errors with one more, or with one replaced.
pub open spec fn with_error(errors: Seq<(u64, Seq<char>)>, seq: u64, text: Seq<char>) -> Seq<
    (u64, Seq<char>),
> {
    let at = error_place(errors, seq);
    if at < errors.len() && errors[at as int].0 == seq {
        errors.update(at as int, (seq, text))
    } else {
        errors.insert(at as int, (seq, text))
    }
}

/// The newest errors, as many as are kept.
pub open spec fn newest<A>(list: Seq<A>, limit: nat) -> Seq<A> {
    if list.len() > limit {
        list.skip(list.len() - limit)
    } else {
        list
    }
}

pub(crate) proof fn lemma_place(errors: Seq<(u64, Seq<char>)>, seq: u64)
    requires
        errors_in_order(errors),
    ensures
        error_place(errors, seq) <= errors.len(),
        forall|i: int| 0 <= i < error_place(errors, seq) ==> (#[trigger] errors[i]).0 < seq,
        forall|i: int|
            error_place(errors, seq) <= i < errors.len() ==> (#[trigger] errors[i]).0 >= seq,
    decreases errors.len(),
{
    if errors.len() > 0 {
        let rest = errors.skip(1);
        assert forall|i: int, j: int| 0 <= i < j < rest.len() implies (#[trigger] rest[i]).0 < (
        #[trigger] rest[j]).0 by {
            assert(rest[i] == errors[i + 1] && rest[j] == errors[j + 1]);
        }
        lemma_place(rest, seq);
        if errors[0].0 < seq {
            assert forall|i: int| 0 <= i < error_place(errors, seq) implies (
            #[trigger] errors[i]).0 < seq by {
                if i > 0 {
                    assert(errors[i] == rest[i - 1]);
                }
            }
            assert forall|i: int| error_place(errors, seq) <= i < errors.len() implies (
            #[trigger] errors[i]).0 >= seq by {
                assert(errors[i] == rest[i - 1]);
            }
        }
    }
}

proof fn lemma_with_error(errors: Seq<(u64, Seq<char>)>, seq: u64, text: Seq<char>)
    requires
        errors_in_order(errors),
    ensures
        errors_in_order(with_error(errors, seq, text)),
{
    lemma_place(errors, seq);
    let at = error_place(errors, seq) as int;
    let more = with_error(errors, seq, text);
    assert forall|i: int, j: int| 0 <= i < j < more.len() implies (#[trigger] more[i]).0 < (
    #[trigger] more[j]).0 by {
        if at < errors.len() && errors[at].0 == seq {
            let a = errors[i];
            let b = errors[j];
            assert(a.0 < b.0);
        } else {
            if i < at {
                let a = errors[i];
                assert(more[i] == a);
            } else if i > at {
                let a = errors[i - 1];
                assert(more[i] == a);
            }
            if j < at {
                let b = errors[j];
                assert(more[j] == b);
            } else if j > at {
                let b = errors[j - 1];
                assert(more[j] == b);
            }
        }
    }
}

fn place_error(errors: &Vec<(u64, String)>, seq: u64) -> (r: usize)
    requires
        errors_in_order(error_views(errors@)),
    ensures
        r == error_place(error_views(errors@), seq),
        r <= errors@.len(),
{
    let ghost all = error_views(errors@);
    let mut i: usize = 0;
    assert(all.skip(0) =~= all);
    while i < errors.len()
        invariant
            i <= errors.len(),
            all == error_views(errors@),
            error_place(all, seq) == i + error_place(all.skip(i as int), seq),
        decreases errors.len() - i,
    {
        assert(all.skip(i as int)[0] == all[i as int]);
        assert(all.skip(i as int).skip(1) =~= all.skip(i + 1));
        if errors[i].0 >= seq {
            return i;
        }
        i += 1;
    }
    i
}

/// What failed, by family.
pub struct SideEffectErrors {
    pub by_family: KeyMap<Vec<(u64, String)>>,
}

impl SideEffectErrors {
    /// The errors of a family.
    pub open spec fn errors(self, family: Seq<char>) -> Seq<(u64, Seq<char>)> {
        if self.by_family@.contains_key(family) {
            error_views(self.by_family@[family]@)
        } else {
            Seq::empty()
        }
    }

    /// The errors of each family stand in order, and no more than are kept.
    pub open spec fn wf(self) -> bool {
        forall|family: Seq<char>| #[trigger]
            self.by_family@.contains_key(family) ==> errors_in_order(self.errors(family))
                && self.errors(family).len() <= MAX_SIDE_EFFECT_ERRORS_PER_FAMILY
    }

    /// Nothing failed.
    pub fn new() -> (r: SideEffectErrors)
        ensures
            r.wf(),
            r.by_family@ == Map::<Seq<char>, Vec<(u64, String)>>::empty(),
    {
        SideEffectErrors { by_family: KeyMap::new() }
    }

    /// Notes an error of a family; the oldest give way.
    pub fn record_side_effect_error(&mut self, family: &str, seq: u64, error: String)
        requires
            old(self).wf(),
        ensures
            final(self).wf(),
            final(self).errors(family@) == newest(
                with_error(old(self).errors(family@), seq, error@),
                MAX_SIDE_EFFECT_ERRORS_PER_FAMILY as nat,
            ),
            final(self).by_family@.contains_key(family@),
            forall|other: Seq<char>|
                other != family@ ==> (final(self).by_family@.contains_key(other)
                    <==> old(self).by_family@.contains_key(other)) && final(self).errors(other)
                    == old(self).errors(other),
    {
        let ghost before = self.errors(family@);
        let taken = self.by_family.remove(family);
        let mut errors = match taken {
            Some(errors) => errors,
            None => Vec::new(),
        };
        assert(error_views(errors@) =~= before);
        let at: usize = place_error(&errors, seq);
        proof {
            lemma_with_error(before, seq, error@);
        }
        let ghost text = error@;
        if at < errors.len() && errors[at].0 == seq {
            assert(before[at as int] == (errors@[at as int].0, errors@[at as int].1@));
            errors.set(at, (seq, error));
            assert(error_views(errors@) =~= with_error(before, seq, text));
        } else {
            assert(at < errors@.len() ==> before[at as int].0 == errors@[at as int].0);
            errors.insert(at, (seq, error));
            assert(error_views(errors@) =~= with_error(before, seq, text));
        }
        let ghost full = error_views(errors@);
        if errors.len() > MAX_SIDE_EFFECT_ERRORS_PER_FAMILY {
            errors.remove(0);
            assert(error_views(errors@) =~= full.skip(1));
            assert forall|i: int, j: int| 0 <= i < j < full.skip(1).len() implies (
            #[trigger] full.skip(1)[i]).0 < (#[trigger] full.skip(1)[j]).0 by {
                assert(full.skip(1)[i] == full[i + 1] && full.skip(1)[j] == full[j + 1]);
            }
        }
        let ghost left = error_views(errors@);
        let ghost kept = errors;
        self.by_family.insert(family.to_owned(), errors);
        assert(self.by_family@[family@] == kept);
        assert forall|other: Seq<char>| #[trigger]
            self.by_family@.contains_key(other) implies errors_in_order(self.errors(other))
            && self.errors(other).len() <= MAX_SIDE_EFFECT_ERRORS_PER_FAMILY by {
            if other != family@ {
                assert(old(self).by_family@.contains_key(other));
                assert(self.errors(other) == old(self).errors(other));
            } else {
                assert(self.errors(other) == left);
            }
        }
    }

    /// The newest error of a family.
    pub fn latest_side_effect_error(&self, family: &str) -> (r: Option<String>)
        ensures
            opt_view(r) == (if self.errors(family@).len() > 0 {
                Some(self.errors(family@).last().1)
            } else {
                None
            }),
    {
        match self.by_family.get(family) {
            Some(errors) => {
                let n: usize = errors.len();
                assert(error_views(errors@).len() == errors@.len());
                if n > 0 {
                    assert(error_views(errors@).last() == (
                        errors@[n - 1].0,
                        errors@[n - 1].1@,
                    ));
                    Some(errors[n - 1].1.clone())
                } else {
                    None
                }
            },
            None => None,
        }
    }

    /// Drops the families of which nothing failed.
    pub fn drop_empty(&mut self)
        ensures
            final(self).by_family@ == retained(old(self).by_family@, has_errors()),
    {
        let n: usize = self.by_family.len();
        let mut keep: Vec<bool> = Vec::new();
        let mut i: usize = 0;
        while i < n
            invariant
                i <= n,
                n == self.by_family.keys().len(),
                keep@.len() == i,
                forall|j: int|
                    0 <= j < i ==> #[trigger] keep@[j] == has_errors()(
                        self.by_family@[self.by_family.keys()[j]],
                    ),
            decreases n - i,
        {
            let errors = self.by_family.value_at(i);
            keep.push(errors.len() > 0);
            i += 1;
        }
        self.by_family.retain(&keep, Ghost(has_errors()));
    }
}

/// The test for a list that holds an error.
pub open spec fn has_errors() -> spec_fn(Vec<(u64, String)>) -> bool {
    |errors: Vec<(u64, String)>| errors@.len() > 0
}

/// The newest error of a family is the one with the greatest number, so an
/// error with a greater number than all before it is the one that is reported.
pub proof fn law_the_newest_error_is_reported(
    errors: Seq<(u64, Seq<char>)>,
    seq: u64,
    text: Seq<char>,
    limit: nat,
)
    requires
        errors_in_order(errors),
        forall|i: int| 0 <= i < errors.len() ==> (#[trigger] errors[i]).0 < seq,
        limit > 0,
    ensures
        newest(with_error(errors, seq, text), limit).len() > 0,
        newest(with_error(errors, seq, text), limit).last() == (seq, text),
{
    lemma_place(errors, seq);
    if error_place(errors, seq) < errors.len() {
        assert(errors[error_place(errors, seq) as int].0 >= seq);
    }
}

/// What was carried over, by family, oldest first.
pub struct ReplayPrerequisites {
    pub by_family: KeyMap<Vec<RecentReplayPrerequisite>>,
}

impl ReplayPrerequisites {
    /// What was carried over in a family.
    pub open spec fn entries(self, family: Seq<char>) -> Seq<RecentReplayPrerequisite> {
        if self.by_family@.contains_key(family) {
            self.by_family@[family]@
        } else {
            Seq::empty()
        }
    }

    /// No family has more than are remembered.
    pub open spec fn wf(self) -> bool {
        forall|family: Seq<char>| #[trigger]
            self.by_family@.contains_key(family) ==> self.by_family@[family]@.len()
                <= MAX_RECENT_REPLAY_PREREQUISITES_PER_FAMILY
    }

    /// Nothing was carried over.
    pub fn new() -> (r: ReplayPrerequisites)
        ensures
            r.wf(),
            r.by_family@ == Map::<Seq<char>, Vec<RecentReplayPrerequisite>>::empty(),
    {
        ReplayPrerequisites { by_family: KeyMap::new() }
    }

    /// Remembers what was carried over; the oldest give way.
    pub fn record_recent_replay_prerequisite(
        &mut self,
        family: &str,
        prerequisite: RecentReplayPrerequisite,
    )
        requires
            old(self).wf(),
        ensures
            final(self).wf(),
            final(self).entries(family@) == newest(
                old(self).entries(family@).push(prerequisite),
                MAX_RECENT_REPLAY_PREREQUISITES_PER_FAMILY as nat,
            ),
            forall|other: Seq<char>|
                other != family@ ==> final(self).entries(other) == old(self).entries(other),
    {
        let taken = self.by_family.remove(family);
        let mut entries = match taken {
            Some(entries) => entries,
            None => Vec::new(),
        };
        assert(entries@ =~= old(self).entries(family@));
        entries.push(prerequisite);
        let ghost full = entries@;
        if entries.len() > MAX_RECENT_REPLAY_PREREQUISITES_PER_FAMILY {
            entries.remove(0);
            assert(entries@ =~= full.skip(1));
        }
        self.by_family.insert(family.to_owned(), entries);
        assert forall|other: Seq<char>| #[trigger]
            self.by_family@.contains_key(other) implies self.by_family@[other]@.len()
            <= MAX_RECENT_REPLAY_PREREQUISITES_PER_FAMILY by {
            if other != family@ {
                assert(old(self).by_family@.contains_key(other));
            }
        }
    }

    /// Drops the families in which nothing was carried over.
    pub fn drop_empty(&mut self)
        ensures
            final(self).by_family@ == retained(old(self).by_family@, has_prerequisites()),
    {
        let n: usize = self.by_family.len();
        let mut keep: Vec<bool> = Vec::new();
        let mut i: usize = 0;
        while i < n
            invariant
                i <= n,
                n == self.by_family.keys().len(),
                keep@.len() == i,
                forall|j: int|
                    0 <= j < i ==> #[trigger] keep@[j] == has_prerequisites()(
                        self.by_family@[self.by_family.keys()[j]],
                    ),
            decreases n - i,
        {
            let entries = self.by_family.value_at(i);
            keep.push(entries.len() > 0);
            i += 1;
        }
        self.by_family.retain(&keep, Ghost(has_prerequisites()));
    }
}

/// The test for a list that holds a carried working log.
pub open spec fn has_prerequisites() -> spec_fn(Vec<RecentReplayPrerequisite>) -> bool {
    |entries: Vec<RecentReplayPrerequisite>| entries@.len() > 0
}

/// What is reported once a command or a checkpoint was handled.
#[derive(Debug)]
pub struct TestCompletionLogEntry {
    pub seq: u64,
    pub family_key: String,
    pub kind: String,
    pub primary_command: Option<String>,
    pub test_sync_session: Option<String>,
    pub exit_code: Option<i32>,
    pub sync_tracked: bool,
    pub status: String,
    pub error: Option<String>,
}

/// How an outcome is reported.
pub open spec fn status_of<T>(result: Result<T, String>) -> Seq<char> {
    if result is Ok {
        "ok"@
    } else {
        "error"@
    }
}

/// The text of what failed.
pub open spec fn error_of<T>(result: Result<T, String>) -> Option<Seq<char>> {
    match result {
        Ok(_) => None,
        Err(e) => Some(e@),
    }
}

/// What is reported of a command.
pub fn command_completion_entry(
    family: &str,
    applied: &AppliedCommand,
    result: &Result<(), String>,
    sync_tracked: bool,
    test_sync_session: Option<String>,
) -> (r: TestCompletionLogEntry)
    ensures
        r.seq == applied.seq,
        r.family_key@ == family@,
        r.kind@ == "command"@,
        r.primary_command == applied.command.primary_command,
        r.test_sync_session == test_sync_session,
        r.exit_code == Some(applied.command.exit_code),
        r.sync_tracked == sync_tracked,
        r.status@ == status_of(*result),
        opt_view(r.error) == error_of(*result),
{
    let (status, error) = match result {
        Ok(_) => ("ok".to_owned(), None),
        Err(e) => ("error".to_owned(), Some(e.clone())),
    };
    TestCompletionLogEntry {
        seq: applied.seq,
        family_key: family.to_owned(),
        kind: "command".to_owned(),
        primary_command: clone_opt(&applied.command.primary_command),
        test_sync_session,
        exit_code: Some(applied.command.exit_code),
        sync_tracked,
        status,
        error,
    }
}

/// What is reported of a checkpoint; one that was held back has no outcome.
pub fn checkpoint_completion_entry(family: &str, result: &Option<Result<u64, String>>) -> (r:
    TestCompletionLogEntry)
    ensures
        r.seq == (match *result {
            Some(Ok(seq)) => seq,
            _ => 0,
        }),
        r.family_key@ == family@,
        r.kind@ == "checkpoint"@,
        opt_view(r.primary_command) == Some("checkpoint"@),
        r.test_sync_session is None,
        r.exit_code is None,
        r.sync_tracked,
        r.status@ == (match *result {
            Some(outcome) => status_of(outcome),
            None => "suppressed"@,
        }),
        opt_view(r.error) == (match *result {
            Some(outcome) => error_of(outcome),
            None => None,
        }),
{
    let mut seq: u64 = 0;
    let mut error = None;
    let status = match result {
        Some(Ok(applied)) => {
            seq = *applied;
            "ok".to_owned()
        },
        Some(Err(e)) => {
            error = Some(e.clone());
            "error".to_owned()
        },
        None => "suppressed".to_owned(),
    };
    TestCompletionLogEntry {
        seq,
        family_key: family.to_owned(),
        kind: "checkpoint".to_owned(),
        primary_command: Some("checkpoint".to_owned()),
        test_sync_session: None,
        exit_code: None,
        sync_tracked: true,
        status,
        error,
    }
}

} // verus!
