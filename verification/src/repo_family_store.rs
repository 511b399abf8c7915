//! The registry of the repository families that were seen on this machine, with
//! the point each of their worktrees has been scanned up to.
use crate::keyed::{kept, lemma_kept_twice, KeyMap};
use crate::text::{comes_before, concat, decimal, decimal_of, str_eq, str_less, views};
use vstd::prelude::*;

verus! {

/// A family whose common directory has been missing this long is forgotten.
pub const MISSING_RETENTION_SECS: u64 = 7 * 24 * 60 * 60;

/// A family that was not seen for this long is forgotten.
pub const UNSEEN_RETENTION_SECS: u64 = 90 * 24 * 60 * 60;

/// The most families that are remembered; the least recently seen go first.
pub const MAX_FAMILIES: usize = 1000;

/// The newest version of the tables.
pub const SCHEMA_VERSION: u32 = 2;

/// A family's row. Times are kept as the signed integers that the tables hold.
#[derive(Debug, Clone, Copy, PartialEq, Eq, Structural)]
pub struct FamilyRow {
    pub first_seen_at: i64,
    pub last_seen_at: i64,
    pub missing_since: Option<i64>,
}

/// A scanned worktree's row.
#[derive(Debug)]
pub struct CursorRow {
    pub common_dir: String,
    pub worktree: String,
    pub reflog_offset: i64,
    pub anchor_old: Option<String>,
    pub anchor_new: Option<String>,
    pub anchor_message: Option<String>,
    pub updated_at: i64,
}

/// The last record that a scan settled on.
#[derive(Debug, PartialEq, Eq)]
pub struct ReflogAnchor {
    pub old: String,
    pub new: String,
    pub message: String,
    pub end_offset: u64,
}

/// The point a worktree has been scanned up to.
#[derive(Debug, PartialEq, Eq)]
pub struct UntracedReflogCursor {
    pub offset: u64,
    pub anchor: Option<ReflogAnchor>,
}

/// Why a store cannot be used.
#[derive(Debug, Clone, Copy, PartialEq, Eq, Structural)]
pub enum StoreError {
    /// The tables were written by a newer program.
    NewerSchema { found: u32, supported: u32 },
}

impl StoreError {
    /// The error in words.
    pub fn message(&self) -> (r: String)
        ensures
            r@ == (match *self {
                StoreError::NewerSchema { found, supported } =>
                    "repo-families database schema v"@ + decimal_of(found as nat)
                        + " is newer than this binary (supports up to v"@ + decimal_of(
                        supported as nat,
                    ) + "); upgrade git-ai or delete the database"@,
            }),
    {
        match self {
            StoreError::NewerSchema { found, supported } => {
                let mut text = concat(
                    "repo-families database schema v",
                    decimal(*found as u64).as_str(),
                );
                text.append(" is newer than this binary (supports up to v");
                text.append(decimal(*supported as u64).as_str());
                text.append("); upgrade git-ai or delete the database");
                text
            },
        }
    }
}

/// The families and the scanned worktrees.
pub struct RepoFamilyStore {
    pub families: KeyMap<FamilyRow>,
    pub cursors: KeyMap<CursorRow>,
}

/// An unsigned number as the tables hold it.
pub open spec fn signed(x: u64) -> i64 {
    x as i64
}

/// A number that the tables hold, as it is handed out.
pub open spec fn unsigned(x: i64) -> u64 {
    x as u64
}

/// A number comes back from the tables as it went in.
pub proof fn law_stored_numbers_roundtrip(x: u64)
    ensures
        unsigned(signed(x)) == x,
{
    assert((x as i64) as u64 == x) by (bit_vector);
}

fn to_signed(x: u64) -> (r: i64)
    ensures
        r == signed(x),
{
    #[verifier::truncate]
    (x as i64)
}

fn to_unsigned(x: i64) -> (r: u64)
    ensures
        r == unsigned(x),
{
    #[verifier::truncate]
    (x as u64)
}

/// The rows with which a family is first remembered, and seen again.
pub open spec fn seen(old: Map<Seq<char>, FamilyRow>, common_dir: Seq<char>, now: u64) -> Map<
    Seq<char>,
    FamilyRow,
> {
    let first = if old.contains_key(common_dir) {
        old[common_dir].first_seen_at
    } else {
        signed(now)
    };
    old.insert(
        common_dir,
        FamilyRow { first_seen_at: first, last_seen_at: signed(now), missing_since: None },
    )
}

/// The cursor that a row stands for. It has an anchor only when the row has every part of one.
pub open spec fn cursor_of(row: CursorRow) -> UntracedReflogCursor {
    UntracedReflogCursor {
        offset: unsigned(row.reflog_offset),
        anchor: match (row.anchor_old, row.anchor_new, row.anchor_message) {
            (Some(old), Some(new), Some(message)) => Some(
                ReflogAnchor { old, new, message, end_offset: unsigned(row.reflog_offset) },
            ),
            _ => None,
        },
    }
}

/// Whether `row` holds this cursor of this worktree.
pub open spec fn row_holds(
    row: CursorRow,
    common_dir: Seq<char>,
    worktree: Seq<char>,
    cursor: UntracedReflogCursor,
    now: u64,
) -> bool {
    &&& row.common_dir@ == common_dir
    &&& row.worktree@ == worktree
    &&& row.reflog_offset == signed(cursor.offset)
    &&& row.updated_at == signed(now)
    &&& match cursor.anchor {
        Some(anchor) => row.anchor_old == Some(anchor.old) && row.anchor_new == Some(anchor.new)
            && row.anchor_message == Some(anchor.message),
        None => row.anchor_old is None && row.anchor_new is None && row.anchor_message is None,
    }
}

/// What is saved is what is read back. (An anchor always ends where its cursor stands.)
pub proof fn law_cursor_roundtrips(
    row: CursorRow,
    common_dir: Seq<char>,
    worktree: Seq<char>,
    cursor: UntracedReflogCursor,
    now: u64,
)
    requires
        row_holds(row, common_dir, worktree, cursor, now),
        cursor.anchor is Some ==> cursor.anchor->0.end_offset == cursor.offset,
    ensures
        cursor_of(row) == cursor,
{
    law_stored_numbers_roundtrip(cursor.offset);
}

/// The cursors whose family is remembered.
pub open spec fn cursors_of(
    cursors: Map<Seq<char>, CursorRow>,
    families: Map<Seq<char>, FamilyRow>,
) -> Map<Seq<char>, CursorRow> {
    Map::new(
        |k: Seq<char>| cursors.contains_key(k) && families.contains_key(cursors[k].common_dir@),
        |k: Seq<char>| cursors[k],
    )
}

/// The cursors of families other than the listed ones.
pub open spec fn cursors_outside(
    cursors: Map<Seq<char>, CursorRow>,
    listed: Seq<Seq<char>>,
) -> Map<Seq<char>, CursorRow> {
    Map::new(
        |k: Seq<char>| cursors.contains_key(k) && !listed.contains(cursors[k].common_dir@),
        |k: Seq<char>| cursors[k],
    )
}

/// Whether a family has been missing, or unseen, for too long.
pub open spec fn expired(row: FamilyRow, now: u64) -> bool {
    let missing_cutoff = signed(
        (if now >= MISSING_RETENTION_SECS {
            now - MISSING_RETENTION_SECS
        } else {
            0
        }) as u64,
    );
    let unseen_cutoff = signed(
        (if now >= UNSEEN_RETENTION_SECS {
            now - UNSEEN_RETENTION_SECS
        } else {
            0
        }) as u64,
    );
    ||| row.missing_since is Some && row.missing_since->0 <= missing_cutoff
    ||| row.last_seen_at <= unseen_cutoff
}

/// The families that have not expired.
pub open spec fn unexpired(families: Map<Seq<char>, FamilyRow>, now: u64) -> Map<
    Seq<char>,
    FamilyRow,
> {
    Map::new(
        |k: Seq<char>| families.contains_key(k) && !expired(families[k], now),
        |k: Seq<char>| families[k],
    )
}

/// Whether family `a` outlasts family `b` where room is short: it was seen
/// later, or at the same time and comes first by name.
pub open spec fn outlasts(families: Map<Seq<char>, FamilyRow>, a: Seq<char>, b: Seq<char>) -> bool {
    ||| families[a].last_seen_at > families[b].last_seen_at
    ||| families[a].last_seen_at == families[b].last_seen_at && str_less(a, b)
}

/// Whether `kept` holds the `MAX_FAMILIES` families of `from` that outlast all others.
pub open spec fn most_recent(
    from: Map<Seq<char>, FamilyRow>,
    kept: Map<Seq<char>, FamilyRow>,
) -> bool {
    &&& kept.submap_of(from)
    &&& kept.dom().len() == (if from.dom().len() <= MAX_FAMILIES {
        from.dom().len()
    } else {
        MAX_FAMILIES as nat
    })
    &&& forall|a: Seq<char>, b: Seq<char>|
        #![trigger outlasts(from, a, b)]
        kept.contains_key(a) && from.contains_key(b) && !kept.contains_key(b) ==> outlasts(
            from,
            a,
            b,
        )
}

/// Of two families exactly one outlasts the other, so there is one way to keep the most recent.
pub proof fn law_outlasting_is_total(
    families: Map<Seq<char>, FamilyRow>,
    a: Seq<char>,
    b: Seq<char>,
)
    requires
        a != b,
    ensures
        outlasts(families, a, b) != outlasts(families, b, a),
{
    crate::text::lemma_str_less_total(a, b);
}

proof fn lemma_outlasts_transitive(
    families: Map<Seq<char>, FamilyRow>,
    a: Seq<char>,
    b: Seq<char>,
    c: Seq<char>,
)
    requires
        outlasts(families, a, b),
        outlasts(families, b, c),
    ensures
        outlasts(families, a, c),
{
    if families[a].last_seen_at == families[b].last_seen_at && families[b].last_seen_at
        == families[c].last_seen_at {
        crate::text::lemma_str_less_transitive(a, b, c);
    }
}

/// The families in the order in which they were first remembered, once one was seen.
pub open spec fn came(families: KeyMap<FamilyRow>, common_dir: Seq<char>) -> Seq<Seq<char>> {
    if families@.contains_key(common_dir) {
        families.keys()
    } else {
        families.keys().push(common_dir)
    }
}

/// Whether one family is listed before another: the one that was seen later and, of two
/// that were last seen at one time, the one that was remembered first.
pub open spec fn listed_before(
    families: KeyMap<FamilyRow>,
    a: Seq<char>,
    b: Seq<char>,
) -> bool {
    families@[a].last_seen_at > families@[b].last_seen_at || families@[a].last_seen_at
        == families@[b].last_seen_at && families.keys().index_of(a) < families.keys().index_of(b)
}

/// Which migrations a store with this schema version still needs: those from
/// the returned number up to [`SCHEMA_VERSION`]. A store without the version
/// table has version `None`.
pub fn pending_migrations(version: Option<u32>) -> (r: Result<u32, StoreError>)
    ensures
        version is Some && version->0 > SCHEMA_VERSION ==> r == Err::<u32, StoreError>(
            (StoreError::NewerSchema { found: version->0, supported: SCHEMA_VERSION }),
        ),
        !(version is Some && version->0 > SCHEMA_VERSION) ==> r == Ok::<u32, StoreError>(
            (match version {
                Some(v) => (v + 1) as u32,
                None => 1,
            }),
        ),
{
    let current: u32 = match version {
        Some(v) => v,
        None => 0,
    };
    if current > SCHEMA_VERSION {
        return Err(StoreError::NewerSchema { found: current, supported: SCHEMA_VERSION });
    }
    Ok(current + 1)
}

impl RepoFamilyStore {
    /// A store without rows.
    pub fn new() -> (r: RepoFamilyStore)
        ensures
            r.families@ == Map::<Seq<char>, FamilyRow>::empty(),
            r.families.keys() == Seq::<Seq<char>>::empty(),
            r.cursors@ == Map::<Seq<char>, CursorRow>::empty(),
    {
        RepoFamilyStore { families: KeyMap::new(), cursors: KeyMap::new() }
    }

    /// Remembers that `common_dir` exists right now.
    pub fn record_family_seen(&mut self, common_dir: &str, now_secs: u64)
        ensures
            final(self).families@ == seen(old(self).families@, common_dir@, now_secs),
            final(self).families.keys() == came(old(self).families, common_dir@),
            final(self).cursors == old(self).cursors,
    {
        let now: i64 = to_signed(now_secs);
        let first: i64 = match self.families.get(common_dir) {
            Some(row) => row.first_seen_at,
            None => now,
        };
        self.families.insert(
            common_dir.to_owned(),
            FamilyRow { first_seen_at: first, last_seen_at: now, missing_since: None },
        );
    }

    /// Refreshes a family that is already remembered; never remembers a new one.
    pub fn refresh_family_seen(&mut self, common_dir: &str, now_secs: u64)
        ensures
            old(self).families@.contains_key(common_dir@) ==> final(self).families@ == seen(
                old(self).families@,
                common_dir@,
                now_secs,
            ),
            !old(self).families@.contains_key(common_dir@) ==> final(self).families@ == old(
                self,
            ).families@,
            final(self).families@.dom() == old(self).families@.dom(),
            final(self).families.keys() == old(self).families.keys(),
            final(self).cursors == old(self).cursors,
    {
        if self.families.contains(common_dir) {
            self.record_family_seen(common_dir, now_secs);
            assert(self.families@.dom() =~= old(self).families@.dom());
        }
    }

    /// Records that `common_dir` is gone; a family that is already marked keeps its mark.
    pub fn record_family_missing(&mut self, common_dir: &str, now_secs: u64)
        ensures
            old(self).families@.contains_key(common_dir@) ==> final(self).families@ == old(
                self,
            ).families@.insert(
                common_dir@,
                FamilyRow {
                    missing_since: (match old(self).families@[common_dir@].missing_since {
                        Some(since) => Some(since),
                        None => Some(signed(now_secs)),
                    }),
                    ..old(self).families@[common_dir@]
                },
            ),
            !old(self).families@.contains_key(common_dir@) ==> final(self).families@ == old(
                self,
            ).families@,
            final(self).families.keys() == old(self).families.keys(),
            final(self).cursors == old(self).cursors,
    {
        let row: Option<FamilyRow> = match self.families.get(common_dir) {
            Some(row) => Some(*row),
            None => None,
        };
        if let Some(row) = row {
            let since: i64 = match row.missing_since {
                Some(since) => since,
                None => to_signed(now_secs),
            };
            self.families.insert(
                common_dir.to_owned(),
                FamilyRow {
                    first_seen_at: row.first_seen_at,
                    last_seen_at: row.last_seen_at,
                    missing_since: Some(since),
                },
            );
        }
    }

    /// Every remembered family, most recently seen first and, of those last seen at one
    /// time, the one that was remembered first; without `include_missing` those last seen
    /// missing are left out.
    pub fn known_families(&self, include_missing: bool) -> (r: Vec<String>)
        ensures
            views(r@).no_duplicates(),
            forall|k: Seq<char>| #[trigger]
                views(r@).contains(k) <==> (self.families@.contains_key(k) && (include_missing
                    || self.families@[k].missing_since is None)),
            forall|i: int, j: int|
                0 <= i < j < r@.len() ==> listed_before(
                    self.families,
                    (#[trigger] r@[i])@,
                    (#[trigger] r@[j])@,
                ),
    {
        let ghost rows = self.families@;
        let mut out: Vec<String> = Vec::new();
        let n: usize = self.families.len();
        let ghost keys = self.families.keys();
        let mut i: usize = 0;
        while i < n
            invariant
                i <= n,
                n == keys.len(),
                keys == self.families.keys(),
                keys.no_duplicates(),
                rows == self.families@,
                forall|k: Seq<char>| #[trigger] rows.contains_key(k) <==> keys.contains(k),
                views(out@).no_duplicates(),
                forall|k: Seq<char>| #[trigger]
                    views(out@).contains(k) <==> (keys.take(i as int).contains(k) && (
                    include_missing || rows[k].missing_since is None)),
                forall|a: int, b: int|
                    0 <= a < b < out@.len() ==> listed_before(
                        self.families,
                        (#[trigger] out@[a])@,
                        (#[trigger] out@[b])@,
                    ),
            decreases n - i,
        {
            let key = self.families.key_at(i);
            let row = *self.families.value_at(i);
            let ghost before = out@;
            proof {
                assert forall|k: Seq<char>| #[trigger]
                    keys.take(i + 1).contains(k) == (keys.take(i as int).contains(k) || k
                        == key@) by {
                    if keys.take(i + 1).contains(k) {
                        let j = keys.take(i + 1).index_of(k);
                        if j < i {
                            assert(keys.take(i as int)[j] == k);
                        }
                    }
                    if keys.take(i as int).contains(k) {
                        assert(keys.take(i + 1)[keys.take(i as int).index_of(k)] == k);
                    }
                    assert(keys.take(i + 1)[i as int] == key@);
                }
                if views(before).contains(key@) {
                    let j = keys.take(i as int).index_of(key@);
                    assert(keys[j] == keys[i as int]);
                }
            }
            if include_missing || row.missing_since.is_none() {
                let mut at: usize = 0;
                assert forall|j: int| 0 <= j < before.len() implies rows.contains_key(
                    (#[trigger] before[j])@,
                ) && keys.index_of(before[j]@) < i by {
                    let k = before[j]@;
                    assert(views(before)[j] == k);
                    assert(views(before).contains(k));
                    let at = keys.take(i as int).index_of(k);
                    assert(keys[at] == k);
                    assert(keys[keys.index_of(k)] == k);
                }
                assert(keys.index_of(key@) == i) by {
                    assert(keys[i as int] == key@);
                    assert(keys.contains(key@));
                }
                while at < out.len() && self.seen_at(out[at].as_str()) >= row.last_seen_at
                    invariant
                        at <= out.len(),
                        out@ == before,
                        rows == self.families@,
                        forall|j: int| 0 <= j < before.len() ==> rows.contains_key(
                            (#[trigger] before[j])@,
                        ),
                        forall|j: int|
                            0 <= j < at ==> rows[(#[trigger] before[j])@].last_seen_at
                                >= row.last_seen_at,
                    decreases out.len() - at,
                {
                    at += 1;
                }
                out.insert(at, key.clone());
                proof {
                    lemma_inserted(before, at as int, out@[at as int]);
                    assert forall|j: int| at <= j < before.len() implies rows[(
                    #[trigger] before[j])@].last_seen_at < row.last_seen_at by {
                        if j > at {
                            assert(listed_before(self.families, before[at as int]@, before[j]@));
                        }
                    }
                    assert forall|a: int, b: int| 0 <= a < b < out@.len() implies listed_before(
                        self.families,
                        (#[trigger] out@[a])@,
                        (#[trigger] out@[b])@,
                    ) by {
                        if a != at && b != at {
                            let x = if a < at { a } else { a - 1 };
                            let y = if b < at { b } else { b - 1 };
                            assert(out@[a] == before[x] && out@[b] == before[y]);
                        } else if a == at {
                            assert(out@[b] == before[b - 1]);
                        } else {
                            assert(out@[a] == before[a]);
                        }
                    }
                }
            }
            i += 1;
        }
        assert(keys.take(n as int) =~= keys);
        out
    }

    fn seen_at(&self, family: &str) -> (r: i64)
        requires
            self.families@.contains_key(family@),
        ensures
            r == self.families@[family@].last_seen_at,
    {
        match self.families.get(family) {
            Some(row) => row.last_seen_at,
            None => 0,
        }
    }

    /// How many families are remembered.
    pub fn family_count(&self) -> (r: usize)
        ensures
            r == self.families@.dom().len(),
    {
        self.families.len()
    }

    /// The cursor of the worktree with this git directory.
    pub fn cursor(&self, git_dir: &str) -> (r: Option<UntracedReflogCursor>)
        ensures
            r == (if self.cursors@.contains_key(git_dir@) {
                Some(cursor_of(self.cursors@[git_dir@]))
            } else {
                None
            }),
    {
        match self.cursors.get(git_dir) {
            None => None,
            Some(row) => {
                let offset: u64 = to_unsigned(row.reflog_offset);
                let anchor = match (&row.anchor_old, &row.anchor_new, &row.anchor_message) {
                    (Some(old), Some(new), Some(message)) => Some(
                        ReflogAnchor {
                            old: old.clone(),
                            new: new.clone(),
                            message: message.clone(),
                            end_offset: offset,
                        },
                    ),
                    _ => None,
                };
                Some(UntracedReflogCursor { offset, anchor })
            },
        }
    }

    /// Saves the cursor of a worktree in place of an earlier one.
    pub fn save_cursor(
        &mut self,
        common_dir: &str,
        git_dir: &str,
        worktree: &str,
        cursor: &UntracedReflogCursor,
        now_secs: u64,
    )
        ensures
            final(self).families == old(self).families,
            final(self).cursors@.contains_key(git_dir@),
            row_holds(
                final(self).cursors@[git_dir@],
                common_dir@,
                worktree@,
                *cursor,
                now_secs,
            ),
            final(self).cursors@ == old(self).cursors@.insert(
                git_dir@,
                final(self).cursors@[git_dir@],
            ),
    {
        let (anchor_old, anchor_new, anchor_message) = match &cursor.anchor {
            Some(anchor) => (
                Some(anchor.old.clone()),
                Some(anchor.new.clone()),
                Some(anchor.message.clone()),
            ),
            None => (None, None, None),
        };
        self.cursors.insert(
            git_dir.to_owned(),
            CursorRow {
                common_dir: common_dir.to_owned(),
                worktree: worktree.to_owned(),
                reflog_offset: to_signed(cursor.offset),
                anchor_old,
                anchor_new,
                anchor_message,
                updated_at: to_signed(now_secs),
            },
        );
    }

    /// What a completed pass leaves behind: the family is seen now, and the
    /// worktree's cursor is settled. A family that is remembered this way always
    /// has a cursor.
    pub fn record_pass_completed(
        &mut self,
        common_dir: &str,
        git_dir: &str,
        worktree: &str,
        cursor: &UntracedReflogCursor,
        now_secs: u64,
    )
        ensures
            final(self).families@ == seen(old(self).families@, common_dir@, now_secs),
            final(self).families.keys() == came(old(self).families, common_dir@),
            final(self).cursors@.contains_key(git_dir@),
            row_holds(
                final(self).cursors@[git_dir@],
                common_dir@,
                worktree@,
                *cursor,
                now_secs,
            ),
            final(self).cursors@ == old(self).cursors@.insert(
                git_dir@,
                final(self).cursors@[git_dir@],
            ),
    {
        self.record_family_seen(common_dir, now_secs);
        self.save_cursor(common_dir, git_dir, worktree, cursor, now_secs);
    }

    /// The worktrees that a family has been scanned in, as `(git_dir, worktree)`
    /// pairs in the order of their git directories.
    #[verifier::spinoff_prover]
    #[verifier::rlimit(40)]
    pub fn known_worktrees(&self, common_dir: &str) -> (r: Vec<(String, String)>)
        ensures
            forall|i: int, j: int|
                0 <= i < j < r@.len() ==> str_less((#[trigger] r@[i]).0@, (#[trigger] r@[j]).0@),
            forall|i: int|
                0 <= i < r@.len() ==> self.cursors@.contains_key((#[trigger] r@[i]).0@)
                    && self.cursors@[r@[i].0@].common_dir@ == common_dir@
                    && self.cursors@[r@[i].0@].worktree@ == r@[i].1@,
            forall|k: Seq<char>| #[trigger]
                self.cursors@.contains_key(k) && self.cursors@[k].common_dir@ == common_dir@
                    ==> exists|i: int| 0 <= i < r@.len() && (#[trigger] r@[i]).0@ == k,
    {
        let ghost rows = self.cursors@;
        let n: usize = self.cursors.len();
        let ghost keys = self.cursors.keys();
        let mut out: Vec<(String, String)> = Vec::new();
        let mut i: usize = 0;
        while i < n
            invariant
                i <= n,
                n == keys.len(),
                keys == self.cursors.keys(),
                keys.no_duplicates(),
                rows == self.cursors@,
                forall|k: Seq<char>| #[trigger] rows.contains_key(k) <==> keys.contains(k),
                forall|a: int, b: int|
                    0 <= a < b < out@.len() ==> str_less(
                        (#[trigger] out@[a]).0@,
                        (#[trigger] out@[b]).0@,
                    ),
                forall|a: int|
                    0 <= a < out@.len() ==> keys.take(i as int).contains((#[trigger] out@[a]).0@)
                        && rows[out@[a].0@].common_dir@ == common_dir@
                        && rows[out@[a].0@].worktree@ == out@[a].1@,
                forall|c: int|
                    0 <= c < i && rows[#[trigger] keys[c]].common_dir@ == common_dir@
                        ==> exists|a: int| 0 <= a < out@.len() && (#[trigger] out@[a]).0@ == keys[c],
            decreases n - i,
        {
            let key = self.cursors.key_at(i);
            let row = self.cursors.value_at(i);
            let ghost before = out@;
            proof {
                assert forall|k: Seq<char>|
                    keys.take(i as int).contains(k) implies #[trigger] keys.take(i + 1).contains(
                    k,
                ) by {
                    assert(keys.take(i + 1)[keys.take(i as int).index_of(k)] == k);
                }
                assert(keys.take(i + 1)[i as int] == key@);
            }
            if str_eq(row.common_dir.as_str(), common_dir) {
                let mut at: usize = 0;
                while at < out.len() && comes_before(out[at].0.as_str(), key.as_str())
                    invariant
                        at <= out.len(),
                        out@ == before,
                        forall|j: int|
                            0 <= j < at ==> str_less((#[trigger] before[j]).0@, key@),
                    decreases out.len() - at,
                {
                    at += 1;
                }
                proof {
                    assert forall|j: int| at <= j < before.len() implies str_less(
                        key@,
                        (#[trigger] before[j]).0@,
                    ) by {
                        let k = before[j].0@;
                        assert(keys.take(i as int).contains(k));
                        assert(keys[keys.take(i as int).index_of(k)] == k);
                        let first = before[at as int].0@;
                        assert(keys.take(i as int).contains(first));
                        assert(keys[keys.take(i as int).index_of(first)] == first);
                        crate::text::lemma_str_less_total(first, key@);
                        if at < j {
                            crate::text::lemma_str_less_transitive(key@, first, k);
                        }
                    }
                }
                out.insert(at, (key.clone(), row.worktree.clone()));
                proof {
                    let after = out@;
                    assert forall|j: int| 0 <= j < before.len() implies exists|a: int|
                        0 <= a < after.len() && (#[trigger] after[a]).0@ == (
                        #[trigger] before[j]).0@ by {
                        let a = if j < at { j } else { j + 1 };
                        assert(after[a] == before[j]);
                    }
                    assert(after[at as int].0@ == keys[i as int]);
                    assert forall|c: int|
                        0 <= c < i + 1 && rows[#[trigger] keys[c]].common_dir@
                            == common_dir@ implies exists|a: int|
                        0 <= a < after.len() && (#[trigger] after[a]).0@ == keys[c] by {
                        if c < i {
                            let j = choose|j: int|
                                0 <= j < before.len() && (#[trigger] before[j]).0@ == keys[c];
                            let a = if j < at { j } else { j + 1 };
                            assert(after[a] == before[j]);
                        }
                    }
                }
            }
            i += 1;
        }
        assert(keys.take(n as int) =~= keys);
        assert forall|k: Seq<char>| #[trigger]
            self.cursors@.contains_key(k) && self.cursors@[k].common_dir@
                == common_dir@ implies exists|i: int|
            0 <= i < out@.len() && (#[trigger] out@[i]).0@ == k by {
            let c = keys.index_of(k);
            assert(keys[c] == k);
        }
        out
    }

    fn cursors_in(&self, family: &str) -> (r: Vec<String>)
        ensures
            forall|k: Seq<char>| #[trigger]
                views(r@).contains(k) <==> (self.cursors@.contains_key(k)
                    && self.cursors@[k].common_dir@ == family@),
    {
        let n: usize = self.cursors.len();
        let ghost keys = self.cursors.keys();
        let ghost rows = self.cursors@;
        let mut out: Vec<String> = Vec::new();
        let mut i: usize = 0;
        while i < n
            invariant
                i <= n,
                n == keys.len(),
                keys == self.cursors.keys(),
                rows == self.cursors@,
                forall|k: Seq<char>| #[trigger] rows.contains_key(k) <==> keys.contains(k),
                forall|k: Seq<char>| #[trigger]
                    views(out@).contains(k) <==> (keys.take(i as int).contains(k)
                        && rows[k].common_dir@ == family@),
            decreases n - i,
        {
            let key = self.cursors.key_at(i);
            let row = self.cursors.value_at(i);
            let ghost before = views(out@);
            proof {
                lemma_take_contains(keys, i as int);
            }
            if str_eq(row.common_dir.as_str(), family) {
                out.push(key.clone());
                proof {
                    assert(views(out@) =~= before.push(key@));
                    lemma_push_contains(before, key@);
                }
            }
            i += 1;
        }
        assert(keys.take(n as int) =~= keys);
        out
    }

    /// Forgets the given families and their cursors; returns how many families were remembered.
    pub fn forget_families(&mut self, common_dirs: &Vec<String>) -> (r: usize)
        ensures
            final(self).families@ == old(self).families@.remove_keys(views(common_dirs@).to_set()),
            final(self).families.keys() == kept(
                old(self).families.keys(),
                final(self).families@.dom(),
            ),
            final(self).cursors@ == cursors_outside(old(self).cursors@, views(common_dirs@)),
            r == old(self).families@.dom().len() - final(self).families@.dom().len(),
    {
        let ghost all = views(common_dirs@);
        let before: usize = self.families.len();
        let ghost families = self.families@;
        let mut i: usize = 0;
        assert(self.cursors@ =~= cursors_outside(old(self).cursors@, all.take(0)));
        while i < common_dirs.len()
            invariant
                i <= common_dirs.len(),
                all == views(common_dirs@),
                self.families == old(self).families,
                self.cursors@ == cursors_outside(old(self).cursors@, all.take(i as int)),
            decreases common_dirs.len() - i,
        {
            let ghost rows = self.cursors@;
            let gone = self.cursors_in(common_dirs[i].as_str());
            self.cursors.remove_all(&gone);
            proof {
                lemma_take_contains(all, i as int);
                assert(self.cursors@ =~= cursors_outside(old(self).cursors@, all.take(i + 1)));
            }
            i += 1;
        }
        assert(all.take(all.len() as int) =~= all);
        self.families.remove_all(common_dirs);
        let after: usize = self.families.len();
        proof {
            assert(self.families@.dom().subset_of(families.dom()));
            vstd::set_lib::lemma_len_subset(self.families@.dom(), families.dom());
        }
        before - after
    }

    fn expired_families(&self, now_secs: u64) -> (r: Vec<String>)
        ensures
            forall|k: Seq<char>| #[trigger]
                views(r@).contains(k) <==> (self.families@.contains_key(k) && expired(
                    self.families@[k],
                    now_secs,
                )),
    {
        let missing_cutoff: i64 = to_signed(now_secs.saturating_sub(MISSING_RETENTION_SECS));
        let unseen_cutoff: i64 = to_signed(now_secs.saturating_sub(UNSEEN_RETENTION_SECS));
        let n: usize = self.families.len();
        let ghost keys = self.families.keys();
        let ghost rows = self.families@;
        let mut out: Vec<String> = Vec::new();
        let mut i: usize = 0;
        while i < n
            invariant
                i <= n,
                n == keys.len(),
                keys == self.families.keys(),
                rows == self.families@,
                forall|k: Seq<char>| #[trigger] rows.contains_key(k) <==> keys.contains(k),
                missing_cutoff == signed(
                    (if now_secs >= MISSING_RETENTION_SECS {
                        now_secs - MISSING_RETENTION_SECS
                    } else {
                        0
                    }) as u64,
                ),
                unseen_cutoff == signed(
                    (if now_secs >= UNSEEN_RETENTION_SECS {
                        now_secs - UNSEEN_RETENTION_SECS
                    } else {
                        0
                    }) as u64,
                ),
                forall|k: Seq<char>| #[trigger]
                    views(out@).contains(k) <==> (keys.take(i as int).contains(k) && expired(
                        rows[k],
                        now_secs,
                    )),
            decreases n - i,
        {
            let key = self.families.key_at(i);
            let row = *self.families.value_at(i);
            let ghost before = views(out@);
            proof {
                lemma_take_contains(keys, i as int);
            }
            let missing_too_long = match row.missing_since {
                Some(since) => since <= missing_cutoff,
                None => false,
            };
            if missing_too_long || row.last_seen_at <= unseen_cutoff {
                out.push(key.clone());
                proof {
                    assert(views(out@) =~= before.push(key@));
                    lemma_push_contains(before, key@);
                }
            }
            i += 1;
        }
        assert(keys.take(n as int) =~= keys);
        out
    }

    fn least_recent(&self) -> (r: String)
        requires
            self.families@.dom().len() > 0,
        ensures
            self.families@.contains_key(r@),
            forall|k: Seq<char>|
                #![trigger outlasts(self.families@, k, r@)]
                self.families@.contains_key(k) && k != r@ ==> outlasts(self.families@, k, r@),
    {
        let n: usize = self.families.len();
        let ghost keys = self.families.keys();
        let ghost rows = self.families@;
        let mut last: usize = 0;
        let mut i: usize = 1;
        while i < n
            invariant
                1 <= i <= n,
                n == keys.len(),
                last < i,
                keys == self.families.keys(),
                keys.no_duplicates(),
                rows == self.families@,
                forall|j: int|
                    #![trigger keys[j]]
                    0 <= j < i && j != last ==> outlasts(rows, keys[j], keys[last as int]),
            decreases n - i,
        {
            let a = *self.families.value_at(i);
            let b = *self.families.value_at(last);
            let newer_goes = a.last_seen_at < b.last_seen_at || (a.last_seen_at == b.last_seen_at
                && comes_before(
                self.families.key_at(last).as_str(),
                self.families.key_at(i).as_str(),
            ));
            proof {
                assert(keys[i as int] != keys[last as int]);
                law_outlasting_is_total(rows, keys[i as int], keys[last as int]);
                if newer_goes {
                    assert forall|j: int| #![trigger keys[j]]
                        0 <= j < i + 1 && j != i implies outlasts(
                        rows,
                        keys[j],
                        keys[i as int],
                    ) by {
                        if j != last {
                            lemma_outlasts_transitive(
                                rows,
                                keys[j],
                                keys[last as int],
                                keys[i as int],
                            );
                        }
                    }
                }
            }
            if newer_goes {
                last = i;
            }
            i += 1;
        }
        let r = self.families.key_at(last).clone();
        assert forall|k: Seq<char>| #![trigger outlasts(rows, k, r@)]
            rows.contains_key(k) && k != r@ implies outlasts(rows, k, r@) by {
            let j = keys.index_of(k);
            assert(keys[j] == k);
        }
        r
    }

    /// Forgets families that were missing or unseen for too long, then the least
    /// recently seen beyond [`MAX_FAMILIES`], and every cursor without a family.
    /// Returns how many families were forgotten.
    pub fn prune(&mut self, now_secs: u64) -> (r: usize)
        ensures
            most_recent(unexpired(old(self).families@, now_secs), final(self).families@),
            final(self).families.keys() == kept(
                old(self).families.keys(),
                final(self).families@.dom(),
            ),
            final(self).cursors@ == cursors_of(old(self).cursors@, final(self).families@),
            final(self).families@.dom().len() <= MAX_FAMILIES,
            r == old(self).families@.dom().len() - final(self).families@.dom().len(),
    {
        let before: usize = self.families.len();
        let ghost all = self.families@;
        let gone = self.expired_families(now_secs);
        self.families.remove_all(&gone);
        let ghost fresh = unexpired(old(self).families@, now_secs);
        assert(self.families@ =~= fresh);
        let mut count: usize = self.families.len();
        proof {
            vstd::set_lib::lemma_len_subset(fresh.dom(), all.dom());
        }
        while count > MAX_FAMILIES
            invariant
                count == self.families@.dom().len(),
                self.families@.dom().finite(),
                self.families@.submap_of(fresh),
                self.families.keys() == kept(old(self).families.keys(), self.families@.dom()),
                count <= fresh.dom().len(),
                fresh.dom().len() <= MAX_FAMILIES ==> count == fresh.dom().len(),
                fresh.dom().len() > MAX_FAMILIES ==> count >= MAX_FAMILIES,
                self.cursors@ == old(self).cursors@,
                forall|a: Seq<char>, b: Seq<char>|
                    #![trigger outlasts(fresh, a, b)]
                    self.families@.contains_key(a) && fresh.contains_key(b)
                        && !self.families@.contains_key(b) ==> outlasts(fresh, a, b),
            decreases count,
        {
            let ghost rows = self.families@;
            let last = self.least_recent();
            self.families.remove(last.as_str());
            proof {
                lemma_kept_twice(
                    old(self).families.keys(),
                    rows.dom(),
                    self.families@.dom(),
                );
                assert forall|a: Seq<char>, b: Seq<char>| #![trigger outlasts(fresh, a, b)]
                    self.families@.contains_key(a) && fresh.contains_key(b)
                        && !self.families@.contains_key(b) implies outlasts(fresh, a, b) by {
                    if b == last@ {
                        assert(outlasts(rows, a, last@));
                        assert(rows.dom().contains(a) && fresh.dom().contains(a));
                        assert(rows.dom().contains(b) && fresh.dom().contains(b));
                        assert(rows[a] == fresh[a] && rows[b] == fresh[b]);
                    }
                }
                assert(self.families@.submap_of(fresh));
            }
            count = self.families.len();
        }
        let ghost left = self.families@;
        let n: usize = self.cursors.len();
        let ghost keys = self.cursors.keys();
        let ghost rows = self.cursors@;
        let mut orphans: Vec<String> = Vec::new();
        let mut i: usize = 0;
        while i < n
            invariant
                i <= n,
                n == keys.len(),
                keys == self.cursors.keys(),
                rows == self.cursors@,
                rows == old(self).cursors@,
                left == self.families@,
                self.families.keys() == kept(old(self).families.keys(), self.families@.dom()),
                forall|k: Seq<char>| #[trigger] rows.contains_key(k) <==> keys.contains(k),
                forall|k: Seq<char>| #[trigger]
                    views(orphans@).contains(k) <==> (keys.take(i as int).contains(k)
                        && !left.contains_key(rows[k].common_dir@)),
            decreases n - i,
        {
            let key = self.cursors.key_at(i);
            let row = self.cursors.value_at(i);
            let ghost found = views(orphans@);
            proof {
                lemma_take_contains(keys, i as int);
            }
            if !self.families.contains(row.common_dir.as_str()) {
                orphans.push(key.clone());
                proof {
                    assert(views(orphans@) =~= found.push(key@));
                    lemma_push_contains(found, key@);
                }
            }
            i += 1;
        }
        assert(keys.take(n as int) =~= keys);
        self.cursors.remove_all(&orphans);
        assert(self.cursors@ =~= cursors_of(old(self).cursors@, left));
        before - count
    }
}

/// No cursor outlives its family: after a prune every cursor belongs to a remembered family.
pub proof fn law_prune_leaves_no_orphan_cursors(
    cursors: Map<Seq<char>, CursorRow>,
    families: Map<Seq<char>, FamilyRow>,
    git_dir: Seq<char>,
)
    requires
        cursors_of(cursors, families).contains_key(git_dir),
    ensures
        families.contains_key(cursors_of(cursors, families)[git_dir].common_dir@),
{
}

/// There is only one way to keep the most recent families.
pub proof fn law_prune_is_determined(
    from: Map<Seq<char>, FamilyRow>,
    one: Map<Seq<char>, FamilyRow>,
    other: Map<Seq<char>, FamilyRow>,
)
    requires
        from.dom().finite(),
        most_recent(from, one),
        most_recent(from, other),
    ensures
        one == other,
{
    vstd::set_lib::lemma_len_subset(one.dom(), from.dom());
    vstd::set_lib::lemma_len_subset(other.dom(), from.dom());
    if exists|a: Seq<char>| one.contains_key(a) && !other.contains_key(a) {
        let a = choose|a: Seq<char>| one.contains_key(a) && !other.contains_key(a);
        assert(exists|b: Seq<char>| other.contains_key(b) && !one.contains_key(b)) by {
            if other.dom().subset_of(one.dom()) {
                vstd::set_lib::lemma_subset_equality(other.dom(), one.dom());
            }
        }
        let b = choose|b: Seq<char>| other.contains_key(b) && !one.contains_key(b);
        assert(outlasts(from, a, b));
        assert(outlasts(from, b, a));
        law_outlasting_is_total(from, a, b);
    }
    assert(one.dom().subset_of(other.dom())) by {
        assert forall|k: Seq<char>| one.dom().contains(k) implies other.dom().contains(k) by {
            assert(one.contains_key(k));
        }
    }
    vstd::set_lib::lemma_subset_equality(one.dom(), other.dom());
    assert forall|k: Seq<char>| #[trigger] one.dom().contains(k) implies one[k] == other[k] by {
        assert(other.dom().contains(k) && from.dom().contains(k));
    }
    assert(one =~= other);
}

proof fn lemma_kept_order(keys: Seq<Seq<char>>, stay: Set<Seq<char>>, i: int, j: int)
    requires
        keys.no_duplicates(),
        0 <= i < j < keys.len(),
        stay.contains(keys[i]),
        stay.contains(keys[j]),
    ensures
        exists|a: int, b: int|
            0 <= a < b < kept(keys, stay).len() && #[trigger] kept(keys, stay)[a] == keys[i]
                && #[trigger] kept(keys, stay)[b] == keys[j],
    decreases keys.len(),
{
    let front = keys.drop_last();
    let before = kept(front, stay);
    if j < front.len() {
        lemma_kept_order(front, stay, i, j);
        let (a, b) = choose|a: int, b: int|
            0 <= a < b < before.len() && #[trigger] before[a] == front[i]
                && #[trigger] before[b] == front[j];
        assert(kept(keys, stay)[a] == keys[i] && kept(keys, stay)[b] == keys[j]);
    } else {
        lemma_kept_there(front, stay, i);
        let a = choose|a: int| 0 <= a < before.len() && #[trigger] before[a] == front[i];
        assert(kept(keys, stay)[a] == keys[i]);
        assert(kept(keys, stay)[before.len() as int] == keys[j]);
    }
}

proof fn lemma_kept_there(keys: Seq<Seq<char>>, stay: Set<Seq<char>>, i: int)
    requires
        0 <= i < keys.len(),
        stay.contains(keys[i]),
    ensures
        exists|a: int| 0 <= a < kept(keys, stay).len() && #[trigger] kept(keys, stay)[a] == keys[i],
    decreases keys.len(),
{
    let front = keys.drop_last();
    let before = kept(front, stay);
    if i < front.len() {
        lemma_kept_there(front, stay, i);
        let a = choose|a: int| 0 <= a < before.len() && #[trigger] before[a] == front[i];
        assert(kept(keys, stay)[a] == keys[i]);
    } else {
        assert(kept(keys, stay)[before.len() as int] == keys[i]);
    }
}

proof fn lemma_kept_distinct(keys: Seq<Seq<char>>, stay: Set<Seq<char>>)
    requires
        keys.no_duplicates(),
    ensures
        kept(keys, stay).no_duplicates(),
        forall|a: int|
            0 <= a < kept(keys, stay).len() ==> keys.contains(#[trigger] kept(keys, stay)[a]),
    decreases keys.len(),
{
    if keys.len() > 0 {
        let front = keys.drop_last();
        assert forall|i: int, j: int| 0 <= i < front.len() && 0 <= j < front.len() && i
            != j implies front[i] != front[j] by {
            assert(keys[i] != keys[j]);
        }
        lemma_kept_distinct(front, stay);
        assert forall|a: int| 0 <= a < kept(keys, stay).len() implies keys.contains(
            #[trigger] kept(keys, stay)[a],
        ) by {
            if a < kept(front, stay).len() {
                let i = front.index_of(kept(front, stay)[a]);
                assert(keys[i] == kept(keys, stay)[a]);
            } else {
                assert(keys[keys.len() - 1] == kept(keys, stay)[a]);
            }
        }
        assert forall|a: int, b: int| 0 <= a < kept(keys, stay).len() && 0 <= b < kept(
            keys,
            stay,
        ).len() && a != b implies kept(keys, stay)[a] != kept(keys, stay)[b] by {
            let last = kept(front, stay).len();
            if a == last {
                let j = front.index_of(kept(front, stay)[b]);
                assert(keys[j] != keys[keys.len() - 1]);
            } else if b == last {
                let i = front.index_of(kept(front, stay)[a]);
                assert(keys[i] != keys[keys.len() - 1]);
            }
        }
    }
}

/// Forgetting families, in whatever way, leaves the rest listed in the order in which they
/// were.
pub proof fn law_forgetting_keeps_the_order(
    before: KeyMap<FamilyRow>,
    after: KeyMap<FamilyRow>,
    a: Seq<char>,
    b: Seq<char>,
)
    requires
        before.keys().no_duplicates(),
        before.keys().contains(a) && before.keys().contains(b),
        after.keys() == kept(before.keys(), after@.dom()),
        after@.submap_of(before@),
        after@.contains_key(a) && after@.contains_key(b),
        listed_before(before, a, b),
    ensures
        listed_before(after, a, b),
{
    assert(before@.dom().contains(a) && before@[a] == after@[a]) by {
        assert(after@.dom().contains(a));
    }
    assert(before@.dom().contains(b) && before@[b] == after@[b]) by {
        assert(after@.dom().contains(b));
    }
    if before@[a].last_seen_at == before@[b].last_seen_at {
        let keys = before.keys();
        let left = after.keys();
        let (i, j) = (keys.index_of(a), keys.index_of(b));
        lemma_kept_order(keys, after@.dom(), i, j);
        lemma_kept_distinct(keys, after@.dom());
        let (x, y) = choose|x: int, y: int|
            0 <= x < y < left.len() && #[trigger] left[x] == keys[i] && #[trigger] left[y]
                == keys[j];
        assert(left.contains(a) && left.contains(b));
        assert(left[left.index_of(a)] == left[x] && left[left.index_of(b)] == left[y]);
    }
}

proof fn lemma_take_contains(keys: Seq<Seq<char>>, i: int)
    requires
        0 <= i < keys.len(),
    ensures
        forall|k: Seq<char>| #[trigger]
            keys.take(i + 1).contains(k) == (keys.take(i).contains(k) || k == keys[i]),
{
    assert forall|k: Seq<char>| #[trigger]
        keys.take(i + 1).contains(k) == (keys.take(i).contains(k) || k == keys[i]) by {
        if keys.take(i + 1).contains(k) {
            let j = keys.take(i + 1).index_of(k);
            if j < i {
                assert(keys.take(i)[j] == k);
            }
        }
        if keys.take(i).contains(k) {
            assert(keys.take(i + 1)[keys.take(i).index_of(k)] == k);
        }
        assert(keys.take(i + 1)[i] == keys[i]);
    }
}

proof fn lemma_push_contains(s: Seq<Seq<char>>, x: Seq<char>)
    ensures
        forall|k: Seq<char>| #[trigger] s.push(x).contains(k) == (s.contains(k) || k == x),
{
    assert forall|k: Seq<char>| #[trigger] s.push(x).contains(k) == (s.contains(k) || k == x) by {
        if s.contains(k) {
            assert(s.push(x)[s.index_of(k)] == k);
        }
        assert(s.push(x)[s.len() as int] == x);
        if s.push(x).contains(k) {
            let j = s.push(x).index_of(k);
            if j < s.len() {
                assert(s[j] == k);
            }
        }
    }
}

proof fn lemma_inserted(s: Seq<String>, at: int, x: String)
    requires
        0 <= at <= s.len(),
        views(s).no_duplicates(),
        !views(s).contains(x@),
    ensures
        views(s.insert(at, x)).no_duplicates(),
        forall|k: Seq<char>| #[trigger]
            views(s.insert(at, x)).contains(k) == (views(s).contains(k) || k == x@),
{
    let t = s.insert(at, x);
    assert forall|k: Seq<char>| #[trigger]
        views(t).contains(k) == (views(s).contains(k) || k == x@) by {
        if views(s).contains(k) {
            let j = views(s).index_of(k);
            let a = if j < at { j } else { j + 1 };
            assert(t[a] == s[j]);
            assert(views(t)[a] == k);
        }
        assert(views(t)[at] == x@);
        if views(t).contains(k) {
            let a = views(t).index_of(k);
            if a != at {
                let j = if a < at { a } else { a - 1 };
                assert(t[a] == s[j]);
                assert(views(s)[j] == k);
            }
        }
    }
    assert forall|a: int, b: int| 0 <= a < t.len() && 0 <= b < t.len() && a != b implies views(
        t,
    )[a] != views(t)[b] by {
        let i = if a < at { a } else { a - 1 };
        let j = if b < at { b } else { b - 1 };
        if a == at {
            assert(t[b] == s[j]);
            assert(views(s)[j] == views(t)[b]);
        } else if b == at {
            assert(t[a] == s[i]);
            assert(views(s)[i] == views(t)[a]);
        } else {
            assert(t[a] == s[i] && t[b] == s[j]);
            assert(views(s)[i] == views(t)[a] && views(s)[j] == views(t)[b]);
        }
    }
}

} // verus!
