//! Where repositories and their worktrees lie, and which families are remembered.
use crate::paths::{path_join, path_of, PathModel, RepoPath};
use crate::repo_family_store::{
    pending_migrations, RepoFamilyStore, StoreError, UntracedReflogCursor,
};
use crate::repo_state::{
    common_dir_for_git_dir, common_dir_for_repo_path, common_dir_for_worktree,
    git_dir_for_worktree, head_state, main_worktree_for_common_dir, read_head_state_for_worktree,
    ref_dirs_for_worktree, worktree_belongs_to_git_dir, worktree_root_for_path, worktrees_for_common_dir, CoreConfig,
    FileSnapshot, HeadKind, HeadReading, HeadState,
};
use crate::text::{opt_view, trim_of, views};
use vstd::prelude::*;

verus! {

/// Whether a worktree starts at a directory: its `.git` is a directory with a `HEAD`, or a file.
pub open spec fn starts_at(files: FileSnapshot, p: PathModel) -> bool {
    files.is_file_at((p.0, p.1.push(".git"@).push("HEAD"@))) || files.is_file_at(
        (p.0, p.1.push(".git"@)),
    )
}

proof fn lemma_root(files: FileSnapshot, p: PathModel, n: int)
    requires
        0 <= n <= p.1.len(),
    ensures
        ({
            let root = crate::repo_state::worktree_root_of(files, p);
            &&& root is Some ==> (root->0).0 == p.0 && (root->0).1.len() <= p.1.len() && (root->0).1
                == p.1.take((root->0).1.len() as int) && starts_at(files, root->0)
            &&& starts_at(files, (p.0, p.1.take(n))) ==> root is Some && (root->0).1.len() >= n
        }),
    decreases p.1.len(),
{
    assert(p.1.take(p.1.len() as int) =~= p.1);
    if !crate::repo_state::worktree_starts_at(files, p) && p.1.len() > 0 {
        let up = (p.0, p.1.drop_last());
        if n < p.1.len() {
            lemma_root(files, up, n);
            assert(up.1.take(n) =~= p.1.take(n));
        } else {
            lemma_root(files, up, 0);
        }
        let root = crate::repo_state::worktree_root_of(files, up);
        if root is Some {
            assert(up.1.take((root->0).1.len() as int) =~= p.1.take((root->0).1.len() as int));
        }
    } else if p.1.len() == 0 {
        assert(p.1.take(n) =~= p.1);
    }
}

/// The worktree of a path is the nearest directory, the path itself or above it, at which one
/// starts.
pub proof fn law_the_nearest_worktree_is_found(
    path: RepoPath,
    files: FileSnapshot,
    r: Option<RepoPath>,
    n: int,
)
    requires
        call_ensures(worktree_root_for_path, (&path, &files), r),
        0 <= n <= path@.1.len(),
    ensures
        r is Some ==> r->0@.0 == path@.0 && r->0@.1.len() <= path@.1.len() && r->0@.1
            == path@.1.take(r->0@.1.len() as int) && starts_at(files, r->0@),
        starts_at(files, (path@.0, path@.1.take(n))) ==> r is Some && r->0@.1.len() >= n,
{
    lemma_root(files, path@, n);
}

/// The git directory of a worktree is its `.git`, where that is a directory, and else where its
/// `.git` points, from the worktree on.
pub proof fn law_git_directories_are_found(
    worktree: RepoPath,
    files: FileSnapshot,
    root: Option<RepoPath>,
    r: Option<RepoPath>,
    pointer: Seq<char>,
    belongs: bool,
    other: RepoPath,
)
    requires
        call_ensures(git_dir_for_worktree, (&worktree, &files), r),
        call_ensures(worktree_root_for_path, (&worktree, &files), root),
        call_ensures(worktree_belongs_to_git_dir, (&worktree, &other, &files), belongs),
    ensures
        root is None ==> r is None,
        root is Some && files.is_dir_at((root->0@.0, root->0@.1.push(".git"@))) ==> r is Some
            && r->0@ == (root->0@.0, root->0@.1.push(".git"@)),
        root is Some && !files.is_dir_at((root->0@.0, root->0@.1.push(".git"@))) && files.text_at(
            (root->0@.0, root->0@.1.push(".git"@)),
        ) == Some("gitdir:"@ + pointer) ==> r is Some && r->0@ == path_join(
            root->0@,
            path_of(trim_of(pointer)),
        ),
        root is Some && !files.is_dir_at((root->0@.0, root->0@.1.push(".git"@))) && files.text_at(
            (root->0@.0, root->0@.1.push(".git"@)),
        ) is None ==> r is None,
        belongs <==> r is Some && files.canonical_at(r->0@) == files.canonical_at(other@),
{
    let text = "gitdir:"@ + pointer;
    assert(text.subrange(0, "gitdir:"@.len() as int) =~= "gitdir:"@);
    assert(text.subrange("gitdir:"@.len() as int, text.len() as int) =~= pointer);
}

/// The common directory of a git directory is the one that it is registered in: two up from
/// below `worktrees`, and else itself.
pub proof fn law_common_directories_are_found(git_dir: RepoPath, r: Option<RepoPath>)
    requires
        call_ensures(common_dir_for_git_dir, (&git_dir,), r),
    ensures
        ({
            let parts = git_dir@.1;
            let n = parts.len() as int;
            &&& n == 0 ==> r is None
            &&& n >= 2 && parts[n - 2] == "worktrees"@ ==> r is Some && r->0@ == (
                git_dir@.0,
                parts.take(n - 2),
            )
            &&& n == 1 || n >= 2 && parts[n - 2] != "worktrees"@ ==> r
                is Some && r->0@ == git_dir@
        }),
{
    let parts = git_dir@.1;
    let n = parts.len() as int;
    reveal_strlit("worktrees");
    reveal_strlit("..");
    reveal_strlit(".");
    assert("worktrees"@.len() == 9 && ".."@.len() == 2 && "."@.len() == 1);
    if n >= 2 {
        assert(parts.drop_last().last() == parts[n - 2]);
        assert(parts.drop_last().drop_last() =~= parts.take(n - 2));
    }
}

/// A worktree leads to the common directory of its git directory; a repository that is named by
/// a path with a worktree leads there too.
pub proof fn law_worktrees_lead_to_their_common_directory(
    worktree: RepoPath,
    files: FileSnapshot,
    git_dir: Option<RepoPath>,
    common: Option<RepoPath>,
    r: Option<RepoPath>,
    named: Option<RepoPath>,
    dirs: Option<(RepoPath, RepoPath)>,
)
    requires
        call_ensures(git_dir_for_worktree, (&worktree, &files), git_dir),
        git_dir is Some,
        call_ensures(common_dir_for_git_dir, (&git_dir->0,), common),
        call_ensures(common_dir_for_worktree, (&worktree, &files), r),
        call_ensures(common_dir_for_repo_path, (&worktree, &files), named),
        call_ensures(ref_dirs_for_worktree, (&worktree, &files), dirs),
    ensures
        common is Some <==> r is Some,
        common is Some ==> r->0@ == common->0@ && named is Some && named->0@ == common->0@,
        common is Some <==> dirs is Some,
        dirs is Some ==> (dirs->0).0@ == git_dir->0@ && (dirs->0).1@ == common->0@,
{
}

/// A path without a worktree that is a git directory itself leads to its common directory; any
/// other leads nowhere, unless it is a `.git` that points elsewhere.
pub proof fn law_bare_repositories_lead_to_themselves(
    path: RepoPath,
    files: FileSnapshot,
    none: Option<RepoPath>,
    common: Option<RepoPath>,
    r: Option<RepoPath>,
)
    requires
        call_ensures(git_dir_for_worktree, (&path, &files), none),
        none is None,
        call_ensures(common_dir_for_git_dir, (&path,), common),
        call_ensures(common_dir_for_repo_path, (&path, &files), r),
    ensures
        files.is_dir_at(path@) && files.is_file_at((path@.0, path@.1.push("HEAD"@))) ==> (r is Some
            <==> common is Some) && (r is Some ==> r->0@ == common->0@),
        !files.is_dir_at(path@) && !files.is_file_at(path@) ==> r is None,
{
}

/// A bare repository has no main worktree. That of any other is the directory that holds its
/// `.git`, or else the one that it names; and it has to be there.
pub proof fn law_main_worktrees_hold_their_git_directory(
    common: RepoPath,
    files: FileSnapshot,
    config: CoreConfig,
    r: Option<RepoPath>,
)
    requires
        call_ensures(main_worktree_for_common_dir, (&common, &files, &config), r),
    ensures
        ({
            let parts = common@.1;
            let n = parts.len() as int;
            &&& opt_view(config.bare) == Some("true"@) ==> r is None
            &&& r is Some ==> files.is_dir_at(r->0@)
            &&& config.bare is None && n >= 1 && parts[n - 1] == ".git"@ && files.is_dir_at(
                (common@.0, parts.take(n - 1)),
            ) ==> r is Some && r->0@ == (common@.0, parts.take(n - 1))
            &&& config.bare is None && n >= 1 && parts[n - 1] != ".git"@ && config.worktree is None
                ==> r is None
            &&& config.bare is None && n >= 1 && parts[n - 1] != ".git"@ && config.worktree is Some
                && files.is_dir_at(path_join(common@, path_of(config.worktree->0@))) ==> r is Some
                && r->0@ == path_join(common@, path_of(config.worktree->0@))
        }),
{
    let parts = common@.1;
    reveal_strlit(".git");
    reveal_strlit("..");
    reveal_strlit(".");
    assert(".git"@.len() == 4 && ".."@.len() == 2 && "."@.len() == 1);
    assert(crate::text::same_ignoring_ascii_case("true"@, "true"@));
    if parts.len() > 0 {
        assert(parts.last() == parts[parts.len() - 1]);
        assert(parts.drop_last() =~= parts.take(parts.len() - 1));
    }
}

/// A head on a branch names the branch and the commit that it stands at; a detached one names
/// its commit and no branch, and so does one on a ref that is no branch.
pub proof fn law_heads_are_on_branches_or_detached(
    name: Seq<char>,
    refname: String,
    oid: String,
    resolved: Option<String>,
    on_branch: HeadState,
    detached: HeadState,
)
    requires
        call_ensures(head_state, (&HeadKind::Symbolic(refname), &resolved), on_branch),
        call_ensures(head_state, (&HeadKind::Detached(oid), &resolved), detached),
    ensures
        refname@ == "refs/heads/"@ + name ==> opt_view(on_branch.branch) == Some(name)
            && !on_branch.detached,
        opt_view(on_branch.head) == opt_view(resolved),
        on_branch.branch is None <==> on_branch.detached,
        opt_view(detached.head) == Some(oid@) && detached.branch is None && detached.detached,
        !crate::text::has_prefix(refname@, "refs/heads/"@) ==> on_branch.branch is None,
{
    let text = "refs/heads/"@ + name;
    assert(text.subrange(0, "refs/heads/"@.len() as int) =~= "refs/heads/"@);
    assert(text.subrange("refs/heads/"@.len() as int, text.len() as int) =~= name);
}

/// The head of a worktree is read where its repository is found and it has one.
pub proof fn law_heads_are_read_where_there_is_a_repository(
    worktree: RepoPath,
    files: FileSnapshot,
    reading: HeadReading,
    dirs: Option<(RepoPath, RepoPath)>,
    alone: HeadState,
    r: Option<HeadState>,
)
    requires
        call_ensures(read_head_state_for_worktree, (&worktree, &files, &reading), r),
        call_ensures(ref_dirs_for_worktree, (&worktree, &files), dirs),
        reading.head is Some ==> call_ensures(
            head_state,
            (&reading.head->0, &reading.resolved),
            alone,
        ),
    ensures
        r is Some <==> reading.head is Some && dirs is Some,
        r is Some ==> opt_view(r->0.head) == opt_view(alone.head) && opt_view(r->0.branch)
            == opt_view(alone.branch) && r->0.detached == alone.detached,
{
}

/// A family that was seen is remembered, and one that is missing is remembered but not listed
/// with the rest, until it is seen again.
pub proof fn law_families_are_listed_while_they_are_there(
    first: &mut RepoFamilyStore,
    second: &mut RepoFamilyStore,
    third: &mut RepoFamilyStore,
    family: &str,
    now: u64,
    seen: Vec<String>,
    listed: Vec<String>,
    all: Vec<String>,
    again: Vec<String>,
)
    requires
        call_ensures(RepoFamilyStore::record_family_seen, (first, family, now), ()),
        call_ensures(RepoFamilyStore::known_families, (final(first), false), seen),
        *final(first) == *old(second),
        call_ensures(RepoFamilyStore::record_family_missing, (second, family, now), ()),
        call_ensures(RepoFamilyStore::known_families, (final(second), false), listed),
        call_ensures(RepoFamilyStore::known_families, (final(second), true), all),
        *final(second) == *old(third),
        call_ensures(RepoFamilyStore::refresh_family_seen, (third, family, now), ()),
        call_ensures(RepoFamilyStore::known_families, (final(third), false), again),
    ensures
        views(seen@).contains(family@),
        !views(listed@).contains(family@),
        views(all@).contains(family@),
        views(again@).contains(family@),
{
    let a = (&*final(first), false);
    assert(a.0 == &*final(first));
    let b = (&*final(second), false);
    assert(b.0 == &*final(second));
    let c = (&*final(second), true);
    assert(c.0 == &*final(second));
    let d = (&*final(third), false);
    assert(d.0 == &*final(third));
    assert(views(seen@).contains(family@) <==> final(first).families@.contains_key(family@)
        && final(first).families@[family@].missing_since is None);
    assert(views(listed@).contains(family@) <==> final(second).families@.contains_key(family@)
        && final(second).families@[family@].missing_since is None);
    assert(views(all@).contains(family@) <==> final(second).families@.contains_key(family@));
    assert(views(again@).contains(family@) <==> final(third).families@.contains_key(family@)
        && final(third).families@[family@].missing_since is None);
}

/// To see a family keeps when it was first seen; to refresh one that is not remembered does not
/// make it so; and one that is missing is missing since it was first found so.
pub proof fn law_families_keep_their_first_times(
    seen: &mut RepoFamilyStore,
    refreshed: &mut RepoFamilyStore,
    missing: &mut RepoFamilyStore,
    family: &str,
    other: Seq<char>,
    now: u64,
)
    requires
        now <= i64::MAX,
        *old(seen) == *old(refreshed) && *old(seen) == *old(missing),
        call_ensures(RepoFamilyStore::record_family_seen, (seen, family, now), ()),
        call_ensures(RepoFamilyStore::refresh_family_seen, (refreshed, family, now), ()),
        call_ensures(RepoFamilyStore::record_family_missing, (missing, family, now), ()),
    ensures
        ({
            let before = old(seen).families@;
            let known = before.contains_key(family@);
            let row = final(seen).families@[family@];
            &&& final(seen).families@.contains_key(family@)
            &&& row.last_seen_at == now && row.missing_since is None
            &&& known ==> row.first_seen_at == before[family@].first_seen_at
            &&& !known ==> row.first_seen_at == now
            &&& !known ==> !final(refreshed).families@.contains_key(family@) && !final(missing).families@.contains_key(family@)
            &&& known ==> final(refreshed).families@ == final(seen).families@
            &&& known && before[family@].missing_since is Some ==> final(missing).families@[family@].missing_since == before[family@].missing_since
            &&& known && before[family@].missing_since is None ==> final(missing).families@[family@].missing_since == Some(now as i64)
            &&& known ==> final(missing).families@[family@].last_seen_at
                == before[family@].last_seen_at
            &&& other != family@ && before.contains_key(other) ==> final(seen).families@[other] == before[other] && final(missing).families@[other] == before[other]
        }),
        final(seen).cursors == old(seen).cursors,
{
    assert((now as i64) == now);
}

/// A cursor that is saved is read back, for its git directory and no other; one without an
/// anchor has none.
pub proof fn law_cursors_are_read_back(
    store: &mut RepoFamilyStore,
    family: &str,
    git_dir: &str,
    worktree: &str,
    other: &str,
    cursor: UntracedReflogCursor,
    now: u64,
    r: Option<UntracedReflogCursor>,
    before: Option<UntracedReflogCursor>,
    there: Option<UntracedReflogCursor>,
)
    requires
        cursor.anchor is Some ==> cursor.anchor->0.end_offset == cursor.offset,
        call_ensures(RepoFamilyStore::cursor, (old(store), other), before),
        call_ensures(
            RepoFamilyStore::save_cursor,
            (store, family, git_dir, worktree, &cursor, now),
            (),
        ),
        call_ensures(RepoFamilyStore::cursor, (final(store), git_dir), r),
        call_ensures(RepoFamilyStore::cursor, (final(store), other), there),
    ensures
        r is Some && r->0.offset == cursor.offset,
        cursor.anchor is Some ==> r->0.anchor is Some && r->0.anchor->0.old
            == cursor.anchor->0.old && r->0.anchor->0.new == cursor.anchor->0.new
            && r->0.anchor->0.message == cursor.anchor->0.message && r->0.anchor->0.end_offset
            == cursor.offset,
        cursor.anchor is None ==> r->0.anchor is None,
        other@ != git_dir@ ==> there == before,
        final(store).families == old(store).families,
{
    crate::repo_family_store::law_stored_numbers_roundtrip(cursor.offset);
}

/// To complete a pass is to save its cursor and to see its family.
pub proof fn law_a_pass_saves_its_cursor_and_sees_its_family(
    passed: &mut RepoFamilyStore,
    seen: &mut RepoFamilyStore,
    family: &str,
    git_dir: &str,
    worktree: &str,
    cursor: UntracedReflogCursor,
    now: u64,
    r: Option<UntracedReflogCursor>,
    trees: Vec<(String, String)>,
)
    requires
        *old(passed) == *old(seen),
        cursor.anchor is None,
        call_ensures(
            RepoFamilyStore::record_pass_completed,
            (passed, family, git_dir, worktree, &cursor, now),
            (),
        ),
        call_ensures(RepoFamilyStore::record_family_seen, (seen, family, now), ()),
        call_ensures(RepoFamilyStore::cursor, (final(passed), git_dir), r),
        call_ensures(RepoFamilyStore::known_worktrees, (final(passed), family), trees),
    ensures
        r is Some && r->0.offset == cursor.offset,
        final(passed).families@ == final(seen).families@,
        exists|i: int|
            0 <= i < trees@.len() && (#[trigger] trees@[i]).0@ == git_dir@ && trees@[i].1@
                == worktree@,
{
    crate::repo_family_store::law_stored_numbers_roundtrip(cursor.offset);
    let args = (&*final(passed), family);
    assert(args.0 == &*final(passed));
    assert(final(passed).cursors@.contains_key(git_dir@));
    let i = choose|i: int| 0 <= i < trees@.len() && (#[trigger] trees@[i]).0@ == git_dir@;
    assert(trees@[i].1@ == worktree@);
}

/// Families that are forgotten are gone with their cursors, and only they; so many are counted.
pub proof fn law_forgotten_families_are_gone(
    store: &mut RepoFamilyStore,
    families: Vec<String>,
    r: usize,
    family: Seq<char>,
    git_dir: Seq<char>,
)
    requires
        call_ensures(RepoFamilyStore::forget_families, (store, &families), r),
    ensures
        views(families@).contains(family) ==> !final(store).families@.contains_key(family),
        !views(families@).contains(family) ==> final(store).families@.contains_key(family) == old(
            store,
        ).families@.contains_key(family),
        final(store).families@.contains_key(family) ==> final(store).families@[family] == old(
            store,
        ).families@[family],
        old(store).cursors@.contains_key(git_dir) ==> (final(store).cursors@.contains_key(git_dir)
            <==> !views(families@).contains(old(store).cursors@[git_dir].common_dir@)),
{
    assert(views(families@).to_set().contains(family) == views(families@).contains(family));
}

/// A prune keeps what was seen in the last ninety days and is not missing for seven, up to a
/// thousand families, those seen last; no cursor outlives its family.
pub proof fn law_a_prune_keeps_what_was_seen_lately(
    store: &mut RepoFamilyStore,
    now: u64,
    r: usize,
    family: Seq<char>,
    other: Seq<char>,
    git_dir: Seq<char>,
)
    requires
        call_ensures(RepoFamilyStore::prune, (store, now), r),
        7_776_000 <= now <= i64::MAX,
        old(store).families@.contains_key(family) && old(store).families@.contains_key(other),
    ensures
        ({
            let row = old(store).families@[family];
            let kept = final(store).families@.contains_key(family);
            &&& row.last_seen_at <= now - 7_776_000 ==> !kept
            &&& row.missing_since is Some && row.missing_since->0 <= now - 604_800 ==> !kept
            &&& row.last_seen_at > now - 7_776_000 && row.missing_since is None && old(
                store,
            ).families@.dom().finite() && old(store).families@.dom().len() <= 1000 ==> kept
            &&& kept ==> final(store).families@[family] == row
            &&& kept && !final(store).families@.contains_key(other) && old(
                store,
            ).families@[other].last_seen_at > now - 7_776_000 && old(
                store,
            ).families@[other].missing_since is None ==> row.last_seen_at >= old(
                store,
            ).families@[other].last_seen_at
        }),
        final(store).families@.dom().len() <= 1000,
        final(store).cursors@.contains_key(git_dir) ==> final(store).families@.contains_key(
            final(store).cursors@[git_dir].common_dir@,
        ),
{
    let before = old(store).families@;
    let alive = crate::repo_family_store::unexpired(before, now);
    let kept = final(store).families@;
    assert(((now - 604_800) as u64 as i64) == now - 604_800);
    assert(((now - 7_776_000) as u64 as i64) == now - 7_776_000);
    assert(kept.submap_of(alive));
    if kept.contains_key(family) {
        assert(alive.contains_key(family));
    }
    if before.dom().finite() && before.dom().len() <= 1000 {
        vstd::set_lib::lemma_len_subset(alive.dom(), before.dom());
        assert(alive.dom().subset_of(before.dom()));
        assert(kept.dom().subset_of(alive.dom()));
        vstd::set_lib::lemma_subset_equality(kept.dom(), alive.dom());
    }
    if kept.contains_key(family) && alive.contains_key(other) && !kept.contains_key(other) {
        assert(crate::repo_family_store::outlasts(alive, family, other));
    }
}

/// Tables of a newer program are not touched; of any other, what is missing is brought up from
/// the next version on.
pub proof fn law_newer_tables_are_not_touched(
    version: u32,
    r: Result<u32, StoreError>,
    fresh: Result<u32, StoreError>,
)
    requires
        call_ensures(pending_migrations, (Some(version),), r),
        call_ensures(pending_migrations, (None,), fresh),
    ensures
        version > 2 <==> r is Err,
        version <= 2 ==> r == Ok::<u32, StoreError>((version + 1) as u32),
        fresh == Ok::<u32, StoreError>(1),
{
}

/// A snapshot holds the files that were put in, with what they hold, and resolves the paths
/// that were said to be others.
pub proof fn law_snapshots_hold_what_was_put_in(
    files: &mut FileSnapshot,
    resolving: &mut FileSnapshot,
    path: RepoPath,
    contents: Option<String>,
    form: RepoPath,
    other: RepoPath,
    there: bool,
    text: Option<String>,
    before: bool,
    after: bool,
    resolved: RepoPath,
    unresolved: RepoPath,
    was: RepoPath,
)
    requires
        call_ensures(FileSnapshot::is_file, (old(files), &other), before),
        call_ensures(FileSnapshot::add_file, (files, path, contents), ()),
        call_ensures(FileSnapshot::is_file, (final(files), &path), there),
        call_ensures(FileSnapshot::text, (final(files), &path), text),
        call_ensures(FileSnapshot::is_file, (final(files), &other), after),
        call_ensures(FileSnapshot::canonicalize, (old(resolving), &other), was),
        call_ensures(FileSnapshot::add_canonical, (resolving, path, form), ()),
        call_ensures(FileSnapshot::canonicalize, (final(resolving), &path), resolved),
        call_ensures(FileSnapshot::canonicalize, (final(resolving), &other), unresolved),
    ensures
        there && opt_view(text) == opt_view(contents),
        other@ != path@ ==> after == before,
        resolved@ == form@ && resolved.text@ == form.text@,
        other@ != path@ ==> unresolved@ == was@,
{
}

/// A directory holds the files below it.
pub proof fn law_directories_hold_their_files(
    files: &mut FileSnapshot,
    made: &mut FileSnapshot,
    dir: RepoPath,
    name: Seq<char>,
    path: RepoPath,
    contents: Option<String>,
    holds: bool,
    is: bool,
)
    requires
        dir.absolute,
        path@ == (dir@.0, dir@.1.push(name)),
        call_ensures(FileSnapshot::add_file, (files, path, contents), ()),
        call_ensures(FileSnapshot::is_dir, (final(files), &dir), holds),
        call_ensures(FileSnapshot::add_dir, (made, dir), ()),
        call_ensures(FileSnapshot::is_dir, (final(made), &dir), is),
    ensures
        is,
        final(files).files@.len() > 0 && final(files).files@.last().0@ == path@ ==> holds,
{
    if final(files).files@.len() > 0 && final(files).files@.last().0@ == path@ {
        let i = final(files).files@.len() - 1;
        assert(final(files).files@[i].0@ == path@);
        assert(path@.1.take(dir@.1.len() as int) =~= dir@.1);
        assert(crate::paths::path_under(final(files).files@[i].0@, dir@));
        assert(path@.1.len() == dir@.1.len() + 1);
    }
}

/// The families that are counted are those that are listed with the missing ones.
pub proof fn law_families_are_counted_as_they_are_listed(
    store: RepoFamilyStore,
    all: Vec<String>,
    count: usize,
)
    requires
        call_ensures(RepoFamilyStore::known_families, (&store, true), all),
        call_ensures(RepoFamilyStore::family_count, (&store,), count),
    ensures
        all@.len() == count,
{
    let args = (&store, true);
    assert(args.0 == store);
    let seen = views(all@);
    assert(seen.len() == all@.len());
    assert forall|k: Seq<char>| seen.to_set().contains(k) <==> store.families@.dom().contains(k) by {
        assert(seen.contains(k) <==> store.families@.contains_key(k));
    }
    assert(seen.to_set() =~= store.families@.dom());
    seen.unique_seq_to_set();
}

/// The worktrees of a repository begin with its main one, where it has one.
pub proof fn law_the_main_worktree_comes_first(
    common: RepoPath,
    files: FileSnapshot,
    config: CoreConfig,
    main: Option<RepoPath>,
    none: Vec<(RepoPath, RepoPath)>,
    registered: Option<Vec<String>>,
    r: Vec<(RepoPath, RepoPath)>,
)
    requires
        call_ensures(main_worktree_for_common_dir, (&common, &files, &config), main),
        call_ensures(worktrees_for_common_dir, (&common, &files, &config, &None), none),
        call_ensures(worktrees_for_common_dir, (&common, &files, &config, &registered), r),
    ensures
        main is Some ==> none@.len() == 1 && none@[0].0@ == common@ && none@[0].1@ == main->0@,
        main is None ==> none@.len() == 0,
        main is Some ==> r@.len() >= 1 && r@[0].0@ == common@ && r@[0].1@ == main->0@,
{
    let seen = crate::repo_state::pair_views(none@);
    let all = crate::repo_state::pair_views(r@);
    assert(seen.len() == none@.len() && all.len() == r@.len());
    let names = choose|names: Seq<Seq<char>>|
        #![trigger crate::text::in_order(names)]
        {
            &&& crate::text::in_order(names)
            &&& names.to_multiset() == Seq::<Seq<char>>::empty().to_multiset()
            &&& seen == (match crate::repo_state::main_worktree_of(files, config, common@) {
                Some(main) => seq![(common@, main)],
                None => Seq::empty(),
            }) + crate::repo_state::linked_worktrees_of(
                files,
                crate::paths::path_child(common@, "worktrees"@),
                names,
            )
        };
    assert(names.len() == names.to_multiset().len()) by {
        names.to_multiset_ensures();
    }
    assert(Seq::<Seq<char>>::empty().to_multiset().len() == 0) by {
        Seq::<Seq<char>>::empty().to_multiset_ensures();
    }
    if main is Some {
        assert(seen[0] == (none@[0].0@, none@[0].1@));
        assert(all[0] == (common@, main->0@));
        assert(all[0] == (r@[0].0@, r@[0].1@));
    }
}

/// What holds nothing is no directory: a file is none, and neither is a path that nothing lies
/// under.
pub proof fn law_what_holds_nothing_is_no_directory(files: FileSnapshot, path: RepoPath, r: bool)
    requires
        call_ensures(FileSnapshot::is_dir, (&files, &path), r),
        forall|i: int|
            0 <= i < files.dirs@.len() ==> !crate::paths::path_under(
                #[trigger] files.dirs@[i]@,
                path@,
            ),
        forall|i: int|
            0 <= i < files.files@.len() ==> (#[trigger] files.files@[i]).0@ == path@
                || !crate::paths::path_under(files.files@[i].0@, path@),
    ensures
        !r,
{
}

/// The worktrees that are known of a family are those that cursors were saved of, each with
/// where it lies.
pub proof fn law_known_worktrees_belong_to_their_family(
    store: RepoFamilyStore,
    family: &str,
    r: Vec<(String, String)>,
    i: int,
)
    requires
        call_ensures(RepoFamilyStore::known_worktrees, (&store, family), r),
        0 <= i < r@.len(),
    ensures
        store.cursors@.contains_key(r@[i].0@),
        store.cursors@[r@[i].0@].common_dir@ == family@,
        store.cursors@[r@[i].0@].worktree@ == r@[i].1@,
{
    let args = (&store, family);
    assert(args.0 == store && args.1 == family);
}

} // verus!
