//! Where a repository keeps its git directory, its worktrees and its head,
//! worked out from what a filesystem was seen to hold.
use crate::paths::{
    is_empty_path, parent_text, path_child, path_file_name, path_join, path_of, path_parent,
    path_under, plain_name, PathModel, RepoPath,
};
use crate::spelling::lemma_own_names_are_plain;
use crate::text::{
    all_hex, eq_ignore_ascii_case, in_order, is_all_hex, opt_view, same_ignoring_ascii_case,
    sort_strings, strip_prefix, strip_prefix_of, trim, trim_of, views,
};
use vstd::prelude::*;

verus! {

/// A git object id: 40 or 64 hexadecimal digits.
pub open spec fn git_oid(s: Seq<char>) -> bool {
    (s.len() == 40 || s.len() == 64) && all_hex(s)
}

/// Whether `value` is a git object id: 40 or 64 hexadecimal digits.
pub fn is_valid_git_oid(value: &str) -> (r: bool)
    ensures
        r == git_oid(value@),
{
    let n: usize = value.unicode_len();
    (n == 40 || n == 64) && is_all_hex(value)
}

/// What a worktree's `HEAD` says.
#[derive(Debug, PartialEq, Eq)]
pub struct HeadState {
    pub head: Option<String>,
    pub branch: Option<String>,
    pub detached: bool,
}

/// What stands in a `HEAD` file: the name of a ref, or an object id.
#[derive(Debug, PartialEq, Eq)]
pub enum HeadKind {
    Symbolic(String),
    Detached(String),
}

/// The two settings that say whether a git directory has a main worktree, and where.
#[derive(Debug)]
pub struct CoreConfig {
    pub bare: Option<String>,
    pub worktree: Option<String>,
}

/// What was read through the refs of one git directory: its `HEAD`, and what
/// the ref that a symbolic `HEAD` names resolves to.
#[derive(Debug)]
pub struct HeadReading {
    pub head: Option<HeadKind>,
    pub resolved: Option<String>,
}

/// What a filesystem was seen to hold. A file whose contents are not text has none.
pub struct FileSnapshot {
    pub files: Vec<(RepoPath, Option<String>)>,
    pub dirs: Vec<RepoPath>,
    pub canonical: Vec<(RepoPath, RepoPath)>,
}

/// The last entry at `p`.
pub open spec fn entry_at(files: Seq<(RepoPath, Option<String>)>, p: PathModel) -> Option<
    Option<Seq<char>>,
>
    decreases files.len(),
{
    if files.len() == 0 {
        None
    } else if files.last().0@ == p {
        Some(opt_view(files.last().1))
    } else {
        entry_at(files.drop_last(), p)
    }
}

/// The canonical form that was recorded for `p`, or `p` itself.
pub open spec fn canonical_of(table: Seq<(RepoPath, RepoPath)>, p: PathModel) -> PathModel
    decreases table.len(),
{
    if table.len() == 0 {
        p
    } else if table.last().0@ == p {
        table.last().1@
    } else {
        canonical_of(table.drop_last(), p)
    }
}

/// The text of the canonical form that was recorded for `p`, or that of `p` itself.
pub open spec fn canonical_text_of(
    table: Seq<(RepoPath, RepoPath)>,
    p: PathModel,
    text: Seq<char>,
) -> Seq<char>
    decreases table.len(),
{
    if table.len() == 0 {
        text
    } else if table.last().0@ == p {
        table.last().1.text@
    } else {
        canonical_text_of(table.drop_last(), p, text)
    }
}

impl FileSnapshot {
    /// A snapshot that holds nothing.
    pub fn new() -> (r: FileSnapshot)
        ensures
            forall|p: PathModel| !r.is_file_at(p),
            forall|p: PathModel| !r.is_dir_at(p),
            forall|p: PathModel| r.canonical_at(p) == p,
            forall|p: PathModel, text: Seq<char>| r.canonical_text_at(p, text) == text,
            r.wf(),
    {
        FileSnapshot { files: Vec::new(), dirs: Vec::new(), canonical: Vec::new() }
    }

    /// Whether there is a file at `p`.
    pub open spec fn is_file_at(self, p: PathModel) -> bool {
        entry_at(self.files@, p) is Some
    }

    /// The text of the file at `p`.
    pub open spec fn text_at(self, p: PathModel) -> Option<Seq<char>> {
        match entry_at(self.files@, p) {
            Some(contents) => contents,
            None => None,
        }
    }

    /// Whether there is a directory at `p`: one that was listed, or one that
    /// something that was listed lies in. There is none at the empty path.
    pub open spec fn is_dir_at(self, p: PathModel) -> bool {
        &&& !is_empty_path(p)
        &&& {
            ||| exists|i: int| 0 <= i < self.dirs@.len() && path_under(#[trigger] self.dirs@[i]@, p)
            ||| exists|i: int|
                0 <= i < self.files@.len() && path_under((#[trigger] self.files@[i]).0@, p)
                    && self.files@[i].0@ != p
        }
    }

    /// The canonical form of `p`, or `p` itself where none was recorded.
    pub open spec fn canonical_at(self, p: PathModel) -> PathModel {
        canonical_of(self.canonical@, p)
    }

    /// The text of the canonical form of `p`, or `text` where none was recorded.
    pub open spec fn canonical_text_at(self, p: PathModel, text: Seq<char>) -> Seq<char> {
        canonical_text_of(self.canonical@, p, text)
    }

    /// Whether the canonical forms are well formed.
    pub open spec fn wf(self) -> bool {
        forall|i: int| 0 <= i < self.canonical@.len() ==> (#[trigger] self.canonical@[i]).1.wf()
    }

    /// Records a file; it takes the place of an earlier one at the same path.
    pub fn add_file(&mut self, path: RepoPath, contents: Option<String>)
        ensures
            final(self).text_at(path@) == opt_view(contents),
            final(self).is_file_at(path@),
            forall|p: PathModel| #![auto]
                p != path@ ==> entry_at(final(self).files@, p) == entry_at(old(self).files@, p),
            final(self).dirs@ == old(self).dirs@,
            final(self).canonical@ == old(self).canonical@,
    {
        let ghost before = self.files@;
        self.files.push((path, contents));
        assert(self.files@.drop_last() =~= before);
    }

    /// Records a directory.
    pub fn add_dir(&mut self, path: RepoPath)
        ensures
            !is_empty_path(path@) ==> final(self).is_dir_at(path@),
            final(self).files@ == old(self).files@,
            final(self).canonical@ == old(self).canonical@,
            final(self).dirs@ == old(self).dirs@.push(path),
    {
        self.dirs.push(path);
        assert(path_under(self.dirs@[self.dirs@.len() - 1]@, path@)) by {
            assert(path@.1.take(path@.1.len() as int) =~= path@.1);
        }
    }

    /// Records the canonical form of a path.
    pub fn add_canonical(&mut self, path: RepoPath, form: RepoPath)
        ensures
            final(self).canonical_at(path@) == form@,
            forall|text: Seq<char>| #[trigger]
                final(self).canonical_text_at(path@, text) == form.text@,
            forall|p: PathModel|
                p != path@ ==> #[trigger] final(self).canonical_at(p) == old(self).canonical_at(p),
            forall|p: PathModel, text: Seq<char>|
                p != path@ ==> #[trigger] final(self).canonical_text_at(p, text) == old(
                    self,
                ).canonical_text_at(p, text),
            final(self).files@ == old(self).files@,
            final(self).dirs@ == old(self).dirs@,
            old(self).wf() && form.wf() ==> final(self).wf(),
    {
        let ghost before = self.canonical@;
        self.canonical.push((path, form));
        assert(self.canonical@.drop_last() =~= before);
    }

    /// Whether there is a file at `p`.
    pub fn is_file(&self, p: &RepoPath) -> (r: bool)
        ensures
            r == self.is_file_at(p@),
    {
        let mut i: usize = self.files.len();
        assert(self.files@.take(i as int) =~= self.files@);
        while i > 0
            invariant
                i <= self.files@.len(),
                entry_at(self.files@, p@) == entry_at(self.files@.take(i as int), p@),
            decreases i,
        {
            proof {
                assert(self.files@.take(i as int).drop_last() =~= self.files@.take(i - 1));
            }
            if self.files[i - 1].0.same(p) {
                return true;
            }
            i -= 1;
        }
        false
    }

    /// The text of the file at `p`.
    pub fn text(&self, p: &RepoPath) -> (r: Option<String>)
        ensures
            opt_view(r) == self.text_at(p@),
    {
        let mut i: usize = self.files.len();
        assert(self.files@.take(i as int) =~= self.files@);
        while i > 0
            invariant
                i <= self.files@.len(),
                entry_at(self.files@, p@) == entry_at(self.files@.take(i as int), p@),
            decreases i,
        {
            proof {
                assert(self.files@.take(i as int).drop_last() =~= self.files@.take(i - 1));
            }
            if self.files[i - 1].0.same(p) {
                return crate::text::clone_opt(&self.files[i - 1].1);
            }
            i -= 1;
        }
        None
    }

    /// Whether there is a directory at `p`.
    pub fn is_dir(&self, p: &RepoPath) -> (r: bool)
        ensures
            r == self.is_dir_at(p@),
    {
        if !p.absolute && p.parts.len() == 0 {
            assert(is_empty_path(p@));
            return false;
        }
        assert(p@.1.len() == p.parts@.len());
        let mut i: usize = 0;
        while i < self.dirs.len()
            invariant
                i <= self.dirs@.len(),
                !is_empty_path(p@),
                forall|j: int| 0 <= j < i ==> !path_under((#[trigger] self.dirs@[j])@, p@),
            decreases self.dirs@.len() - i,
        {
            if self.dirs[i].is_under(p) {
                return true;
            }
            i += 1;
        }
        let mut k: usize = 0;
        while k < self.files.len()
            invariant
                k <= self.files@.len(),
                !is_empty_path(p@),
                forall|j: int|
                    0 <= j < k ==> !(path_under((#[trigger] self.files@[j]).0@, p@)
                        && self.files@[j].0@ != p@),
            decreases self.files@.len() - k,
        {
            if self.files[k].0.is_under(p) && !self.files[k].0.same(p) {
                return true;
            }
            k += 1;
        }
        false
    }

    /// The canonical form of `p`, or `p` itself where none was recorded.
    pub fn canonicalize(&self, p: &RepoPath) -> (r: RepoPath)
        ensures
            r@ == self.canonical_at(p@),
            r.text@ == self.canonical_text_at(p@, p.text@),
            p.wf() && self.wf() ==> r.wf(),
    {
        let mut i: usize = self.canonical.len();
        assert(self.canonical@.take(i as int) =~= self.canonical@);
        while i > 0
            invariant
                i <= self.canonical@.len(),
                canonical_of(self.canonical@, p@) == canonical_of(
                    self.canonical@.take(i as int),
                    p@,
                ),
                canonical_text_of(self.canonical@, p@, p.text@) == canonical_text_of(
                    self.canonical@.take(i as int),
                    p@,
                    p.text@,
                ),
            decreases i,
        {
            proof {
                assert(self.canonical@.take(i as int).drop_last() =~= self.canonical@.take(i - 1));
            }
            if self.canonical[i - 1].0.same(p) {
                return self.canonical[i - 1].1.copy();
            }
            i -= 1;
        }
        p.copy()
    }
}

/// Whether the directory at `p` holds a `HEAD` file.
pub open spec fn git_dir_at(files: FileSnapshot, p: PathModel) -> bool {
    files.is_file_at(path_child(p, "HEAD"@))
}

/// Whether `p` is where a worktree starts: its `.git` is a git directory, or a file.
pub open spec fn worktree_starts_at(files: FileSnapshot, p: PathModel) -> bool {
    let dot_git = path_child(p, ".git"@);
    git_dir_at(files, dot_git) || files.is_file_at(dot_git)
}

/// The nearest directory at or above `p` where a worktree starts.
pub open spec fn worktree_root_of(files: FileSnapshot, p: PathModel) -> Option<PathModel>
    decreases p.1.len(),
{
    if worktree_starts_at(files, p) {
        Some(p)
    } else if p.1.len() == 0 {
        None
    } else {
        worktree_root_of(files, (p.0, p.1.drop_last()))
    }
}

/// The text of the nearest directory at or above `p` where a worktree starts; `text` is
/// that of `p`.
pub open spec fn worktree_root_text(files: FileSnapshot, p: PathModel, text: Seq<char>) -> Seq<char>
    decreases p.1.len(),
{
    if worktree_starts_at(files, p) || p.1.len() == 0 {
        text
    } else {
        worktree_root_text(files, (p.0, p.1.drop_last()), parent_text(text))
    }
}

/// The path behind `gitdir:` in the text of a `.git` file.
pub open spec fn gitdir_pointer(text: Seq<char>) -> Option<Seq<char>> {
    match strip_prefix_of(text, "gitdir:"@) {
        Some(rest) => Some(trim_of(rest)),
        None => None,
    }
}

/// The git directory of the worktree that `p` lies in.
pub open spec fn git_dir_of(files: FileSnapshot, p: PathModel) -> Option<PathModel> {
    match worktree_root_of(files, p) {
        None => None,
        Some(root) => {
            let dot_git = path_child(root, ".git"@);
            if files.is_dir_at(dot_git) {
                Some(dot_git)
            } else {
                match files.text_at(dot_git) {
                    None => None,
                    Some(text) => match gitdir_pointer(text) {
                        None => None,
                        Some(pointer) => Some(path_join(root, path_of(pointer))),
                    },
                }
            }
        },
    }
}

/// The common directory behind a git directory: the one that holds `worktrees`
/// for a linked worktree, and the git directory itself otherwise.
pub open spec fn common_dir_of(git_dir: PathModel) -> Option<PathModel> {
    match path_parent(git_dir) {
        None => None,
        Some(parent) => if path_file_name(parent) == Some("worktrees"@) {
            path_parent(parent)
        } else {
            Some(git_dir)
        },
    }
}

/// The common directory of the repository that `p` lies in, or is a part of.
pub open spec fn repo_common_dir_of(files: FileSnapshot, p: PathModel) -> Option<PathModel> {
    let by_worktree = match git_dir_of(files, p) {
        Some(git_dir) => common_dir_of(git_dir),
        None => None,
    };
    if by_worktree is Some {
        by_worktree
    } else if files.is_dir_at(p) && git_dir_at(files, p) {
        common_dir_of(p)
    } else if path_file_name(p) == Some(".git"@) && files.is_file_at(p) {
        match files.text_at(p) {
            None => None,
            Some(text) => match gitdir_pointer(text) {
                None => None,
                Some(pointer) => if path_of(pointer).0 {
                    common_dir_of(path_of(pointer))
                } else {
                    match path_parent(p) {
                        None => None,
                        Some(parent) => common_dir_of(path_join(parent, path_of(pointer))),
                    }
                },
            },
        }
    } else {
        None
    }
}

/// Every linked worktree of a repository leads back to the repository's common directory.
pub proof fn law_linked_worktrees_share_the_common_dir(common_dir: PathModel, name: Seq<char>)
    ensures
        common_dir_of(path_child(path_child(common_dir, "worktrees"@), name)) == Some(common_dir),
{
    let linked = path_child(path_child(common_dir, "worktrees"@), name);
    assert(linked.1.drop_last() =~= path_child(common_dir, "worktrees"@).1);
    assert(path_child(common_dir, "worktrees"@).1.drop_last() =~= common_dir.1);
    reveal_strlit("worktrees");
    reveal_strlit("..");
    reveal_strlit(".");
    assert("worktrees"@.len() == 9 && ".."@.len() == 2 && "."@.len() == 1);
}

/// The worktree that is found for a directory is found for everything below it
/// down to the next worktree.
pub proof fn law_worktree_root_is_inherited(files: FileSnapshot, p: PathModel, name: Seq<char>)
    requires
        !worktree_starts_at(files, path_child(p, name)),
    ensures
        worktree_root_of(files, path_child(p, name)) == worktree_root_of(files, p),
{
    assert(path_child(p, name).1.drop_last() =~= p.1);
}

/// Whether the directory holds the one file that every git directory has.
pub fn is_valid_git_dir(path: &RepoPath, files: &FileSnapshot) -> (r: bool)
    ensures
        r == git_dir_at(*files, path@),
{
    files.is_file(&path.child("HEAD"))
}

/// The nearest directory at or above `path` where a worktree starts.
pub fn worktree_root_for_path(path: &RepoPath, files: &FileSnapshot) -> (r: Option<RepoPath>)
    ensures
        r is Some <==> worktree_root_of(*files, path@) is Some,
        r is Some ==> r->0@ == worktree_root_of(*files, path@)->0 && r->0.text@
            == worktree_root_text(*files, path@, path.text@),
        r is Some && path.wf() ==> r->0.wf(),
{
    let mut candidate = path.copy();
    loop
        invariant
            worktree_root_of(*files, path@) == worktree_root_of(*files, candidate@),
            worktree_root_text(*files, path@, path.text@) == worktree_root_text(
                *files,
                candidate@,
                candidate.text@,
            ),
            path.wf() ==> candidate.wf(),
        decreases candidate@.1.len(),
    {
        let dot_git = candidate.child(".git");
        if is_valid_git_dir(&dot_git, files) || files.is_file(&dot_git) {
            return Some(candidate);
        }
        match candidate.parent() {
            Some(parent) => {
                candidate = parent;
            },
            None => {
                return None;
            },
        }
    }
}

fn pointer_in(text: &str) -> (r: Option<RepoPath>)
    ensures
        r is Some <==> gitdir_pointer(text@) is Some,
        r is Some ==> r->0@ == path_of(gitdir_pointer(text@)->0) && r->0.wf(),
{
    match strip_prefix(text, "gitdir:") {
        Some(rest) => Some(RepoPath::parse(trim(rest.as_str()).as_str())),
        None => None,
    }
}

/// The git directory of the worktree that `worktree` lies in.
pub fn git_dir_for_worktree(worktree: &RepoPath, files: &FileSnapshot) -> (r: Option<RepoPath>)
    ensures
        r is Some <==> git_dir_of(*files, worktree@) is Some,
        r is Some ==> r->0@ == git_dir_of(*files, worktree@)->0,
        r is Some && worktree.wf() ==> r->0.wf(),
{
    match worktree_root_for_path(worktree, files) {
        None => None,
        Some(root) => {
            proof {
                lemma_own_names_are_plain();
            }
            let dot_git = root.child(".git");
            if files.is_dir(&dot_git) {
                return Some(dot_git);
            }
            match files.text(&dot_git) {
                None => None,
                Some(contents) => match pointer_in(contents.as_str()) {
                    None => None,
                    Some(candidate) => Some(root.join(&candidate)),
                },
            }
        },
    }
}

/// The common directory behind a git directory.
pub fn common_dir_for_git_dir(git_dir: &RepoPath) -> (r: Option<RepoPath>)
    ensures
        r is Some <==> common_dir_of(git_dir@) is Some,
        r is Some ==> r->0@ == common_dir_of(git_dir@)->0,
        r is Some && git_dir.wf() ==> r->0.wf(),
{
    match git_dir.parent() {
        None => None,
        Some(parent) => {
            if crate::text::opt_is(&parent.file_name(), "worktrees") {
                parent.parent()
            } else {
                Some(git_dir.copy())
            }
        },
    }
}

/// The common directory of the worktree that `worktree` lies in.
pub fn common_dir_for_worktree(worktree: &RepoPath, files: &FileSnapshot) -> (r: Option<RepoPath>)
    ensures
        r is Some <==> (git_dir_of(*files, worktree@) is Some && common_dir_of(
            git_dir_of(*files, worktree@)->0,
        ) is Some),
        r is Some ==> r->0@ == common_dir_of(git_dir_of(*files, worktree@)->0)->0,
        r is Some && worktree.wf() ==> r->0.wf(),
{
    match git_dir_for_worktree(worktree, files) {
        None => None,
        Some(git_dir) => common_dir_for_git_dir(&git_dir),
    }
}

/// The common directory of the repository that `path` lies in, or is a part of:
/// a worktree, a git directory, or a `.git` file.
pub fn common_dir_for_repo_path(path: &RepoPath, files: &FileSnapshot) -> (r: Option<RepoPath>)
    ensures
        r is Some <==> repo_common_dir_of(*files, path@) is Some,
        r is Some ==> r->0@ == repo_common_dir_of(*files, path@)->0,
        r is Some && path.wf() ==> r->0.wf(),
{
    match common_dir_for_worktree(path, files) {
        Some(common_dir) => {
            return Some(common_dir);
        },
        None => {},
    }
    if files.is_dir(path) && is_valid_git_dir(path, files) {
        return common_dir_for_git_dir(path);
    }
    if crate::text::opt_is(&path.file_name(), ".git") && files.is_file(path) {
        let contents = match files.text(path) {
            Some(contents) => contents,
            None => {
                return None;
            },
        };
        let candidate = match pointer_in(contents.as_str()) {
            Some(candidate) => candidate,
            None => {
                return None;
            },
        };
        if candidate.is_absolute() {
            return common_dir_for_git_dir(&candidate);
        }
        return match path.parent() {
            Some(parent) => common_dir_for_git_dir(&parent.join(&candidate)),
            None => None,
        };
    }
    None
}

/// The worktree that the git directory `git_dir` was registered for: the
/// directory of the `.git` that its `gitdir` file points at, while it exists.
pub open spec fn linked_worktree_of(files: FileSnapshot, git_dir: PathModel) -> Option<PathModel> {
    match files.text_at(path_child(git_dir, "gitdir"@)) {
        None => None,
        Some(text) => match path_parent(path_join(git_dir, path_of(trim_of(text)))) {
            None => None,
            Some(worktree) => if files.is_dir_at(worktree) {
                Some(worktree)
            } else {
                None
            },
        },
    }
}

/// The linked worktrees under the given names, in the order of the names.
pub open spec fn linked_worktrees_of(
    files: FileSnapshot,
    registry: PathModel,
    names: Seq<Seq<char>>,
) -> Seq<(PathModel, PathModel)>
    decreases names.len(),
{
    if names.len() == 0 {
        Seq::empty()
    } else {
        let before = linked_worktrees_of(files, registry, names.drop_last());
        let git_dir = path_child(registry, names.last());
        match linked_worktree_of(files, git_dir) {
            Some(worktree) => before.push((git_dir, worktree)),
            None => before,
        }
    }
}

/// Whether a repository is bare.
pub open spec fn is_bare(config: CoreConfig) -> bool {
    match opt_view(config.bare) {
        Some(bare) => same_ignoring_ascii_case(bare, "true"@),
        None => false,
    }
}

/// The main worktree of a common directory: the parent of a directory named
/// `.git`, or what `core.worktree` points at. A bare repository has none.
pub open spec fn main_worktree_of(
    files: FileSnapshot,
    config: CoreConfig,
    common_dir: PathModel,
) -> Option<PathModel> {
    let main = if is_bare(config) {
        None
    } else if path_file_name(common_dir) == Some(".git"@) {
        path_parent(common_dir)
    } else {
        match opt_view(config.worktree) {
            Some(worktree) => Some(path_join(common_dir, path_of(worktree))),
            None => None,
        }
    };
    if main is Some && files.is_dir_at(main->0) {
        main
    } else {
        None
    }
}

/// A bare repository has no main worktree, wherever its directory lies.
pub proof fn law_bare_repositories_have_no_main_worktree(
    files: FileSnapshot,
    config: CoreConfig,
    common_dir: PathModel,
)
    requires
        is_bare(config),
    ensures
        main_worktree_of(files, config, common_dir) is None,
{
}

/// The pairs of paths that a list of pairs stands for.
pub open spec fn pair_views(v: Seq<(RepoPath, RepoPath)>) -> Seq<(PathModel, PathModel)> {
    v.map_values(|e: (RepoPath, RepoPath)| (e.0@, e.1@))
}

/// Whether both paths of every pair are well formed.
pub open spec fn pairs_wf(v: Seq<(RepoPath, RepoPath)>) -> bool {
    forall|i: int| 0 <= i < v.len() ==> (#[trigger] v[i]).0.wf() && v[i].1.wf()
}

/// Whether every name is plain, as those in a listed directory are.
pub open spec fn all_plain(names: Seq<Seq<char>>) -> bool {
    forall|i: int| 0 <= i < names.len() ==> plain_name(#[trigger] names[i])
}

/// The main worktree of a common directory.
pub fn main_worktree_for_common_dir(
    common_dir: &RepoPath,
    files: &FileSnapshot,
    config: &CoreConfig,
) -> (r: Option<RepoPath>)
    ensures
        r is Some <==> main_worktree_of(*files, *config, common_dir@) is Some,
        r is Some ==> r->0@ == main_worktree_of(*files, *config, common_dir@)->0,
        r is Some && common_dir.wf() ==> r->0.wf(),
{
    if let Some(bare) = &config.bare {
        if eq_ignore_ascii_case(bare.as_str(), "true") {
            return None;
        }
    }
    if crate::text::opt_is(&common_dir.file_name(), ".git") {
        return match common_dir.parent() {
            Some(main) => if files.is_dir(&main) {
                Some(main)
            } else {
                None
            },
            None => None,
        };
    }
    match &config.worktree {
        Some(worktree) => {
            let main = common_dir.join(&RepoPath::parse(worktree.as_str()));
            if files.is_dir(&main) {
                Some(main)
            } else {
                None
            }
        },
        None => None,
    }
}

proof fn lemma_sorted_names_stay_plain(names: Seq<Seq<char>>, listed: Seq<Seq<char>>)
    requires
        names.to_multiset() == listed.to_multiset(),
        all_plain(listed),
    ensures
        all_plain(names),
{
    names.to_multiset_ensures();
    listed.to_multiset_ensures();
    assert forall|i: int| 0 <= i < names.len() implies plain_name(#[trigger] names[i]) by {
        assert(names.contains(names[i]));
        assert(listed.to_multiset().count(names[i]) > 0);
        let j = listed.index_of(names[i]);
        assert(plain_name(listed[j]));
    }
}

/// Every worktree of a repository as `(git_dir, worktree)` pairs: the main
/// worktree unless the repository is bare, then the linked ones in the order of
/// their names. `registered` holds the names under the common directory's
/// `worktrees`, when it could be listed.
pub fn worktrees_for_common_dir(
    common_dir: &RepoPath,
    files: &FileSnapshot,
    config: &CoreConfig,
    registered: &Option<Vec<String>>,
) -> (r: Vec<(RepoPath, RepoPath)>)
    ensures
        exists|names: Seq<Seq<char>>|
            #![trigger in_order(names)]
            {
                &&& in_order(names)
                &&& names.to_multiset() == (match *registered {
                    Some(listed) => views(listed@),
                    None => Seq::empty(),
                }).to_multiset()
                &&& pair_views(r@) == (match main_worktree_of(*files, *config, common_dir@) {
                    Some(main) => seq![(common_dir@, main)],
                    None => Seq::empty(),
                }) + linked_worktrees_of(*files, path_child(common_dir@, "worktrees"@), names)
            },
        common_dir.wf() && (registered is Some ==> all_plain(views((*registered)->0@)))
            ==> pairs_wf(r@),
{
    let mut out: Vec<(RepoPath, RepoPath)> = Vec::new();
    match main_worktree_for_common_dir(common_dir, files, config) {
        Some(main) => {
            out.push((common_dir.copy(), main));
        },
        None => {},
    }
    let ghost head = pair_views(out@);
    assert(head =~= match main_worktree_of(*files, *config, common_dir@) {
        Some(main) => seq![(common_dir@, main)],
        None => Seq::empty(),
    });
    let registry = common_dir.child("worktrees");
    let ghost sound = common_dir.wf() && (registered is Some ==> all_plain(
        views((*registered)->0@),
    ));
    proof {
        lemma_own_names_are_plain();
    }
    let names: Vec<String> = match registered {
        Some(listed) => sort_strings(listed),
        None => {
            let none: Vec<String> = Vec::new();
            assert(views(none@) =~= Seq::<Seq<char>>::empty());
            none
        },
    };
    let ghost all = views(names@);
    proof {
        if sound {
            lemma_sorted_names_stay_plain(all, match registered {
                Some(listed) => views(listed@),
                None => Seq::empty(),
            });
        }
    }
    let mut i: usize = 0;
    assert(all.take(0) =~= Seq::<Seq<char>>::empty());
    assert(pair_views(out@) =~= head + linked_worktrees_of(*files, registry@, all.take(0)));
    while i < names.len()
        invariant
            i <= names.len(),
            all == views(names@),
            sound ==> registry.wf() && all_plain(all) && pairs_wf(out@),
            pair_views(out@) == head + linked_worktrees_of(*files, registry@, all.take(i as int)),
        decreases names.len() - i,
    {
        let ghost before = pair_views(out@);
        proof {
            assert(all.take(i + 1).drop_last() =~= all.take(i as int));
            assert(all.take(i + 1).last() == names@[i as int]@);
            assert(all[i as int] == names@[i as int]@);
        }
        let git_dir = registry.child(names[i].as_str());
        match files.text(&git_dir.child("gitdir")) {
            None => {},
            Some(text) => {
                let dot_git = git_dir.join(&RepoPath::parse(trim(text.as_str()).as_str()));
                match dot_git.parent() {
                    None => {},
                    Some(worktree) => {
                        if files.is_dir(&worktree) {
                            let ghost pair = (git_dir@, worktree@);
                            out.push((git_dir, worktree));
                            assert(pair_views(out@) =~= before.push(pair));
                            assert(pair_views(out@) =~= head + linked_worktrees_of(
                                *files,
                                registry@,
                                all.take(i as int),
                            ).push(pair));
                        }
                    },
                }
            },
        }
        i += 1;
    }
    assert(all.take(all.len() as int) =~= all);
    assert(in_order(all));
    out
}

/// Whether `worktree` is still the worktree whose git directory is `git_dir`,
/// by the canonical forms of the paths.
pub fn worktree_belongs_to_git_dir(
    worktree: &RepoPath,
    git_dir: &RepoPath,
    files: &FileSnapshot,
) -> (r: bool)
    ensures
        r == (git_dir_of(*files, worktree@) is Some && files.canonical_at(
            git_dir_of(*files, worktree@)->0,
        ) == files.canonical_at(git_dir@)),
{
    match git_dir_for_worktree(worktree, files) {
        Some(resolved) => files.canonicalize(&resolved).same(&files.canonicalize(git_dir)),
        None => false,
    }
}

/// The state that a `HEAD` of this kind stands for: a ref under `refs/heads/`
/// is a branch; anything else is detached.
pub open spec fn head_state_of(kind: HeadKind, resolved: Option<Seq<char>>) -> (
    Option<Seq<char>>,
    Option<Seq<char>>,
    bool,
) {
    match kind {
        HeadKind::Symbolic(refname) => {
            let branch = strip_prefix_of(refname@, "refs/heads/"@);
            (resolved, branch, branch is None)
        },
        HeadKind::Detached(oid) => (Some(oid@), None, true),
    }
}

/// The state that a `HEAD` of this kind stands for.
pub fn head_state(kind: &HeadKind, resolved: &Option<String>) -> (r: HeadState)
    ensures
        (opt_view(r.head), opt_view(r.branch), r.detached) == head_state_of(
            *kind,
            opt_view(*resolved),
        ),
{
    match kind {
        HeadKind::Symbolic(refname) => {
            let branch = strip_prefix(refname.as_str(), "refs/heads/");
            let detached = branch.is_none();
            HeadState { head: crate::text::clone_opt(resolved), branch, detached }
        },
        HeadKind::Detached(oid) => HeadState {
            head: Some(oid.clone()),
            branch: None,
            detached: true,
        },
    }
}

/// The git directory and the common directory whose refs hold the head of the
/// worktree that `worktree` lies in.
pub fn ref_dirs_for_worktree(worktree: &RepoPath, files: &FileSnapshot) -> (r: Option<
    (RepoPath, RepoPath),
>)
    ensures
        r is Some <==> (git_dir_of(*files, worktree@) is Some && common_dir_of(
            git_dir_of(*files, worktree@)->0,
        ) is Some),
        r is Some ==> (r->0).0@ == git_dir_of(*files, worktree@)->0 && (r->0).1@ == common_dir_of(
            (r->0).0@,
        )->0,
        r is Some && worktree.wf() ==> (r->0).0.wf() && (r->0).1.wf(),
{
    match git_dir_for_worktree(worktree, files) {
        None => None,
        Some(git_dir) => match common_dir_for_git_dir(&git_dir) {
            None => None,
            Some(common_dir) => Some((git_dir, common_dir)),
        },
    }
}

/// What the `HEAD` of the worktree that `worktree` lies in says, given what was
/// read through the refs of its git directory.
pub fn read_head_state_for_worktree(
    worktree: &RepoPath,
    files: &FileSnapshot,
    reading: &HeadReading,
) -> (r: Option<HeadState>)
    ensures
        r is Some <==> (reading.head is Some && git_dir_of(*files, worktree@) is Some
            && common_dir_of(git_dir_of(*files, worktree@)->0) is Some),
        r is Some ==> (opt_view(r->0.head), opt_view(r->0.branch), r->0.detached) == head_state_of(
            reading.head->0,
            opt_view(reading.resolved),
        ),
{
    match ref_dirs_for_worktree(worktree, files) {
        None => None,
        Some(_) => match &reading.head {
            None => None,
            Some(kind) => Some(head_state(kind, &reading.resolved)),
        },
    }
}

} // verus!
