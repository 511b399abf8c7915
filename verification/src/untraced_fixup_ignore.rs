//! Repositories that the fixup of untraced commits leaves alone: those in
//! directories for temporary files, and those that a configured glob matches.
use crate::paths::{path_child, path_of, path_under, PathModel, RepoPath};
use crate::text::{chars_of, comes_before, lemma_str_less_total, lemma_str_less_transitive, str_less, views};
use vstd::prelude::*;

verus! {

/// What a glob says of a text: nothing when it is not a glob, and otherwise
/// whether the text matches it.
pub uninterp spec fn glob_result(pattern: Seq<char>, text: Seq<char>) -> Option<bool>;

/// `glob::Pattern::matches` for the pattern that `glob::Pattern::new` makes of
/// `pattern`: whether `text` matches it, and nothing when it is no pattern. The
/// result depends on the two texts alone.
#[verifier::external_body]
fn glob_matches(pattern: &str, text: &str) -> (r: Option<bool>)
    ensures
        r == glob_result(pattern@, text@),
{
    glob::Pattern::new(pattern).ok().map(|compiled| compiled.matches(text))
}

/// Where temporary repositories live, and the globs of further ones.
pub struct UntracedFixupIgnore {
    temp_roots: Vec<RepoPath>,
    patterns: Vec<String>,
}

/// The places of temporary files on the machine.
pub struct TempLocations {
    pub process_temp_dir: RepoPath,
    pub unix: bool,
    pub macos: bool,
    pub windows_temp_dirs: Vec<RepoPath>,
    pub windows_local_app_data: Option<RepoPath>,
}

/// Lexicographic order of component lists.
pub open spec fn parts_less(a: Seq<Seq<char>>, b: Seq<Seq<char>>) -> bool
    decreases a.len(),
{
    if b.len() == 0 {
        false
    } else if a.len() == 0 {
        true
    } else if a[0] != b[0] {
        str_less(a[0], b[0])
    } else {
        parts_less(a.skip(1), b.skip(1))
    }
}

/// The order of paths: one that starts at the root comes before one that does
/// not, and otherwise the components decide.
pub open spec fn path_less(a: PathModel, b: PathModel) -> bool {
    if a.0 != b.0 {
        a.0
    } else {
        parts_less(a.1, b.1)
    }
}

proof fn lemma_parts_less_total(a: Seq<Seq<char>>, b: Seq<Seq<char>>)
    ensures
        parts_less(a, b) || parts_less(b, a) || a == b,
        !(parts_less(a, b) && parts_less(b, a)),
        a == b ==> !parts_less(a, b),
    decreases a.len(),
{
    if a.len() > 0 && b.len() > 0 {
        lemma_str_less_total(a[0], b[0]);
        if a[0] == b[0] {
            lemma_parts_less_total(a.skip(1), b.skip(1));
            if a.skip(1) == b.skip(1) {
                assert(a =~= seq![a[0]] + a.skip(1));
                assert(b =~= seq![b[0]] + b.skip(1));
            }
        }
    } else if a.len() == 0 && b.len() == 0 {
        assert(a =~= b);
    }
}

proof fn lemma_parts_less_transitive(
    a: Seq<Seq<char>>,
    b: Seq<Seq<char>>,
    c: Seq<Seq<char>>,
)
    requires
        parts_less(a, b),
        parts_less(b, c),
    ensures
        parts_less(a, c),
    decreases a.len(),
{
    if a.len() > 0 && b.len() > 0 && c.len() > 0 {
        if a[0] == b[0] && b[0] == c[0] {
            lemma_parts_less_transitive(a.skip(1), b.skip(1), c.skip(1));
        } else if a[0] != b[0] && b[0] != c[0] {
            lemma_str_less_transitive(a[0], b[0], c[0]);
            lemma_str_less_total(a[0], b[0]);
            lemma_str_less_total(a[0], c[0]);
        }
    }
}

proof fn lemma_path_less_total(a: PathModel, b: PathModel)
    ensures
        path_less(a, b) || path_less(b, a) || a == b,
        !(path_less(a, b) && path_less(b, a)),
        a == b ==> !path_less(a, b),
{
    lemma_parts_less_total(a.1, b.1);
}

proof fn lemma_path_less_transitive(a: PathModel, b: PathModel, c: PathModel)
    requires
        path_less(a, b),
        path_less(b, c),
    ensures
        path_less(a, c),
{
    if a.0 == b.0 && b.0 == c.0 {
        lemma_parts_less_transitive(a.1, b.1, c.1);
    }
}

proof fn lemma_parts_step(a: Seq<Seq<char>>, b: Seq<Seq<char>>, i: int)
    requires
        0 <= i < a.len(),
        i < b.len(),
        a[i] == b[i],
    ensures
        parts_less(a.skip(i), b.skip(i)) == parts_less(a.skip(i + 1), b.skip(i + 1)),
{
    assert(a.skip(i).skip(1) =~= a.skip(i + 1));
    assert(b.skip(i).skip(1) =~= b.skip(i + 1));
}

fn path_before(a: &RepoPath, b: &RepoPath) -> (r: bool)
    ensures
        r == path_less(a@, b@),
{
    if a.absolute != b.absolute {
        return a.absolute;
    }
    let ghost x = views(a.parts@);
    let ghost y = views(b.parts@);
    let mut i: usize = 0;
    assert(x.skip(0) =~= x);
    assert(y.skip(0) =~= y);
    while i < a.parts.len() && i < b.parts.len() && crate::text::str_eq(
        a.parts[i].as_str(),
        b.parts[i].as_str(),
    )
        invariant
            i <= a.parts.len(),
            i <= b.parts.len(),
            x == views(a.parts@),
            y == views(b.parts@),
            parts_less(x, y) == parts_less(x.skip(i as int), y.skip(i as int)),
        decreases a.parts.len() - i,
    {
        proof {
            lemma_parts_step(x, y, i as int);
        }
        i += 1;
    }
    if i >= b.parts.len() {
        false
    } else if i >= a.parts.len() {
        true
    } else {
        comes_before(a.parts[i].as_str(), b.parts[i].as_str())
    }
}

/// The paths that a list of paths stands for.
pub open spec fn path_views(v: Seq<RepoPath>) -> Seq<PathModel> {
    v.map_values(|p: RepoPath| p@)
}

/// The paths that were found, of a list in which some were not.
pub open spec fn found(v: Seq<Option<RepoPath>>, p: PathModel) -> bool {
    exists|i: int| 0 <= i < v.len() && #[trigger] v[i] is Some && v[i]->0@ == p
}

/// Every backslash made a slash.
pub open spec fn posix_of(s: Seq<char>) -> Seq<char> {
    s.map_values(
        |c: char|
            if c == '\\' {
                '/'
            } else {
                c
            },
    )
}

/// Every backslash made a slash.
pub fn normalize_to_posix(s: &str) -> (r: String)
    ensures
        r@ == posix_of(s@),
{
    let cs = chars_of(s);
    let mut out: String = String::new();
    let mut i: usize = 0;
    proof {
        reveal_strlit("/");
    }
    while i < cs.len()
        invariant
            i <= cs.len(),
            cs@ == s@,
            "/"@.len() == 1,
            "/"@[0] == '/',
            out@ == posix_of(s@).take(i as int),
        decreases cs.len() - i,
    {
        if cs[i] == '\\' {
            out.append("/");
        } else {
            out.append(s.substring_char(i, i + 1));
        }
        assert(out@ =~= posix_of(s@).take(i + 1));
        i += 1;
    }
    assert(posix_of(s@).take(s@.len() as int) =~= posix_of(s@));
    out
}

impl UntracedFixupIgnore {
    /// The roots, in order.
    pub closed spec fn roots(self) -> Seq<PathModel> {
        path_views(self.temp_roots@)
    }

    /// The globs.
    pub closed spec fn globs(self) -> Seq<Seq<char>> {
        views(self.patterns@)
    }

    /// Whether a family's common directory is ignored: it lies under a root,
    /// component by component, or a glob matches its text.
    pub open spec fn ignored(self, common_dir: Seq<char>) -> bool {
        ||| exists|i: int|
            0 <= i < self.roots().len() && path_under(path_of(common_dir), #[trigger] self.roots()[i])
        ||| exists|i: int|
            0 <= i < self.globs().len() && glob_result(
                #[trigger] self.globs()[i],
                posix_of(common_dir),
            ) == Some(true)
    }

    /// `ignore_temp_repos` says whether repositories under `default_roots` are ignored.
    pub fn from_config(
        ignore_temp_repos: bool,
        default_roots: Vec<Option<RepoPath>>,
        patterns: Vec<String>,
    ) -> (r: UntracedFixupIgnore)
        ensures
            forall|p: PathModel| #[trigger]
                r.roots().contains(p) <==> (ignore_temp_repos && found(default_roots@, p)),
            forall|i: int, j: int|
                0 <= i < j < r.roots().len() ==> path_less(
                    #[trigger] r.roots()[i],
                    #[trigger] r.roots()[j],
                ),
            r.globs() == views(patterns@),
    {
        if ignore_temp_repos {
            UntracedFixupIgnore::new(default_roots, patterns)
        } else {
            UntracedFixupIgnore::new(Vec::new(), patterns)
        }
    }

    /// `temp_roots` holds the canonical form of every root that exists. Each is
    /// kept once, in order.
    pub fn new(temp_roots: Vec<Option<RepoPath>>, patterns: Vec<String>) -> (r: UntracedFixupIgnore)
        ensures
            forall|p: PathModel| #[trigger] r.roots().contains(p) <==> found(temp_roots@, p),
            forall|i: int, j: int|
                0 <= i < j < r.roots().len() ==> path_less(
                    #[trigger] r.roots()[i],
                    #[trigger] r.roots()[j],
                ),
            r.globs() == views(patterns@),
    {
        let mut roots: Vec<RepoPath> = Vec::new();
        let mut i: usize = 0;
        while i < temp_roots.len()
            invariant
                i <= temp_roots.len(),
                forall|p: PathModel| #[trigger]
                    path_views(roots@).contains(p) <==> found(temp_roots@.take(i as int), p),
                forall|a: int, b: int|
                    0 <= a < b < roots@.len() ==> path_less(
                        (#[trigger] roots@[a])@,
                        (#[trigger] roots@[b])@,
                    ),
            decreases temp_roots.len() - i,
        {
            let ghost before = roots@;
            let ghost seen = temp_roots@.take(i as int);
            let ghost more = temp_roots@.take(i + 1);
            assert forall|p: PathModel| #[trigger]
                found(more, p) == (found(seen, p) || (temp_roots@[i as int] is Some
                    && temp_roots@[i as int]->0@ == p)) by {
                if found(seen, p) {
                    let j = choose|j: int|
                        0 <= j < seen.len() && #[trigger] seen[j] is Some && seen[j]->0@ == p;
                    assert(more[j] == seen[j]);
                }
                if found(more, p) {
                    let j = choose|j: int|
                        0 <= j < more.len() && #[trigger] more[j] is Some && more[j]->0@ == p;
                    if j < i {
                        assert(seen[j] == more[j]);
                    }
                }
                assert(more[i as int] == temp_roots@[i as int]);
            }
            match &temp_roots[i] {
                None => {},
                Some(root) => {
                    let mut at: usize = 0;
                    while at < roots.len() && path_before(&roots[at], root)
                        invariant
                            at <= roots.len(),
                            roots@ == before,
                            forall|j: int|
                                0 <= j < at ==> path_less((#[trigger] before[j])@, root@),
                        decreases roots.len() - at,
                    {
                        at += 1;
                    }
                    if at < roots.len() && roots[at].same(root) {
                        assert(path_views(before)[at as int] == root@);
                    } else {
                        assert forall|j: int| at <= j < before.len() implies path_less(
                            root@,
                            (#[trigger] before[j])@,
                        ) by {
                            lemma_path_less_total(before[at as int]@, root@);
                            if at < j {
                                lemma_path_less_transitive(root@, before[at as int]@, before[j]@);
                            }
                        }
                        roots.insert(at, root.copy());
                        let ghost after = roots@;
                        assert forall|p: PathModel| #[trigger]
                            path_views(after).contains(p) == (path_views(before).contains(p) || p
                                == root@) by {
                            if path_views(before).contains(p) {
                                let j = path_views(before).index_of(p);
                                let k = if j < at { j } else { j + 1 };
                                assert(after[k] == before[j]);
                                assert(path_views(after)[k] == p);
                            }
                            assert(path_views(after)[at as int] == root@);
                            if path_views(after).contains(p) {
                                let k = path_views(after).index_of(p);
                                if k != at {
                                    let j = if k < at { k } else { k - 1 };
                                    assert(after[k] == before[j]);
                                    assert(path_views(before)[j] == p);
                                }
                            }
                        }
                    }
                },
            }
            i += 1;
        }
        assert(temp_roots@.take(temp_roots@.len() as int) =~= temp_roots@);
        UntracedFixupIgnore { temp_roots: roots, patterns }
    }

    /// Whether the fixup must leave this family alone.
    pub fn ignores(&self, common_dir: &str) -> (r: bool)
        ensures
            r == self.ignored(common_dir@),
    {
        let path = RepoPath::parse(common_dir);
        let mut i: usize = 0;
        while i < self.temp_roots.len()
            invariant
                i <= self.temp_roots.len(),
                path@ == path_of(common_dir@),
                forall|j: int| 0 <= j < i ==> !path_under(path@, #[trigger] self.roots()[j]),
            decreases self.temp_roots.len() - i,
        {
            if path.is_under(&self.temp_roots[i]) {
                assert(path_under(path@, self.roots()[i as int]));
                return true;
            }
            assert(self.roots()[i as int] == self.temp_roots@[i as int]@);
            i += 1;
        }
        let posix = normalize_to_posix(common_dir);
        let mut k: usize = 0;
        while k < self.patterns.len()
            invariant
                k <= self.patterns.len(),
                posix@ == posix_of(common_dir@),
                forall|j: int|
                    0 <= j < k ==> glob_result(#[trigger] self.globs()[j], posix@) != Some(true),
            decreases self.patterns.len() - k,
        {
            let matched = glob_matches(self.patterns[k].as_str(), posix.as_str());
            assert(self.globs()[k as int] == self.patterns@[k as int]@);
            match matched {
                Some(true) => {
                    return true;
                },
                _ => {},
            }
            k += 1;
        }
        false
    }

    /// The roots, in order.
    pub fn temp_roots(&self) -> (r: &Vec<RepoPath>)
        ensures
            path_views(r@) == self.roots(),
    {
        &self.temp_roots
    }
}

/// What lies below an ignored directory under a root is ignored too.
pub proof fn law_ignored_below_a_root(ignore: UntracedFixupIgnore, i: int, below: Seq<char>)
    requires
        0 <= i < ignore.roots().len(),
        path_under(path_of(below), ignore.roots()[i]),
    ensures
        ignore.ignored(below),
{
}

/// The places that hold temporary repositories: the process's own directory for
/// temporary files, and the well-known ones of the platform.
pub fn default_temp_roots(places: &TempLocations) -> (r: Vec<RepoPath>)
    ensures
        path_views(r@) == seq![places.process_temp_dir@] + (if places.unix {
            seq![path_of("/tmp"@), path_of("/var/tmp"@)]
        } else {
            Seq::empty()
        }) + (if places.macos {
            seq![
                path_of("/private/tmp"@),
                path_of("/var/folders"@),
                path_of("/private/var/folders"@),
            ]
        } else {
            Seq::empty()
        }) + path_views(places.windows_temp_dirs@) + (match places.windows_local_app_data {
            Some(local) => seq![path_child(local@, "Temp"@)],
            None => Seq::empty(),
        }),
{
    let mut roots: Vec<RepoPath> = Vec::new();
    roots.push(places.process_temp_dir.copy());
    let ghost one = path_views(roots@);
    assert(one =~= seq![places.process_temp_dir@]);
    if places.unix {
        roots.push(RepoPath::parse("/tmp"));
        roots.push(RepoPath::parse("/var/tmp"));
        assert(path_views(roots@) =~= one + seq![path_of("/tmp"@), path_of("/var/tmp"@)]);
    } else {
        assert(path_views(roots@) =~= one + Seq::empty());
    }
    let ghost two = path_views(roots@);
    if places.macos {
        roots.push(RepoPath::parse("/private/tmp"));
        roots.push(RepoPath::parse("/var/folders"));
        roots.push(RepoPath::parse("/private/var/folders"));
        assert(path_views(roots@) =~= two + seq![
            path_of("/private/tmp"@),
            path_of("/var/folders"@),
            path_of("/private/var/folders"@),
        ]);
    } else {
        assert(path_views(roots@) =~= two + Seq::empty());
    }
    let ghost three = path_views(roots@);
    let ghost more = path_views(places.windows_temp_dirs@);
    let mut i: usize = 0;
    assert(path_views(roots@) =~= three + more.take(0));
    while i < places.windows_temp_dirs.len()
        invariant
            i <= places.windows_temp_dirs.len(),
            more == path_views(places.windows_temp_dirs@),
            path_views(roots@) == three + more.take(i as int),
        decreases places.windows_temp_dirs.len() - i,
    {
        let ghost before = path_views(roots@);
        roots.push(places.windows_temp_dirs[i].copy());
        assert(path_views(roots@) =~= before.push(more[i as int]));
        assert(path_views(roots@) =~= three + more.take(i + 1));
        i += 1;
    }
    assert(more.take(more.len() as int) =~= more);
    let ghost four = path_views(roots@);
    match &places.windows_local_app_data {
        Some(local) => {
            roots.push(local.child("Temp"));
            assert(path_views(roots@) =~= four + seq![path_child(local@, "Temp"@)]);
        },
        None => {
            assert(path_views(roots@) =~= four + Seq::empty());
        },
    }
    roots
}

} // verus!
