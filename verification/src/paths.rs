//! Slash-separated paths as lists of components and as they are spelled, without touching
//! a filesystem.
use crate::spelling::{
    law_child_spellings_denote_children, law_joined_spellings_denote_joined_paths,
    law_parent_spellings_denote_parents, law_spellings_below_denote_paths_below,
};
use crate::text::{chars_of, split, split_on, str_eq, views};
use vstd::prelude::*;

verus! {

/// A path as its logic sees it: whether it starts at the root, and its components.
pub type PathModel = (bool, Seq<Seq<char>>);

/// A path, and how it is spelled: repeated and trailing slashes and an inner `.` belong to
/// the spelling alone.
#[derive(Debug, PartialEq, Eq)]
pub struct RepoPath {
    pub absolute: bool,
    pub parts: Vec<String>,
    pub text: String,
}

impl View for RepoPath {
    type V = PathModel;

    open spec fn view(&self) -> PathModel {
        (self.absolute, views(self.parts@))
    }
}

/// An optional path as its logic sees it.
pub open spec fn opt_path_view(o: Option<RepoPath>) -> Option<PathModel> {
    match o {
        Some(p) => Some(p@),
        None => None,
    }
}

/// The test for a piece that names something: neither empty nor the current directory.
pub open spec fn is_part() -> spec_fn(Seq<char>) -> bool {
    |w: Seq<char>| w.len() > 0 && w != "."@
}

/// The components that the pieces between slashes give. A leading `.` of a
/// relative path is one; any other `.` and every empty piece is not.
pub open spec fn parts_of(pieces: Seq<Seq<char>>) -> Seq<Seq<char>> {
    if pieces.len() == 0 {
        Seq::empty()
    } else if pieces[0].len() > 0 {
        seq![pieces[0]] + pieces.skip(1).filter(is_part())
    } else {
        pieces.skip(1).filter(is_part())
    }
}

/// The path that a text denotes.
pub open spec fn path_of(s: Seq<char>) -> PathModel {
    (s.len() > 0 && s[0] == '/', parts_of(split_on(s, '/')))
}

/// Whether a text is the name of one thing: a single piece, which is not the current directory.
pub open spec fn plain_name(name: Seq<char>) -> bool {
    is_part()(name) && !name.contains('/')
}

/// A text with a component behind it.
pub open spec fn child_text(s: Seq<char>, name: Seq<char>) -> Seq<char> {
    if s.len() > 0 && s.last() != '/' {
        s.push('/') + name
    } else {
        s + name
    }
}

/// A path's text with another behind it; an absolute one replaces it.
pub open spec fn joined_text(s: Seq<char>, rel: Seq<char>, rel_absolute: bool) -> Seq<char> {
    if rel_absolute {
        rel
    } else {
        child_text(s, rel)
    }
}

/// Where the last slash stands; before the text where there is none.
pub open spec fn last_slash(s: Seq<char>) -> int
    decreases s.len(),
{
    if s.len() == 0 {
        -1
    } else if s.last() == '/' {
        s.len() - 1
    } else {
        last_slash(s.drop_last())
    }
}

/// Where the first slash stands; behind the text where there is none.
pub open spec fn first_slash(s: Seq<char>) -> int
    decreases s.len(),
{
    if s.len() == 0 {
        0
    } else if s[0] == '/' {
        0
    } else {
        1 + first_slash(s.skip(1))
    }
}

/// What stands before the last slash. The slash of the root stays.
pub open spec fn cut(s: Seq<char>) -> Seq<char> {
    let at = last_slash(s);
    if at < 0 {
        Seq::empty()
    } else if at == 0 {
        seq!['/']
    } else {
        s.take(at)
    }
}

/// What stands behind the first slash.
pub open spec fn behind(s: Seq<char>) -> Seq<char> {
    if first_slash(s) < s.len() {
        s.skip(first_slash(s) + 1)
    } else {
        Seq::empty()
    }
}

/// Whether a piece between slashes names nothing.
pub open spec fn is_idle(piece: Seq<char>) -> bool {
    piece.len() == 0 || piece == "."@
}

/// Whether a text ends in a slash and a piece that names nothing, behind the root.
pub open spec fn ends_idle(s: Seq<char>) -> bool {
    last_slash(s) >= 0 && s.len() > 1 && is_idle(s.skip(last_slash(s) + 1))
}

/// What is known of the place of the last slash.
pub proof fn lemma_last_slash(s: Seq<char>)
    ensures
        -1 <= last_slash(s) < s.len(),
        last_slash(s) >= 0 ==> s[last_slash(s)] == '/',
        forall|i: int| last_slash(s) < i < s.len() ==> s[i] != '/',
    decreases s.len(),
{
    if s.len() > 0 && s.last() != '/' {
        lemma_last_slash(s.drop_last());
        assert forall|i: int| last_slash(s) < i < s.len() implies s[i] != '/' by {
            if i < s.len() - 1 {
                assert(s.drop_last()[i] == s[i]);
            }
        }
    }
}

/// What is known of the place of the first slash.
pub proof fn lemma_first_slash(s: Seq<char>)
    ensures
        0 <= first_slash(s) <= s.len(),
        first_slash(s) < s.len() ==> s[first_slash(s)] == '/',
        forall|i: int| 0 <= i < first_slash(s) ==> s[i] != '/',
    decreases s.len(),
{
    if s.len() > 0 && s[0] != '/' {
        lemma_first_slash(s.skip(1));
        assert forall|i: int| 0 <= i < first_slash(s) implies s[i] != '/' by {
            if i > 0 {
                assert(s.skip(1)[i - 1] == s[i]);
            }
        }
    }
}

/// A text without the pieces at its end that name nothing.
pub open spec fn strip_tail(s: Seq<char>) -> Seq<char>
    decreases s.len(),
{
    if ends_idle(s) {
        proof {
            lemma_last_slash(s);
        }
        strip_tail(cut(s))
    } else {
        s
    }
}

/// The text of a path without its last component.
pub open spec fn parent_text(s: Seq<char>) -> Seq<char> {
    strip_tail(cut(strip_tail(s)))
}

/// A text without the pieces at its start that name nothing.
pub open spec fn strip_front(s: Seq<char>) -> Seq<char>
    decreases s.len(),
{
    if s.len() > 0 && is_idle(s.take(first_slash(s))) {
        proof {
            lemma_first_slash(s);
        }
        strip_front(behind(s))
    } else {
        s
    }
}

/// A text behind its first `n` components.
pub open spec fn behind_parts(s: Seq<char>, n: nat) -> Seq<char>
    decreases n,
{
    if n == 0 {
        strip_front(s)
    } else {
        behind_parts(behind(strip_front(s)), (n - 1) as nat)
    }
}

/// The text of what leads from a base of `n` components to the path with this text.
pub open spec fn below_text(s: Seq<char>, base_absolute: bool, n: nat) -> Seq<char> {
    if !base_absolute && n == 0 {
        strip_tail(s)
    } else if !base_absolute && s.take(first_slash(s)) == "."@ {
        strip_tail(behind_parts(behind(s), (n - 1) as nat))
    } else {
        strip_tail(behind_parts(s, n))
    }
}

fn cut_last(s: &str) -> (r: String)
    ensures
        r@ == cut(s@),
{
    let cs = chars_of(s);
    let mut i: usize = cs.len();
    assert(cs@.take(i as int) =~= cs@);
    while i > 0
        invariant
            i <= cs@.len(),
            cs@ == s@,
            last_slash(s@) == last_slash(s@.take(i as int)),
        decreases i,
    {
        assert(s@.take(i as int).drop_last() =~= s@.take(i - 1));
        assert(s@.take(i as int).last() == s@[i - 1]);
        if cs[i - 1] == '/' {
            if i == 1 {
                proof {
                    reveal_strlit("/");
                    assert("/"@ =~= seq!['/']);
                }
                return "/".to_owned();
            }
            assert(s@.subrange(0, i - 1) =~= s@.take(i - 1));
            return s.substring_char(0, i - 1).to_owned();
        }
        i -= 1;
    }
    proof {
        lemma_last_slash(s@);
        assert(s@.take(0) =~= Seq::<char>::empty());
        reveal_strlit("");
        assert(""@ =~= Seq::<char>::empty());
    }
    "".to_owned()
}

fn slash_place(s: &str) -> (r: usize)
    ensures
        r == first_slash(s@),
        r <= s@.len(),
{
    let cs = chars_of(s);
    let mut i: usize = 0;
    assert(s@.skip(0) =~= s@);
    while i < cs.len() && cs[i] != '/'
        invariant
            i <= cs@.len(),
            cs@ == s@,
            first_slash(s@) == i + first_slash(s@.skip(i as int)),
        decreases cs@.len() - i,
    {
        assert(s@.skip(i as int)[0] == s@[i as int]);
        assert(s@.skip(i as int).skip(1) =~= s@.skip(i + 1));
        i += 1;
    }
    proof {
        if i < cs@.len() {
            assert(s@.skip(i as int)[0] == s@[i as int]);
        }
    }
    i
}

fn text_behind(s: &str) -> (r: String)
    ensures
        r@ == behind(s@),
{
    let at: usize = slash_place(s);
    let n: usize = s.unicode_len();
    if at < n {
        assert(s@.subrange(at + 1, n as int) =~= s@.skip(at + 1));
        return s.substring_char(at + 1, n).to_owned();
    }
    proof {
        reveal_strlit("");
        assert(""@ =~= Seq::<char>::empty());
    }
    "".to_owned()
}

fn idle_piece(piece: &str) -> (r: bool)
    ensures
        r == is_idle(piece@),
{
    piece.unicode_len() == 0 || str_eq(piece, ".")
}

fn idle_end(s: &str) -> (r: bool)
    ensures
        r == ends_idle(s@),
{
    let cs = chars_of(s);
    let n: usize = cs.len();
    let mut i: usize = n;
    assert(cs@.take(i as int) =~= cs@);
    while i > 0
        invariant
            i <= n,
            n == cs@.len(),
            cs@ == s@,
            last_slash(s@) == last_slash(s@.take(i as int)),
        decreases i,
    {
        assert(s@.take(i as int).drop_last() =~= s@.take(i - 1));
        assert(s@.take(i as int).last() == s@[i - 1]);
        if cs[i - 1] == '/' {
            assert(s@.subrange(i as int, n as int) =~= s@.skip(i as int));
            return n > 1 && idle_piece(s.substring_char(i, n));
        }
        i -= 1;
    }
    assert(s@.take(0) =~= Seq::<char>::empty());
    false
}

fn without_tail(s: &str) -> (r: String)
    ensures
        r@ == strip_tail(s@),
{
    let mut left: String = s.to_owned();
    while idle_end(left.as_str())
        invariant
            strip_tail(left@) == strip_tail(s@),
        decreases left@.len(),
    {
        let shorter = cut_last(left.as_str());
        proof {
            lemma_last_slash(left@);
        }
        left = shorter;
    }
    left
}

fn without_front(s: &str) -> (r: String)
    ensures
        r@ == strip_front(s@),
{
    let mut left: String = s.to_owned();
    loop
        invariant
            strip_front(left@) == strip_front(s@),
        decreases left@.len(),
    {
        let at: usize = slash_place(left.as_str());
        if left.as_str().unicode_len() == 0 {
            return left;
        }
        assert(left@.subrange(0, at as int) =~= left@.take(at as int));
        if !idle_piece(left.as_str().substring_char(0, at)) {
            return left;
        }
        left = text_behind(left.as_str());
    }
}

fn text_below(s: &str, base_absolute: bool, n: usize) -> (r: String)
    ensures
        r@ == below_text(s@, base_absolute, n as nat),
{
    if !base_absolute && n == 0 {
        return without_tail(s);
    }
    let at: usize = slash_place(s);
    assert(s@.subrange(0, at as int) =~= s@.take(at as int));
    let mut left: String = s.to_owned();
    let mut more: usize = n;
    if !base_absolute && str_eq(s.substring_char(0, at), ".") {
        left = text_behind(s);
        more = n - 1;
    }
    let ghost first = left@;
    let ghost count = more as nat;
    while more > 0
        invariant
            behind_parts(left@, more as nat) == behind_parts(first, count),
        decreases more,
    {
        left = text_behind(without_front(left.as_str()).as_str());
        more -= 1;
    }
    without_tail(without_front(left.as_str()).as_str())
}

fn text_child(s: &str, name: &str) -> (r: String)
    ensures
        r@ == child_text(s@, name@),
{
    let n: usize = s.unicode_len();
    let mut out: String = s.to_owned();
    if n > 0 && s.get_char(n - 1) != '/' {
        proof {
            reveal_strlit("/");
            assert("/"@ =~= seq!['/']);
            assert(s@ + "/"@ =~= s@.push('/'));
        }
        out.append("/");
    }
    out.append(name);
    out
}

/// `p` extended by `rel`; an absolute `rel` replaces it.
pub open spec fn path_join(p: PathModel, rel: PathModel) -> PathModel {
    if rel.0 {
        rel
    } else if rel.1.len() > 0 && rel.1[0] == "."@ && (p.0 || p.1.len() > 0) {
        (p.0, p.1 + rel.1.skip(1))
    } else {
        (p.0, p.1 + rel.1)
    }
}

/// `p` without its last component.
pub open spec fn path_parent(p: PathModel) -> Option<PathModel> {
    if p.1.len() == 0 {
        None
    } else {
        Some((p.0, p.1.drop_last()))
    }
}

/// The last component of `p`, when it names something.
pub open spec fn path_file_name(p: PathModel) -> Option<Seq<char>> {
    if p.1.len() == 0 || p.1.last() == ".."@ || p.1.last() == "."@ {
        None
    } else {
        Some(p.1.last())
    }
}

/// `p` extended by one component.
pub open spec fn path_child(p: PathModel, name: Seq<char>) -> PathModel {
    (p.0, p.1.push(name))
}

/// Whether a path is the empty one, which names nothing.
pub open spec fn is_empty_path(p: PathModel) -> bool {
    !p.0 && p.1.len() == 0
}

/// Whether `base` is `p` or one of the directories above it, component by component. Every
/// path lies under the empty one.
pub open spec fn path_under(p: PathModel, base: PathModel) -> bool {
    is_empty_path(base) || base.0 == p.0 && base.1.len() <= p.1.len() && p.1.take(
        base.1.len() as int,
    ) == base.1
}

/// What leads from `base` to `p`, when `p` lies under it.
pub open spec fn path_below(p: PathModel, base: PathModel) -> Option<PathModel> {
    if is_empty_path(base) {
        Some(p)
    } else if path_under(p, base) {
        Some((false, p.1.skip(base.1.len() as int)))
    } else {
        None
    }
}

/// A path under `base` stays under it when it is extended by a component.
pub proof fn law_children_stay_under(p: PathModel, base: PathModel, name: Seq<char>)
    requires
        path_under(p, base),
    ensures
        path_under(path_child(p, name), base),
{
    assert(path_child(p, name).1.take(base.1.len() as int) =~= p.1.take(base.1.len() as int));
}

/// A child's parent is the path it was made from, and its name is the one it was given.
pub proof fn law_child_then_parent(p: PathModel, name: Seq<char>)
    requires
        name != ".."@,
        name != "."@,
    ensures
        path_parent(path_child(p, name)) == Some(p),
        path_file_name(path_child(p, name)) == Some(name),
{
    assert(path_child(p, name).1.drop_last() =~= p.1);
}

proof fn lemma_filter_push(s: Seq<Seq<char>>, x: Seq<char>)
    ensures
        s.push(x).filter(is_part()) == (if is_part()(x) {
            s.filter(is_part()).push(x)
        } else {
            s.filter(is_part())
        }),
{
    reveal(Seq::filter);
    assert(s.push(x).drop_last() =~= s);
}

impl RepoPath {
    /// Whether the components are those that the spelling denotes.
    pub open spec fn wf(&self) -> bool {
        self@ == path_of(self.text@)
    }

    /// Reads a path from text.
    pub fn parse(s: &str) -> (r: RepoPath)
        ensures
            r@ == path_of(s@),
            r.text@ == s@,
            r.wf(),
    {
        let absolute = s.unicode_len() > 0 && s.get_char(0) == '/';
        let pieces = split(s, '/');
        let ghost all = views(pieces@);
        let mut parts: Vec<String> = Vec::new();
        if pieces.len() == 0 {
            assert(views(parts@) =~= Seq::<Seq<char>>::empty());
            return RepoPath { absolute, parts, text: s.to_owned() };
        }
        assert(all[0] == pieces@[0]@);
        if pieces[0].as_str().unicode_len() > 0 {
            parts.push(pieces[0].clone());
        }
        let ghost head = views(parts@);
        assert(head =~= if all[0].len() > 0 {
            seq![all[0]]
        } else {
            Seq::empty()
        });
        let mut i: usize = 1;
        assert(all.subrange(1, 1) =~= Seq::<Seq<char>>::empty());
        proof {
            reveal(Seq::filter);
        }
        assert(views(parts@) =~= head + all.subrange(1, 1).filter(is_part()));
        while i < pieces.len()
            invariant
                1 <= i <= pieces.len(),
                all == views(pieces@),
                views(parts@) == head + all.subrange(1, i as int).filter(is_part()),
            decreases pieces.len() - i,
        {
            let piece = pieces[i].as_str();
            let ghost before = views(parts@);
            proof {
                assert(all[i as int] == pieces@[i as int]@);
                assert(all.subrange(1, i + 1) =~= all.subrange(1, i as int).push(all[i as int]));
                lemma_filter_push(all.subrange(1, i as int), all[i as int]);
            }
            if piece.unicode_len() > 0 && !str_eq(piece, ".") {
                parts.push(pieces[i].clone());
                assert(views(parts@) =~= before.push(all[i as int]));
            }
            i += 1;
        }
        assert(all.subrange(1, all.len() as int) =~= all.skip(1));
        assert(views(parts@) =~= parts_of(all));
        RepoPath { absolute, parts, text: s.to_owned() }
    }

    /// The path as it is spelled.
    pub fn to_text(&self) -> (r: String)
        ensures
            r@ == self.text@,
    {
        self.text.clone()
    }

    /// A copy of the path.
    pub fn copy(&self) -> (r: RepoPath)
        ensures
            r@ == self@,
            r.text@ == self.text@,
            self.wf() ==> r.wf(),
    {
        RepoPath {
            absolute: self.absolute,
            parts: crate::text::clone_strings(&self.parts),
            text: self.text.clone(),
        }
    }

    /// `self` extended by one component.
    pub fn child(&self, name: &str) -> (r: RepoPath)
        ensures
            r@ == path_child(self@, name@),
            r.text@ == child_text(self.text@, name@),
            self.wf() && plain_name(name@) ==> r.wf(),
    {
        let mut parts = crate::text::clone_strings(&self.parts);
        parts.push(name.to_owned());
        assert(views(parts@) =~= views(self.parts@).push(name@));
        proof {
            if plain_name(name@) {
                law_child_spellings_denote_children(self.text@, name@);
            }
        }
        RepoPath { absolute: self.absolute, parts, text: text_child(self.text.as_str(), name) }
    }

    /// `self` extended by `rel`; an absolute `rel` replaces it.
    pub fn join(&self, rel: &RepoPath) -> (r: RepoPath)
        ensures
            r@ == path_join(self@, rel@),
            r.text@ == joined_text(self.text@, rel.text@, rel@.0),
            self.wf() && rel.wf() ==> r.wf(),
    {
        if rel.absolute {
            return rel.copy();
        }
        let mut parts = crate::text::clone_strings(&self.parts);
        let ghost base = views(self.parts@);
        let ghost more = views(rel.parts@);
        let mut i: usize = 0;
        if rel.parts.len() > 0 && str_eq(rel.parts[0].as_str(), ".") && (self.absolute
            || self.parts.len() > 0) {
            i = 1;
        }
        let ghost from = i as int;
        assert(views(parts@) =~= base + more.subrange(from, from));
        while i < rel.parts.len()
            invariant
                0 <= from <= i <= rel.parts.len(),
                more == views(rel.parts@),
                views(parts@) == base + more.subrange(from, i as int),
            decreases rel.parts.len() - i,
        {
            let ghost before = views(parts@);
            parts.push(rel.parts[i].clone());
            assert(views(parts@) =~= before.push(more[i as int]));
            assert(more.subrange(from, i + 1) =~= more.subrange(from, i as int).push(
                more[i as int],
            ));
            assert(views(parts@) =~= base + more.subrange(from, i + 1));
            i += 1;
        }
        assert(more.subrange(from, more.len() as int) =~= more.skip(from));
        assert(more.skip(0) =~= more);
        let text = text_child(self.text.as_str(), rel.text.as_str());
        proof {
            if rel.wf() {
                law_joined_spellings_denote_joined_paths(self.text@, rel.text@);
            }
        }
        RepoPath { absolute: self.absolute, parts, text }
    }

    /// `self` without its last component.
    pub fn parent(&self) -> (r: Option<RepoPath>)
        ensures
            r is Some <==> path_parent(self@) is Some,
            r is Some ==> r->0@ == path_parent(self@)->0 && r->0.text@ == parent_text(self.text@),
            r is Some && self.wf() ==> r->0.wf(),
    {
        if self.parts.len() == 0 {
            return None;
        }
        let mut parts = crate::text::clone_strings(&self.parts);
        parts.pop();
        assert(views(parts@) =~= views(self.parts@).drop_last());
        let text = without_tail(cut_last(without_tail(self.text.as_str()).as_str()).as_str());
        proof {
            if self.wf() {
                law_parent_spellings_denote_parents(self.text@);
            }
        }
        Some(RepoPath { absolute: self.absolute, parts, text })
    }

    /// The last component, when it names something.
    pub fn file_name(&self) -> (r: Option<String>)
        ensures
            crate::text::opt_view(r) == path_file_name(self@),
    {
        if self.parts.len() == 0 {
            return None;
        }
        let last = &self.parts[self.parts.len() - 1];
        assert(self@.1.last() == last@);
        if str_eq(last.as_str(), "..") || str_eq(last.as_str(), ".") {
            None
        } else {
            Some(last.clone())
        }
    }

    /// Whether the path starts at the root.
    pub fn is_absolute(&self) -> (r: bool)
        ensures
            r == self@.0,
    {
        self.absolute
    }

    /// Whether the two paths have the same components, however they are spelled.
    pub fn same(&self, other: &RepoPath) -> (r: bool)
        ensures
            r == (self@ == other@),
    {
        if self.absolute != other.absolute || self.parts.len() != other.parts.len() {
            assert(self@.0 != other@.0 || self@.1.len() != other@.1.len());
            return false;
        }
        self.is_under(other)
    }

    /// Whether `base` is the path itself or one of the directories above it.
    pub fn is_under(&self, base: &RepoPath) -> (r: bool)
        ensures
            r == path_under(self@, base@),
            self@.0 == base@.0 && self@.1.len() == base@.1.len() ==> r == (self@ == base@),
    {
        let ghost a = views(self.parts@);
        let ghost b = views(base.parts@);
        assert(a.take(a.len() as int) =~= a);
        if !base.absolute && base.parts.len() == 0 {
            assert(b.len() == 0);
            assert(a.len() == 0 ==> a =~= b);
            return true;
        }
        if self.absolute != base.absolute || base.parts.len() > self.parts.len() {
            return false;
        }
        let mut i: usize = 0;
        while i < base.parts.len()
            invariant
                i <= base.parts.len() <= self.parts.len(),
                a == views(self.parts@),
                b == views(base.parts@),
                forall|j: int| 0 <= j < i ==> a[j] == b[j],
            decreases base.parts.len() - i,
        {
            if !str_eq(self.parts[i].as_str(), base.parts[i].as_str()) {
                assert(a[i as int] != b[i as int]);
                assert(a.take(b.len() as int)[i as int] == a[i as int]);
                return false;
            }
            assert(a[i as int] == b[i as int]);
            i += 1;
        }
        assert(a.take(b.len() as int) =~= b);
        true
    }

    /// What leads from `base` to this path, when it lies under it.
    pub fn below(&self, base: &RepoPath) -> (r: Option<RepoPath>)
        ensures
            opt_path_view(r) == path_below(self@, base@),
            r is Some ==> r->0.text@ == below_text(self.text@, base@.0, base@.1.len()),
            r is Some && self.wf() ==> r->0.wf(),
    {
        if !self.is_under(base) {
            return None;
        }
        let n: usize = base.parts.len();
        assert(views(base.parts@).len() == base.parts@.len());
        let mut parts: Vec<String> = Vec::new();
        let mut i: usize = n;
        assert(views(parts@) =~= views(self.parts@).subrange(n as int, n as int));
        while i < self.parts.len()
            invariant
                n <= i <= self.parts.len(),
                views(parts@) == views(self.parts@).subrange(n as int, i as int),
            decreases self.parts.len() - i,
        {
            let ghost was = views(parts@);
            parts.push(self.parts[i].clone());
            assert(views(parts@) =~= was.push(self.parts@[i as int]@));
            assert(views(self.parts@).subrange(n as int, i + 1) =~= was.push(self.parts@[i as int]@));
            i += 1;
        }
        assert(views(self.parts@).subrange(n as int, self.parts@.len() as int) =~= views(
            self.parts@,
        ).skip(n as int));
        let text = text_below(self.text.as_str(), base.absolute, n);
        proof {
            if self.wf() {
                law_spellings_below_denote_paths_below(self.text@, base@);
                assert(path_of(text@) == path_below(self@, base@)->0);
            }
        }
        let r = RepoPath { absolute: n == 0 && !base.absolute && self.absolute, parts, text };
        assert(r@.1 =~= (path_below(self@, base@)->0).1);
        assert(r@ == path_below(self@, base@)->0);
        Some(r)
    }
}

} // verus!
