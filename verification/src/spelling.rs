//! That a path's spelling and its components say the same: what each operation on the
//! spelling does to the components it denotes.
use crate::paths::{
    behind, behind_parts, below_text, child_text, cut, ends_idle, first_slash, is_idle, is_part,
    last_slash, lemma_first_slash, lemma_last_slash, parent_text, parts_of, path_below, path_join,
    path_of, path_parent, plain_name, strip_front, strip_tail, PathModel,
};
use crate::text::split_on;
use vstd::prelude::*;

verus! {

/// The pieces of a text that name something.
pub open spec fn named(s: Seq<char>) -> Seq<Seq<char>> {
    split_on(s, '/').filter(is_part())
}

proof fn lemma_split_some(s: Seq<char>)
    ensures
        split_on(s, '/').len() >= 1,
    decreases s.len(),
{
    if s.len() > 0 {
        lemma_split_some(s.drop_last());
    }
}

proof fn lemma_split_cat(a: Seq<char>, b: Seq<char>)
    ensures
        split_on(a.push('/') + b, '/') == split_on(a, '/') + split_on(b, '/'),
    decreases b.len(),
{
    let whole = a.push('/') + b;
    if b.len() == 0 {
        assert(whole =~= a.push('/'));
        assert(a.push('/').drop_last() =~= a);
        assert(split_on(whole, '/') =~= split_on(a, '/') + split_on(b, '/'));
    } else {
        let shorter = b.drop_last();
        assert(whole.drop_last() =~= a.push('/') + shorter);
        assert(whole.last() == b.last());
        lemma_split_cat(a, shorter);
        lemma_split_some(shorter);
        assert(split_on(whole, '/') =~= split_on(a, '/') + split_on(b, '/'));
    }
}

proof fn lemma_split_whole(s: Seq<char>)
    requires
        !s.contains('/'),
    ensures
        split_on(s, '/') == seq![s],
    decreases s.len(),
{
    if s.len() > 0 {
        let shorter = s.drop_last();
        assert(!shorter.contains('/')) by {
            assert forall|i: int| 0 <= i < shorter.len() implies shorter[i] != '/' by {
                assert(s.contains(s[i]));
            }
        }
        lemma_split_whole(shorter);
        assert(s.contains(s[s.len() - 1]));
        assert(shorter.push(s.last()) =~= s);
        assert(split_on(s, '/') =~= seq![s]);
    } else {
        assert(s =~= Seq::empty());
    }
}

proof fn lemma_split_front(s: Seq<char>)
    ensures
        first_slash(s) < s.len() ==> split_on(s, '/') == seq![s.take(first_slash(s))] + split_on(
            behind(s),
            '/',
        ),
        first_slash(s) == s.len() ==> split_on(s, '/') == seq![s],
        0 <= first_slash(s) <= s.len(),
        s.take(first_slash(s)).len() == first_slash(s),
        s.len() > 0 ==> (first_slash(s) == 0 <==> s[0] == '/'),
{
    lemma_first_slash(s);
    let at = first_slash(s);
    let piece = s.take(at);
    assert(!piece.contains('/'));
    lemma_split_whole(piece);
    if at < s.len() {
        assert(s =~= piece.push('/') + s.skip(at + 1));
        lemma_split_cat(piece, s.skip(at + 1));
    } else {
        assert(piece =~= s);
    }
}

proof fn lemma_split_back(s: Seq<char>)
    ensures
        last_slash(s) >= 0 ==> split_on(s, '/') == split_on(s.take(last_slash(s)), '/').push(
            s.skip(last_slash(s) + 1),
        ),
        last_slash(s) < 0 ==> split_on(s, '/') == seq![s],
{
    lemma_last_slash(s);
    let at = last_slash(s);
    if at >= 0 {
        let piece = s.skip(at + 1);
        assert(!piece.contains('/'));
        lemma_split_whole(piece);
        assert(s =~= s.take(at).push('/') + piece);
        lemma_split_cat(s.take(at), piece);
        assert(split_on(s.take(at), '/') + seq![piece] =~= split_on(s.take(at), '/').push(piece));
    } else {
        assert(!s.contains('/'));
        lemma_split_whole(s);
    }
}

proof fn lemma_filter_one(piece: Seq<char>)
    ensures
        seq![piece].filter(is_part()) == (if is_part()(piece) {
            seq![piece]
        } else {
            Seq::<Seq<char>>::empty()
        }),
{
    reveal(Seq::filter);
    let one = seq![piece];
    assert(one.drop_last() =~= Seq::<Seq<char>>::empty());
    assert(one.drop_last().filter(is_part()) =~= Seq::<Seq<char>>::empty());
    assert(Seq::<Seq<char>>::empty().push(piece) =~= seq![piece]);
}

proof fn lemma_parts_cat(a: Seq<Seq<char>>, b: Seq<Seq<char>>)
    requires
        a.len() >= 1,
    ensures
        parts_of(a + b) == parts_of(a) + b.filter(is_part()),
{
    assert((a + b).skip(1) =~= a.skip(1) + b);
    Seq::filter_distributes_over_add(a.skip(1), b, is_part());
    assert(parts_of(a + b) =~= parts_of(a) + b.filter(is_part()));
}

proof fn lemma_parts_push(a: Seq<Seq<char>>, piece: Seq<char>)
    requires
        a.len() >= 1,
    ensures
        parts_of(a.push(piece)) == (if is_part()(piece) {
            parts_of(a).push(piece)
        } else {
            parts_of(a)
        }),
{
    assert(a.push(piece) =~= a + seq![piece]);
    lemma_parts_cat(a, seq![piece]);
    lemma_filter_one(piece);
    assert(parts_of(a) + seq![piece] =~= parts_of(a).push(piece));
    assert(parts_of(a) + Seq::<Seq<char>>::empty() =~= parts_of(a));
}

proof fn lemma_parts_one(piece: Seq<char>)
    ensures
        parts_of(seq![piece]) == (if piece.len() > 0 {
            seq![piece]
        } else {
            Seq::<Seq<char>>::empty()
        }),
{
    reveal(Seq::filter);
    assert(seq![piece].skip(1) =~= Seq::<Seq<char>>::empty());
    assert(seq![piece] + Seq::<Seq<char>>::empty() =~= seq![piece]);
}

proof fn lemma_empty_text()
    ensures
        path_of(Seq::<char>::empty()) == (false, Seq::<Seq<char>>::empty()),
        path_of(seq!['/']) == (true, Seq::<Seq<char>>::empty()),
        named(Seq::<char>::empty()) == Seq::<Seq<char>>::empty(),
{
    let none = Seq::<char>::empty();
    assert(!none.contains('/'));
    lemma_split_whole(none);
    lemma_parts_one(none);
    lemma_filter_one(none);
    assert(seq!['/'] =~= none.push('/') + none);
    lemma_split_cat(none, none);
    assert(seq![none] + seq![none] =~= seq![none].push(none));
    lemma_parts_push(seq![none], none);
}

/// What the components of a text are against its pieces that name something: those, with
/// the leading `.` of a relative one before them.
proof fn lemma_parts_named(s: Seq<char>)
    ensures
        s.len() > 0 && s[0] == '/' ==> path_of(s).1 == named(s),
        s.len() > 0 && s[0] != '/' && s.take(first_slash(s)) != "."@ ==> path_of(s).1 == named(s)
            && path_of(s).1.len() > 0 && path_of(s).1[0] == s.take(first_slash(s)),
        s.len() > 0 && s[0] != '/' && s.take(first_slash(s)) == "."@ ==> path_of(s).1 == seq!["."@]
            + named(s) && named(s) == named(behind(s)),
        s.len() == 0 ==> path_of(s).1 == named(s) && named(s).len() == 0,
{
    reveal_strlit(".");
    lemma_split_front(s);
    let pieces = split_on(s, '/');
    let at = first_slash(s);
    if s.len() == 0 {
        assert(s =~= Seq::empty());
        lemma_empty_text();
    } else {
        let first = pieces[0];
        if at == s.len() {
            assert(s.take(at) =~= s);
            lemma_empty_text();
        }
        assert(first == s.take(at));
        assert(pieces =~= seq![first] + pieces.skip(1));
        Seq::filter_distributes_over_add(seq![first], pieces.skip(1), is_part());
        lemma_filter_one(first);
        assert(Seq::<Seq<char>>::empty() + pieces.skip(1).filter(is_part()) =~= pieces.skip(
            1,
        ).filter(is_part()));
        if at < s.len() {
            assert(pieces.skip(1) =~= split_on(behind(s), '/'));
        } else {
            reveal(Seq::filter);
            assert(pieces.skip(1) =~= Seq::<Seq<char>>::empty());
        }
        if first == "."@ {
            assert(path_of(s).1 =~= seq!["."@] + named(s));
        } else {
            assert(path_of(s).1 =~= named(s));
        }
    }
}

/// Text joined to text denotes the joined path.
pub proof fn law_joined_spellings_denote_joined_paths(s: Seq<char>, rel: Seq<char>)
    requires
        !path_of(rel).0,
    ensures
        path_of(child_text(s, rel)) == path_join(path_of(s), path_of(rel)),
{
    let whole = child_text(s, rel);
    lemma_parts_named(rel);
    lemma_parts_named(s);
    lemma_split_some(s);
    if s.len() == 0 {
        assert(whole =~= rel);
        assert(path_of(s).1 + path_of(rel).1 =~= path_of(rel).1);
    } else {
        assert(whole[0] == s[0]);
        if s.last() != '/' {
            lemma_split_cat(s, rel);
            lemma_parts_cat(split_on(s, '/'), split_on(rel, '/'));
        } else {
            let front = s.drop_last();
            let none = Seq::<char>::empty();
            assert(s =~= front.push('/'));
            lemma_split_some(front);
            lemma_split_cat(front, rel);
            lemma_parts_cat(split_on(front, '/'), split_on(rel, '/'));
            lemma_parts_push(split_on(front, '/'), none);
        }
        assert(path_of(whole).1 == path_of(s).1 + named(rel));
        assert((seq!["."@] + named(rel)).skip(1) =~= named(rel));
        if rel.len() > 0 && rel.take(first_slash(rel)) == "."@ {
            assert(path_of(rel).1[0] == "."@);
            assert(path_of(s).0 || path_of(s).1.len() > 0) by {
                if s[0] != '/' && s.take(first_slash(s)) == "."@ {
                    assert(path_of(s).1.len() == 1 + named(s).len());
                }
            }
        }
    }
}

/// A plain name behind a text denotes the child of that name.
pub proof fn law_child_spellings_denote_children(s: Seq<char>, name: Seq<char>)
    requires
        plain_name(name),
    ensures
        path_of(child_text(s, name)) == crate::paths::path_child(path_of(s), name),
{
    lemma_split_whole(name);
    lemma_parts_one(name);
    assert(name.contains(name[0]));
    law_joined_spellings_denote_joined_paths(s, name);
    assert(path_of(s).1 + seq![name] =~= path_of(s).1.push(name));
}

/// The names that the library gives to a repository's own files are plain.
pub proof fn lemma_own_names_are_plain()
    ensures
        plain_name(".git"@),
        plain_name("worktrees"@),
{
    reveal_strlit(".");
    reveal_strlit(".git");
    reveal_strlit("worktrees");
    assert(".git"@.len() == 4 && "worktrees"@.len() == 9 && "."@.len() == 1);
}

proof fn lemma_cut(s: Seq<char>)
    requires
        s.len() > 0,
    ensures
        last_slash(s) >= 0 && is_idle(s.skip(last_slash(s) + 1)) ==> path_of(cut(s)) == path_of(s),
        last_slash(s) >= 0 && !is_idle(s.skip(last_slash(s) + 1)) ==> path_of(cut(s)) == (
            path_of(s).0,
            path_of(s).1.drop_last(),
        ) && path_of(s).1.len() > 0,
        last_slash(s) < 0 ==> path_of(cut(s)) == (path_of(s).0, path_of(s).1.drop_last())
            && path_of(s).1.len() > 0,
{
    lemma_last_slash(s);
    lemma_split_back(s);
    lemma_empty_text();
    let at = last_slash(s);
    if at >= 0 {
        let piece = s.skip(at + 1);
        let front = s.take(at);
        lemma_split_some(front);
        lemma_parts_push(split_on(front, '/'), piece);
        if at == 0 {
            assert(front =~= Seq::empty());
        } else {
            assert(front[0] == s[0]);
        }
        assert(parts_of(split_on(front, '/')).push(piece).drop_last() =~= parts_of(
            split_on(front, '/'),
        ));
    } else {
        lemma_parts_one(s);
        assert(seq![s].drop_last() =~= Seq::<Seq<char>>::empty());
    }
}

proof fn lemma_strip_tail(s: Seq<char>)
    ensures
        path_of(strip_tail(s)) == path_of(s),
        !ends_idle(strip_tail(s)),
    decreases s.len(),
{
    if ends_idle(s) {
        lemma_last_slash(s);
        lemma_cut(s);
        lemma_strip_tail(cut(s));
    }
}

/// The text of the parent denotes the parent.
pub proof fn law_parent_spellings_denote_parents(s: Seq<char>)
    requires
        path_parent(path_of(s)) is Some,
    ensures
        Some(path_of(parent_text(s))) == path_parent(path_of(s)),
{
    let stripped = strip_tail(s);
    lemma_strip_tail(s);
    lemma_empty_text();
    lemma_last_slash(stripped);
    if stripped.len() == 0 {
        assert(stripped =~= Seq::empty());
    } else if stripped.len() == 1 && last_slash(stripped) >= 0 {
        assert(stripped =~= seq!['/']);
    }
    lemma_cut(stripped);
    lemma_strip_tail(cut(stripped));
}

proof fn lemma_strip_front(s: Seq<char>)
    ensures
        named(strip_front(s)) == named(s),
        path_of(strip_front(s)) == (false, named(s)),
        strip_front(s).len() > 0 ==> strip_front(s)[0] != '/' && strip_front(s).take(
            first_slash(strip_front(s)),
        ) != "."@,
    decreases s.len(),
{
    reveal_strlit(".");
    lemma_split_front(s);
    lemma_parts_named(s);
    let at = first_slash(s);
    if s.len() > 0 && is_idle(s.take(at)) {
        lemma_strip_front(behind(s));
        if at < s.len() {
            assert(named(s) == named(behind(s))) by {
                let rest = split_on(behind(s), '/');
                Seq::filter_distributes_over_add(seq![s.take(at)], rest, is_part());
                lemma_filter_one(s.take(at));
                assert(Seq::<Seq<char>>::empty() + rest.filter(is_part()) =~= rest.filter(
                    is_part(),
                ));
            }
        } else {
            assert(s.take(at) =~= s);
        }
    } else if s.len() == 0 {
        assert(s =~= Seq::empty());
        lemma_empty_text();
    }
}

proof fn lemma_behind_parts(s: Seq<char>, n: nat)
    requires
        n <= named(s).len(),
    ensures
        path_of(behind_parts(s, n)) == (false, named(s).skip(n as int)),
    decreases n,
{
    lemma_strip_front(s);
    assert(named(s).skip(0) =~= named(s));
    if n > 0 {
        let front = strip_front(s);
        lemma_empty_text();
        if front.len() == 0 {
            assert(front =~= Seq::empty());
        }
        lemma_split_front(front);
        lemma_parts_named(front);
        let at = first_slash(front);
        let first = front.take(at);
        lemma_filter_one(first);
        if at < front.len() {
            Seq::filter_distributes_over_add(
                seq![first],
                split_on(behind(front), '/'),
                is_part(),
            );
            assert(named(front).skip(1) =~= named(behind(front)));
        } else {
            assert(first =~= front);
            assert(named(front).skip(1) =~= Seq::<Seq<char>>::empty());
        }
        lemma_behind_parts(behind(front), (n - 1) as nat);
        assert(named(s).skip(1).skip(n - 1) =~= named(s).skip(n as int));
    }
}

/// The text of what leads from a base to a path denotes what leads there.
pub proof fn law_spellings_below_denote_paths_below(s: Seq<char>, base: PathModel)
    requires
        path_below(path_of(s), base) is Some,
    ensures
        Some(path_of(below_text(s, base.0, base.1.len()))) == path_below(path_of(s), base),
{
    let n = base.1.len();
    lemma_parts_named(s);
    lemma_split_front(s);
    if !base.0 && n == 0 {
        lemma_strip_tail(s);
        assert(path_of(s).1.skip(0) =~= path_of(s).1);
    } else if !base.0 && s.take(first_slash(s)) == "."@ {
        reveal_strlit(".");
        assert(named(s) =~= path_of(s).1.skip(1));
        lemma_behind_parts(behind(s), (n - 1) as nat);
        lemma_strip_tail(behind_parts(behind(s), (n - 1) as nat));
        assert(path_of(s).1.skip(1).skip(n - 1) =~= path_of(s).1.skip(n as int));
    } else {
        lemma_behind_parts(s, n);
        lemma_strip_tail(behind_parts(s, n));
    }
}

} // verus!
