//! Texts and paths: how they are trimmed, split, compared and put together.
use crate::paths::RepoPath;
use crate::text::{
    before_first, comes_before, contains_text, decimal, ends_with, eq_ignore_ascii_case, hex_digit,
    is_all_hex, is_space, is_white_space, is_word, opt_view, read_unsigned, sort_strings, split,
    split_by, split_once, split_on, starts_with, strip_prefix, trim, trim_end_of, trim_start_of,
    views, white_space, words,
};
use vstd::prelude::*;

verus! {

/// Blanks, tabs and line ends are white; letters, digits, slashes and dashes are not.
pub proof fn law_what_is_white(c: char, r: bool)
    requires
        call_ensures(white_space, (c,), r),
    ensures
        c == ' ' || c == '\t' || c == '\n' || c == '\r' ==> r,
        'a' <= c <= 'z' || 'A' <= c <= 'Z' || '0' <= c <= '9' || c == '/' || c == '-' || c == '.'
            ==> !r,
{
}

proof fn lemma_trim_start(s: Seq<char>) -> (n: int)
    ensures
        0 <= n <= s.len(),
        trim_start_of(s) == s.skip(n),
        forall|i: int| 0 <= i < n ==> is_white_space(#[trigger] s[i]),
        n < s.len() ==> !is_white_space(s[n]),
    decreases s.len(),
{
    if s.len() > 0 && is_white_space(s[0]) {
        let rest = s.skip(1);
        let n = lemma_trim_start(rest);
        assert(rest.skip(n) =~= s.skip(n + 1));
        assert forall|i: int| 0 <= i < n + 1 implies is_white_space(#[trigger] s[i]) by {
            if i > 0 {
                assert(s[i] == rest[i - 1]);
            }
        }
        n + 1
    } else {
        assert(s.skip(0) =~= s);
        0
    }
}

proof fn lemma_trim_end(s: Seq<char>) -> (n: int)
    ensures
        0 <= n <= s.len(),
        trim_end_of(s) == s.take(n),
        forall|i: int| n <= i < s.len() ==> is_white_space(#[trigger] s[i]),
        n > 0 ==> !is_white_space(s[n - 1]),
    decreases s.len(),
{
    if s.len() > 0 && is_white_space(s.last()) {
        let rest = s.drop_last();
        let n = lemma_trim_end(rest);
        assert(rest.take(n) =~= s.take(n));
        assert forall|i: int| n <= i < s.len() implies is_white_space(#[trigger] s[i]) by {
            if i < rest.len() {
                assert(s[i] == rest[i]);
            }
        }
        n
    } else {
        assert(s.take(s.len() as int) =~= s);
        s.len() as int
    }
}

/// A text that is trimmed stands between what is white and neither begins nor ends with it.
pub proof fn law_trimmed_texts_stand_between_what_is_white(s: &str, r: String) -> (from: int)
    requires
        call_ensures(trim, (s,), r),
    ensures
        0 <= from && from + r@.len() <= s@.len(),
        r@ == s@.subrange(from, from + r@.len()),
        forall|i: int|
            0 <= i < from || from + r@.len() <= i < s@.len() ==> is_white_space(
                #[trigger] s@[i],
            ),
        r@.len() > 0 ==> !is_white_space(r@[0]) && !is_white_space(r@.last()),
{
    let n = lemma_trim_start(s@);
    let mid = trim_start_of(s@);
    let m = lemma_trim_end(mid);
    assert(r@ =~= s@.subrange(n, n + m));
    assert forall|i: int| 0 <= i < n || n + m <= i < s@.len() implies is_white_space(
        #[trigger] s@[i],
    ) by {
        if i >= n {
            assert(mid[i - n] == s@[i]);
        }
    }
    if m > 0 {
        assert(mid[0] == s@[n]);
        assert(r@.last() == mid[m - 1]);
    }
    n
}

/// Texts with a character between them.
pub open spec fn joined(pieces: Seq<Seq<char>>, c: char) -> Seq<char>
    decreases pieces.len(),
{
    if pieces.len() == 0 {
        Seq::empty()
    } else if pieces.len() == 1 {
        pieces[0]
    } else {
        joined(pieces.drop_last(), c).push(c) + pieces.last()
    }
}

proof fn lemma_split(s: Seq<char>, c: char)
    ensures
        split_on(s, c).len() > 0,
        joined(split_on(s, c), c) == s,
        forall|i: int| 0 <= i < split_on(s, c).len() ==> !(#[trigger] split_on(s, c)[i]).contains(c),
    decreases s.len(),
{
    let all = split_on(s, c);
    if s.len() == 0 {
        assert(all[0] =~= s);
    } else {
        let rest = s.drop_last();
        let before = split_on(rest, c);
        lemma_split(rest, c);
        assert(s =~= rest.push(s.last()));
        if s.last() == c {
            assert(all.drop_last() =~= before);
            assert(joined(all, c) =~= joined(before, c).push(c) + Seq::empty());
            assert(joined(all, c) =~= s);
        } else {
            let last = before.last().push(s.last());
            assert(all.drop_last() =~= before.drop_last());
            assert(all.last() == last);
            if before.len() == 1 {
                assert(before[0] == before.last());
                assert(joined(all, c) =~= s);
            } else {
                assert(joined(all, c) == joined(before.drop_last(), c).push(c) + last);
                assert(joined(before, c) == joined(before.drop_last(), c).push(c) + before.last());
                assert(joined(all, c) =~= joined(before, c).push(s.last()));
            }
            assert forall|i: int| 0 <= i < all.len() implies !(#[trigger] all[i]).contains(c) by {
                if i < before.len() - 1 {
                    assert(all[i] == before[i]);
                } else {
                    assert(all[i] == last);
                    assert(!before[before.len() - 1].contains(c));
                    if last.contains(c) {
                        let k = last.index_of(c);
                        assert(before.last()[k] == c);
                    }
                }
            }
        }
    }
}

/// The pieces of a text hold no separator, and with it between them they are the text.
pub proof fn law_pieces_are_joined_again(s: &str, c: char, r: Vec<String>, i: int)
    requires
        call_ensures(split, (s, c), r),
    ensures
        r@.len() > 0,
        joined(views(r@), c) == s@,
        0 <= i < r@.len() ==> !r@[i]@.contains(c),
{
    lemma_split(s@, c);
    assert(views(r@).len() == r@.len());
    if 0 <= i < r@.len() {
        assert(views(r@)[i] == r@[i]@);
    }
}

proof fn lemma_split_apart(a: Seq<char>, x: char, b: Seq<char>, sep: spec_fn(char) -> bool)
    requires
        sep(x),
    ensures
        split_by(a.push(x) + b, sep) == split_by(a, sep) + split_by(b, sep),
        split_by(a, sep).len() > 0,
        split_by(b, sep).len() > 0,
    decreases b.len(),
{
    let whole = a.push(x) + b;
    lemma_split_some(a, sep);
    lemma_split_some(b, sep);
    if b.len() == 0 {
        assert(whole =~= a.push(x));
        assert(whole.drop_last() =~= a);
        assert(split_by(a, sep).push(Seq::empty()) =~= split_by(a, sep) + split_by(b, sep));
    } else {
        let less = b.drop_last();
        lemma_split_apart(a, x, less, sep);
        assert(whole.drop_last() =~= a.push(x) + less);
        assert(whole.last() == b.last());
        let left = split_by(a, sep);
        let right = split_by(less, sep);
        assert((left + right).last() == right.last());
        if sep(b.last()) {
            assert((left + right).push(Seq::empty()) =~= left + right.push(Seq::empty()));
        } else {
            let last = right.last().push(b.last());
            assert((left + right).drop_last().push(last) =~= left + right.drop_last().push(last));
        }
    }
}

proof fn lemma_split_some(s: Seq<char>, sep: spec_fn(char) -> bool)
    ensures
        split_by(s, sep).len() > 0,
    decreases s.len(),
{
    if s.len() > 0 {
        lemma_split_some(s.drop_last(), sep);
    }
}

proof fn lemma_one_piece(s: Seq<char>, sep: spec_fn(char) -> bool)
    requires
        forall|i: int| 0 <= i < s.len() ==> !sep(#[trigger] s[i]),
    ensures
        split_by(s, sep) == seq![s],
    decreases s.len(),
{
    if s.len() > 0 {
        let less = s.drop_last();
        assert forall|i: int| 0 <= i < less.len() implies !sep(#[trigger] less[i]) by {
            assert(less[i] == s[i]);
        }
        lemma_one_piece(less, sep);
        assert(!sep(s[s.len() - 1]));
        assert(less.push(s.last()) =~= s);
        assert(seq![less].drop_last().push(less.push(s.last())) =~= seq![s]);
    } else {
        assert(s =~= Seq::empty());
    }
}

/// What stands on both sides of a blank gives its words to each side; what holds nothing white
/// is one word.
pub proof fn law_words_stand_between_what_is_white(
    a: &str,
    b: &str,
    both: &str,
    x: char,
    white: bool,
    ra: Vec<String>,
    rb: Vec<String>,
    r: Vec<String>,
)
    requires
        call_ensures(white_space, (x,), white),
        white,
        both@ == a@.push(x) + b@,
        call_ensures(words, (a,), ra),
        call_ensures(words, (b,), rb),
        call_ensures(words, (both,), r),
    ensures
        views(r@) == views(ra@) + views(rb@),
        a@.len() > 0 && (forall|i: int| 0 <= i < a@.len() ==> !is_white_space(#[trigger] a@[i]))
            ==> views(ra@) == seq![a@],
        a@.len() == 0 ==> ra@.len() == 0,
{
    lemma_split_apart(a@, x, b@, is_space());
    let left = split_by(a@, is_space());
    let right = split_by(b@, is_space());
    Seq::filter_distributes_over_add(left, right, is_word());
    if forall|i: int| 0 <= i < a@.len() ==> !is_white_space(#[trigger] a@[i]) {
        assert forall|i: int| 0 <= i < a@.len() implies !is_space()(#[trigger] a@[i]) by {
            assert(!is_white_space(a@[i]));
        }
        lemma_one_piece(a@, is_space());
        reveal_with_fuel(Seq::filter, 2);
        reveal(Seq::filter);
        assert(left.drop_last() =~= Seq::empty());
        assert(views(ra@).len() == ra@.len());
        if a@.len() > 0 {
            assert(left.filter(is_word()) =~= seq![a@]);
        }
    }
}

/// A text begins with its beginning, ends with its end, and what is left without its beginning
/// is the rest.
pub proof fn law_texts_begin_and_end(
    a: Seq<char>,
    b: Seq<char>,
    s: &str,
    prefix: &str,
    suffix: &str,
    begins: bool,
    ends: bool,
    rest: Option<String>,
)
    requires
        call_ensures(starts_with, (s, prefix), begins),
        call_ensures(ends_with, (s, suffix), ends),
        call_ensures(strip_prefix, (s, prefix), rest),
    ensures
        s@ == prefix@ + b ==> begins && opt_view(rest) == Some(b),
        s@ == a + suffix@ ==> ends,
        begins ==> rest is Some && s@ == prefix@ + rest->0@,
        !begins ==> rest is None,
        begins || ends ==> s@.len() >= prefix@.len() || s@.len() >= suffix@.len(),
        ends ==> s@ == s@.take(s@.len() - suffix@.len()) + suffix@,
{
    if s@ == prefix@ + b {
        assert(s@.subrange(0, prefix@.len() as int) =~= prefix@);
        assert(s@.subrange(prefix@.len() as int, s@.len() as int) =~= b);
    }
    if s@ == a + suffix@ {
        assert(s@.subrange(s@.len() - suffix@.len(), s@.len() as int) =~= suffix@);
    }
    if begins {
        assert(s@ =~= prefix@ + rest->0@);
    }
    if ends {
        assert(s@ =~= s@.take(s@.len() - suffix@.len()) + suffix@);
    }
}

proof fn lemma_find(s: Seq<char>, pattern: Seq<char>, from: nat, at: int)
    requires
        from <= s.len(),
    ensures
        ({
            let r = crate::text::find_from(s, pattern, from);
            &&& r is Some ==> from <= r->0 && r->0 + pattern.len() <= s.len() && s.subrange(
                r->0 as int,
                (r->0 + pattern.len()) as int,
            ) == pattern
            &&& from <= at && at + pattern.len() <= s.len() && s.subrange(
                at,
                at + pattern.len(),
            ) == pattern ==> r is Some && r->0 <= at
        }),
    decreases s.len() - from,
{
    if from + pattern.len() <= s.len() && s.subrange(
        from as int,
        (from + pattern.len()) as int,
    ) != pattern && from < s.len() {
        lemma_find(s, pattern, from + 1, at);
    }
}

/// A text is split at the first place where a pattern stands, and only where one does.
pub proof fn law_texts_are_split_at_the_first_place(
    s: &str,
    pattern: &str,
    at: int,
    holds: bool,
    r: Option<(String, String)>,
)
    requires
        call_ensures(split_once, (s, pattern), r),
        call_ensures(contains_text, (s, pattern), holds),
    ensures
        r is Some ==> s@ == (r->0).0@ + pattern@ + (r->0).1@,
        0 <= at && at + pattern@.len() <= s@.len() && s@.subrange(at, at + pattern@.len())
            == pattern@ ==> r is Some && (r->0).0@.len() <= at,
        holds <==> r is Some,
{
    lemma_find(s@, pattern@, 0, at);
    if r is Some {
        assert(s@ =~= (r->0).0@ + pattern@ + (r->0).1@);
    }
}

/// What stands before the first of a character holds none of it, and is all of a text without.
pub proof fn law_what_stands_before_the_first(s: &str, c: char, r: String)
    requires
        call_ensures(before_first, (s, c), r),
    ensures
        !r@.contains(c),
        r@.len() <= s@.len() && r@ == s@.take(r@.len() as int),
        r@.len() < s@.len() ==> s@[r@.len() as int] == c,
{
    lemma_before(s@, c);
}

proof fn lemma_before(s: Seq<char>, c: char)
    ensures
        ({
            let r = crate::text::before_first_of(s, c);
            &&& !r.contains(c)
            &&& r.len() <= s.len() && r == s.take(r.len() as int)
            &&& r.len() < s.len() ==> s[r.len() as int] == c
        }),
    decreases s.len(),
{
    let r = crate::text::before_first_of(s, c);
    if s.len() > 0 && s[0] != c {
        let rest = s.skip(1);
        lemma_before(rest, c);
        let less = crate::text::before_first_of(rest, c);
        assert(r =~= seq![s[0]] + less);
        if r.contains(c) {
            let k = r.index_of(c);
            assert(k > 0);
            assert(less[k - 1] == c);
        }
        assert(r =~= s.take(r.len() as int));
        if r.len() < s.len() {
            assert(rest[less.len() as int] == s[r.len() as int]);
        }
    } else {
        assert(r =~= s.take(0));
    }
}

proof fn lemma_less(a: Seq<char>, b: Seq<char>, n: int)
    requires
        0 <= n <= a.len() && n <= b.len(),
        a.take(n) == b.take(n),
        n == a.len() || n == b.len() || a[n] != b[n],
    ensures
        crate::text::str_less(a, b) <==> n < b.len() && (n == a.len() || a[n] < b[n]),
    decreases n,
{
    if n > 0 {
        assert(a[0] == a.take(n)[0] && b[0] == b.take(n)[0]);
        let x = a.skip(1);
        let y = b.skip(1);
        assert(x.take(n - 1) =~= a.take(n).skip(1));
        assert(y.take(n - 1) =~= b.take(n).skip(1));
        lemma_less(x, y, n - 1);
    }
}

/// Texts are in order by the first character in which they differ, and a text comes before what
/// goes on from it.
pub proof fn law_texts_are_in_order_by_their_first_difference(a: &str, b: &str, n: int, r: bool)
    requires
        call_ensures(comes_before, (a, b), r),
        0 <= n <= a@.len() && n <= b@.len(),
        a@.take(n) == b@.take(n),
        n == a@.len() || n == b@.len() || a@[n] != b@[n],
    ensures
        n < a@.len() && n < b@.len() ==> (r <==> a@[n] < b@[n]),
        n == a@.len() && n < b@.len() ==> r,
        n == b@.len() ==> !r,
{
    lemma_less(a@, b@, n);
}

/// What is sorted is what was there, in order.
pub proof fn law_sorted_texts_are_in_order(
    list: Vec<String>,
    r: Vec<String>,
    i: int,
    j: int,
    a: &str,
    b: &str,
    back: bool,
)
    requires
        call_ensures(sort_strings, (&list,), r),
        0 <= i < j < r@.len(),
        a@ == r@[i]@ && b@ == r@[j]@,
        call_ensures(comes_before, (b, a), back),
    ensures
        !back,
        views(r@).to_multiset() == views(list@).to_multiset(),
{
    assert(views(r@)[i] == r@[i]@ && views(r@)[j] == r@[j]@);
}

/// A digit stands for its number, a letter from `a` to `f` for ten and more, in either case.
pub proof fn law_digits_stand_for_numbers(c: char, r: Option<u32>, s: &str, hex: bool, i: int)
    requires
        call_ensures(hex_digit, (c,), r),
        call_ensures(is_all_hex, (s,), hex),
    ensures
        '0' <= c <= '9' ==> r == Some((c as u32 - '0' as u32) as u32),
        'a' <= c <= 'f' ==> r == Some((c as u32 - 'a' as u32 + 10) as u32),
        'A' <= c <= 'F' ==> r == Some((c as u32 - 'A' as u32 + 10) as u32),
        c == 'g' || c == 'G' || c == ' ' || c == '-' ==> r is None,
        hex && 0 <= i < s@.len() ==> ('0' <= s@[i] <= '9' || 'a' <= s@[i] <= 'f' || 'A' <= s@[i]
            <= 'F'),
{
    if hex && 0 <= i < s@.len() {
        assert(crate::text::hex_value(s@[i]) is Some);
    }
}

/// A number that is written is read back, with a sign before it too; one above the limit is
/// not read.
pub proof fn law_numbers_are_read_back(
    n: u64,
    max: u64,
    text: String,
    s: &str,
    signed: &str,
    r: Option<u64>,
    with_sign: Option<u64>,
)
    requires
        call_ensures(decimal, (n,), text),
        s@ == text@,
        signed@ == seq!['+'] + text@,
        call_ensures(read_unsigned, (s, 10, max), r),
        call_ensures(read_unsigned, (signed, 10, max), with_sign),
    ensures
        n <= max ==> r == Some(n) && with_sign == Some(n),
        n > max ==> r is None,
{
    crate::text::law_decimals_are_read_back(n as nat, n as nat);
    assert(signed@.skip(1) =~= text@);
    assert(signed@[0] == '+');
    lemma_decimal_first(n as nat);
}

proof fn lemma_decimal_first(n: nat)
    ensures
        crate::text::decimal_of(n).len() > 0,
        '0' <= crate::text::decimal_of(n)[0] <= '9',
    decreases n,
{
    if n >= 10 {
        lemma_decimal_first(n / 10);
    }
}

/// Texts are the same but for their case where each letter is.
pub proof fn law_case_is_passed_over(a: &str, b: &str, r: bool, i: int)
    requires
        call_ensures(eq_ignore_ascii_case, (a, b), r),
    ensures
        a@ == b@ ==> r,
        r ==> a@.len() == b@.len(),
        r && 0 <= i < a@.len() && 'a' <= a@[i] <= 'z' ==> b@[i] == a@[i] || b@[i] as int == a@[i]
            as int - 32,
        r && 0 <= i < a@.len() && !('a' <= a@[i] <= 'z') && !('A' <= a@[i] <= 'Z') ==> b@[i]
            == a@[i],
{
    if r {
        let x = a@.map_values(|c: char| crate::text::lower_ascii(c));
        let y = b@.map_values(|c: char| crate::text::lower_ascii(c));
        assert(x.len() == y.len());
        if 0 <= i < a@.len() {
            assert(x[i] == crate::text::lower_ascii(a@[i]));
            assert(y[i] == crate::text::lower_ascii(b@[i]));
            if 'A' <= b@[i] <= 'Z' {
                let n = (b@[i] as u32 + 32) as u32;
                assert(97 <= n <= 122);
                assert((n as char) as u32 == n);
            }
        }
    }
}

/// A child of a directory lies under it, is named by its name, and leads back to it.
pub proof fn law_children_lie_under_their_directory(
    dir: RepoPath,
    name: &str,
    child: RepoPath,
    parent: Option<RepoPath>,
    file: Option<String>,
    under: bool,
    itself: bool,
    above: bool,
    below: Option<RepoPath>,
)
    requires
        name@ != "."@ && name@ != ".."@,
        dir.absolute,
        call_ensures(RepoPath::child, (&dir, name), child),
        call_ensures(RepoPath::parent, (&child,), parent),
        call_ensures(RepoPath::file_name, (&child,), file),
        call_ensures(RepoPath::is_under, (&child, &dir), under),
        call_ensures(RepoPath::is_under, (&dir, &dir), itself),
        call_ensures(RepoPath::is_under, (&dir, &child), above),
        call_ensures(RepoPath::below, (&child, &dir), below),
    ensures
        parent is Some && parent->0@ == dir@,
        opt_view(file) == Some(name@),
        under && itself && !above,
        below is Some && below->0@ == (false, seq![name@]),
{
    assert(child@.1.drop_last() =~= dir@.1);
    assert(child@.1.last() == name@);
    assert(child@.1.take(dir@.1.len() as int) =~= dir@.1);
    assert(dir@.1.take(dir@.1.len() as int) =~= dir@.1);
    assert(child@.1.skip(dir@.1.len() as int) =~= seq![name@]);
}

/// An absolute path takes the place of what it is joined to; any other goes on from it.
pub proof fn law_joined_paths_go_on(dir: RepoPath, rel: RepoPath, r: RepoPath, below: Option<RepoPath>)
    requires
        call_ensures(RepoPath::join, (&dir, &rel), r),
        call_ensures(RepoPath::below, (&r, &dir), below),
    ensures
        rel.absolute ==> r@ == rel@ && r.text@ == rel.text@,
        !rel.absolute && dir.absolute && (rel@.1.len() == 0 || rel@.1[0] != "."@) ==> below is Some
            && below->0@ == rel@,
        !rel.absolute ==> r.absolute == dir.absolute,
{
    if !rel.absolute && dir.absolute && (rel@.1.len() == 0 || rel@.1[0] != "."@) {
        assert(r@.1 =~= dir@.1 + rel@.1);
        assert(r@.1.take(dir@.1.len() as int) =~= dir@.1);
        assert(r@.1.skip(dir@.1.len() as int) =~= rel@.1);
    }
}

} // verus!
