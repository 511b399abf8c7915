//! Text primitives over the character sequence of a string.
use vstd::prelude::*;
use vstd::utf8::{encode_utf8, encode_utf8_decode_utf8};

verus! {

/// Whether `s` begins with `prefix`.
pub open spec fn has_prefix(s: Seq<char>, prefix: Seq<char>) -> bool {
    prefix.len() <= s.len() && s.subrange(0, prefix.len() as int) == prefix
}

/// Whether `s` ends with `suffix`.
pub open spec fn has_suffix(s: Seq<char>, suffix: Seq<char>) -> bool {
    suffix.len() <= s.len() && s.subrange(s.len() - suffix.len(), s.len() as int) == suffix
}

/// What is left of `s` behind `prefix`, when `s` begins with it.
pub open spec fn strip_prefix_of(s: Seq<char>, prefix: Seq<char>) -> Option<Seq<char>> {
    if has_prefix(s, prefix) {
        Some(s.subrange(prefix.len() as int, s.len() as int))
    } else {
        None
    }
}

/// The views of a list of strings.
pub open spec fn views(v: Seq<String>) -> Seq<Seq<char>> {
    v.map_values(|s: String| s@)
}

/// The view of an optional string.
pub open spec fn opt_view(o: Option<String>) -> Option<Seq<char>> {
    match o {
        Some(s) => Some(s@),
        None => None,
    }
}

/// The characters with the Unicode `White_Space` property.
pub open spec fn is_white_space(c: char) -> bool {
    let n = c as u32;
    ||| 9 <= n <= 13
    ||| n == 0x20
    ||| n == 0x85
    ||| n == 0xa0
    ||| n == 0x1680
    ||| 0x2000 <= n <= 0x200a
    ||| n == 0x2028
    ||| n == 0x2029
    ||| n == 0x202f
    ||| n == 0x205f
    ||| n == 0x3000
}

/// `s` without its leading white space.
pub open spec fn trim_start_of(s: Seq<char>) -> Seq<char>
    decreases s.len(),
{
    if s.len() > 0 && is_white_space(s[0]) {
        trim_start_of(s.skip(1))
    } else {
        s
    }
}

/// `s` without its trailing white space.
pub open spec fn trim_end_of(s: Seq<char>) -> Seq<char>
    decreases s.len(),
{
    if s.len() > 0 && is_white_space(s.last()) {
        trim_end_of(s.drop_last())
    } else {
        s
    }
}

/// `s` without the white space around it.
pub open spec fn trim_of(s: Seq<char>) -> Seq<char> {
    trim_end_of(trim_start_of(s))
}

/// The pieces of `s` between the characters that satisfy `sep`: always one more
/// piece than there are such characters.
pub open spec fn split_by(s: Seq<char>, sep: spec_fn(char) -> bool) -> Seq<Seq<char>>
    decreases s.len(),
{
    if s.len() == 0 {
        seq![Seq::empty()]
    } else {
        let before = split_by(s.drop_last(), sep);
        if sep(s.last()) {
            before.push(Seq::empty())
        } else {
            before.drop_last().push(before.last().push(s.last()))
        }
    }
}

/// The test for one character.
pub open spec fn is_char(c: char) -> spec_fn(char) -> bool {
    |x: char| x == c
}

/// The test for white space.
pub open spec fn is_space() -> spec_fn(char) -> bool {
    |x: char| is_white_space(x)
}

/// The test for a piece that holds at least one character.
pub open spec fn is_word() -> spec_fn(Seq<char>) -> bool {
    |w: Seq<char>| w.len() > 0
}

/// The pieces of `s` between the occurrences of `c`.
pub open spec fn split_on(s: Seq<char>, c: char) -> Seq<Seq<char>> {
    split_by(s, is_char(c))
}

/// The maximal runs of `s` without white space.
pub open spec fn words_of(s: Seq<char>) -> Seq<Seq<char>> {
    split_by(s, is_space()).filter(is_word())
}

/// The value of an ASCII hexadecimal digit, if `c` is one.
pub open spec fn hex_value(c: char) -> Option<nat> {
    if '0' <= c && c <= '9' {
        Some((c as int - '0' as int) as nat)
    } else if 'a' <= c && c <= 'f' {
        Some((c as int - 'a' as int + 10) as nat)
    } else if 'A' <= c && c <= 'F' {
        Some((c as int - 'A' as int + 10) as nat)
    } else {
        None
    }
}

/// Whether `s` holds hexadecimal digits only.
pub open spec fn all_hex(s: Seq<char>) -> bool {
    forall|i: int| 0 <= i < s.len() ==> #[trigger] hex_value(s[i]) is Some
}

/// The number that a run of digits denotes in `radix`.
pub open spec fn digits_value(s: Seq<char>, radix: nat) -> nat
    decreases s.len(),
{
    if s.len() == 0 {
        0
    } else {
        digits_value(s.drop_last(), radix) * radix + hex_value(s.last())->0
    }
}

/// Whether `s` is a run of digits of `radix`, with at least one digit.
pub open spec fn all_digits(s: Seq<char>, radix: nat) -> bool {
    &&& s.len() > 0
    &&& forall|i: int|
        0 <= i < s.len() ==> (#[trigger] hex_value(s[i]) is Some && hex_value(s[i])->0 < radix)
}

/// An unsigned number as it is written: digits, behind at most one plus sign.
pub open spec fn unsigned_body(s: Seq<char>) -> Seq<char> {
    if s.len() > 0 && s[0] == '+' {
        s.skip(1)
    } else {
        s
    }
}

/// The number that `s` denotes in `radix`, when it is one of at most `max`.
pub open spec fn parse_unsigned(s: Seq<char>, radix: nat, max: nat) -> Option<nat> {
    let body = unsigned_body(s);
    if all_digits(body, radix) && digits_value(body, radix) <= max {
        Some(digits_value(body, radix))
    } else {
        None
    }
}

/// `c` with an ASCII upper-case letter made lower-case.
pub open spec fn lower_ascii(c: char) -> char {
    if 'A' <= c && c <= 'Z' {
        (c as u32 + 32) as char
    } else {
        c
    }
}

/// Equality that ignores the case of ASCII letters.
pub open spec fn same_ignoring_ascii_case(a: Seq<char>, b: Seq<char>) -> bool {
    a.map_values(|c: char| lower_ascii(c)) == b.map_values(|c: char| lower_ascii(c))
}

/// Compares two strings, byte by byte.
pub fn str_eq(a: &str, b: &str) -> (r: bool)
    ensures
        r == (a@ == b@),
{
    let x = a.as_bytes();
    let y = b.as_bytes();
    if x.len() != y.len() {
        return false;
    }
    let mut i: usize = 0;
    while i < x.len()
        invariant
            i <= x.len(),
            x@.len() == y@.len(),
            x@ == encode_utf8(a@),
            y@ == encode_utf8(b@),
            forall|j: int| 0 <= j < i ==> x@[j] == y@[j],
        decreases x.len() - i,
    {
        if x[i] != y[i] {
            return false;
        }
        i += 1;
    }
    proof {
        assert(x@ =~= y@);
        encode_utf8_decode_utf8(a@);
        encode_utf8_decode_utf8(b@);
    }
    true
}

/// Compares an optional string with a string.
pub fn opt_is(o: &Option<String>, b: &str) -> (r: bool)
    ensures
        r == (opt_view(*o) == Some(b@)),
{
    match o {
        Some(s) => str_eq(s.as_str(), b),
        None => false,
    }
}

/// A copy of an optional string.
pub fn clone_opt(o: &Option<String>) -> (r: Option<String>)
    ensures
        r == *o,
{
    match o {
        Some(s) => Some(s.clone()),
        None => None,
    }
}

/// A copy of a list of strings.
pub fn clone_strings(v: &Vec<String>) -> (r: Vec<String>)
    ensures
        r@ == v@,
{
    let mut out: Vec<String> = Vec::new();
    let mut i: usize = 0;
    while i < v.len()
        invariant
            i <= v.len(),
            out@ == v@.take(i as int),
        decreases v.len() - i,
    {
        out.push(v[i].clone());
        i += 1;
    }
    out
}

/// The characters of `s`, in order.
pub fn chars_of(s: &str) -> (r: Vec<char>)
    ensures
        r@ == s@,
{
    let mut out: Vec<char> = Vec::new();
    for c in it: s.chars()
        invariant
            it.seq() == s@,
            out@ == s@.take(it.index() as int),
    {
        out.push(c);
    }
    out
}

/// Whether `s` begins with `prefix`.
pub fn starts_with(s: &str, prefix: &str) -> (r: bool)
    ensures
        r == has_prefix(s@, prefix@),
{
    let n: usize = prefix.unicode_len();
    if n > s.unicode_len() {
        return false;
    }
    str_eq(s.substring_char(0, n), prefix)
}

/// Whether `s` ends with `suffix`.
pub fn ends_with(s: &str, suffix: &str) -> (r: bool)
    ensures
        r == has_suffix(s@, suffix@),
{
    let n: usize = suffix.unicode_len();
    let m: usize = s.unicode_len();
    if n > m {
        return false;
    }
    str_eq(s.substring_char(m - n, m), suffix)
}

/// What is left of `s` behind `prefix`, when `s` begins with it.
pub fn strip_prefix(s: &str, prefix: &str) -> (r: Option<String>)
    ensures
        opt_view(r) == strip_prefix_of(s@, prefix@),
{
    if starts_with(s, prefix) {
        Some(s.substring_char(prefix.unicode_len(), s.unicode_len()).to_owned())
    } else {
        None
    }
}

/// Whether the list holds the string.
pub fn contains_str(list: &Vec<String>, s: &str) -> (r: bool)
    ensures
        r == views(list@).contains(s@),
{
    let mut i: usize = 0;
    while i < list.len()
        invariant
            i <= list.len(),
            forall|j: int| 0 <= j < i ==> list@[j]@ != s@,
        decreases list.len() - i,
    {
        if str_eq(list[i].as_str(), s) {
            assert(views(list@)[i as int] == s@);
            return true;
        }
        i += 1;
    }
    false
}

/// Whether `s` holds the character `c`.
pub fn contains_char(s: &str, c: char) -> (r: bool)
    ensures
        r == s@.contains(c),
{
    let cs = chars_of(s);
    let mut i: usize = 0;
    while i < cs.len()
        invariant
            i <= cs.len(),
            cs@ == s@,
            forall|j: int| 0 <= j < i ==> cs@[j] != c,
        decreases cs.len() - i,
    {
        if cs[i] == c {
            assert(s@[i as int] == c);
            return true;
        }
        i += 1;
    }
    false
}

/// Whether `c` has the Unicode `White_Space` property.
pub fn white_space(c: char) -> (r: bool)
    ensures
        r == is_white_space(c),
{
    let n: u32 = c as u32;
    (9 <= n && n <= 13) || n == 0x20 || n == 0x85 || n == 0xa0 || n == 0x1680 || (0x2000 <= n && n
        <= 0x200a) || n == 0x2028 || n == 0x2029 || n == 0x202f || n == 0x205f || n == 0x3000
}

proof fn lemma_trim_start_step(s: Seq<char>, lo: int)
    requires
        0 <= lo < s.len(),
        is_white_space(s[lo]),
    ensures
        trim_start_of(s.skip(lo)) == trim_start_of(s.skip(lo + 1)),
{
    assert(s.skip(lo).skip(1) =~= s.skip(lo + 1));
}

proof fn lemma_trim_end_step(s: Seq<char>, lo: int, hi: int)
    requires
        0 <= lo < hi <= s.len(),
        is_white_space(s[hi - 1]),
    ensures
        trim_end_of(s.subrange(lo, hi)) == trim_end_of(s.subrange(lo, hi - 1)),
{
    assert(s.subrange(lo, hi).drop_last() =~= s.subrange(lo, hi - 1));
}

/// `s` without the white space around it.
pub fn trim(s: &str) -> (r: String)
    ensures
        r@ == trim_of(s@),
{
    let cs = chars_of(s);
    let n: usize = cs.len();
    let mut lo: usize = 0;
    assert(cs@.skip(0) =~= cs@);
    while lo < n && white_space(cs[lo])
        invariant
            lo <= n,
            n == cs@.len(),
            trim_start_of(cs@) == trim_start_of(cs@.skip(lo as int)),
        decreases n - lo,
    {
        proof {
            lemma_trim_start_step(cs@, lo as int);
        }
        lo += 1;
    }
    let mut hi: usize = n;
    assert(cs@.skip(lo as int) =~= cs@.subrange(lo as int, n as int));
    while lo < hi && white_space(cs[hi - 1])
        invariant
            lo <= hi <= n,
            n == cs@.len(),
            trim_end_of(cs@.subrange(lo as int, n as int)) == trim_end_of(
                cs@.subrange(lo as int, hi as int),
            ),
        decreases hi,
    {
        proof {
            lemma_trim_end_step(cs@, lo as int, hi as int);
        }
        hi -= 1;
    }
    s.substring_char(lo, hi).to_owned()
}

proof fn lemma_split_step(s: Seq<char>, i: int, sep: spec_fn(char) -> bool)
    requires
        0 <= i < s.len(),
    ensures
        split_by(s.take(i + 1), sep) == ({
            let before = split_by(s.take(i), sep);
            if sep(s[i]) {
                before.push(Seq::empty())
            } else {
                before.drop_last().push(before.last().push(s[i]))
            }
        }),
{
    assert(s.take(i + 1).drop_last() =~= s.take(i));
    assert(s.take(i + 1).last() == s[i]);
}

/// The pieces of `s` between the occurrences of `c`.
pub fn split(s: &str, c: char) -> (r: Vec<String>)
    ensures
        views(r@) == split_on(s@, c),
{
    let cs = chars_of(s);
    let n: usize = cs.len();
    let ghost sep = is_char(c);
    let mut out: Vec<String> = Vec::new();
    let mut start: usize = 0;
    let mut i: usize = 0;
    assert(cs@.subrange(0, 0) =~= Seq::<char>::empty());
    assert(views(out@).push(cs@.subrange(0, 0)) =~= seq![Seq::<char>::empty()]);
    assert(cs@.take(0) =~= Seq::<char>::empty());
    while i < n
        invariant
            start <= i <= n,
            n == cs@.len(),
            cs@ == s@,
            sep == is_char(c),
            split_by(cs@.take(i as int), sep) == views(out@).push(
                cs@.subrange(start as int, i as int),
            ),
        decreases n - i,
    {
        proof {
            lemma_split_step(cs@, i as int, sep);
        }
        let ghost before = views(out@);
        let ghost last = cs@.subrange(start as int, i as int);
        assert(before.push(last).drop_last() =~= before);
        if cs[i] == c {
            out.push(s.substring_char(start, i).to_owned());
            start = i + 1;
            assert(views(out@) =~= before.push(last));
            assert(cs@.subrange(start as int, i + 1) =~= Seq::<char>::empty());
        } else {
            assert(cs@.subrange(start as int, i + 1) =~= last.push(cs@[i as int]));
        }
        i += 1;
    }
    let ghost before = views(out@);
    out.push(s.substring_char(start, n).to_owned());
    assert(views(out@) =~= before.push(cs@.subrange(start as int, n as int)));
    assert(cs@.take(n as int) =~= cs@);
    out
}

proof fn lemma_words_push(pieces: Seq<Seq<char>>, w: Seq<char>)
    ensures
        pieces.push(w).filter(is_word()) == (if w.len() > 0 {
            pieces.filter(is_word()).push(w)
        } else {
            pieces.filter(is_word())
        }),
{
    reveal(Seq::filter);
    assert(pieces.push(w).drop_last() =~= pieces);
}

/// The maximal runs of `s` without white space.
pub fn words(s: &str) -> (r: Vec<String>)
    ensures
        views(r@) == words_of(s@),
{
    let cs = chars_of(s);
    let n: usize = cs.len();
    let ghost sep = is_space();
    let ghost full = is_word();
    let ghost mut pieces: Seq<Seq<char>> = Seq::empty();
    let mut out: Vec<String> = Vec::new();
    let mut start: usize = 0;
    let mut i: usize = 0;
    proof {
        reveal(Seq::filter);
        assert(cs@.subrange(0, 0) =~= Seq::<char>::empty());
        assert(pieces.push(cs@.subrange(0, 0)) =~= seq![Seq::<char>::empty()]);
        assert(cs@.take(0) =~= Seq::<char>::empty());
        assert(views(out@) =~= pieces.filter(full));
    }
    while i < n
        invariant
            start <= i <= n,
            n == cs@.len(),
            cs@ == s@,
            sep == is_space(),
            full == is_word(),
            split_by(cs@.take(i as int), sep) == pieces.push(cs@.subrange(start as int, i as int)),
            views(out@) == pieces.filter(full),
        decreases n - i,
    {
        let ghost last = cs@.subrange(start as int, i as int);
        proof {
            lemma_split_step(cs@, i as int, sep);
            assert(pieces.push(last).drop_last() =~= pieces);
        }
        if white_space(cs[i]) {
            let ghost before = views(out@);
            proof {
                lemma_words_push(pieces, last);
            }
            if start < i {
                out.push(s.substring_char(start, i).to_owned());
                assert(views(out@) =~= before.push(last));
            }
            proof {
                pieces = pieces.push(last);
            }
            start = i + 1;
            assert(cs@.subrange(start as int, i + 1) =~= Seq::<char>::empty());
        } else {
            assert(cs@.subrange(start as int, i + 1) =~= last.push(cs@[i as int]));
        }
        i += 1;
    }
    let ghost last = cs@.subrange(start as int, n as int);
    let ghost before = views(out@);
    proof {
        lemma_words_push(pieces, last);
        assert(cs@.take(n as int) =~= cs@);
    }
    if start < n {
        out.push(s.substring_char(start, n).to_owned());
        assert(views(out@) =~= before.push(last));
    }
    out
}

/// The value of an ASCII hexadecimal digit, if `c` is one.
pub fn hex_digit(c: char) -> (r: Option<u32>)
    ensures
        r is Some <==> hex_value(c) is Some,
        r is Some ==> r->0 == hex_value(c)->0 && r->0 < 16,
{
    if '0' <= c && c <= '9' {
        Some(c as u32 - '0' as u32)
    } else if 'a' <= c && c <= 'f' {
        Some(c as u32 - 'a' as u32 + 10)
    } else if 'A' <= c && c <= 'F' {
        Some(c as u32 - 'A' as u32 + 10)
    } else {
        None
    }
}

proof fn lemma_digits_grow(s: Seq<char>, i: int, radix: nat)
    requires
        0 <= i <= s.len(),
        radix >= 1,
    ensures
        digits_value(s.take(i), radix) <= digits_value(s, radix),
    decreases s.len(),
{
    if i == s.len() {
        assert(s.take(i) =~= s);
    } else {
        assert(s.take(i) =~= s.drop_last().take(i));
        lemma_digits_grow(s.drop_last(), i, radix);
        let v = digits_value(s.drop_last(), radix);
        assert(v * radix >= v) by (nonlinear_arith)
            requires
                radix >= 1,
        ;
    }
}

/// Reads an unsigned number of at most `max` in `radix`: at least one digit,
/// behind at most one plus sign.
pub fn read_unsigned(s: &str, radix: u64, max: u64) -> (r: Option<u64>)
    requires
        2 <= radix <= 16,
    ensures
        r is Some <==> parse_unsigned(s@, radix as nat, max as nat) is Some,
        r is Some ==> r->0 == parse_unsigned(s@, radix as nat, max as nat)->0,
{
    let all = chars_of(s);
    let mut first: usize = 0;
    if all.len() > 0 && all[0] == '+' {
        first = 1;
    }
    let ghost body = unsigned_body(s@);
    assert(body =~= all@.skip(first as int));
    let n: usize = all.len() - first;
    if n == 0 {
        return None;
    }
    let mut value: u64 = 0;
    let mut i: usize = 0;
    assert(body.take(0) =~= Seq::<char>::empty());
    while i < n
        invariant
            i <= n,
            n == body.len(),
            n + first == all.len(),
            body == all@.skip(first as int),
            body == unsigned_body(s@),
            2 <= radix <= 16,
            value <= max,
            value == digits_value(body.take(i as int), radix as nat),
            forall|j: int|
                0 <= j < i ==> (#[trigger] hex_value(body[j]) is Some && hex_value(body[j])->0
                    < radix),
        decreases n - i,
    {
        let c = all[first + i];
        assert(c == body[i as int]);
        assert(body.take(i + 1).drop_last() =~= body.take(i as int));
        match hex_digit(c) {
            Some(d) => {
                if d as u64 >= radix {
                    assert(hex_value(body[i as int])->0 >= radix);
                    return None;
                }
                proof {
                    lemma_digits_grow(body, i + 1, radix as nat);
                }
                assert(value * radix <= 0xffff_ffff_ffff_ffff * 16) by (nonlinear_arith)
                    requires
                        value <= 0xffff_ffff_ffff_ffff,
                        radix <= 16,
                ;
                let wide: u128 = value as u128 * radix as u128 + d as u128;
                assert(wide == digits_value(body.take(i + 1), radix as nat));
                if wide > max as u128 {
                    return None;
                }
                value = wide as u64;
            },
            None => {
                assert(hex_value(body[i as int]) is None);
                return None;
            },
        }
        i += 1;
    }
    assert(body.take(n as int) =~= body);
    Some(value)
}

/// Whether `s` holds hexadecimal digits only.
pub fn is_all_hex(s: &str) -> (r: bool)
    ensures
        r == all_hex(s@),
{
    let cs = chars_of(s);
    let mut i: usize = 0;
    while i < cs.len()
        invariant
            i <= cs.len(),
            cs@ == s@,
            forall|j: int| 0 <= j < i ==> #[trigger] hex_value(s@[j]) is Some,
        decreases cs.len() - i,
    {
        match hex_digit(cs[i]) {
            Some(_) => {},
            None => {
                assert(hex_value(s@[i as int]) is None);
                return false;
            },
        }
        i += 1;
    }
    true
}

fn lower(c: char) -> (r: u32)
    ensures
        r == lower_ascii(c) as u32,
{
    let n: u32 = c as u32;
    if 'A' <= c && c <= 'Z' {
        n + 32
    } else {
        n
    }
}

/// Equality that ignores the case of ASCII letters.
pub fn eq_ignore_ascii_case(a: &str, b: &str) -> (r: bool)
    ensures
        r == same_ignoring_ascii_case(a@, b@),
{
    let x = chars_of(a);
    let y = chars_of(b);
    let ghost la = a@.map_values(|c: char| lower_ascii(c));
    let ghost lb = b@.map_values(|c: char| lower_ascii(c));
    if x.len() != y.len() {
        assert(la.len() != lb.len());
        return false;
    }
    let mut i: usize = 0;
    while i < x.len()
        invariant
            i <= x.len(),
            x@ == a@,
            y@ == b@,
            x.len() == y.len(),
            la == a@.map_values(|c: char| lower_ascii(c)),
            lb == b@.map_values(|c: char| lower_ascii(c)),
            forall|j: int| 0 <= j < i ==> la[j] == lb[j],
        decreases x.len() - i,
    {
        if lower(x[i]) != lower(y[i]) {
            assert(la[i as int] != lb[i as int]);
            return false;
        }
        i += 1;
    }
    assert(la =~= lb);
    true
}

/// The part of `s` before the first `c`, or all of it.
pub open spec fn before_first_of(s: Seq<char>, c: char) -> Seq<char>
    decreases s.len(),
{
    if s.len() == 0 || s[0] == c {
        Seq::empty()
    } else {
        seq![s[0]] + before_first_of(s.skip(1), c)
    }
}

proof fn lemma_before_first(s: Seq<char>, c: char, i: int)
    requires
        0 <= i <= s.len(),
        forall|j: int| 0 <= j < i ==> s[j] != c,
        i == s.len() || s[i] == c,
    ensures
        before_first_of(s, c) == s.take(i),
    decreases s.len(),
{
    if i > 0 {
        lemma_before_first(s.skip(1), c, i - 1);
        assert(seq![s[0]] + s.skip(1).take(i - 1) =~= s.take(i));
    } else {
        assert(s.take(0) =~= Seq::<char>::empty());
    }
}

/// The part of `s` before the first `c`, or all of it.
pub fn before_first(s: &str, c: char) -> (r: String)
    ensures
        r@ == before_first_of(s@, c),
{
    let cs = chars_of(s);
    let mut i: usize = 0;
    while i < cs.len() && cs[i] != c
        invariant
            i <= cs.len(),
            cs@ == s@,
            forall|j: int| 0 <= j < i ==> cs@[j] != c,
        decreases cs.len() - i,
    {
        i += 1;
    }
    proof {
        lemma_before_first(s@, c, i as int);
    }
    s.substring_char(0, i).to_owned()
}

/// Byte-wise order of two strings, which is the order of their characters.
pub open spec fn str_less(a: Seq<char>, b: Seq<char>) -> bool
    decreases a.len(),
{
    if b.len() == 0 {
        false
    } else if a.len() == 0 {
        true
    } else if a[0] != b[0] {
        a[0] < b[0]
    } else {
        str_less(a.skip(1), b.skip(1))
    }
}

/// Lexicographic order is transitive.
pub proof fn lemma_str_less_transitive(a: Seq<char>, b: Seq<char>, c: Seq<char>)
    requires
        str_less(a, b),
        str_less(b, c),
    ensures
        str_less(a, c),
    decreases a.len(),
{
    if a.len() > 0 && b.len() > 0 && c.len() > 0 && a[0] == b[0] && b[0] == c[0] {
        lemma_str_less_transitive(a.skip(1), b.skip(1), c.skip(1));
    }
}

/// Of two strings exactly one comes first, or they are equal.
pub proof fn lemma_str_less_total(a: Seq<char>, b: Seq<char>)
    ensures
        str_less(a, b) || str_less(b, a) || a == b,
        !(str_less(a, b) && str_less(b, a)),
        a == b ==> !str_less(a, b),
    decreases a.len(),
{
    if a.len() > 0 && b.len() > 0 && a[0] == b[0] {
        lemma_str_less_total(a.skip(1), b.skip(1));
        if a.skip(1) == b.skip(1) {
            assert(a =~= seq![a[0]] + a.skip(1));
            assert(b =~= seq![b[0]] + b.skip(1));
        }
    } else if a.len() == 0 && b.len() == 0 {
        assert(a =~= b);
    }
}

proof fn lemma_str_less_step(a: Seq<char>, b: Seq<char>, i: int)
    requires
        0 <= i < a.len(),
        i < b.len(),
        a[i] == b[i],
    ensures
        str_less(a.skip(i), b.skip(i)) == str_less(a.skip(i + 1), b.skip(i + 1)),
{
    assert(a.skip(i).skip(1) =~= a.skip(i + 1));
    assert(b.skip(i).skip(1) =~= b.skip(i + 1));
}

/// Whether `a` comes before `b`.
pub fn comes_before(a: &str, b: &str) -> (r: bool)
    ensures
        r == str_less(a@, b@),
{
    let x = chars_of(a);
    let y = chars_of(b);
    let mut i: usize = 0;
    assert(x@.skip(0) =~= x@);
    assert(y@.skip(0) =~= y@);
    while i < x.len() && i < y.len() && x[i] == y[i]
        invariant
            i <= x.len(),
            i <= y.len(),
            str_less(x@, y@) == str_less(x@.skip(i as int), y@.skip(i as int)),
        decreases x.len() - i,
    {
        proof {
            lemma_str_less_step(x@, y@, i as int);
        }
        i += 1;
    }
    if i >= y.len() {
        false
    } else if i >= x.len() {
        true
    } else {
        x[i] < y[i]
    }
}

/// Whether no string of the list comes before one that stands earlier in it.
pub open spec fn in_order(s: Seq<Seq<char>>) -> bool {
    forall|i: int, j: int| 0 <= i < j < s.len() ==> !str_less(#[trigger] s[j], #[trigger] s[i])
}

proof fn lemma_insert_in_order(s: Seq<Seq<char>>, at: int, x: Seq<char>)
    requires
        0 <= at <= s.len(),
        in_order(s),
        forall|i: int| 0 <= i < at ==> !str_less(x, #[trigger] s[i]),
        at < s.len() ==> str_less(x, s[at]),
    ensures
        in_order(s.insert(at, x)),
{
    let t = s.insert(at, x);
    assert forall|i: int, j: int| 0 <= i < j < t.len() implies !str_less(
        #[trigger] t[j],
        #[trigger] t[i],
    ) by {
        if i == at {
            lemma_str_less_total(x, s[at]);
            lemma_str_less_total(s[j - 1], s[at]);
            if j - 1 > at && str_less(s[j - 1], x) {
                lemma_str_less_transitive(s[j - 1], x, s[at]);
            }
        } else if j == at {
            assert(t[i] == s[i]);
        } else {
            let a = if i < at { i } else { i - 1 };
            let b = if j < at { j } else { j - 1 };
            assert(t[i] == s[a] && t[j] == s[b]);
        }
    }
}

/// The same strings, put in order.
pub fn sort_strings(v: &Vec<String>) -> (r: Vec<String>)
    ensures
        in_order(views(r@)),
        views(r@).to_multiset() == views(v@).to_multiset(),
{
    let mut out: Vec<String> = Vec::new();
    let mut i: usize = 0;
    assert(views(out@) =~= views(v@.take(0)));
    while i < v.len()
        invariant
            i <= v.len(),
            in_order(views(out@)),
            views(out@).to_multiset() == views(v@.take(i as int)).to_multiset(),
        decreases v.len() - i,
    {
        let mut at: usize = 0;
        while at < out.len() && !comes_before(v[i].as_str(), out[at].as_str())
            invariant
                i < v.len(),
                at <= out.len(),
                forall|j: int| 0 <= j < at ==> !str_less(v@[i as int]@, #[trigger] views(out@)[j]),
            decreases out.len() - at,
        {
            at += 1;
        }
        let ghost before = views(out@);
        let ghost x = v@[i as int]@;
        proof {
            broadcast use vstd::seq_lib::group_to_multiset_ensures;

            lemma_insert_in_order(before, at as int, x);
            lemma_insert_multiset(before, at as int, x);
            assert(views(v@.take(i + 1)) =~= views(v@.take(i as int)).push(x));
            assert(views(v@.take(i + 1)).to_multiset() == before.to_multiset().insert(x));
        }
        out.insert(at, v[i].clone());
        assert(views(out@) =~= before.insert(at as int, x));
        i += 1;
    }
    assert(v@.take(v@.len() as int) =~= v@);
    out
}

/// Inserting an item adds it to the multiset of a sequence.
pub proof fn lemma_insert_multiset<A>(s: Seq<A>, at: int, x: A)
    requires
        0 <= at <= s.len(),
    ensures
        s.insert(at, x).to_multiset() == s.to_multiset().insert(x),
{
    broadcast use vstd::seq_lib::group_to_multiset_ensures;

    let front = s.take(at);
    let back = s.skip(at);
    assert(s =~= front + back);
    assert(s.insert(at, x) =~= front.push(x) + back);
    vstd::seq_lib::lemma_multiset_commutative(front, back);
    vstd::seq_lib::lemma_multiset_commutative(front.push(x), back);
    assert(front.push(x).to_multiset() =~= front.to_multiset().insert(x));
    assert(s.insert(at, x).to_multiset() =~= s.to_multiset().insert(x));
}

/// The two texts one behind the other.
pub fn concat(a: &str, b: &str) -> (r: String)
    ensures
        r@ == a@ + b@,
{
    let mut out = a.to_owned();
    out.append(b);
    out
}

/// Where `pattern` first occurs in `s` at or behind `from`.
pub open spec fn find_from(s: Seq<char>, pattern: Seq<char>, from: nat) -> Option<nat>
    decreases s.len() - from,
{
    if from + pattern.len() > s.len() {
        None
    } else if s.subrange(from as int, (from + pattern.len()) as int) == pattern {
        Some(from)
    } else if from >= s.len() {
        None
    } else {
        find_from(s, pattern, from + 1)
    }
}

/// The texts before and behind the first occurrence of `pattern`.
pub open spec fn split_once_of(s: Seq<char>, pattern: Seq<char>) -> Option<(Seq<char>, Seq<char>)> {
    match find_from(s, pattern, 0) {
        Some(at) => Some(
            (s.subrange(0, at as int), s.subrange((at + pattern.len()) as int, s.len() as int)),
        ),
        None => None,
    }
}

/// Splits `s` at the first occurrence of `pattern`.
pub fn split_once(s: &str, pattern: &str) -> (r: Option<(String, String)>)
    ensures
        match r {
            Some(p) => split_once_of(s@, pattern@) == Some((p.0@, p.1@)),
            None => split_once_of(s@, pattern@) is None,
        },
{
    let n: usize = s.unicode_len();
    let m: usize = pattern.unicode_len();
    let mut at: usize = 0;
    while m <= n && at <= n - m
        invariant
            n == s@.len(),
            m == pattern@.len(),
            at <= n,
            m <= n ==> at <= n - m + 1,
            find_from(s@, pattern@, 0) == find_from(s@, pattern@, at as nat),
        decreases n - at,
    {
        let piece = s.substring_char(at, at + m);
        if str_eq(piece, pattern) {
            return Some((s.substring_char(0, at).to_owned(), s.substring_char(at + m, n).to_owned()));
        }
        if at == n {
            return None;
        }
        at += 1;
    }
    None
}

/// Whether `pattern` occurs in `s`.
pub fn contains_text(s: &str, pattern: &str) -> (r: bool)
    ensures
        r == (split_once_of(s@, pattern@) is Some),
{
    split_once(s, pattern).is_some()
}

/// The decimal digit of a value below ten.
pub open spec fn digit_char(d: nat) -> char {
    if d == 0 {
        '0'
    } else if d == 1 {
        '1'
    } else if d == 2 {
        '2'
    } else if d == 3 {
        '3'
    } else if d == 4 {
        '4'
    } else if d == 5 {
        '5'
    } else if d == 6 {
        '6'
    } else if d == 7 {
        '7'
    } else if d == 8 {
        '8'
    } else {
        '9'
    }
}

/// A number in decimal digits.
pub open spec fn decimal_of(n: nat) -> Seq<char>
    decreases n,
{
    if n < 10 {
        seq![digit_char(n)]
    } else {
        decimal_of(n / 10).push(digit_char(n % 10))
    }
}

fn digit_text(d: u64) -> (r: &'static str)
    requires
        d < 10,
    ensures
        r@ == seq![digit_char(d as nat)],
{
    proof {
        reveal_strlit("0");
        reveal_strlit("1");
        reveal_strlit("2");
        reveal_strlit("3");
        reveal_strlit("4");
        reveal_strlit("5");
        reveal_strlit("6");
        reveal_strlit("7");
        reveal_strlit("8");
        reveal_strlit("9");
    }
    let r: &'static str = match d {
        0 => "0",
        1 => "1",
        2 => "2",
        3 => "3",
        4 => "4",
        5 => "5",
        6 => "6",
        7 => "7",
        8 => "8",
        _ => "9",
    };
    assert(r@ =~= seq![digit_char(d as nat)]);
    r
}

/// A number in decimal digits.
pub fn decimal(n: u64) -> (r: String)
    ensures
        r@ == decimal_of(n as nat),
    decreases n,
{
    if n < 10 {
        return digit_text(n).to_owned();
    }
    let mut out = decimal(n / 10);
    let ghost before = out@;
    out.append(digit_text(n % 10));
    assert(out@ =~= before.push(digit_char((n % 10) as nat)));
    out
}

proof fn lemma_digit(d: nat)
    requires
        d < 10,
    ensures
        hex_value(digit_char(d)) == Some(d),
{
}

proof fn lemma_decimal(n: nat)
    ensures
        decimal_of(n).len() > 0,
        all_digits(decimal_of(n), 10),
        digits_value(decimal_of(n), 10) == n,
        decimal_of(n)[0] != '+',
    decreases n,
{
    reveal_with_fuel(digits_value, 2);
    if n < 10 {
        lemma_digit(n);
        assert(decimal_of(n).drop_last() =~= Seq::<char>::empty());
    } else {
        lemma_decimal(n / 10);
        lemma_digit(n % 10);
        let s = decimal_of(n);
        assert(s.drop_last() =~= decimal_of(n / 10));
        assert(s.last() == digit_char(n % 10));
        assert forall|i: int| 0 <= i < s.len() implies hex_value(#[trigger] s[i]) is Some
            && hex_value(s[i])->0 < 10 by {
            if i < s.len() - 1 {
                assert(s[i] == decimal_of(n / 10)[i]);
            }
        }
    }
}

/// A number that is written in decimal digits is read back.
pub proof fn law_decimals_are_read_back(n: nat, max: nat)
    requires
        n <= max,
    ensures
        parse_unsigned(decimal_of(n), 10, max) == Some(n),
{
    lemma_decimal(n);
}

} // verus!
