//! The commits that a cherry-pick or a revert names.
use crate::commands::{is_valid_oid, NormalizedCommand};
use crate::repo_state::git_oid;
use crate::text::{
    concat, contains_str, contains_text, has_prefix, opt_is, opt_view, split, split_on, split_once,
    split_once_of, starts_with, str_eq, strip_prefix, strip_prefix_of, trim, trim_of, views, words,
    words_of,
};
use crate::trace::ParsedGitInvocation;
use vstd::prelude::*;

verus! {

/// Whether an argument ends, resumes or skips the command under way.
pub open spec fn steers(arg: Seq<char>) -> bool {
    arg == "--abort"@ || arg == "--continue"@ || arg == "--quit"@ || arg == "--skip"@
}

/// Whether an option takes the argument behind it.
pub open spec fn takes_next(arg: Seq<char>, strategies: bool) -> bool {
    ||| arg == "-m"@
    ||| arg == "--mainline"@
    ||| strategies && (arg == "-X"@ || arg == "--strategy-option"@ || arg == "--strategy"@)
}

/// The commits named from argument `i` on; none where the command only steers one under way.
/// Behind `--` every argument names a commit.
pub open spec fn named_from(args: Seq<Seq<char>>, i: nat, strategies: bool) -> Option<
    Seq<Seq<char>>,
>
    decreases
            if i < args.len() {
                args.len() - i
            } else {
                0
            },
{
    if i >= args.len() {
        Some(Seq::empty())
    } else if args[i as int] == "--"@ {
        Some(args.skip(i as int + 1))
    } else if steers(args[i as int]) {
        None
    } else if takes_next(args[i as int], strategies) {
        named_from(args, i + 2, strategies)
    } else if has_prefix(args[i as int], "-"@) || args[i as int].len() == 0 {
        named_from(args, i + 1, strategies)
    } else {
        match named_from(args, i + 1, strategies) {
            Some(rest) => Some(seq![args[i as int]] + rest),
            None => None,
        }
    }
}

/// The commits that a list of arguments names.
pub open spec fn named(args: Seq<Seq<char>>, strategies: bool) -> Seq<Seq<char>> {
    match named_from(args, 0, strategies) {
        Some(found) => found,
        None => Seq::empty(),
    }
}

/// The arguments of a revert, without the command's own name.
pub open spec fn revert_args(args: Seq<Seq<char>>) -> Seq<Seq<char>> {
    if args.len() > 0 && args[0] == "revert"@ {
        args.skip(1)
    } else {
        args
    }
}

fn is_steering(arg: &str) -> (r: bool)
    ensures
        r == steers(arg@),
{
    str_eq(arg, "--abort") || str_eq(arg, "--continue") || str_eq(arg, "--quit") || str_eq(
        arg,
        "--skip",
    )
}

fn is_taking_next(arg: &str, strategies: bool) -> (r: bool)
    ensures
        r == takes_next(arg@, strategies),
{
    str_eq(arg, "-m") || str_eq(arg, "--mainline") || (strategies && (str_eq(arg, "-X") || str_eq(
        arg,
        "--strategy-option",
    ) || str_eq(arg, "--strategy")))
}

/// Whether the arguments read so far, with what the rest names, are what the whole names.
spec fn so_far(args: Seq<Seq<char>>, strategies: bool, found: Seq<Seq<char>>, i: nat) -> bool {
    named_from(args, 0, strategies) == match named_from(args, i, strategies) {
        Some(rest) => Some(found + rest),
        None => None,
    }
}

fn named_commits(args: &Vec<String>, first: usize, strategies: bool) -> (r: Vec<String>)
    requires
        first <= args.len(),
    ensures
        views(r@) == named(views(args@).skip(first as int), strategies),
{
    let ghost all = views(args@).skip(first as int);
    let mut found: Vec<String> = Vec::new();
    let mut i: usize = first;
    proof {
        assert(views(found@) =~= Seq::<Seq<char>>::empty());
        if let Some(rest) = named_from(all, 0, strategies) {
            assert(views(found@) + rest =~= rest);
        }
    }
    while i < args.len()
        invariant
            first <= i,
            all == views(args@).skip(first as int),
            first <= args.len(),
            so_far(all, strategies, views(found@), (i - first) as nat),
        decreases args.len() - i,
    {
        let arg = args[i].as_str();
        assert(all[i - first] == arg@);
        if str_eq(arg, "--") {
            let mut j: usize = i + 1;
            let ghost before = views(found@);
            while j < args.len()
                invariant
                    i + 1 <= j <= args.len(),
                    views(found@) == before + views(args@).subrange(i + 1, j as int),
                decreases args.len() - j,
            {
                let ghost was = views(found@);
                found.push(args[j].clone());
                assert(views(found@) =~= was.push(args@[j as int]@));
                assert(views(args@).subrange(i + 1, j + 1) =~= views(args@).subrange(
                    i + 1,
                    j as int,
                ).push(args@[j as int]@));
                assert(views(found@) =~= before + views(args@).subrange(i + 1, j + 1));
                j += 1;
            }
            assert(views(args@).subrange(i + 1, args@.len() as int) =~= all.skip(i - first + 1));
            return found;
        }
        if is_steering(arg) {
            let none: Vec<String> = Vec::new();
            assert(views(none@) =~= Seq::<Seq<char>>::empty());
            return none;
        }
        if is_taking_next(arg, strategies) {
            if args.len() - i <= 2 {
                assert(named_from(all, (i - first + 2) as nat, strategies) == Some(
                    Seq::<Seq<char>>::empty(),
                ));
                assert(views(found@) + Seq::<Seq<char>>::empty() =~= views(found@));
                return found;
            }
            i += 2;
            continue;
        }
        if !starts_with(arg, "-") && arg.unicode_len() > 0 {
            let ghost was = views(found@);
            found.push(args[i].clone());
            proof {
                assert(views(found@) =~= was.push(arg@));
                if let Some(rest) = named_from(all, (i - first + 1) as nat, strategies) {
                    assert(was + (seq![arg@] + rest) =~= views(found@) + rest);
                }
            }
        }
        i += 1;
    }
    assert(views(found@) + Seq::<Seq<char>>::empty() =~= views(found@));
    found
}

/// The commits that the arguments of a cherry-pick name.
pub fn cherry_pick_source_args_from_command_args(args: &Vec<String>) -> (r: Vec<String>)
    ensures
        views(r@) == named(views(args@), true),
{
    assert(views(args@).skip(0) =~= views(args@));
    named_commits(args, 0, true)
}

/// The commits that the arguments of a revert name.
pub fn revert_source_args_from_command_args(args: &Vec<String>) -> (r: Vec<String>)
    ensures
        views(r@) == named(revert_args(views(args@)), false),
{
    assert(views(args@).skip(0) =~= views(args@));
    if args.len() > 0 && str_eq(args[0].as_str(), "revert") {
        assert(views(args@)[0] == args@[0]@);
        named_commits(args, 1, false)
    } else {
        assert(args@.len() > 0 ==> views(args@)[0] == args@[0]@);
        named_commits(args, 0, false)
    }
}

/// Whether a command line is a call of this command.
pub open spec fn calls(cmd: NormalizedCommand, parsed: ParsedGitInvocation, name: Seq<char>) -> bool {
    opt_view(parsed.command) == Some(name) || cmd.primary() == Some(name)
}

/// The commits that a cherry-pick names; none for another command.
pub fn cherry_pick_source_args_for_side_effect(
    cmd: &NormalizedCommand,
    parsed: &ParsedGitInvocation,
) -> (r: Vec<String>)
    ensures
        views(r@) == if calls(*cmd, *parsed, "cherry-pick"@) {
            named(views(parsed.command_args@), true)
        } else {
            Seq::empty()
        },
{
    if !opt_is(&parsed.command, "cherry-pick") && !cmd.is("cherry-pick") {
        let none: Vec<String> = Vec::new();
        assert(views(none@) =~= Seq::<Seq<char>>::empty());
        return none;
    }
    cherry_pick_source_args_from_command_args(&parsed.command_args)
}

/// The commits that a revert names; none for another command.
pub fn revert_source_args_for_side_effect(
    cmd: &NormalizedCommand,
    parsed: &ParsedGitInvocation,
) -> (r: Vec<String>)
    ensures
        views(r@) == if calls(*cmd, *parsed, "revert"@) {
            named(revert_args(views(parsed.command_args@)), false)
        } else {
            Seq::empty()
        },
{
    if !opt_is(&parsed.command, "revert") && !cmd.is("revert") {
        let none: Vec<String> = Vec::new();
        assert(views(none@) =~= Seq::<Seq<char>>::empty());
        return none;
    }
    revert_source_args_from_command_args(&parsed.command_args)
}

/// Whether the command is a cherry-pick with this flag.
pub fn cherry_pick_command_has_flag(
    cmd: &NormalizedCommand,
    parsed: &ParsedGitInvocation,
    flag: &str,
) -> (r: bool)
    ensures
        r == (calls(*cmd, *parsed, "cherry-pick"@) && views(parsed.command_args@).contains(flag@)),
{
    if !opt_is(&parsed.command, "cherry-pick") && !cmd.is("cherry-pick") {
        return false;
    }
    contains_str(&parsed.command_args, flag)
}

/// Whether a source names a range of commits.
pub open spec fn range_source(source: Seq<char>) -> bool {
    split_once_of(source, ".."@) is Some
}

/// Whether a range lacks an end.
pub open spec fn omits_a_side(source: Seq<char>) -> bool {
    match split_once_of(source, "..."@) {
        Some(sides) => sides.0.len() == 0 || sides.1.len() == 0,
        None => match split_once_of(source, ".."@) {
            Some(sides) => sides.0.len() == 0 || sides.1.len() == 0,
            None => false,
        },
    }
}

/// Whether a source names a range of commits.
pub fn cherry_pick_source_is_range(source: &str) -> (r: bool)
    ensures
        r == range_source(source@),
{
    contains_text(source, "..")
}

/// Whether a range lacks an end.
pub fn cherry_pick_range_has_omitted_side(source: &str) -> (r: bool)
    ensures
        r == omits_a_side(source@),
{
    if let Some((left, right)) = split_once(source, "...") {
        left.as_str().unicode_len() == 0 || right.as_str().unicode_len() == 0
    } else if let Some((left, right)) = split_once(source, "..") {
        left.as_str().unicode_len() == 0 || right.as_str().unicode_len() == 0
    } else {
        false
    }
}

/// Whether a text climbs from a commit to an ancestor.
pub open spec fn climbs(suffix: Seq<char>) -> bool {
    has_prefix(suffix, "~"@) || has_prefix(suffix, "^"@)
}

/// A name of a commit with `HEAD` replaced by the commit that it was.
pub open spec fn fixed_term(term: Seq<char>, head: Seq<char>) -> Seq<char> {
    if term == "HEAD"@ || term == "@"@ {
        head
    } else if strip_prefix_of(term, "HEAD"@) is Some && climbs(strip_prefix_of(term, "HEAD"@)->0) {
        head + strip_prefix_of(term, "HEAD"@)->0
    } else if strip_prefix_of(term, "@"@) is Some && climbs(strip_prefix_of(term, "@"@)->0) {
        head + strip_prefix_of(term, "@"@)->0
    } else {
        term
    }
}

/// A source with `HEAD` replaced, in a range at both ends.
pub open spec fn fixed_source(source: Seq<char>, head: Seq<char>) -> Seq<char> {
    if !git_oid(head) {
        source
    } else {
        match split_once_of(source, "..."@) {
            Some(sides) => fixed_term(sides.0, head) + "..."@ + fixed_term(sides.1, head),
            None => match split_once_of(source, ".."@) {
                Some(sides) => fixed_term(sides.0, head) + ".."@ + fixed_term(sides.1, head),
                None => fixed_term(source, head),
            },
        }
    }
}

/// A name of a commit with `HEAD` replaced by the commit that it was.
pub fn rewrite_head_source_term_for_side_effect(term: &str, head_context: &str) -> (r: String)
    ensures
        r@ == fixed_term(term@, head_context@),
{
    if str_eq(term, "HEAD") || str_eq(term, "@") {
        return head_context.to_owned();
    }
    if let Some(suffix) = strip_prefix(term, "HEAD") {
        if starts_with(suffix.as_str(), "~") || starts_with(suffix.as_str(), "^") {
            return concat(head_context, suffix.as_str());
        }
    }
    if let Some(suffix) = strip_prefix(term, "@") {
        if starts_with(suffix.as_str(), "~") || starts_with(suffix.as_str(), "^") {
            return concat(head_context, suffix.as_str());
        }
    }
    term.to_owned()
}

/// A source with `HEAD` replaced by the commit that it was when the command began.
pub fn rewrite_head_source_arg_for_side_effect(source: &str, head_context: &str) -> (r: String)
    ensures
        r@ == fixed_source(source@, head_context@),
{
    if !is_valid_oid(head_context) {
        return source.to_owned();
    }
    if let Some((left, right)) = split_once(source, "...") {
        let a = rewrite_head_source_term_for_side_effect(left.as_str(), head_context);
        let b = rewrite_head_source_term_for_side_effect(right.as_str(), head_context);
        return concat(concat(a.as_str(), "...").as_str(), b.as_str());
    }
    if let Some((left, right)) = split_once(source, "..") {
        let a = rewrite_head_source_term_for_side_effect(left.as_str(), head_context);
        let b = rewrite_head_source_term_for_side_effect(right.as_str(), head_context);
        return concat(concat(a.as_str(), "..").as_str(), b.as_str());
    }
    rewrite_head_source_term_for_side_effect(source, head_context)
}

/// What git is asked for one source.
#[derive(Debug)]
pub enum SourceQuery {
    /// Nothing: the range is open.
    Nothing,
    /// The commits of a range, oldest first.
    Range(String),
    /// One commit, through this line of input.
    Single(String),
}

/// A question to git, as a text.
pub enum SourceQueryModel {
    Nothing,
    Range(Seq<char>),
    Single(Seq<char>),
}

impl View for SourceQuery {
    type V = SourceQueryModel;

    open spec fn view(&self) -> SourceQueryModel {
        match *self {
            SourceQuery::Nothing => SourceQueryModel::Nothing,
            SourceQuery::Range(range) => SourceQueryModel::Range(range@),
            SourceQuery::Single(line) => SourceQueryModel::Single(line@),
        }
    }
}

/// The question for one source, named when `HEAD` was at `head`.
pub open spec fn query_for(source: Seq<char>, head: Option<Seq<char>>) -> SourceQueryModel {
    let source = match head {
        Some(head) => fixed_source(source, head),
        None => source,
    };
    if !range_source(source) {
        SourceQueryModel::Single(source + "^{commit}\n"@)
    } else if omits_a_side(source) {
        SourceQueryModel::Nothing
    } else {
        SourceQueryModel::Range(source)
    }
}

/// What git is asked for each of the sources.
pub fn source_queries(sources: &Vec<String>, head_context: &Option<String>) -> (r: Vec<SourceQuery>)
    ensures
        r@.len() == sources@.len(),
        forall|i: int|
            0 <= i < r@.len() ==> (#[trigger] r@[i])@ == query_for(
                sources@[i]@,
                opt_view(*head_context),
            ),
{
    let mut out: Vec<SourceQuery> = Vec::new();
    let mut i: usize = 0;
    while i < sources.len()
        invariant
            i <= sources.len(),
            out@.len() == i,
            forall|j: int|
                0 <= j < i ==> (#[trigger] out@[j])@ == query_for(
                    sources@[j]@,
                    opt_view(*head_context),
                ),
        decreases sources.len() - i,
    {
        let source = match head_context {
            Some(head) => rewrite_head_source_arg_for_side_effect(
                sources[i].as_str(),
                head.as_str(),
            ),
            None => sources[i].clone(),
        };
        let query = if !cherry_pick_source_is_range(source.as_str()) {
            SourceQuery::Single(concat(source.as_str(), "^{commit}\n"))
        } else if cherry_pick_range_has_omitted_side(source.as_str()) {
            SourceQuery::Nothing
        } else {
            SourceQuery::Range(source)
        };
        out.push(query);
        i += 1;
    }
    out
}

/// The object id that a line of a type query gives, when it is that of a commit.
pub open spec fn commit_in_line(line: Seq<char>) -> Option<Seq<char>> {
    let parts = words_of(line);
    if parts.len() >= 2 && parts[1] == "commit"@ && git_oid(parts[0]) {
        Some(parts[0])
    } else {
        None
    }
}

/// The object id that a line is.
pub open spec fn oid_in_line(line: Seq<char>) -> Option<Seq<char>> {
    if git_oid(trim_of(line)) {
        Some(trim_of(line))
    } else {
        None
    }
}

/// What a list of lines gives, line by line.
pub open spec fn gathered(lines: Seq<Seq<char>>, typed: bool) -> Seq<Seq<char>>
    decreases lines.len(),
{
    if lines.len() == 0 {
        Seq::empty()
    } else {
        let before = gathered(lines.drop_last(), typed);
        let found = if typed {
            commit_in_line(lines.last())
        } else {
            oid_in_line(lines.last())
        };
        match found {
            Some(oid) => before.push(oid),
            None => before,
        }
    }
}

fn read_lines(output: &str, typed: bool) -> (r: Vec<String>)
    ensures
        views(r@) == gathered(split_on(output@, '\n'), typed),
{
    let lines = split(output, '\n');
    let mut out: Vec<String> = Vec::new();
    let mut i: usize = 0;
    assert(views(out@) =~= Seq::<Seq<char>>::empty());
    assert(views(lines@).take(0) =~= Seq::<Seq<char>>::empty());
    while i < lines.len()
        invariant
            i <= lines.len(),
            views(out@) == gathered(views(lines@).take(i as int), typed),
        decreases lines.len() - i,
    {
        assert(views(lines@).take(i + 1).drop_last() =~= views(lines@).take(i as int));
        assert(views(lines@).take(i + 1).last() == lines@[i as int]@);
        let ghost was = views(out@);
        if typed {
            let parts = words(lines[i].as_str());
            if parts.len() >= 2 && str_eq(parts[1].as_str(), "commit") && is_valid_oid(
                parts[0].as_str(),
            ) {
                assert(views(parts@)[0] == parts@[0]@ && views(parts@)[1] == parts@[1]@);
                out.push(parts[0].clone());
                assert(views(out@) =~= was.push(parts@[0]@));
            } else {
                assert(parts@.len() >= 2 ==> views(parts@)[0] == parts@[0]@ && views(parts@)[1]
                    == parts@[1]@);
            }
        } else {
            let line = trim(lines[i].as_str());
            if is_valid_oid(line.as_str()) {
                let ghost it = line@;
                out.push(line);
                assert(views(out@) =~= was.push(it));
            }
        }
        i += 1;
    }
    assert(views(lines@).take(lines@.len() as int) =~= views(lines@));
    out
}

/// The commits in git's answer on object types.
pub fn commits_in_type_answer(output: &str) -> (r: Vec<String>)
    ensures
        views(r@) == gathered(split_on(output@, '\n'), true),
{
    read_lines(output, true)
}

/// The commits in git's answer on a range.
pub fn commits_in_range_answer(output: &str) -> (r: Vec<String>)
    ensures
        views(r@) == gathered(split_on(output@, '\n'), false),
{
    read_lines(output, false)
}

/// A list with each text kept where it first stands.
pub open spec fn distinct(list: Seq<Seq<char>>) -> Seq<Seq<char>>
    decreases list.len(),
{
    if list.len() == 0 {
        Seq::empty()
    } else {
        let before = distinct(list.drop_last());
        if before.contains(list.last()) {
            before
        } else {
            before.push(list.last())
        }
    }
}

/// The lists one behind the other.
pub open spec fn flat(lists: Seq<Vec<String>>) -> Seq<Seq<char>>
    decreases lists.len(),
{
    if lists.len() == 0 {
        Seq::empty()
    } else {
        flat(lists.drop_last()) + views(lists.last()@)
    }
}

/// The commits of all answers, each where it first stands.
pub fn resolved_sources(answers: &Vec<Vec<String>>) -> (r: Vec<String>)
    ensures
        views(r@) == distinct(flat(answers@)),
{
    let mut out: Vec<String> = Vec::new();
    let mut i: usize = 0;
    assert(views(out@) =~= Seq::<Seq<char>>::empty());
    assert(answers@.take(0) =~= Seq::<Vec<String>>::empty());
    while i < answers.len()
        invariant
            i <= answers.len(),
            views(out@) == distinct(flat(answers@.take(i as int))),
        decreases answers.len() - i,
    {
        let ghost done = flat(answers@.take(i as int));
        let list = &answers[i];
        let mut j: usize = 0;
        assert(done + views(list@).take(0) =~= done);
        while j < list.len()
            invariant
                j <= list.len(),
                views(out@) == distinct(done + views(list@).take(j as int)),
            decreases list.len() - j,
        {
            let ghost next = done + views(list@).take(j + 1);
            assert(next.drop_last() =~= done + views(list@).take(j as int));
            assert(next.last() == list@[j as int]@);
            if !contains_str(&out, list[j].as_str()) {
                let ghost was = views(out@);
                out.push(list[j].clone());
                assert(views(out@) =~= was.push(list@[j as int]@));
            }
            j += 1;
        }
        assert(views(list@).take(list@.len() as int) =~= views(list@));
        assert(answers@.take(i + 1).drop_last() =~= answers@.take(i as int));
        i += 1;
    }
    assert(answers@.take(answers@.len() as int) =~= answers@);
    out
}

/// No commit is resolved twice, and none that an answer holds is lost.
pub proof fn law_sources_are_distinct(list: Seq<Seq<char>>)
    ensures
        distinct(list).no_duplicates(),
        forall|oid: Seq<char>| distinct(list).contains(oid) == list.contains(oid),
    decreases list.len(),
{
    if list.len() > 0 {
        law_sources_are_distinct(list.drop_last());
        let before = distinct(list.drop_last());
        assert forall|oid: Seq<char>| distinct(list).contains(oid) == list.contains(oid) by {
            assert(list =~= list.drop_last().push(list.last()));
            if list.contains(oid) {
                let i = choose|i: int| 0 <= i < list.len() && list[i] == oid;
                if i < list.len() - 1 {
                    assert(list.drop_last()[i] == oid);
                    assert(list.drop_last().contains(oid));
                    assert(before.contains(oid));
                    let k = choose|k: int| 0 <= k < before.len() && before[k] == oid;
                    if !before.contains(list.last()) {
                        assert(before.push(list.last())[k] == oid);
                    }
                } else if !before.contains(list.last()) {
                    assert(before.push(list.last())[before.len() as int] == oid);
                }
            }
            if distinct(list).contains(oid) {
                let k = choose|k: int| 0 <= k < distinct(list).len() && distinct(list)[k] == oid;
                if k < before.len() {
                    assert(before[k] == oid);
                    assert(before.contains(oid));
                    assert(list.drop_last().contains(oid));
                    let i = choose|i: int|
                        0 <= i < list.drop_last().len() && list.drop_last()[i] == oid;
                    assert(list[i] == oid);
                } else {
                    assert(list[list.len() - 1] == oid);
                }
            }
        }
    }
}

} // verus!
