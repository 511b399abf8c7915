//! The sources of cherry-picks and reverts, and cherry-picks that stop.
use crate::commands::{all_picked, head_scope, moved_change, new_oids, CommandFacts, NormalizedCommand, RefChange};
use crate::laws::refs::{lemma_all_is_filter, lemma_first_of_filter, moves_head};
use crate::pending::PendingRewrites;
use crate::repo_state::git_oid;
use crate::side_effects::{
    note_stopped_cherry_pick, CommandAnswers, SideEffectError, StoppedCherryPick,
};
use crate::sources::{
    cherry_pick_command_has_flag, cherry_pick_range_has_omitted_side,
    cherry_pick_source_args_for_side_effect, cherry_pick_source_args_from_command_args,
    cherry_pick_source_is_range, commits_in_range_answer, commits_in_type_answer, distinct, flat,
    gathered, named_from, resolved_sources, revert_source_args_for_side_effect,
    revert_source_args_from_command_args, rewrite_head_source_arg_for_side_effect,
    rewrite_head_source_term_for_side_effect, source_queries, SourceQuery,
};
use crate::text::{has_prefix, opt_view, split_on, trim_of, views, words_of};
use crate::trace::ParsedGitInvocation;
use vstd::prelude::*;

verus! {

pub(crate) proof fn lemma_words()
    ensures
        "--"@.len() == 2 && "--"@[0] == '-' && "--"@[1] == '-',
        "-m"@.len() == 2 && "-m"@[0] == '-' && "-m"@[1] == 'm',
        "-X"@.len() == 2 && "-X"@[0] == '-' && "-X"@[1] == 'X',
        "-"@.len() == 1 && "-"@[0] == '-',
        "--abort"@.len() == 7 && "--abort"@[0] == '-' && "--abort"@[2] == 'a',
        "--continue"@.len() == 10 && "--continue"@[0] == '-' && "--continue"@[2] == 'c',
        "--quit"@.len() == 6 && "--quit"@[0] == '-' && "--quit"@[2] == 'q',
        "--skip"@.len() == 6 && "--skip"@[0] == '-' && "--skip"@[2] == 's',
        "--mainline"@.len() == 10 && "--mainline"@[0] == '-' && "--mainline"@[2] == 'm',
        "--strategy"@.len() == 10 && "--strategy"@[0] == '-' && "--strategy"@[2] == 's',
        "--strategy-option"@.len() == 17 && "--strategy-option"@[0] == '-',
{
    reveal_strlit("--");
    reveal_strlit("-m");
    reveal_strlit("-X");
    reveal_strlit("-");
    reveal_strlit("--abort");
    reveal_strlit("--continue");
    reveal_strlit("--quit");
    reveal_strlit("--skip");
    reveal_strlit("--mainline");
    reveal_strlit("--strategy");
    reveal_strlit("--strategy-option");
}

proof fn lemma_plain_words(args: Seq<Seq<char>>, i: nat, strategies: bool)
    requires
        i <= args.len(),
        forall|k: int|
            i <= k < args.len() ==> (#[trigger] args[k]).len() > 0 && args[k][0] != '-',
    ensures
        named_from(args, i, strategies) == Some(args.skip(i as int)),
    decreases args.len() - i,
{
    lemma_words();
    if i < args.len() {
        lemma_plain_words(args, i + 1, strategies);
        assert(args.skip(i as int) =~= seq![args[i as int]] + args.skip(i as int + 1));
        if has_prefix(args[i as int], "-"@) {
            assert(args[i as int].subrange(0, 1)[0] == args[i as int][0]);
        }
    } else {
        assert(args.skip(i as int) =~= Seq::empty());
    }
}

/// Words without a leading dash are all sources, of a cherry-pick and of a revert, in order.
pub proof fn law_plain_words_are_sources(args: Vec<String>, picked: Vec<String>, undone: Vec<String>)
    requires
        forall|k: int|
            0 <= k < args@.len() ==> (#[trigger] args@[k])@.len() > 0 && args@[k]@[0] != '-',
        args@.len() > 0 ==> args@[0]@ != "revert"@,
        call_ensures(cherry_pick_source_args_from_command_args, (&args,), picked),
        call_ensures(revert_source_args_from_command_args, (&args,), undone),
    ensures
        views(picked@) == views(args@),
        views(undone@) == views(args@),
{
    let words = views(args@);
    assert forall|k: int| 0 <= k < words.len() implies (#[trigger] words[k]).len() > 0
        && words[k][0] != '-' by {
        assert(words[k] == args@[k]@);
    }
    if words.len() > 0 {
        assert(words[0] == args@[0]@);
    }
    lemma_plain_words(words, 0, true);
    lemma_plain_words(words, 0, false);
    assert(words.skip(0) =~= words);
}

/// An option with its value before the sources is no source: `-m 1` and, of a cherry-pick,
/// `-X ours`; a flag is none either. Behind `--` everything is a source.
pub proof fn law_options_are_no_sources(
    plain: Vec<String>,
    mainline: Vec<String>,
    strategy: Vec<String>,
    flagged: Vec<String>,
    dashed: Vec<String>,
    rest: Seq<Seq<char>>,
    value: Seq<char>,
    flag: Seq<char>,
    rs: (Vec<String>, Vec<String>, Vec<String>, Vec<String>, Vec<String>),
)
    requires
        views(plain@) == rest,
        views(mainline@) == seq!["-m"@, value] + rest,
        views(strategy@) == seq!["-X"@, value] + rest,
        views(flagged@) == seq![flag] + rest,
        views(dashed@) == seq!["--"@] + rest,
        flag == "-x"@ || flag == "--no-commit"@ || flag == "-n"@ || flag == "--edit"@ || flag == "-s"@,
        forall|k: int| 0 <= k < rest.len() ==> (#[trigger] rest[k]).len() > 0 && rest[k][0] != '-',
        call_ensures(cherry_pick_source_args_from_command_args, (&plain,), rs.0),
        call_ensures(cherry_pick_source_args_from_command_args, (&mainline,), rs.1),
        call_ensures(cherry_pick_source_args_from_command_args, (&strategy,), rs.2),
        call_ensures(cherry_pick_source_args_from_command_args, (&flagged,), rs.3),
        call_ensures(cherry_pick_source_args_from_command_args, (&dashed,), rs.4),
    ensures
        views(rs.0@) == rest,
        views(rs.1@) == rest,
        views(rs.2@) == rest,
        views(rs.3@) == rest,
        views(rs.4@) == rest,
{
    lemma_words();
    reveal_strlit("-x");
    reveal_strlit("--no-commit");
    reveal_strlit("-n");
    reveal_strlit("--edit");
    reveal_strlit("-s");
    assert("-x"@.len() == 2 && "-n"@.len() == 2 && "-s"@.len() == 2 && "-x"@[1] == 'x');
    assert("-n"@[1] == 'n' && "-s"@[1] == 's' && "--no-commit"@.len() == 11);
    assert("--edit"@.len() == 6 && "--edit"@[2] == 'e' && "--no-commit"@[2] == 'n');
    lemma_plain_words(rest, 0, true);
    assert(rest.skip(0) =~= rest);
    let (a, b, c, d) = (
        views(mainline@),
        views(strategy@),
        views(flagged@),
        views(dashed@),
    );
    assert forall|k: int| 2 <= k < a.len() implies (#[trigger] a[k]).len() > 0 && a[k][0]
        != '-' by {
        assert(a[k] == rest[k - 2]);
    }
    assert forall|k: int| 2 <= k < b.len() implies (#[trigger] b[k]).len() > 0 && b[k][0]
        != '-' by {
        assert(b[k] == rest[k - 2]);
    }
    assert forall|k: int| 1 <= k < c.len() implies (#[trigger] c[k]).len() > 0 && c[k][0]
        != '-' by {
        assert(c[k] == rest[k - 1]);
    }
    lemma_plain_words(a, 2, true);
    lemma_plain_words(b, 2, true);
    lemma_plain_words(c, 1, true);
    assert(a.skip(2) =~= rest && b.skip(2) =~= rest && c.skip(1) =~= rest && d.skip(1) =~= rest);
    assert(a[0] == "-m"@ && b[0] == "-X"@ && c[0] == flag && d[0] == "--"@);
    assert(flag.subrange(0, 1) =~= "-"@);
    assert(flag != "--"@ && flag != "-m"@ && flag != "-X"@);
}

/// A cherry-pick or revert that is steered names no sources, wherever its other words stand.
pub proof fn law_steered_commands_name_no_sources(
    args: Vec<String>,
    word: Seq<char>,
    rest: Seq<Seq<char>>,
    picked: Vec<String>,
    undone: Vec<String>,
)
    requires
        word == "--continue"@ || word == "--abort"@ || word == "--skip"@ || word == "--quit"@,
        views(args@) == seq![word] + rest,
        call_ensures(cherry_pick_source_args_from_command_args, (&args,), picked),
        call_ensures(revert_source_args_from_command_args, (&args,), undone),
    ensures
        picked@.len() == 0,
        undone@.len() == 0,
{
    lemma_words();
    reveal_strlit("revert");
    assert("revert"@.len() == 6 && "revert"@[0] == 'r');
    assert(views(args@)[0] == word);
    assert(views(picked@).len() == picked@.len());
    assert(views(undone@).len() == undone@.len());
}

/// Only a cherry-pick names commits to pick, and only a revert commits to undo, by the command
/// that was run or by the one that its words give; the flags of a cherry-pick likewise.
pub proof fn law_other_commands_name_no_sources(
    cmd: NormalizedCommand,
    parsed: ParsedGitInvocation,
    flag: &str,
    picked: Vec<String>,
    undone: Vec<String>,
    flagged: bool,
)
    requires
        call_ensures(cherry_pick_source_args_for_side_effect, (&cmd, &parsed), picked),
        call_ensures(revert_source_args_for_side_effect, (&cmd, &parsed), undone),
        call_ensures(cherry_pick_command_has_flag, (&cmd, &parsed, flag), flagged),
    ensures
        cmd.primary() != Some("cherry-pick"@) && opt_view(parsed.command) != Some("cherry-pick"@)
            ==> picked@.len() == 0 && !flagged,
        cmd.primary() != Some("revert"@) && opt_view(parsed.command) != Some("revert"@)
            ==> undone@.len() == 0,
        cmd.primary() == Some("cherry-pick"@) ==> flagged == views(parsed.command_args@).contains(
            flag@,
        ),
{
    assert(views(picked@).len() == picked@.len());
    assert(views(undone@).len() == undone@.len());
}

/// `HEAD` and `@` stand for the head that a command was run at, with what climbs from there;
/// every other name stays as it is.
pub proof fn law_heads_are_fixed(term: &str, head: &str, suffix: Seq<char>, r: String)
    requires
        call_ensures(rewrite_head_source_term_for_side_effect, (term, head), r),
    ensures
        term@ == "HEAD"@ || term@ == "@"@ ==> r@ == head@,
        term@ == "HEAD"@ + suffix && suffix.len() > 0 && (suffix[0] == '~' || suffix[0] == '^')
            ==> r@ == head@ + suffix,
        term@ == "@"@ + suffix && suffix.len() > 0 && (suffix[0] == '~' || suffix[0] == '^') ==> r@
            == head@ + suffix,
        term@.len() > 0 && term@[0] != 'H' && term@[0] != '@' ==> r@ == term@,
        term@ == "HEADER"@ || term@ == "HEAD-branch"@ ==> r@ == term@,
{
    reveal_strlit("HEAD");
    reveal_strlit("@");
    reveal_strlit("~");
    reveal_strlit("^");
    reveal_strlit("HEADER");
    reveal_strlit("HEAD-branch");
    assert("HEAD"@.len() == 4 && "HEAD"@[0] == 'H' && "@"@.len() == 1 && "@"@[0] == '@');
    assert("~"@.len() == 1 && "^"@.len() == 1 && "~"@[0] == '~' && "^"@[0] == '^');
    let t = term@;
    if t == "HEAD"@ + suffix && suffix.len() > 0 {
        assert(t.subrange(0, 4) =~= "HEAD"@);
        assert(t.subrange(4, t.len() as int) =~= suffix);
        if suffix[0] == '~' {
            assert(suffix.subrange(0, 1) =~= "~"@);
        }
        if suffix[0] == '^' {
            assert(suffix.subrange(0, 1) =~= "^"@);
        }
    }
    if t == "@"@ + suffix && suffix.len() > 0 {
        assert(t.subrange(0, 1) =~= "@"@);
        assert(t.subrange(1, t.len() as int) =~= suffix);
        if has_prefix(t, "HEAD"@) {
            assert(t.subrange(0, 4)[0] == '@');
        }
        if suffix[0] == '~' {
            assert(suffix.subrange(0, 1) =~= "~"@);
        }
        if suffix[0] == '^' {
            assert(suffix.subrange(0, 1) =~= "^"@);
        }
    }
    if t.len() > 0 && t[0] != 'H' && t[0] != '@' {
        if has_prefix(t, "HEAD"@) {
            assert(t.subrange(0, 4)[0] == t[0]);
        }
        if has_prefix(t, "@"@) {
            assert(t.subrange(0, 1)[0] == t[0]);
        }
    }
    if t == "HEADER"@ || t == "HEAD-branch"@ {
        assert("HEADER"@.len() == 6 && "HEADER"@[4] == 'E');
        assert("HEAD-branch"@.len() == 11 && "HEAD-branch"@[4] == '-');
        let s = t.subrange(4, t.len() as int);
        assert(s[0] == t[4]);
        if has_prefix(s, "~"@) {
            assert(s.subrange(0, 1)[0] == s[0]);
        }
        if has_prefix(s, "^"@) {
            assert(s.subrange(0, 1)[0] == s[0]);
        }
        if has_prefix(t, "@"@) {
            assert(t.subrange(0, 1)[0] == t[0]);
        }
    }
}

/// Without a proper head a source stays as it is written.
pub proof fn law_sources_stay_without_a_head(source: &str, head: &str, r: String)
    requires
        call_ensures(rewrite_head_source_arg_for_side_effect, (source, head), r),
        !git_oid(head@),
    ensures
        r@ == source@,
{
}

/// Each source is asked about at its own place: a single commit by its name, a range as it
/// stands, and a range that leaves an end open not at all.
pub proof fn law_each_source_is_asked_about(
    sources: Vec<String>,
    r: Vec<SourceQuery>,
    i: int,
    source: &str,
    range: bool,
    open: bool,
)
    requires
        call_ensures(source_queries, (&sources, &None), r),
        0 <= i < sources@.len(),
        source@ == sources@[i]@,
        call_ensures(cherry_pick_source_is_range, (source,), range),
        call_ensures(cherry_pick_range_has_omitted_side, (source,), open),
    ensures
        r@.len() == sources@.len(),
        r@[i] is Nothing <==> range && open,
        r@[i] is Range <==> range && !open,
        r@[i] is Range ==> r@[i]->Range_0@ == source@,
        r@[i] is Single <==> !range,
        r@[i] is Single ==> r@[i]->Single_0@ == source@ + "^{commit}\n"@,
{
    assert(r@[i]@ == crate::sources::query_for(sources@[i]@, None));
}

proof fn lemma_gathered(lines: Seq<Seq<char>>, typed: bool, oid: Seq<char>)
    requires
        gathered(lines, typed).contains(oid),
    ensures
        git_oid(oid),
        exists|i: int|
            0 <= i < lines.len() && (if typed {
                words_of(#[trigger] lines[i]).len() >= 2 && words_of(lines[i])[0] == oid && words_of(
                    lines[i],
                )[1] == "commit"@
            } else {
                trim_of(lines[i]) == oid
            }),
    decreases lines.len(),
{
    let rest = lines.drop_last();
    let before = gathered(rest, typed);
    if before.contains(oid) {
        lemma_gathered(rest, typed, oid);
        let i = choose|i: int|
            0 <= i < rest.len() && (if typed {
                words_of(#[trigger] rest[i]).len() >= 2 && words_of(rest[i])[0] == oid && words_of(
                    rest[i],
                )[1] == "commit"@
            } else {
                trim_of(rest[i]) == oid
            });
        assert(lines[i] == rest[i]);
    } else {
        let whole = gathered(lines, typed);
        let k = whole.index_of(oid);
        if k < before.len() {
            assert(before[k] == oid);
        }
        assert(lines[lines.len() - 1] == lines.last());
    }
}

/// What is read out of git's answers are object ids that stand there: of a list of ranges each
/// on its line, of a list of types only those of commits.
pub proof fn law_answers_hold_the_commits_that_are_read(
    output: &str,
    ranged: Vec<String>,
    typed: Vec<String>,
    oid: Seq<char>,
)
    requires
        call_ensures(commits_in_range_answer, (output,), ranged),
        call_ensures(commits_in_type_answer, (output,), typed),
    ensures
        views(ranged@).contains(oid) ==> git_oid(oid) && exists|i: int|
            0 <= i < split_on(output@, '\n').len() && trim_of(
                #[trigger] split_on(output@, '\n')[i],
            ) == oid,
        views(typed@).contains(oid) ==> git_oid(oid) && exists|i: int|
            0 <= i < split_on(output@, '\n').len() && words_of(
                #[trigger] split_on(output@, '\n')[i],
            ).len() >= 2 && words_of(split_on(output@, '\n')[i])[0] == oid && words_of(
                split_on(output@, '\n')[i],
            )[1] == "commit"@,
{
    if views(ranged@).contains(oid) {
        lemma_gathered(split_on(output@, '\n'), false, oid);
    }
    if views(typed@).contains(oid) {
        lemma_gathered(split_on(output@, '\n'), true, oid);
    }
}

pub(crate) proof fn lemma_distinct(list: Seq<Seq<char>>, x: Seq<char>)
    ensures
        distinct(list).contains(x) <==> list.contains(x),
    decreases list.len(),
{
    if list.len() > 0 {
        let rest = list.drop_last();
        let before = distinct(rest);
        lemma_distinct(rest, x);
        lemma_distinct(rest, list.last());
        if rest.contains(x) {
            assert(list[rest.index_of(x)] == x);
            assert(distinct(list)[before.index_of(x)] == x);
        }
        if list.last() == x {
            assert(list[list.len() - 1] == x);
            if !before.contains(x) {
                assert(distinct(list)[before.len() as int] == x);
            }
        }
        if list.contains(x) && list.index_of(x) < rest.len() {
            assert(rest[list.index_of(x)] == x);
        }
        if distinct(list).contains(x) && x != list.last() {
            let k = distinct(list).index_of(x);
            assert(before[k] == x);
        }
    }
}

proof fn lemma_flat(lists: Seq<Vec<String>>, x: Seq<char>)
    ensures
        flat(lists).contains(x) <==> exists|i: int|
            0 <= i < lists.len() && views((#[trigger] lists[i])@).contains(x),
    decreases lists.len(),
{
    if lists.len() > 0 {
        let rest = lists.drop_last();
        let last = views(lists.last()@);
        lemma_flat(rest, x);
        if flat(rest).contains(x) {
            assert(flat(lists)[flat(rest).index_of(x)] == x);
            let i = choose|i: int| 0 <= i < rest.len() && views((#[trigger] rest[i])@).contains(x);
            assert(lists[i] == rest[i]);
        }
        if last.contains(x) {
            assert(flat(lists)[flat(rest).len() + last.index_of(x)] == x);
            assert(views(lists[lists.len() - 1]@).contains(x));
        }
        if flat(lists).contains(x) {
            let k = flat(lists).index_of(x);
            if k < flat(rest).len() {
                assert(flat(rest)[k] == x);
            } else {
                assert(last[k - flat(rest).len()] == x);
            }
        }
        if exists|i: int| 0 <= i < lists.len() && views((#[trigger] lists[i])@).contains(x) {
            let i = choose|i: int| 0 <= i < lists.len() && views((#[trigger] lists[i])@).contains(x);
            if i < rest.len() {
                assert(rest[i] == lists[i]);
            }
        }
    }
}

/// The answers together give every commit of each, and each once.
pub proof fn law_answers_are_put_together(answers: Vec<Vec<String>>, r: Vec<String>, x: Seq<char>)
    requires
        call_ensures(resolved_sources, (&answers,), r),
    ensures
        views(r@).contains(x) <==> exists|i: int|
            0 <= i < answers@.len() && views((#[trigger] answers@[i])@).contains(x),
        views(r@).no_duplicates(),
{
    lemma_distinct(flat(answers@), x);
    lemma_flat(answers@, x);
    crate::sources::law_sources_are_distinct(flat(answers@));
}

/// A cherry-pick that stops having made commits rewrites its sources into them, from the head
/// that it started at, and is left with the sources behind as many as it made commits.
pub proof fn law_a_stopped_pick_keeps_what_it_has_not_applied(
    pending: &mut PendingRewrites,
    key: String,
    cmd: NormalizedCommand,
    facts: CommandFacts,
    answers: CommandAnswers,
    r: Result<StoppedCherryPick, SideEffectError>,
)
    requires
        call_ensures(
            note_stopped_cherry_pick,
            (pending, &Some(key), &cmd, &facts, &answers, false),
            r,
        ),
        !views(cmd.invoked_args@).contains("--abort"@),
        cmd.cherry_pick_source_oids@.len() > 0,
        cmd.ref_changes@.filter(|c: RefChange| moves_head(c)).len()
            <= cmd.cherry_pick_source_oids@.len(),
    ensures
        r is Ok,
        ({
            let moves = cmd.ref_changes@.filter(|c: RefChange| moves_head(c));
            let sources = views(cmd.cherry_pick_source_oids@);
            &&& moves.len() > 0 ==> r->Ok_0.rewrite is Some && r->Ok_0.rewrite->0.original_head@
                == moves[0].old@ && views(r->Ok_0.rewrite->0.sources@) == sources && views(
                r->Ok_0.rewrite->0.destinations@,
            ) == moves.map_values(|c: RefChange| c.new@)
            &&& moves.len() == 0 ==> r->Ok_0.rewrite is None
            &&& r->Ok_0.remaining is Some && views(r->Ok_0.remaining->0@) == sources.skip(
                moves.len() as int,
            )
        }),
{
    let rule = moved_change(head_scope());
    lemma_all_is_filter(cmd.ref_changes@, rule);
    assert((|c: RefChange| crate::commands::picks(rule, c)) =~= (|c: RefChange| moves_head(c)));
    lemma_first_of_filter(cmd.ref_changes@, rule);
    assert(views(cmd.cherry_pick_source_oids@).skip(0) =~= views(cmd.cherry_pick_source_oids@));
    let moves = all_picked(cmd.ref_changes@, rule);
    assert(new_oids(moves) =~= moves.map_values(|c: RefChange| c.new@));
}

/// A cherry-pick that is given up leaves nothing unfinished in its worktree.
pub proof fn law_a_pick_that_is_given_up_leaves_nothing(
    pending: &mut PendingRewrites,
    key: String,
    cmd: NormalizedCommand,
    facts: CommandFacts,
    answers: CommandAnswers,
    lite: bool,
    r: Result<StoppedCherryPick, SideEffectError>,
)
    requires
        call_ensures(
            note_stopped_cherry_pick,
            (pending, &Some(key), &cmd, &facts, &answers, lite),
            r,
        ),
        views(cmd.invoked_args@).contains("--abort"@),
    ensures
        r is Ok && r->Ok_0.rewrite is None && r->Ok_0.remaining is None,
        !final(pending).cherry_picks@.contains_key(key@),
        !final(pending).no_commits@.contains_key(key@),
        final(pending).rebases == old(pending).rebases,
{
}

/// A cherry-pick that is resumed without naming sources goes on with what was left over; `--skip`
/// passes over the first of it.
pub proof fn law_a_resumed_pick_goes_on_with_what_was_left(
    pending: &mut PendingRewrites,
    key: String,
    cmd: NormalizedCommand,
    facts: CommandFacts,
    answers: CommandAnswers,
    r: Result<StoppedCherryPick, SideEffectError>,
)
    requires
        call_ensures(
            note_stopped_cherry_pick,
            (pending, &Some(key), &cmd, &facts, &answers, false),
            r,
        ),
        cmd.primary() == Some("cherry-pick"@),
        !views(cmd.invoked_args@).contains("--abort"@),
        cmd.cherry_pick_source_oids@.len() == 0,
        !answers.cherry_pick_under_way,
        cmd.ref_changes@.len() == 0,
        old(pending).cherry_picks@.contains_key(key@),
        old(pending).cherry_picks@[key@]@.len() > 0,
        views(facts.parsed.command_args@).contains("--continue"@) || views(
            facts.parsed.command_args@,
        ).contains("--skip"@),
    ensures
        r is Ok && r->Ok_0.rewrite is None && r->Ok_0.remaining is Some,
        ({
            let left = views(old(pending).cherry_picks@[key@]@);
            let skips = views(facts.parsed.command_args@).contains("--skip"@);
            &&& skips ==> views(r->Ok_0.remaining->0@) == left.skip(1)
            &&& !skips ==> views(r->Ok_0.remaining->0@) == left
        }),
{
    let left = views(old(pending).cherry_picks@[key@]@);
    assert(left.skip(0) =~= left);
}

/// Without a worktree a cherry-pick that stopped cannot be noted.
pub proof fn law_picks_without_a_worktree_are_refused(
    pending: &mut PendingRewrites,
    cmd: NormalizedCommand,
    facts: CommandFacts,
    answers: CommandAnswers,
    lite: bool,
    r: Result<StoppedCherryPick, SideEffectError>,
)
    requires
        call_ensures(note_stopped_cherry_pick, (pending, &None, &cmd, &facts, &answers, lite), r),
    ensures
        r is Err && r->Err_0 == (SideEffectError::CherryPickWithoutWorktree { sid: cmd.root_sid }),
        *final(pending) == *old(pending),
{
}

/// A cherry-pick that stopped is refused where the commits that it names cannot be read, and
/// only then; where only the working logs are kept up nothing is read.
pub proof fn law_picks_that_cannot_be_read_are_refused(
    pending: &mut PendingRewrites,
    key: String,
    cmd: NormalizedCommand,
    facts: CommandFacts,
    answers: CommandAnswers,
    lite: bool,
    reason: String,
    r: Result<StoppedCherryPick, SideEffectError>,
)
    requires
        call_ensures(
            note_stopped_cherry_pick,
            (pending, &Some(key), &cmd, &facts, &answers, lite),
            r,
        ),
        !views(cmd.invoked_args@).contains("--abort"@),
    ensures
        lite ==> r is Ok && r->Ok_0.rewrite is None && r->Ok_0.remaining is None,
        answers.explicit_sources is Ok ==> r is Ok,
        cmd.cherry_pick_source_oids@.len() > 0 ==> r is Ok,
        r is Err ==> answers.explicit_sources is Err && r->Err_0 == (SideEffectError::Git {
            reason: answers.explicit_sources->Err_0,
        }),
        !lite && cmd.cherry_pick_source_oids@.len() == 0 && answers.cherry_pick_under_way
            && answers.explicit_sources == Err::<Vec<String>, String>(reason) ==> r is Err,
        *final(pending) == *old(pending),
{
}

} // verus!
