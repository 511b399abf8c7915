//! The commits that a command line names, and what is found in git's answers.
use crate::laws::picks::lemma_words;
use crate::pending::worktree_state_key;
use crate::repo_state::{git_oid, worktree_root_for_path, FileSnapshot};
use crate::paths::RepoPath;
use crate::side_effects::{find_base, find_sources, SourceAnswer};
use crate::sources::{
    cherry_pick_range_has_omitted_side, cherry_pick_source_args_from_command_args,
    cherry_pick_source_is_range, commits_in_range_answer, commits_in_type_answer, distinct, flat,
    gathered, named_from, resolved_sources, revert_source_args_from_command_args,
    rewrite_head_source_arg_for_side_effect, rewrite_head_source_term_for_side_effect,
    source_queries, steers, SourceQuery,
};
use crate::text::{has_prefix, opt_view, split_on, split_once, trim_of, views, words_of};
use vstd::prelude::*;

verus! {

proof fn lemma_shift(before: Seq<Seq<char>>, rest: Seq<Seq<char>>, j: nat, strategies: bool)
    ensures
        named_from(before + rest, before.len() + j, strategies) == named_from(rest, j, strategies),
    decreases
            if j < rest.len() {
                rest.len() - j
            } else {
                0
            },
{
    let all = before + rest;
    if j < rest.len() {
        assert(all[(before.len() + j) as int] == rest[j as int]);
        lemma_shift(before, rest, j + 1, strategies);
        lemma_shift(before, rest, j + 2, strategies);
        assert(all.skip((before.len() + j) as int + 1) =~= rest.skip(j as int + 1));
    }
}

proof fn lemma_unsteered(args: Seq<Seq<char>>, i: nat, strategies: bool)
    requires
        forall|k: int| 0 <= k < args.len() ==> !steers(#[trigger] args[k]),
    ensures
        named_from(args, i, strategies) is Some,
    decreases
            if i < args.len() {
                args.len() - i
            } else {
                0
            },
{
    if i < args.len() {
        assert(!steers(args[i as int]));
        lemma_unsteered(args, i + 1, strategies);
        lemma_unsteered(args, i + 2, strategies);
    }
}

/// An option with a value names no commit, whatever follows: `-m` and `--mainline` of both,
/// `-X`, `--strategy-option` and `--strategy` of a cherry-pick.
pub proof fn law_values_of_options_are_no_commits(
    option: Seq<char>,
    value: Seq<char>,
    rest: Vec<String>,
    all: Vec<String>,
    picked: Vec<String>,
    picked_rest: Vec<String>,
    undone: Vec<String>,
    undone_rest: Vec<String>,
)
    requires
        views(all@) == seq![option, value] + views(rest@),
        call_ensures(cherry_pick_source_args_from_command_args, (&all,), picked),
        call_ensures(cherry_pick_source_args_from_command_args, (&rest,), picked_rest),
        call_ensures(revert_source_args_from_command_args, (&all,), undone),
        call_ensures(revert_source_args_from_command_args, (&rest,), undone_rest),
    ensures
        option == "-m"@ || option == "--mainline"@ || option == "-X"@ || option
            == "--strategy-option"@ || option == "--strategy"@ ==> views(picked@) == views(
            picked_rest@,
        ),
        (option == "-m"@ || option == "--mainline"@) && (rest@.len() == 0 || rest@[0]@
            != "revert"@) ==> views(undone@) == views(undone_rest@),
{
    lemma_words();
    reveal_strlit("revert");
    assert("revert"@[0] == 'r');
    let args = views(all@);
    assert(args[0] == option);
    lemma_shift(seq![option, value], views(rest@), 0, true);
    lemma_shift(seq![option, value], views(rest@), 0, false);
    if rest@.len() > 0 {
        assert(views(rest@)[0] == rest@[0]@);
    }
}

/// A flag names no commit, whatever follows.
pub proof fn law_flags_are_no_commits(
    flag: Seq<char>,
    rest: Vec<String>,
    all: Vec<String>,
    r: Vec<String>,
    r_rest: Vec<String>,
)
    requires
        views(all@) == seq![flag] + views(rest@),
        flag.len() > 0 && flag[0] == '-',
        flag != "--"@ && flag != "--abort"@ && flag != "--continue"@ && flag != "--quit"@ && flag
            != "--skip"@,
        flag != "-m"@ && flag != "--mainline"@ && flag != "-X"@ && flag != "--strategy-option"@
            && flag != "--strategy"@,
        call_ensures(cherry_pick_source_args_from_command_args, (&all,), r),
        call_ensures(cherry_pick_source_args_from_command_args, (&rest,), r_rest),
    ensures
        views(r@) == views(r_rest@),
{
    lemma_words();
    let args = views(all@);
    assert(args[0] == flag);
    assert(flag.subrange(0, 1) =~= "-"@);
    lemma_shift(seq![flag], views(rest@), 0, true);
}

/// A word without a dash is a commit, and comes before those that follow it.
pub proof fn law_words_are_commits_in_order(
    word: Seq<char>,
    rest: Vec<String>,
    all: Vec<String>,
    r: Vec<String>,
    r_rest: Vec<String>,
)
    requires
        views(all@) == seq![word] + views(rest@),
        word.len() > 0 && word[0] != '-',
        forall|k: int|
            0 <= k < rest@.len() ==> {
                let arg = (#[trigger] rest@[k])@;
                arg != "--abort"@ && arg != "--continue"@ && arg != "--quit"@ && arg != "--skip"@
            },
        call_ensures(cherry_pick_source_args_from_command_args, (&all,), r),
        call_ensures(cherry_pick_source_args_from_command_args, (&rest,), r_rest),
    ensures
        views(r@) == seq![word] + views(r_rest@),
{
    lemma_words();
    let args = views(all@);
    let tail = views(rest@);
    assert(args[0] == word);
    if has_prefix(word, "-"@) {
        assert(word.subrange(0, 1)[0] == word[0]);
    }
    lemma_shift(seq![word], tail, 0, true);
    assert forall|k: int| 0 <= k < tail.len() implies !steers(#[trigger] tail[k]) by {
        assert(tail[k] == rest@[k]@);
    }
    lemma_unsteered(tail, 0, true);
}

/// A command that is steered names no commits, though words stand before the steering one.
pub proof fn law_steering_words_name_nothing(
    words: Seq<Seq<char>>,
    steer: Seq<char>,
    behind: Seq<Seq<char>>,
    all: Vec<String>,
    r: Vec<String>,
)
    requires
        views(all@) == words.push(steer) + behind,
        steer == "--abort"@ || steer == "--continue"@ || steer == "--quit"@ || steer == "--skip"@,
        forall|k: int| 0 <= k < words.len() ==> (#[trigger] words[k]).len() > 0 && words[k][0]
            != '-',
        call_ensures(cherry_pick_source_args_from_command_args, (&all,), r),
    ensures
        r@.len() == 0,
{
    lemma_words();
    lemma_steered(words, steer, behind, 0);
    assert(views(r@).len() == r@.len());
}

proof fn lemma_steered(
    words: Seq<Seq<char>>,
    steer: Seq<char>,
    behind: Seq<Seq<char>>,
    i: nat,
)
    requires
        i <= words.len(),
        steers(steer),
        forall|k: int| 0 <= k < words.len() ==> (#[trigger] words[k]).len() > 0 && words[k][0]
            != '-',
    ensures
        named_from(words.push(steer) + behind, i, true) is None,
    decreases words.len() - i,
{
    lemma_words();
    let all = words.push(steer) + behind;
    if i < words.len() {
        assert(all[i as int] == words[i as int]);
        if has_prefix(all[i as int], "-"@) {
            assert(all[i as int].subrange(0, 1)[0] == all[i as int][0]);
        }
        lemma_steered(words, steer, behind, i + 1);
    } else {
        assert(all[i as int] == steer);
    }
}

/// A source is a range where two dots stand in it, and an open one where a side is missing.
pub proof fn law_ranges_have_two_sides(
    source: &str,
    three: Option<(String, String)>,
    two: Option<(String, String)>,
    range: bool,
    open: bool,
)
    requires
        call_ensures(cherry_pick_source_is_range, (source,), range),
        call_ensures(cherry_pick_range_has_omitted_side, (source,), open),
        call_ensures(split_once, (source, "..."), three),
        call_ensures(split_once, (source, ".."), two),
    ensures
        range <==> two is Some,
        three is Some ==> (open <==> (three->0).0@.len() == 0 || (three->0).1@.len() == 0),
        three is None && two is Some ==> (open <==> (two->0).0@.len() == 0 || (
        two->0).1@.len() == 0),
        two is None && three is None ==> !open,
{
}

/// In a range the head is fixed on both sides, and in a single commit in itself.
pub proof fn law_heads_are_fixed_on_both_sides(
    source: &str,
    head: &str,
    three: Option<(String, String)>,
    two: Option<(String, String)>,
    left: &str,
    right: &str,
    fixed_left: String,
    fixed_right: String,
    alone: String,
    r: String,
)
    requires
        git_oid(head@),
        call_ensures(rewrite_head_source_arg_for_side_effect, (source, head), r),
        call_ensures(split_once, (source, "..."), three),
        call_ensures(split_once, (source, ".."), two),
        three is Some ==> left@ == (three->0).0@ && right@ == (three->0).1@,
        three is None && two is Some ==> left@ == (two->0).0@ && right@ == (two->0).1@,
        call_ensures(rewrite_head_source_term_for_side_effect, (left, head), fixed_left),
        call_ensures(rewrite_head_source_term_for_side_effect, (right, head), fixed_right),
        call_ensures(rewrite_head_source_term_for_side_effect, (source, head), alone),
    ensures
        three is Some ==> r@ == fixed_left@ + "..."@ + fixed_right@,
        three is None && two is Some ==> r@ == fixed_left@ + ".."@ + fixed_right@,
        three is None && two is None ==> r@ == alone@,
{
}

/// With a head, each source is asked about as it stands once the head is fixed.
pub proof fn law_sources_are_asked_about_with_the_head_fixed(
    sources: Vec<String>,
    head: String,
    head_text: &str,
    source: &str,
    fixed: String,
    again: Vec<String>,
    i: int,
    r: Vec<SourceQuery>,
    plain: Vec<SourceQuery>,
)
    requires
        0 <= i < sources@.len(),
        source@ == sources@[i]@ && head_text@ == head@,
        call_ensures(source_queries, (&sources, &Some(head)), r),
        call_ensures(rewrite_head_source_arg_for_side_effect, (source, head_text), fixed),
        again@.len() == sources@.len() && again@[i]@ == fixed@,
        call_ensures(source_queries, (&again, &None), plain),
    ensures
        r@[i]@ == plain@[i]@,
{
    assert(r@[i]@ == crate::sources::query_for(sources@[i]@, Some(head@)));
    assert(plain@[i]@ == crate::sources::query_for(again@[i]@, None));
}

proof fn lemma_all_gathered(lines: Seq<Seq<char>>, typed: bool, i: int)
    requires
        0 <= i < lines.len(),
    ensures
        !typed && git_oid(trim_of(lines[i])) ==> gathered(lines, typed).contains(trim_of(lines[i])),
        typed && words_of(lines[i]).len() >= 2 && words_of(lines[i])[1] == "commit"@ && git_oid(
            words_of(lines[i])[0],
        ) ==> gathered(lines, typed).contains(words_of(lines[i])[0]),
    decreases lines.len(),
{
    let rest = lines.drop_last();
    let before = gathered(rest, typed);
    let all = gathered(lines, typed);
    assert(forall|x: Seq<char>| before.contains(x) ==> #[trigger] all.contains(x)) by {
        assert forall|x: Seq<char>| before.contains(x) implies #[trigger] all.contains(x) by {
            assert(all[before.index_of(x)] == x);
        }
    }
    if i < rest.len() {
        assert(rest[i] == lines[i]);
        lemma_all_gathered(rest, typed, i);
    } else {
        assert(lines[i] == lines.last());
        if all.len() > before.len() {
            assert(all[before.len() as int] == all.last());
            assert(all.contains(all.last()));
        }
    }
}

/// Every commit that stands in git's answers is read out of them.
pub proof fn law_no_commit_of_an_answer_is_passed_over(
    output: &str,
    ranged: Vec<String>,
    typed: Vec<String>,
    i: int,
)
    requires
        call_ensures(commits_in_range_answer, (output,), ranged),
        call_ensures(commits_in_type_answer, (output,), typed),
        0 <= i < split_on(output@, '\n').len(),
    ensures
        ({
            let line = split_on(output@, '\n')[i];
            let parts = words_of(line);
            &&& git_oid(trim_of(line)) ==> views(ranged@).contains(trim_of(line))
            &&& parts.len() >= 2 && parts[1] == "commit"@ && git_oid(parts[0]) ==> views(
                typed@,
            ).contains(parts[0])
        }),
{
    lemma_all_gathered(split_on(output@, '\n'), false, i);
    lemma_all_gathered(split_on(output@, '\n'), true, i);
}

proof fn lemma_distinct_already(list: Seq<Seq<char>>)
    requires
        list.no_duplicates(),
    ensures
        distinct(list) == list,
    decreases list.len(),
{
    if list.len() > 0 {
        let rest = list.drop_last();
        assert(rest.no_duplicates());
        lemma_distinct_already(rest);
        if rest.contains(list.last()) {
            let k = rest.index_of(list.last());
            assert(list[k] == list[list.len() - 1]);
        }
        assert(rest.push(list.last()) =~= list);
    }
}

/// The answers are put together in the order in which they were asked for.
pub proof fn law_answers_stay_in_order(
    first: Vec<String>,
    second: Vec<String>,
    answers: Vec<Vec<String>>,
    r: Vec<String>,
)
    requires
        answers@ == seq![first, second],
        (views(first@) + views(second@)).no_duplicates(),
        call_ensures(resolved_sources, (&answers,), r),
    ensures
        views(r@) == views(first@) + views(second@),
{
    reveal_with_fuel(flat, 3);
    let all = answers@;
    assert(all.drop_last() =~= seq![first]);
    assert(all.drop_last().drop_last().len() == 0);
    assert(flat(all) =~= views(first@) + views(second@));
    lemma_distinct_already(flat(all));
}

/// What was read from a head is found under that head, the first of several; from a head that
/// was not asked about nothing was read.
pub proof fn law_what_was_read_is_found_under_its_head(
    answers: Vec<SourceAnswer>,
    head: &str,
    i: int,
    r: Result<Vec<String>, String>,
)
    requires
        call_ensures(find_sources, (&answers, head), r),
        0 <= i <= answers@.len(),
        forall|k: int| 0 <= k < i ==> (#[trigger] answers@[k]).head@ != head@,
    ensures
        i < answers@.len() && answers@[i].head@ == head@ && answers@[i].sources is Ok ==> r is Ok
            && views(r->Ok_0@) == views(answers@[i].sources->Ok_0@),
        i < answers@.len() && answers@[i].head@ == head@ && answers@[i].sources is Err ==> r
            == Err::<Vec<String>, String>(answers@[i].sources->Err_0),
        i == answers@.len() ==> r is Ok && r->Ok_0@.len() == 0,
{
    lemma_read(answers@, head@, i);
    if r is Ok {
        assert(views(r->Ok_0@).len() == r->Ok_0@.len());
    }
}

proof fn lemma_read(answers: Seq<SourceAnswer>, head: Seq<char>, i: int)
    requires
        0 <= i <= answers.len(),
        forall|k: int| 0 <= k < i ==> (#[trigger] answers[k]).head@ != head,
    ensures
        i == answers.len() ==> crate::side_effects::sources_read_from(answers, head) == Ok::<
            Seq<Seq<char>>,
            String,
        >(Seq::empty()),
        i < answers.len() && answers[i].head@ == head ==> crate::side_effects::sources_read_from(
            answers,
            head,
        ) == match answers[i].sources {
            Ok(sources) => Ok::<Seq<Seq<char>>, String>(views(sources@)),
            Err(reason) => Err(reason),
        },
    decreases answers.len(),
{
    if i > 0 {
        assert(answers[0].head@ != head);
        let rest = answers.skip(1);
        assert forall|k: int| 0 <= k < i - 1 implies (#[trigger] rest[k]).head@ != head by {
            assert(rest[k] == answers[k + 1]);
        }
        lemma_read(rest, head, i - 1);
    }
}

/// The base of a stash is the one that is listed with it, the first of several.
pub proof fn law_bases_are_found_with_their_stash(
    bases: Vec<(String, String)>,
    stash: &str,
    i: int,
    r: Option<String>,
)
    requires
        call_ensures(find_base, (&bases, stash), r),
        0 <= i <= bases@.len(),
        forall|k: int| 0 <= k < i ==> (#[trigger] bases@[k]).0@ != stash@,
    ensures
        i < bases@.len() && bases@[i].0@ == stash@ ==> opt_view(r) == Some(bases@[i].1@),
        i == bases@.len() ==> r is None,
{
    lemma_base(bases@, stash@, i);
}

proof fn lemma_base(bases: Seq<(String, String)>, stash: Seq<char>, i: int)
    requires
        0 <= i <= bases.len(),
        forall|k: int| 0 <= k < i ==> (#[trigger] bases[k]).0@ != stash,
    ensures
        i < bases.len() && bases[i].0@ == stash ==> crate::side_effects::known_base(bases, stash)
            == Some(bases[i].1@),
        i == bases.len() ==> crate::side_effects::known_base(bases, stash) is None,
    decreases bases.len(),
{
    if i > 0 {
        assert(bases[0].0@ != stash);
        let rest = bases.skip(1);
        assert forall|k: int| 0 <= k < i - 1 implies (#[trigger] rest[k]).0@ != stash by {
            assert(rest[k] == bases[k + 1]);
        }
        lemma_base(rest, stash, i - 1);
    }
}

/// What is kept of a worktree is kept under the name of the worktree, as the file system
/// resolves it: a path in it and the worktree itself are kept under one name.
pub proof fn law_a_worktree_is_kept_under_one_name(
    path: RepoPath,
    files: FileSnapshot,
    root: Option<RepoPath>,
    resolved: RepoPath,
    whole: RepoPath,
    r: String,
)
    requires
        call_ensures(worktree_state_key, (&path, &files), r),
        call_ensures(worktree_root_for_path, (&path, &files), root),
        root is Some ==> call_ensures(FileSnapshot::canonicalize, (&files, &root->0), resolved),
        call_ensures(FileSnapshot::canonicalize, (&files, &path), whole),
    ensures
        root is Some ==> r@ == resolved.text@,
        root is None ==> r@ == whole.text@,
{
}

} // verus!
