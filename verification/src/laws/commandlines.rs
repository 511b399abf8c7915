//! How git's command lines and the frames of its trace are read.
use crate::paths::{child_text, path_child, path_file_name, path_join, path_of, RepoPath};
use crate::repo_state::FileSnapshot;
use crate::spelling::law_child_spellings_denote_children;
use crate::text::{before_first_of, opt_view, parse_unsigned, views};
use crate::trace::{
    base_dir_from, command_word, daemon_worktree_from_repo_path, is_terminal_root_trace_event,
    last_pid_mark, matches_any_pathspec, payload_time_with, raw_trace_event_type,
    reader_should_ingest_trace_event, root_sid_of, takes_next_word, trace_argv_primary_command,
    trace_invocation_args, trace_invocation_command_args, trace_payload_command_base_dir,
    trace_payload_primary_command, trace_root_sid, trace_sid_pid, unsigned_nanos,
    ParsedGitInvocation, TracePayload,
};
use vstd::prelude::*;

verus! {

proof fn lemma_words_from(a: Seq<Seq<char>>, i: int, b: Seq<Seq<char>>, j: int)
    requires
        0 <= i <= a.len(),
        0 <= j <= b.len(),
        a.skip(i) == b.skip(j),
    ensures
        command_word(a, i) == command_word(b, j),
    decreases a.len() - i,
{
    assert(a.len() - i == b.len() - j) by {
        assert(a.skip(i).len() == b.skip(j).len());
    }
    if i < a.len() {
        assert(a.skip(i)[0] == a[i] && b.skip(j)[0] == b[j]);
        assert(a.skip(i + 1) =~= a.skip(i).skip(1));
        assert(b.skip(j + 1) =~= b.skip(j).skip(1));
        lemma_words_from(a, i + 1, b, j + 1);
        if i + 2 <= a.len() {
            assert(a.skip(i + 2) =~= a.skip(i).skip(2));
            assert(b.skip(j + 2) =~= b.skip(j).skip(2));
            lemma_words_from(a, i + 2, b, j + 2);
        }
    }
}

/// The name of git, as the first word of a command line.
proof fn lemma_git()
    ensures
        path_file_name(path_of("git"@)) == Some("git"@),
{
    reveal_strlit("git");
    reveal_strlit(".");
    reveal_strlit("..");
    reveal_strlit("");
    assert("git"@.len() == 3 && "."@.len() == 1 && ".."@.len() == 2);
    let none = Seq::<char>::empty();
    assert(!"git"@.contains('/'));
    law_child_spellings_denote_children(none, "git"@);
    assert(child_text(none, "git"@) =~= "git"@);
}

/// An option of git that takes the next word as its value, put with its value before the rest
/// of a command line, never changes which command is found: neither is taken for it.
pub proof fn law_options_with_values_do_not_hide_the_command(
    plain: Vec<String>,
    longer: Vec<String>,
    option: Seq<char>,
    value: Seq<char>,
    rest: Seq<Seq<char>>,
    one: Option<String>,
    other: Option<String>,
)
    requires
        option == "-c"@ || option == "-C"@ || option == "--git-dir"@ || option == "--work-tree"@
            || option == "--namespace"@ || option == "--config-env"@ || option == "--exec-path"@
            || option == "--super-prefix"@ || option == "--attr-source"@ || option
            == "--worktree-attributes"@,
        views(plain@) == seq!["git"@] + rest,
        views(longer@) == seq!["git"@, option, value] + rest,
        call_ensures(trace_argv_primary_command, (&plain,), one),
        call_ensures(trace_argv_primary_command, (&longer,), other),
    ensures
        opt_view(one) == opt_view(other),
{
    lemma_git();
    let (a, b) = (views(plain@), views(longer@));
    assert(a[0] == "git"@ && b[0] == "git"@ && b[1] == option);
    assert(a.skip(1) =~= rest && b.skip(3) =~= rest);
    lemma_words_from(b, 3, a, 1);
}

/// A flag of git, which stands alone, put before the rest of a command line never changes
/// which command is found.
pub proof fn law_flags_do_not_hide_the_command(
    plain: Vec<String>,
    longer: Vec<String>,
    flag: Seq<char>,
    rest: Seq<Seq<char>>,
    one: Option<String>,
    other: Option<String>,
)
    requires
        flag.len() > 0 && flag[0] == '-',
        flag.contains('=') || flag == "--no-pager"@ || flag == "--bare"@ || flag == "-p"@ || flag
            == "-P"@ || flag == "--no-optional-locks"@ || flag == "--literal-pathspecs"@ || flag
            == "--paginate"@ || flag == "--no-replace-objects"@,
        views(plain@) == seq!["git"@] + rest,
        views(longer@) == seq!["git"@, flag] + rest,
        call_ensures(trace_argv_primary_command, (&plain,), one),
        call_ensures(trace_argv_primary_command, (&longer,), other),
    ensures
        opt_view(one) == opt_view(other),
{
    lemma_git();
    lemma_flags(flag);
    let (a, b) = (views(plain@), views(longer@));
    assert(a[0] == "git"@ && b[0] == "git"@ && b[1] == flag);
    assert(a.skip(1) =~= rest && b.skip(2) =~= rest);
    lemma_words_from(b, 2, a, 1);
}

proof fn lemma_flags(flag: Seq<char>)
    requires
        flag.contains('=') || flag == "--no-pager"@ || flag == "--bare"@ || flag == "-p"@ || flag
            == "-P"@ || flag == "--no-optional-locks"@ || flag == "--literal-pathspecs"@ || flag
            == "--paginate"@ || flag == "--no-replace-objects"@,
    ensures
        !takes_next_word(flag),
{
    reveal_strlit("-C");
    reveal_strlit("-c");
    reveal_strlit("--config-env");
    reveal_strlit("--git-dir");
    reveal_strlit("--work-tree");
    reveal_strlit("--namespace");
    reveal_strlit("--super-prefix");
    reveal_strlit("--exec-path");
    reveal_strlit("--worktree-attributes");
    reveal_strlit("--attr-source");
    reveal_strlit("--no-pager");
    reveal_strlit("--bare");
    reveal_strlit("-p");
    reveal_strlit("-P");
    reveal_strlit("--no-optional-locks");
    reveal_strlit("--literal-pathspecs");
    reveal_strlit("--paginate");
    reveal_strlit("--no-replace-objects");
    assert("-C"@.len() == 2 && "-c"@.len() == 2 && "-p"@.len() == 2 && "-P"@.len() == 2);
    assert("-C"@[1] == 'C' && "-c"@[1] == 'c' && "-p"@[1] == 'p' && "-P"@[1] == 'P');
    assert("--config-env"@.len() == 12 && "--config-env"@[2] == 'c');
    assert("--git-dir"@.len() == 9 && "--work-tree"@.len() == 11 && "--namespace"@.len() == 11);
    assert("--super-prefix"@.len() == 14 && "--exec-path"@.len() == 11);
    assert("--worktree-attributes"@.len() == 21 && "--attr-source"@.len() == 13);
    assert("--no-pager"@.len() == 10 && "--bare"@.len() == 6 && "--no-optional-locks"@.len() == 19);
    assert("--literal-pathspecs"@.len() == 19 && "--paginate"@.len() == 10);
    assert("--no-replace-objects"@.len() == 20);
    if flag.contains('=') {
        let i = flag.index_of('=');
        assert(flag[i] == '=');
        assert(!"-C"@.contains('=') && !"-c"@.contains('='));
        assert(!"--config-env"@.contains('=') && !"--git-dir"@.contains('='));
        assert(!"--work-tree"@.contains('=') && !"--namespace"@.contains('='));
        assert(!"--super-prefix"@.contains('=') && !"--exec-path"@.contains('='));
        assert(!"--worktree-attributes"@.contains('=') && !"--attr-source"@.contains('='));
    }
}

/// The first word of git's arguments without a leading dash is the command, whatever follows.
pub proof fn law_the_first_word_is_the_command(
    argv: Vec<String>,
    dir: Seq<char>,
    word: Seq<char>,
    rest: Seq<Seq<char>>,
    r: Option<String>,
)
    requires
        views(argv@) == seq![child_text(dir, "git"@), word] + rest,
        word.len() == 0 || word[0] != '-',
        call_ensures(trace_argv_primary_command, (&argv,), r),
    ensures
        opt_view(r) == Some(word),
{
    reveal_strlit("git");
    reveal_strlit(".");
    reveal_strlit("..");
    assert("git"@.len() == 3 && "."@.len() == 1 && ".."@.len() == 2);
    assert(!"git"@.contains('/'));
    law_child_spellings_denote_children(dir, "git"@);
    let all = views(argv@);
    assert(all[0] == child_text(dir, "git"@) && all[1] == word);
    assert(path_child(path_of(dir), "git"@).1.last() == "git"@);
    assert(!takes_next_word(word)) by {
        lemma_options_have_dashes();
    }
}

proof fn lemma_options_have_dashes()
    ensures
        forall|word: Seq<char>| #[trigger] takes_next_word(word) ==> word.len() > 0 && word[0] == '-',
{
    reveal_strlit("-C");
    reveal_strlit("-c");
    reveal_strlit("--config-env");
    reveal_strlit("--git-dir");
    reveal_strlit("--work-tree");
    reveal_strlit("--namespace");
    reveal_strlit("--super-prefix");
    reveal_strlit("--exec-path");
    reveal_strlit("--worktree-attributes");
    reveal_strlit("--attr-source");
}

/// A command line of options and flags alone runs no command: what is found never starts with
/// a dash, and stands in the command line.
pub proof fn law_the_command_is_a_word_of_the_line(argv: Vec<String>, r: Option<String>)
    requires
        call_ensures(trace_argv_primary_command, (&argv,), r),
        r is Some,
    ensures
        views(argv@).contains(r->0@),
        r->0@.len() == 0 || r->0@[0] != '-',
{
    lemma_command_is_there(views(argv@), crate::trace::args_start(views(argv@)));
}

proof fn lemma_command_is_there(argv: Seq<Seq<char>>, i: int)
    requires
        command_word(argv, i) is Some,
    ensures
        argv.contains(command_word(argv, i)->0),
        command_word(argv, i)->0.len() == 0 || command_word(argv, i)->0[0] != '-',
    decreases argv.len() + 1 - i,
{
    if takes_next_word(argv[i]) {
        lemma_command_is_there(argv, i + 2);
    } else if argv[i].len() > 0 && argv[i][0] == '-' {
        lemma_command_is_there(argv, i + 1);
    }
}

/// The arguments of git are what stands behind git itself; where the first word is not git,
/// all words are arguments.
pub proof fn law_arguments_stand_behind_git(
    argv: Vec<String>,
    first: Seq<char>,
    rest: Seq<Seq<char>>,
    r: Vec<String>,
)
    requires
        views(argv@) == seq![first] + rest,
        call_ensures(trace_invocation_args, (&argv,), r),
    ensures
        first == "git"@ ==> views(r@) == rest,
        path_file_name(path_of(first)) != Some("git"@) && path_file_name(path_of(first)) != Some(
            "git.exe"@,
        ) ==> views(r@) == views(argv@),
{
    lemma_git();
    assert(views(argv@)[0] == first);
    assert(views(argv@).skip(1) =~= rest);
    assert(views(argv@).skip(0) =~= views(argv@));
}

/// The arguments of a command are those that the command line was taken apart into, where
/// that found the same command, else what stands behind the command's first mention.
pub proof fn law_command_arguments_follow_the_command(
    primary: Option<String>,
    argv: Vec<String>,
    parsed: ParsedGitInvocation,
    before: Seq<Seq<char>>,
    behind: Seq<Seq<char>>,
    r: Vec<String>,
)
    requires
        call_ensures(trace_invocation_command_args, (&primary, &argv, &parsed), r),
    ensures
        opt_view(parsed.command) == opt_view(primary) ==> views(r@) == views(parsed.command_args@),
        opt_view(parsed.command) != opt_view(primary) && primary is Some && views(argv@)
            == seq!["git"@] + before + seq![primary->0@] + behind && !before.contains(primary->0@)
            ==> views(r@) == behind,
        opt_view(parsed.command) != opt_view(primary) && primary is None ==> views(r@).len() == 0,
{
    lemma_git();
    if primary is Some && views(argv@) == seq!["git"@] + before + seq![primary->0@] + behind
        && !before.contains(primary->0@) {
        let word = primary->0@;
        let all = views(argv@);
        assert(all[0] == "git"@);
        let args = all.skip(1);
        assert(args =~= before + seq![word] + behind);
        assert(args[before.len() as int] == word);
        args.index_of_first_ensures(word);
        let at = args.index_of_first(word)->0;
        assert(at == before.len()) by {
            if at < before.len() {
                assert(before[at] == word);
            }
        }
        assert(args.skip(at + 1) =~= behind);
    }
}

/// A frame that names its command speaks of that one; only without a name does its command
/// line decide.
pub proof fn law_names_go_before_command_lines(
    payload: TracePayload,
    r: Option<String>,
    by_line: Option<String>,
)
    requires
        call_ensures(trace_payload_primary_command, (&payload,), r),
        call_ensures(trace_argv_primary_command, (&payload.argv,), by_line),
    ensures
        payload.name is Some ==> opt_view(r) == Some(payload.name->0@),
        payload.name is None ==> opt_view(r) == opt_view(by_line),
{
}

/// A frame was written when its text says; without one it goes by its counters, the first of
/// which is the one in nanoseconds, and last by the one in seconds.
pub proof fn law_times_are_trusted_in_order(
    payload: TracePayload,
    by_text: Option<u128>,
    r: Option<u128>,
)
    requires
        call_ensures(payload_time_with, (&payload, by_text), r),
    ensures
        by_text is Some ==> r == by_text,
        by_text is None && payload.time_ns is Some ==> r is Some && r->0 == payload.time_ns->0,
        by_text is None && payload.time_ns is None && payload.ts is Some ==> r is Some && r->0
            == payload.ts->0,
        by_text is None && payload.time_ns is None && payload.ts is None ==> r == payload.abs_ns,
{
}

/// A time before the epoch is none; any other keeps its value.
pub proof fn law_times_keep_their_value(nanos: Option<i64>, r: Option<u128>)
    requires
        call_ensures(unsigned_nanos, (nanos,), r),
    ensures
        r is Some <==> nanos is Some && nanos->0 >= 0,
        r is Some ==> r->0 == nanos->0,
{
}

proof fn lemma_before(a: Seq<char>, c: char, b: Seq<char>)
    requires
        !a.contains(c),
    ensures
        before_first_of(a.push(c) + b, c) == a,
        before_first_of(a, c) == a,
    decreases a.len(),
{
    let whole = a.push(c) + b;
    if a.len() > 0 {
        assert(a.contains(a[0]));
        assert(!a.skip(1).contains(c)) by {
            assert forall|i: int| 0 <= i < a.skip(1).len() implies a.skip(1)[i] != c by {
                assert(a.contains(a[i + 1]));
            }
        }
        assert(whole.skip(1) =~= a.skip(1).push(c) + b);
        lemma_before(a.skip(1), c, b);
        assert(seq![a[0]] + a.skip(1) =~= a);
    } else {
        assert(a =~= Seq::<char>::empty());
    }
}

/// Every process of a trace leads back to the one that it started with: whatever stands behind
/// the first slash of a session id, the root is what stands before it.
pub proof fn law_children_lead_back_to_their_root(
    sid: &str,
    root: Seq<char>,
    behind: Seq<char>,
    r: String,
)
    requires
        !root.contains('/'),
        sid@ == root || sid@ == root.push('/') + behind,
        call_ensures(trace_root_sid, (sid,), r),
    ensures
        r@ == root,
{
    lemma_before(root, '/', behind);
}

/// The process of a session id is the hexadecimal number behind the last `-P` of its root.
pub proof fn law_processes_are_read_off_their_root(
    sid: &str,
    before: Seq<char>,
    digits: Seq<char>,
    behind: Seq<char>,
    r: Option<u32>,
)
    requires
        !before.contains('/'),
        !digits.contains('/') && !digits.contains('-'),
        sid@ == before + "-P"@ + digits || sid@ == (before + "-P"@ + digits).push('/') + behind,
        call_ensures(trace_sid_pid, (sid,), r),
    ensures
        match parse_unsigned(digits, 16, u32::MAX as nat) {
            Some(pid) => r is Some && r->0 == pid,
            None => r is None,
        },
{
    reveal_strlit("-P");
    let root = before + "-P"@ + digits;
    assert("-P"@.len() == 2 && "-P"@[0] == '-' && "-P"@[1] == 'P');
    assert(!root.contains('/')) by {
        assert forall|i: int| 0 <= i < root.len() implies root[i] != '/' by {
            if i < before.len() {
                assert(before.contains(before[i]));
            } else if i >= before.len() + 2 {
                assert(digits.contains(digits[i - before.len() - 2]));
            }
        }
    }
    lemma_before(root, '/', behind);
    assert(root_sid_of(sid@) == root);
    let at = before.len() as int;
    assert(last_pid_mark(root, at)) by {
        assert forall|j: int| at < j && j + 2 <= root.len() implies !(#[trigger] root[j] == '-'
            && root[j + 1] == 'P') by {
            if j >= at + 2 {
                assert(digits.contains(digits[j - at - 2]));
                assert(root[j] == digits[j - at - 2]);
            }
        }
    }
    assert forall|i: int| last_pid_mark(root, i) implies i == at by {
        assert(root[at] == '-' && root[i] == '-');
    }
    assert(root.skip(at + 2) =~= digits);
}

/// A frame ends its root exactly when it is the root's own `atexit`: not a child's, and no
/// other event.
pub proof fn law_only_the_roots_own_end_ends_it(event: &str, sid: &str, root: &str, r: bool)
    requires
        call_ensures(is_terminal_root_trace_event, (event, sid, root), r),
    ensures
        r <==> event@ == "atexit"@ && sid@ == root@,
{
}

/// A repository in a worktree's `.git` leads to that worktree.
pub proof fn law_a_dot_git_leads_to_its_worktree(
    repo: RepoPath,
    files: FileSnapshot,
    worktree: (bool, Seq<Seq<char>>),
    r: Option<RepoPath>,
)
    requires
        repo@ == path_child(worktree, ".git"@),
        call_ensures(daemon_worktree_from_repo_path, (&repo, &files), r),
    ensures
        r is Some && r->0@ == worktree,
{
    reveal_strlit(".git");
    reveal_strlit(".");
    reveal_strlit("..");
    assert(".git"@.len() == 4 && "."@.len() == 1 && ".."@.len() == 2);
    crate::paths::law_child_then_parent(worktree, ".git"@);
}

/// Another repository leads to the worktree whose `.git` its `gitdir` file names.
pub proof fn law_a_gitdir_leads_to_its_worktree(
    repo: RepoPath,
    files: FileSnapshot,
    worktree: (bool, Seq<Seq<char>>),
    text: Seq<char>,
    r: Option<RepoPath>,
)
    requires
        path_file_name(repo@) != Some(".git"@),
        files.text_at(path_child(repo@, "gitdir"@)) == Some(text),
        path_of(crate::text::trim_of(text)) == path_child(worktree, ".git"@),
        call_ensures(daemon_worktree_from_repo_path, (&repo, &files), r),
    ensures
        r is Some && r->0@ == worktree,
{
    reveal_strlit(".git");
    reveal_strlit(".");
    reveal_strlit("..");
    assert(".git"@.len() == 4 && "."@.len() == 1 && ".."@.len() == 2);
    crate::paths::law_child_then_parent(worktree, ".git"@);
}

/// A command runs where it was started, moved by its `-C` options one behind the other; an
/// option of another name moves it nowhere.
pub proof fn law_directories_are_changed_one_by_one(
    none: ParsedGitInvocation,
    spaced: ParsedGitInvocation,
    glued: ParsedGitInvocation,
    cwd: RepoPath,
    a: Seq<char>,
    b: Seq<char>,
    rs: (Option<RepoPath>, Option<RepoPath>, Option<RepoPath>),
)
    requires
        views(none.global_args@).len() == 0,
        views(spaced.global_args@) == seq!["-C"@, a, "--bare"@, "-C"@, b],
        views(glued.global_args@) == seq!["-C"@ + a],
        a.len() > 0,
        call_ensures(trace_payload_command_base_dir, (&none, &cwd), rs.0),
        call_ensures(trace_payload_command_base_dir, (&spaced, &cwd), rs.1),
        call_ensures(trace_payload_command_base_dir, (&glued, &cwd), rs.2),
    ensures
        rs.0 is Some && rs.0->0@ == cwd@,
        rs.1 is Some && rs.1->0@ == path_join(path_join(cwd@, path_of(a)), path_of(b)),
        rs.2 is Some && rs.2->0@ == path_join(cwd@, path_of(a)),
{
    reveal_strlit("-C");
    reveal_strlit("--bare");
    assert("-C"@.len() == 2 && "--bare"@.len() == 6);
    reveal_with_fuel(base_dir_from, 5);
    assert("--bare"@[1] != "-C"@[1]);
    let words = views(spaced.global_args@);
    assert(words[2].subrange(0, 2)[1] == '-');
    let word = views(glued.global_args@)[0];
    assert(word == "-C"@ + a);
    assert(word.subrange(0, 2) =~= "-C"@);
    assert(word.subrange(2, word.len() as int) =~= a);
    assert(word.len() > 2);
}

/// A pathspec covers a file of its name and everything in a directory of its name, whether it
/// is written with a slash at its end or not; a name that only begins alike is not covered.
pub proof fn law_pathspecs_cover_by_component(
    exact: &str,
    inside: &str,
    alike: &str,
    specs: Vec<String>,
    slashed: Vec<String>,
    dir: Seq<char>,
    below: Seq<char>,
    c: char,
    rs: (bool, bool, bool, bool),
)
    requires
        dir.len() > 0 && dir.last() != '/',
        views(specs@) == seq![dir],
        views(slashed@) == seq![dir.push('/')],
        exact@ == dir,
        inside@ == dir.push('/') + below,
        c != '/',
        alike@ == dir.push(c) + below,
        call_ensures(matches_any_pathspec, (exact, &specs), rs.0),
        call_ensures(matches_any_pathspec, (inside, &specs), rs.1),
        call_ensures(matches_any_pathspec, (inside, &slashed), rs.2),
        call_ensures(matches_any_pathspec, (alike, &specs), rs.3),
    ensures
        rs.0 && rs.1 && rs.2,
        !rs.3,
{
    reveal_strlit("/");
    assert("/"@.len() == 1 && "/"@[0] == '/');
    assert(views(specs@)[0] == dir && views(slashed@)[0] == dir.push('/'));
    assert(dir + "/"@ =~= dir.push('/'));
    assert(inside@.subrange(0, dir.len() as int + 1) =~= dir.push('/'));
    assert(crate::trace::pathspec_covers(dir, dir));
    assert(crate::trace::pathspec_covers(dir, inside@));
    let s = dir.push('/');
    assert(s.subrange(s.len() - 1, s.len() as int) =~= "/"@);
    assert(crate::trace::pathspec_covers(s, inside@));
    assert(!crate::trace::pathspec_covers(dir, alike@)) by {
        assert(alike@.len() > dir.len());
        if crate::text::has_prefix(alike@, dir.push('/')) {
            assert(alike@.subrange(0, dir.len() as int + 1)[dir.len() as int] == c);
        }
        if crate::text::has_suffix(dir, "/"@) {
            assert(dir.subrange(dir.len() - 1, dir.len() as int)[0] == dir.last());
        }
    }
}

/// A file is covered by a list of pathspecs exactly when one of them alone covers it.
pub proof fn law_pathspecs_are_tried_one_by_one(
    file: &str,
    specs: Vec<String>,
    ones: Seq<Vec<String>>,
    each: Seq<bool>,
    r: bool,
)
    requires
        ones.len() == specs@.len(),
        each.len() == specs@.len(),
        forall|i: int|
            0 <= i < specs@.len() ==> views((#[trigger] ones[i])@) == seq![specs@[i]@]
                && call_ensures(matches_any_pathspec, (file, &ones[i]), each[i]),
        call_ensures(matches_any_pathspec, (file, &specs), r),
    ensures
        r <==> each.contains(true),
{
    if r {
        let i = choose|i: int|
            0 <= i < views(specs@).len() && crate::trace::pathspec_covers(
                #[trigger] views(specs@)[i],
                file@,
            );
        assert(views(ones[i]@)[0] == specs@[i]@);
        assert(each[i]);
    }
    if each.contains(true) {
        let i = each.index_of(true);
        assert(views(ones[i]@)[0] == specs@[i]@);
        assert(crate::trace::pathspec_covers(views(ones[i]@)[0], file@));
        assert(views(specs@)[i] == specs@[i]@);
    }
}

/// The start and the end of a command, its name, its repository and its parameters are read;
/// so is a probe. What git measures on the way is not.
pub proof fn law_the_frames_of_use_are_read(event: &str, r: bool)
    requires
        call_ensures(reader_should_ingest_trace_event, (event,), r),
    ensures
        event@ == "start"@ || event@ == "atexit"@ || event@ == "exit"@ || event@ == "def_repo"@
            || event@ == "cmd_name"@ || event@ == "def_param"@ || event@
            == crate::trace::TRACE_DRAIN_PROBE_EVENT@ ==> r,
        event@ == "region_enter"@ || event@ == "region_leave"@ || event@ == "data"@ || event@
            == "child_start"@ || event@ == "child_exit"@ || event@ == "version"@ || event@
            == "cmd_mode"@ || event@.len() == 0 ==> !r,
{
    reveal_strlit("start");
    reveal_strlit("atexit");
    reveal_strlit("exit");
    reveal_strlit("def_repo");
    reveal_strlit("cmd_name");
    reveal_strlit("def_param");
    reveal_strlit("region_enter");
    reveal_strlit("region_leave");
    reveal_strlit("data");
    reveal_strlit("child_start");
    reveal_strlit("child_exit");
    reveal_strlit("version");
    reveal_strlit("cmd_mode");
    reveal_strlit("git_ai_drain_probe");
    assert("start"@.len() == 5 && "atexit"@.len() == 6 && "exit"@.len() == 4);
    assert("def_repo"@.len() == 8 && "cmd_name"@.len() == 8 && "def_param"@.len() == 9);
    assert("region_enter"@.len() == 12 && "region_leave"@.len() == 12 && "data"@.len() == 4);
    assert("child_start"@.len() == 11 && "child_exit"@.len() == 10 && "version"@.len() == 7);
    assert("cmd_mode"@.len() == 8 && "git_ai_drain_probe"@.len() == 18);
    assert("data"@[0] == 'd' && "exit"@[0] == 'e');
    assert("cmd_mode"@[4] == 'm' && "cmd_name"@[4] == 'n' && "def_repo"@[0] == 'd');
    assert("cmd_mode"@[0] == 'c');
}

/// The event of a line is what its first field says, and nothing that stands behind it.
pub proof fn law_events_are_read_off_the_first_field(
    line: &str,
    event: Seq<char>,
    behind: Seq<char>,
    r: Option<String>,
)
    requires
        !event.contains('"'),
        line@ == "{\"event\":\""@ + event.push('"') + behind,
        call_ensures(raw_trace_event_type, (line,), r),
    ensures
        opt_view(r) == Some(event),
{
    let mark = "{\"event\":\""@;
    let rest = event.push('"') + behind;
    assert(line@ =~= mark + rest);
    assert(line@.subrange(0, mark.len() as int) =~= mark);
    assert(line@.subrange(mark.len() as int, line@.len() as int) =~= rest);
    assert(rest[event.len() as int] == '"');
    lemma_before(event, '"', behind);
}

} // verus!
