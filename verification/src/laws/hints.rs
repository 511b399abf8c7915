//! What frames point at, and what is read off a command or an answer in passing.
use crate::commands::{NormalizedCommand, RefFilter, RefScope};
use crate::laws::refs::{lemma_first, lemma_first_exists};
use crate::paths::{path_of, RepoPath};
use crate::repo_state::{git_dir_for_worktree, worktree_root_for_path, FileSnapshot};
use crate::rewrite::{cherry_pick_state_exists_for_worktree, parents_in_log, resolve_stash_sha};
use crate::side_effects::{transcript_sweep_triggers_for_events, SweepTrigger};
use crate::commands::{any_change, picks, CommandFacts, RefScopeModel, SemanticEvent};
use crate::text::{opt_view, split_on, views, words_of};
use crate::trace::{
    is_trace_payload, rest_from, trace_command_uses_target_repo_context_only,
    trace_payload_cmd_name, trace_payload_worktree_hint, ParsedGitInvocation, TracePayload,
};
use vstd::prelude::*;

verus! {

/// A frame that names a worktree points at it, moved up to where the worktree starts. A frame
/// that defines a repository other than the command's own points nowhere.
pub proof fn law_frames_point_at_the_worktree_they_name(
    payload: TracePayload,
    parsed: ParsedGitInvocation,
    files: FileSnapshot,
    named: RepoPath,
    root: Option<RepoPath>,
    r: Option<RepoPath>,
)
    requires
        call_ensures(trace_payload_worktree_hint, (&payload, &parsed, &files), r),
        payload.worktree.text() is Some,
        named@ == path_of(payload.worktree.text()->0),
        call_ensures(worktree_root_for_path, (&named, &files), root),
    ensures
        opt_view(payload.event) == Some("def_repo"@) && payload.secondary_repo ==> r is None,
        !(opt_view(payload.event) == Some("def_repo"@) && payload.secondary_repo) ==> r is Some,
        r is Some && root is Some ==> r->0@ == root->0@,
        r is Some && root is None ==> r->0@ == named@,
{
}

/// A frame that defines the command's repository points, where it names no worktree, at the
/// directory that the repository works in.
pub proof fn law_frames_point_at_the_directory_of_their_repository(
    payload: TracePayload,
    parsed: ParsedGitInvocation,
    files: FileSnapshot,
    named: RepoPath,
    root: Option<RepoPath>,
    r: Option<RepoPath>,
)
    requires
        call_ensures(trace_payload_worktree_hint, (&payload, &parsed, &files), r),
        opt_view(payload.event) == Some("def_repo"@),
        !payload.secondary_repo,
        payload.worktree is Absent,
        payload.repo_working_dir is Some,
        named@ == path_of(payload.repo_working_dir->0@),
        call_ensures(worktree_root_for_path, (&named, &files), root),
    ensures
        r is Some,
        root is Some ==> r->0@ == root->0@,
        root is None ==> r->0@ == named@,
{
}

/// A frame that names nothing points, where the command line changes no directory, at where it
/// was written, and nowhere where that is not known.
pub proof fn law_frames_point_at_where_they_were_written(
    payload: TracePayload,
    parsed: ParsedGitInvocation,
    files: FileSnapshot,
    cwd: RepoPath,
    root: Option<RepoPath>,
    r: Option<RepoPath>,
)
    requires
        call_ensures(trace_payload_worktree_hint, (&payload, &parsed, &files), r),
        opt_view(payload.event) != Some("def_repo"@),
        payload.worktree is Absent,
        parsed.global_args@.len() == 0,
        payload.cwd is Some ==> cwd@ == path_of(payload.cwd->0@),
        call_ensures(worktree_root_for_path, (&cwd, &files), root),
    ensures
        payload.cwd is None ==> r is None,
        payload.cwd is Some && cwd.absolute ==> r is Some && (root is Some ==> r->0@ == root->0@)
            && (root is None ==> r->0@ == cwd@),
{
}

/// A payload is a frame when it names its event; its command is the one that it names.
pub proof fn law_frames_name_their_event(payload: TracePayload, frame: bool, name: Option<String>)
    requires
        call_ensures(is_trace_payload, (&payload,), frame),
        call_ensures(trace_payload_cmd_name, (&payload,), name),
    ensures
        frame <==> payload.event is Some,
        name == payload.name,
{
}

/// Only `clone` and `init` work in a repository that they make.
pub proof fn law_clones_make_their_repository(primary: Option<String>, r: bool)
    requires
        call_ensures(trace_command_uses_target_repo_context_only, (&primary,), r),
    ensures
        r <==> primary is Some && (primary->0@ == "clone"@ || primary->0@ == "init"@),
{
}

/// What is left of a list from a place on is what stands there.
pub proof fn law_the_rest_is_what_stands_there(list: Vec<String>, from: usize, r: Vec<String>, i: int)
    requires
        from <= list@.len(),
        call_ensures(rest_from, (&list, from), r),
        0 <= i < r@.len(),
    ensures
        r@.len() == list@.len() - from,
        r@[i]@ == list@[from + i]@,
{
    assert(views(r@).len() == r@.len());
    assert(views(r@)[i] == r@[i]@);
}

/// The stash that a command is about is the one that it names; else the one that its ref first
/// came to, where it was made, or first left, where it is taken up. The object that is none is
/// no stash.
pub proof fn law_stashes_are_read_off_their_ref_or_named(
    cmd: NormalizedCommand,
    made: Option<String>,
    used: Option<String>,
    i: int,
)
    requires
        call_ensures(resolve_stash_sha, (&cmd, true), made),
        call_ensures(resolve_stash_sha, (&cmd, false), used),
        0 <= i < cmd.ref_changes@.len(),
        cmd.ref_changes@[i].reference@ == "refs/stash"@,
        forall|k: int|
            0 <= k < i ==> (#[trigger] cmd.ref_changes@[k]).reference@ != "refs/stash"@,
    ensures
        ({
            let change = cmd.ref_changes@[i];
            let zero = "0000000000000000000000000000000000000000"@;
            &&& cmd.stash_target_oid is Some ==> opt_view(made) == opt_view(cmd.stash_target_oid)
                && opt_view(used) == opt_view(cmd.stash_target_oid)
            &&& cmd.stash_target_oid is None && change.new@.len() > 0 && change.new@ != zero
                ==> opt_view(made) == Some(change.new@)
            &&& cmd.stash_target_oid is None && change.old@.len() > 0 && change.old@ != zero
                ==> opt_view(used) == Some(change.old@)
            &&& cmd.stash_target_oid is None && (change.new@ == zero || change.new@.len() == 0)
                ==> made is None
            &&& cmd.stash_target_oid is None && (change.old@ == zero || change.old@.len() == 0)
                ==> used is None
        }),
{
    let rule = any_change(RefScopeModel::Named("refs/stash"@));
    lemma_first_exists(cmd.ref_changes@, rule, i);
    let at = lemma_first(cmd.ref_changes@, rule);
    if at < i {
        assert(cmd.ref_changes@[at].reference@ != "refs/stash"@);
    } else if at > i {
        assert(!picks(rule, cmd.ref_changes@[i]));
    }
}

proof fn lemma_parents(lines: Seq<Seq<char>>, i: int)
    requires
        0 <= i < lines.len(),
    ensures
        words_of(lines[i]).len() >= 2 ==> crate::rewrite::parents_in(lines).contains(
            (words_of(lines[i])[0], words_of(lines[i])[1]),
        ),
        crate::rewrite::parents_in(lines).len() <= lines.len(),
    decreases lines.len(),
{
    let rest = lines.drop_last();
    let before = crate::rewrite::parents_in(rest);
    let all = crate::rewrite::parents_in(lines);
    if rest.len() > 0 {
        lemma_parents(
            rest,
            if i < rest.len() {
                i
            } else {
                0
            },
        );
    }
    if i < rest.len() {
        assert(rest[i] == lines[i]);
        let pair = (words_of(lines[i])[0], words_of(lines[i])[1]);
        if before.contains(pair) {
            assert(all[before.index_of(pair)] == pair);
        }
    } else {
        assert(lines[i] == lines.last());
        if words_of(lines[i]).len() >= 2 {
            assert(all[before.len() as int] == (words_of(lines[i])[0], words_of(lines[i])[1]));
        }
    }
}

proof fn lemma_parents_stand(lines: Seq<Seq<char>>, k: int)
    requires
        0 <= k < crate::rewrite::parents_in(lines).len(),
    ensures
        exists|i: int|
            0 <= i < lines.len() && words_of(#[trigger] lines[i]).len() >= 2
                && crate::rewrite::parents_in(lines)[k] == (
                words_of(lines[i])[0],
                words_of(lines[i])[1],
            ),
    decreases lines.len(),
{
    let rest = lines.drop_last();
    let before = crate::rewrite::parents_in(rest);
    if k < before.len() {
        lemma_parents_stand(rest, k);
        let i = choose|i: int|
            0 <= i < rest.len() && words_of(#[trigger] rest[i]).len() >= 2 && before[k] == (
                words_of(rest[i])[0],
                words_of(rest[i])[1],
            );
        assert(lines[i] == rest[i]);
    } else {
        assert(lines[lines.len() - 1] == lines.last());
    }
}

/// The commits of a log stand with their first parents: each line with two words or more gives
/// its first two, and no other line gives anything.
pub proof fn law_commits_stand_with_their_first_parents(
    output: &str,
    r: Vec<(String, String)>,
    i: int,
    k: int,
)
    requires
        call_ensures(parents_in_log, (output,), r),
        0 <= i < split_on(output@, '\n').len(),
    ensures
        ({
            let parts = words_of(split_on(output@, '\n')[i]);
            parts.len() >= 2 ==> exists|j: int|
                0 <= j < r@.len() && (#[trigger] r@[j]).0@ == parts[0] && r@[j].1@ == parts[1]
        }),
        0 <= k < r@.len() ==> exists|j: int|
            0 <= j < split_on(output@, '\n').len() && words_of(
                #[trigger] split_on(output@, '\n')[j],
            ).len() >= 2 && r@[k].0@ == words_of(split_on(output@, '\n')[j])[0] && r@[k].1@
                == words_of(split_on(output@, '\n')[j])[1],
{
    let lines = split_on(output@, '\n');
    let parts = words_of(lines[i]);
    let seen = crate::rewrite::pair_views(r@);
    lemma_parents(lines, i);
    if parts.len() >= 2 {
        let j = seen.index_of((parts[0], parts[1]));
        assert(seen[j] == (r@[j].0@, r@[j].1@));
    }
    if 0 <= k < r@.len() {
        assert(seen[k] == (r@[k].0@, r@[k].1@));
        lemma_parents_stand(lines, k);
    }
}

/// A cherry-pick is under way where git says so in the git directory of its worktree.
pub proof fn law_cherry_picks_are_under_way_where_git_says_so(
    worktree: RepoPath,
    files: FileSnapshot,
    git_dir: Option<RepoPath>,
    r: bool,
)
    requires
        call_ensures(cherry_pick_state_exists_for_worktree, (&worktree, &files), r),
        call_ensures(git_dir_for_worktree, (&worktree, &files), git_dir),
    ensures
        git_dir is None ==> !r,
        git_dir is Some && files.is_file_at(
            (git_dir->0@.0, git_dir->0@.1.push("CHERRY_PICK_HEAD"@)),
        ) ==> r,
        git_dir is Some && files.is_file_at(
            (git_dir->0@.0, git_dir->0@.1.push("sequencer"@).push("todo"@)),
        ) ==> r,
        r ==> {
            let head = (git_dir->0@.0, git_dir->0@.1.push("CHERRY_PICK_HEAD"@));
            let todo = (git_dir->0@.0, git_dir->0@.1.push("sequencer"@).push("todo"@));
            files.is_file_at(head) || files.is_dir_at(head) || files.is_file_at(todo)
                || files.is_dir_at(todo)
        },
{
}

/// Transcripts are swept once for the commits of a command and once for its pushes.
pub proof fn law_sweeps_follow_commits_and_pushes(
    events: Vec<SemanticEvent>,
    r: Vec<SweepTrigger>,
    i: int,
)
    requires
        call_ensures(transcript_sweep_triggers_for_events, (&events,), r),
        0 <= i < events@.len(),
    ensures
        events@[i] is CommitCreated || events@[i] is CommitAmended ==> r@.contains(
            SweepTrigger::PostCommit,
        ),
        events@[i] is PushCompleted ==> r@.contains(SweepTrigger::PostPush),
        r@.len() <= 2,
        (forall|k: int|
            0 <= k < events@.len() ==> !((#[trigger] events@[k]) is PushCompleted)) ==> !r@.contains(
            SweepTrigger::PostPush,
        ),
{
    let commit = crate::side_effects::some_event(
        events@,
        crate::side_effects::EventTest::Commit,
    );
    let push = crate::side_effects::some_event(events@, crate::side_effects::EventTest::Push);
    if commit {
        assert(r@[0] == SweepTrigger::PostCommit);
    }
    if push {
        assert(r@.last() == SweepTrigger::PostPush);
        assert(r@[r@.len() - 1] == SweepTrigger::PostPush);
    }
    if events@[i] is CommitCreated || events@[i] is CommitAmended {
        assert(crate::side_effects::meets(events@[i], crate::side_effects::EventTest::Commit));
    }
    if events@[i] is PushCompleted {
        assert(crate::side_effects::meets(events@[i], crate::side_effects::EventTest::Push));
    }
}

/// A filter on moves between objects asks for objects on both sides, one on what was left only
/// for the old one, and only one on moves for a difference.
pub proof fn law_filters_ask_for_objects(
    scope: RefScope,
    any: RefFilter,
    between: RefFilter,
    moved: RefFilter,
    left: RefFilter,
)
    requires
        call_ensures(RefFilter::any, (scope,), any),
        call_ensures(RefFilter::between_objects, (scope,), between),
        call_ensures(RefFilter::moved, (scope,), moved),
        call_ensures(RefFilter::left_object, (scope,), left),
    ensures
        !any@.old_real && !any@.new_real && !any@.moved,
        between@.old_real && between@.new_real && !between@.moved,
        moved@.old_real && moved@.new_real && moved@.moved,
        left@.old_real && !left@.new_real && !left@.moved,
        any@.scope == scope@ && between@.scope == scope@ && moved@.scope == scope@ && left@.scope
            == scope@,
        any@.old_is is None && any@.new_is is None && moved@.old_is is None && moved@.new_is is None,
{
}

/// A flag is looked for among the arguments of the command, and an argument among all that the
/// command was called with.
pub proof fn law_arguments_are_looked_for(
    cmd: NormalizedCommand,
    facts: CommandFacts,
    arg: &str,
    called: bool,
    flagged: bool,
)
    requires
        call_ensures(NormalizedCommand::has_arg, (&cmd, arg), called),
        call_ensures(CommandFacts::has_command_flag, (&facts, arg), flagged),
    ensures
        called <==> exists|i: int|
            0 <= i < cmd.invoked_args@.len() && (#[trigger] cmd.invoked_args@[i])@ == arg@,
        flagged <==> exists|i: int|
            0 <= i < facts.parsed.command_args@.len() && (
            #[trigger] facts.parsed.command_args@[i])@ == arg@,
{
    let a = views(cmd.invoked_args@);
    let b = views(facts.parsed.command_args@);
    if called {
        let i = a.index_of(arg@);
        assert(cmd.invoked_args@[i]@ == arg@);
    }
    if flagged {
        let i = b.index_of(arg@);
        assert(facts.parsed.command_args@[i]@ == arg@);
    }
    if exists|i: int|
        0 <= i < cmd.invoked_args@.len() && (#[trigger] cmd.invoked_args@[i])@ == arg@ {
        let i = choose|i: int|
            0 <= i < cmd.invoked_args@.len() && (#[trigger] cmd.invoked_args@[i])@ == arg@;
        assert(a[i] == arg@);
    }
    if exists|i: int|
        0 <= i < facts.parsed.command_args@.len() && (
        #[trigger] facts.parsed.command_args@[i])@ == arg@ {
        let i = choose|i: int|
            0 <= i < facts.parsed.command_args@.len() && (
            #[trigger] facts.parsed.command_args@[i])@ == arg@;
        assert(b[i] == arg@);
    }
}

/// A frame that names nothing and does not say where it was written points at the absolute
/// directory that the command line changes to, written apart or in one.
pub proof fn law_frames_point_at_the_directory_changed_to(
    payload: TracePayload,
    apart: ParsedGitInvocation,
    in_one: ParsedGitInvocation,
    files: FileSnapshot,
    text: Seq<char>,
    dir: RepoPath,
    root: Option<RepoPath>,
    r: Option<RepoPath>,
    joined: Option<RepoPath>,
)
    requires
        opt_view(payload.event) != Some("def_repo"@),
        payload.worktree is Absent && payload.cwd is None,
        text.len() > 0 && text[0] == '/',
        dir@ == path_of(text),
        views(apart.global_args@) == seq!["-C"@, text],
        views(in_one.global_args@) == seq!["-C"@ + text],
        call_ensures(worktree_root_for_path, (&dir, &files), root),
        call_ensures(trace_payload_worktree_hint, (&payload, &apart, &files), r),
        call_ensures(trace_payload_worktree_hint, (&payload, &in_one, &files), joined),
    ensures
        r is Some && joined is Some && r->0@ == joined->0@,
        root is Some ==> r->0@ == root->0@,
        root is None ==> r->0@ == dir@,
{
    reveal_strlit("-C");
    assert("-C"@.len() == 2);
    let one = "-C"@ + text;
    assert("-C"@.subrange(0, 2) =~= "-C"@);
    assert(one.subrange(0, 2) =~= "-C"@);
    assert(one.subrange(2, one.len() as int) =~= text);
    assert(one != "-C"@);
    assert(views(apart.global_args@)[0] == "-C"@ && views(apart.global_args@)[1] == text);
    assert(views(in_one.global_args@)[0] == one);
    reveal_with_fuel(crate::trace::first_absolute_dir, 2);
}

} // verus!
