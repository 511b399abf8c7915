//! What is kept between commands: rewrites that are under way, effects in flight, errors,
//! calls of a shell, and what is left of a working log.
use crate::bash_calls::{
    bash_hook_end, bash_hook_start, bash_session_end, bash_session_start, BashCall, BashCallEnd,
    BashCallStart, BashHookPlace, BashSession,
};
use crate::commands::AppliedCommand;
use crate::effects::{
    checkpoint_completion_entry, command_completion_entry, InflightEffects, ReplayPrerequisites,
    SideEffectErrors, TestCompletionLogEntry,
};
use crate::event_effects::RecentReplayPrerequisite;
use crate::paths::RepoPath;
use crate::pending::{
    worktree_state_key, PendingCherryPickNoCommit, PendingRewrites, PendingSquashMerge,
};
use crate::repo_state::FileSnapshot;
use crate::rewrite::PendingRebase;
use crate::text::{opt_view, views};
use crate::working_logs::{checkpoints_outside_pathspecs, left_view, metric_contexts, MetricContext};
use crate::keyed::KeyMap;
use vstd::prelude::*;

verus! {

/// A rebase that was noted is handed out once, with the head that it started at and what it
/// goes onto.
pub proof fn law_a_noted_rebase_is_handed_out_once(
    first: &mut PendingRewrites,
    second: &mut PendingRewrites,
    third: &mut PendingRewrites,
    key: String,
    name: &str,
    original_head: String,
    onto: Option<String>,
    taken: Option<PendingRebase>,
    again: Option<PendingRebase>,
)
    requires
        name@ == key@,
        call_ensures(
            PendingRewrites::set_pending_rebase_original_head_for_worktree,
            (first, key, original_head, onto),
            (),
        ),
        *final(first) == *old(second),
        call_ensures(
            PendingRewrites::take_pending_rebase_original_head_for_worktree,
            (second, name),
            taken,
        ),
        *final(second) == *old(third),
        call_ensures(
            PendingRewrites::take_pending_rebase_original_head_for_worktree,
            (third, name),
            again,
        ),
    ensures
        taken is Some && taken->0.original_head == original_head && taken->0.onto == onto,
        again is None,
{
}

/// A rebase that was given up is not handed out; those of other worktrees are not touched.
pub proof fn law_a_rebase_given_up_is_not_handed_out(
    first: &mut PendingRewrites,
    second: &mut PendingRewrites,
    name: &str,
    other: &str,
    taken: Option<PendingRebase>,
)
    requires
        call_ensures(
            PendingRewrites::clear_pending_rebase_original_head_for_worktree,
            (first, name),
            (),
        ),
        *final(first) == *old(second),
        call_ensures(
            PendingRewrites::take_pending_rebase_original_head_for_worktree,
            (second, other),
            taken,
        ),
    ensures
        other@ == name@ ==> taken is None,
        other@ != name@ && old(first).rebases@.contains_key(other@) ==> taken == Some(
            old(first).rebases@[other@],
        ),
{
}

/// The sources that a cherry-pick has left over are handed out as they were noted, once; to
/// look at them takes nothing away.
pub proof fn law_noted_sources_are_handed_out_once(
    first: &mut PendingRewrites,
    second: &mut PendingRewrites,
    third: &mut PendingRewrites,
    key: String,
    name: &str,
    sources: Vec<String>,
    seen: Vec<String>,
    taken: Vec<String>,
    again: Vec<String>,
)
    requires
        name@ == key@,
        call_ensures(
            PendingRewrites::set_pending_cherry_pick_sources_for_worktree,
            (first, key, sources),
            (),
        ),
        *final(first) == *old(second),
        call_ensures(
            PendingRewrites::pending_cherry_pick_sources_for_worktree,
            (old(second), name),
            seen,
        ),
        call_ensures(
            PendingRewrites::take_pending_cherry_pick_sources_for_worktree,
            (second, name),
            taken,
        ),
        *final(second) == *old(third),
        call_ensures(
            PendingRewrites::take_pending_cherry_pick_sources_for_worktree,
            (third, name),
            again,
        ),
    ensures
        views(seen@) == views(sources@),
        views(taken@) == views(sources@),
        again@.len() == 0,
{
    assert(views(again@).len() == again@.len());
    assert(views(sources@).len() == sources@.len());
}

/// A cherry-pick without a commit that was noted is handed out once, with its sources and the
/// head that it stands on; one without either is not noted.
pub proof fn law_an_uncommitted_pick_is_handed_out_once(
    first: &mut PendingRewrites,
    second: &mut PendingRewrites,
    third: &mut PendingRewrites,
    key: String,
    name: &str,
    sources: Vec<String>,
    head: String,
    taken: Option<PendingCherryPickNoCommit>,
    again: Option<PendingCherryPickNoCommit>,
)
    requires
        name@ == key@,
        call_ensures(
            PendingRewrites::set_pending_cherry_pick_no_commit_for_worktree,
            (first, key, sources, head),
            (),
        ),
        *final(first) == *old(second),
        call_ensures(
            PendingRewrites::take_pending_cherry_pick_no_commit_for_worktree,
            (second, name),
            taken,
        ),
        *final(second) == *old(third),
        call_ensures(
            PendingRewrites::take_pending_cherry_pick_no_commit_for_worktree,
            (third, name),
            again,
        ),
    ensures
        sources@.len() > 0 && head@.len() > 0 ==> taken is Some && taken->0.source_commits
            == sources && taken->0.head == head,
        sources@.len() == 0 || head@.len() == 0 ==> taken is None,
        again is None,
{
}

/// A squashed merge that was noted is handed out once, with the head that it merges and the
/// one that it goes onto.
pub proof fn law_a_squashed_merge_is_handed_out_once(
    first: &mut PendingRewrites,
    second: &mut PendingRewrites,
    third: &mut PendingRewrites,
    key: String,
    name: &str,
    source_head: String,
    onto: String,
    taken: Option<PendingSquashMerge>,
    again: Option<PendingSquashMerge>,
)
    requires
        name@ == key@,
        call_ensures(
            PendingRewrites::set_pending_squash_merge_for_worktree,
            (first, key, source_head, onto),
            (),
        ),
        *final(first) == *old(second),
        call_ensures(
            PendingRewrites::take_pending_squash_merge_for_worktree,
            (second, name),
            taken,
        ),
        *final(second) == *old(third),
        call_ensures(
            PendingRewrites::take_pending_squash_merge_for_worktree,
            (third, name),
            again,
        ),
    ensures
        taken is Some && taken->0.source_head == source_head && taken->0.onto == onto,
        again is None,
{
}

/// To clear away what is stale takes no rebase, and no cherry-pick that has sources left.
pub proof fn law_clearing_away_keeps_what_is_live(pending: &mut PendingRewrites, key: Seq<char>)
    requires
        call_ensures(PendingRewrites::drop_stale, (pending,), ()),
    ensures
        final(pending).rebases == old(pending).rebases,
        final(pending).no_commits == old(pending).no_commits,
        old(pending).cherry_picks@.contains_key(key) && old(pending).cherry_picks@[key]@.len() > 0
            ==> final(pending).cherry_picks@.contains_key(key) && final(pending).cherry_picks@[key]
            == old(pending).cherry_picks@[key],
        old(pending).cherry_picks@.contains_key(key) && old(pending).cherry_picks@[key]@.len() == 0
            ==> !final(pending).cherry_picks@.contains_key(key),
{
}

/// Effects are in flight from the first that begins to the last that ends, family by family.
pub proof fn law_effects_are_in_flight_until_they_end(
    first: &mut InflightEffects,
    second: &mut InflightEffects,
    family: &str,
    begun: bool,
    ended: bool,
    before: bool,
)
    requires
        old(first).wf(),
        old(first).count(family@) < usize::MAX,
        call_ensures(InflightEffects::has_inflight_family_effects, (old(first),), before),
        call_ensures(InflightEffects::begin_family_effect, (first, family), ()),
        call_ensures(InflightEffects::has_inflight_family_effects, (final(first),), begun),
        *final(first) == *old(second),
        call_ensures(InflightEffects::end_family_effect, (second, family), ()),
        call_ensures(InflightEffects::has_inflight_family_effects, (final(second),), ended),
    ensures
        begun,
        ended == before,
        final(second).counts@ == old(first).counts@,
{
    let a = old(first).counts@;
    let b = final(first).counts@;
    let c = final(second).counts@;
    assert(b.contains_key(family@));
    assert(!Map::<Seq<char>, usize>::empty().contains_key(family@));
    if a.contains_key(family@) {
        assert(a[family@] >= 1);
    }
    assert(c =~= a);
}

/// The error of the newest command is the one that is reported, whatever errors there were,
/// and of each family by itself.
pub proof fn law_the_error_of_the_newest_command_is_reported(
    errors: &mut SideEffectErrors,
    family: &str,
    other: &str,
    seq: u64,
    error: String,
    r: Option<String>,
    before: Option<String>,
    after: Option<String>,
)
    requires
        old(errors).wf(),
        forall|i: int|
            0 <= i < old(errors).by_family@[family@]@.len() ==> (
            #[trigger] old(errors).by_family@[family@]@[i]).0 <= seq,
        call_ensures(SideEffectErrors::latest_side_effect_error, (old(errors), other), before),
        call_ensures(
            SideEffectErrors::record_side_effect_error,
            (errors, family, seq, error),
            (),
        ),
        call_ensures(SideEffectErrors::latest_side_effect_error, (final(errors), family), r),
        call_ensures(SideEffectErrors::latest_side_effect_error, (final(errors), other), after),
    ensures
        opt_view(r) == Some(error@),
        other@ != family@ ==> opt_view(after) == opt_view(before),
{
    let list = old(errors).errors(family@);
    assert forall|i: int| 0 <= i < list.len() implies (#[trigger] list[i]).0 <= seq by {
        assert(list[i].0 == old(errors).by_family@[family@]@[i].0);
    }
    crate::effects::lemma_place(list, seq);
    let at = crate::effects::error_place(list, seq);
    assert(at + 1 >= list.len()) by {
        if at + 1 < list.len() {
            assert(list[at as int].0 < list[at as int + 1].0);
        }
    }
    if at < list.len() {
        assert(list[at as int].0 == seq);
    }
}

/// What is remembered of branch switches ends with the newest, of its own family.
pub proof fn law_the_newest_switch_is_remembered(
    kept: &mut ReplayPrerequisites,
    family: &str,
    noted: RecentReplayPrerequisite,
    other: Seq<char>,
)
    requires
        old(kept).wf(),
        call_ensures(
            ReplayPrerequisites::record_recent_replay_prerequisite,
            (kept, family, noted),
            (),
        ),
    ensures
        final(kept).by_family@.contains_key(family@),
        final(kept).by_family@[family@]@.len() > 0,
        final(kept).by_family@[family@]@.last() == noted,
        final(kept).by_family@[family@]@.len() <= 256,
        other != family@ && old(kept).by_family@.contains_key(other)
            && old(kept).by_family@[other]@.len() > 0 ==> final(kept).by_family@.contains_key(other)
            && final(kept).by_family@[other]@ == old(kept).by_family@[other]@,
{
    assert(final(kept).entries(family@).len() > 0);
    assert(final(kept).entries(other) == old(kept).entries(other) || other == family@);
}

/// A call of a shell that began and ended is told of as one: where it ran, who made it, when it
/// began and when it ended.
pub proof fn law_a_shell_call_is_told_of_as_one(
    opening: BashCall,
    closing: BashCall,
    dir: &str,
    other_dir: &str,
    files: FileSnapshot,
    later: FileSnapshot,
    started: (BashCallStart, BashSession),
    r: BashCallEnd,
)
    requires
        call_ensures(bash_session_start, (opening, dir, &None, &files), started),
        call_ensures(bash_session_end, (closing, other_dir, &None, Some(started.1), &later), r),
    ensures
        r.agent_id@ == opening.agent_id@,
        r.start_trace_id == Some(opening.trace_id),
        r.started_at_ns == Some(opening.at_ns),
        r.end_trace_id == closing.trace_id,
        r.ended_at_ns == closing.at_ns,
        r.session_id == closing.session_id && r.tool_use_id == closing.tool_use_id,
        opt_view(r.repo_work_dir) == opt_view(started.0.repo_work_dir),
        r.original_cwd@ == started.0.original_cwd@,
        closing.command is None ==> r.command == opening.command,
        closing.command is Some ==> r.command == closing.command,
        closing.metadata@.len() == 0 ==> r.metadata@ == opening.metadata@,
        closing.metadata@.len() > 0 ==> r.metadata@ == closing.metadata@,
        started.0.session_id@ == opening.session_id@ && started.0.tool_use_id@
            == opening.tool_use_id@,
        started.0.start_trace_id@ == opening.trace_id@ && started.0.started_at_ns == opening.at_ns,
{
}

/// A call of a shell whose beginning nobody saw is told of by its end alone.
pub proof fn law_a_shell_call_that_nobody_saw_begin(
    closing: BashCall,
    dir: &str,
    cwd: Option<String>,
    files: FileSnapshot,
    path: RepoPath,
    key: String,
    r: BashCallEnd,
)
    requires
        call_ensures(bash_session_end, (closing, dir, &cwd, None, &files), r),
        path@ == crate::paths::path_of(dir@) && path.text@ == dir@,
        call_ensures(worktree_state_key, (&path, &files), key),
    ensures
        r.start_trace_id is None && r.started_at_ns is None,
        r.agent_id == closing.agent_id,
        r.command == closing.command,
        r.metadata@ == closing.metadata@,
        opt_view(r.repo_work_dir) == Some(key@),
        cwd is None ==> r.original_cwd@ == key@,
        r.repo_discovery_error is None,
{
    if closing.metadata@.len() == 0 {
        assert(closing.metadata@ =~= Seq::empty());
    }
}

/// A hook tells of where it was called: the repository that was found there, or why none was.
pub proof fn law_hooks_tell_where_they_were_called(
    call: BashCall,
    place: BashHookPlace,
    files: FileSnapshot,
    start: BashCallStart,
    end: BashCallEnd,
)
    requires
        call_ensures(bash_hook_start, (call, place, &files), start),
        call_ensures(bash_hook_end, (call, place, &files), end),
    ensures
        start.original_cwd@ == end.original_cwd@,
        opt_view(start.repo_work_dir) == opt_view(end.repo_work_dir),
        start.repo_work_dir is Some <==> place.discovered_repo_work_dir is Some,
        place.discovered_repo_work_dir is Some && place.discovered_repo_work_dir->0@
            == place.original_cwd@ ==> start.repo_work_dir->0@ == start.original_cwd@,
        start.repo_discovery_error == place.repo_discovery_error,
        end.repo_discovery_error == place.repo_discovery_error,
        start.started_at_ns == call.at_ns && end.ended_at_ns == call.at_ns,
        start.start_trace_id == call.trace_id && end.end_trace_id == call.trace_id,
        end.started_at_ns is None && end.start_trace_id is None,
        start.agent_id == call.agent_id && end.agent_id == call.agent_id,
        start.session_id == call.session_id && end.session_id == call.session_id,
        start.tool_use_id == call.tool_use_id && end.tool_use_id == call.tool_use_id,
        start.command == call.command && end.command == call.command,
{
}

/// The entry of a command that completed says how it went: its error exactly when there was
/// one, and the exit code and place of the command.
pub proof fn law_completed_commands_are_entered_as_they_went(
    family: &str,
    applied: AppliedCommand,
    result: Result<(), String>,
    synced: bool,
    session: Option<String>,
    r: TestCompletionLogEntry,
)
    requires
        call_ensures(command_completion_entry, (family, &applied, &result, synced, session), r),
    ensures
        result is Ok ==> r.status@ == "ok"@ && r.error is None,
        result is Err ==> r.status@ == "error"@ && opt_view(r.error) == Some(result->Err_0@),
        r.exit_code == Some(applied.command.exit_code),
        r.seq == applied.seq,
        r.family_key@ == family@ && r.kind@ == "command"@,
        r.sync_tracked == synced && r.test_sync_session == session,
{
}

/// The entry of a checkpoint says whether it was taken, failed or held back.
pub proof fn law_completed_checkpoints_are_entered_as_they_went(
    family: &str,
    seq: u64,
    error: String,
    taken: TestCompletionLogEntry,
    failed: TestCompletionLogEntry,
    held: TestCompletionLogEntry,
)
    requires
        call_ensures(checkpoint_completion_entry, (family, &Some(Ok(seq))), taken),
        call_ensures(checkpoint_completion_entry, (family, &Some(Err(error))), failed),
        call_ensures(checkpoint_completion_entry, (family, &None), held),
    ensures
        taken.status@ == "ok"@ && taken.seq == seq && taken.error is None,
        failed.status@ == "error"@ && opt_view(failed.error) == Some(error@) && failed.seq == 0,
        held.status@ == "suppressed"@ && held.error is None && held.seq == 0,
        taken.kind@ == "checkpoint"@ && taken.sync_tracked && taken.exit_code is None,
{
}

proof fn lemma_left(
    checkpoints: Seq<Vec<String>>,
    pathspecs: Seq<Seq<char>>,
    n: nat,
    c: int,
)
    requires
        n <= checkpoints.len() <= usize::MAX,
        0 <= c < n,
    ensures
        ({
            let all = crate::working_logs::checkpoints_outside(checkpoints, pathspecs, n);
            let files = views(checkpoints[c]@);
            let left = crate::working_logs::places_outside(files, pathspecs, files.len());
            &&& left.len() > 0 <==> exists|k: int| 0 <= k < all.len() && (#[trigger] all[k]).0 == c
            &&& forall|k: int|
                0 <= k < all.len() && (#[trigger] all[k]).0 == c ==> all[k].1 == left
            &&& forall|k: int| 0 <= k < all.len() ==> (#[trigger] all[k]).0 < n
        }),
    decreases n,
{
    let before = crate::working_logs::checkpoints_outside(checkpoints, pathspecs, (n - 1) as nat);
    let all = crate::working_logs::checkpoints_outside(checkpoints, pathspecs, n);
    if c < n - 1 {
        lemma_left(checkpoints, pathspecs, (n - 1) as nat, c);
        if exists|k: int| 0 <= k < before.len() && (#[trigger] before[k]).0 == c {
            let k = choose|k: int| 0 <= k < before.len() && (#[trigger] before[k]).0 == c;
            assert(all[k] == before[k]);
        }
        if exists|k: int| 0 <= k < all.len() && (#[trigger] all[k]).0 == c {
            let k = choose|k: int| 0 <= k < all.len() && (#[trigger] all[k]).0 == c;
            assert(before[k] == all[k]);
        }
    } else {
        if n > 1 {
            lemma_left(checkpoints, pathspecs, (n - 1) as nat, 0);
        }
        let files = views(checkpoints[c]@);
        let left = crate::working_logs::places_outside(files, pathspecs, files.len());
        if left.len() > 0 {
            assert(all[before.len() as int].0 == c);
        }
    }
}

/// Of a working log there is left, checkpoint by checkpoint, every entry that no pathspec
/// covers and none that one does; a checkpoint of which nothing is left is gone.
pub proof fn law_what_no_pathspec_covers_is_left(
    checkpoints: Vec<Vec<String>>,
    pathspecs: Vec<String>,
    r: Vec<(usize, Vec<usize>)>,
    c: int,
    i: usize,
)
    requires
        call_ensures(checkpoints_outside_pathspecs, (&checkpoints, &pathspecs), r),
        0 <= c < checkpoints@.len(),
        i < checkpoints@[c]@.len(),
    ensures
        crate::trace::any_pathspec_covers(views(pathspecs@), checkpoints@[c]@[i as int]@) <==> !(
        exists|k: int|
            0 <= k < r@.len() && (#[trigger] r@[k]).0 == c && r@[k].1@.contains(i)),
        forall|k: int| 0 <= k < r@.len() ==> (#[trigger] r@[k]).1@.len() > 0 || r@[k].0 != c,
{
    let files = views(checkpoints@[c]@);
    let specs = views(pathspecs@);
    assert(checkpoints@.len() == checkpoints.len());
    assert(checkpoints@[c]@.len() == checkpoints@[c].len());
    lemma_left(checkpoints@, specs, checkpoints@.len(), c);
    crate::working_logs::law_only_covered_entries_leave(files, specs, files.len());
    let left = crate::working_logs::places_outside(files, specs, files.len());
    assert(left.contains(i) <==> !crate::trace::any_pathspec_covers(specs, files[i as int]));
    let seen = left_view(r@);
    assert forall|k: int| 0 <= k < r@.len() implies seen[k] == ((#[trigger] r@[k]).0, r@[k].1@) by {
    }
    if left.contains(i) {
        let k = choose|k: int| 0 <= k < seen.len() && (#[trigger] seen[k]).0 == c;
        assert(r@[k].0 == c && r@[k].1@.contains(i));
    }
    if exists|k: int| 0 <= k < r@.len() && (#[trigger] r@[k]).0 == c && r@[k].1@.contains(i) {
        let k = choose|k: int|
            0 <= k < r@.len() && (#[trigger] r@[k]).0 == c && r@[k].1@.contains(i);
        assert(seen[k].0 == c && seen[k].1 == left);
    }
    assert forall|k: int| 0 <= k < r@.len() implies (#[trigger] r@[k]).1@.len() > 0 || r@[k].0
        != c by {
        if r@[k].0 == c {
            assert(seen[k].0 == c && seen[k].1 == left);
        }
    }
}

proof fn lemma_parent(pairs: Seq<(String, String)>, commit: Seq<char>)
    ensures
        crate::working_logs::parent_in(pairs, commit) is None <==> forall|i: int|
            0 <= i < pairs.len() ==> (#[trigger] pairs[i]).0@ != commit,
        crate::working_logs::parent_in(pairs, commit) is Some ==> exists|i: int|
            0 <= i < pairs.len() && (#[trigger] pairs[i]).0@ == commit && pairs[i].1@
                == crate::working_logs::parent_in(pairs, commit)->0 && forall|k: int|
                i < k < pairs.len() ==> (#[trigger] pairs[k]).0@ != commit,
    decreases pairs.len(),
{
    if pairs.len() > 0 {
        let rest = pairs.drop_last();
        lemma_parent(rest, commit);
        assert(pairs[pairs.len() - 1] == pairs.last());
        assert(forall|i: int| 0 <= i < rest.len() ==> rest[i] == #[trigger] pairs[i]);
        if pairs.last().0@ != commit && crate::working_logs::parent_in(rest, commit) is Some {
            let i = choose|i: int|
                0 <= i < rest.len() && (#[trigger] rest[i]).0@ == commit && rest[i].1@
                    == crate::working_logs::parent_in(rest, commit)->0 && forall|k: int|
                    i < k < rest.len() ==> (#[trigger] rest[k]).0@ != commit;
            assert(pairs[i].0@ == commit);
        }
    }
}

/// Each commit is measured against the parent that is known of it, and compared only where a
/// working log stands for a pair of it.
pub proof fn law_commits_are_measured_against_their_parents(
    commits: Vec<String>,
    pairs: Vec<(String, String)>,
    has_log: Vec<bool>,
    r: Vec<MetricContext>,
    c: int,
)
    requires
        call_ensures(metric_contexts, (&commits, &pairs, &has_log), r),
        0 <= c < commits@.len(),
    ensures
        r@.len() == commits@.len(),
        r@[c].parent is Some ==> exists|i: int|
            0 <= i < pairs@.len() && (#[trigger] pairs@[i]).0@ == commits@[c]@ && pairs@[i].1@
                == r@[c].parent->0@,
        r@[c].parent is None ==> forall|i: int|
            0 <= i < pairs@.len() ==> (#[trigger] pairs@[i]).0@ != commits@[c]@,
        r@[c].compared ==> exists|i: int|
            0 <= i < pairs@.len() && i < has_log@.len() && (#[trigger] pairs@[i]).0@
                == commits@[c]@ && has_log@[i],
        !r@[c].compared ==> forall|i: int|
            0 <= i < pairs@.len() && i < has_log@.len() && (#[trigger] pairs@[i]).0@
                == commits@[c]@ ==> !has_log@[i],
{
    lemma_parent(pairs@, commits@[c]@);
    let context = r@[c];
    assert(opt_view(context.parent) == crate::working_logs::parent_in(pairs@, commits@[c]@));
}

/// As many as two hundred and fifty-six errors of a family are kept: one more drops none while
/// there are fewer, and the oldest when there are as many.
pub proof fn law_errors_are_kept_up_to_a_number(
    errors: &mut SideEffectErrors,
    family: &str,
    seq: u64,
    error: String,
    i: int,
)
    requires
        old(errors).wf(),
        old(errors).by_family@.contains_key(family@),
        forall|k: int|
            0 <= k < old(errors).by_family@[family@]@.len() ==> (
            #[trigger] old(errors).by_family@[family@]@[k]).0 < seq,
        call_ensures(
            SideEffectErrors::record_side_effect_error,
            (errors, family, seq, error),
            (),
        ),
        0 <= i < old(errors).by_family@[family@]@.len(),
    ensures
        ({
            let before = old(errors).by_family@[family@]@;
            let after = final(errors).by_family@[family@]@;
            &&& before.len() < 256 ==> after.len() == before.len() + 1 && after[i].0 == before[i].0
                && after[i].1@ == before[i].1@
            &&& before.len() == 256 ==> after.len() == 256 && (i > 0 ==> after[i - 1].0
                == before[i].0 && after[i - 1].1@ == before[i].1@)
            &&& after.last().0 == seq && after.last().1@ == error@
        }),
{
    let list = old(errors).errors(family@);
    let before = old(errors).by_family@[family@]@;
    let after = final(errors).by_family@[family@]@;
    assert forall|k: int| 0 <= k < list.len() implies (#[trigger] list[k]).0 < seq by {
        assert(list[k].0 == before[k].0);
    }
    crate::effects::lemma_place(list, seq);
    let at = crate::effects::error_place(list, seq);
    assert(at == list.len()) by {
        if at < list.len() {
            assert(list[at as int].0 >= seq);
        }
    }
    let all = crate::effects::with_error(list, seq, error@);
    assert(all =~= list.push((seq, error@)));
    let kept = final(errors).errors(family@);
    assert(kept.len() == after.len());
    assert(list[i] == (before[i].0, before[i].1@));
    if before.len() < 256 {
        assert(kept[i] == (after[i].0, after[i].1@));
    } else if i > 0 {
        assert(kept[i - 1] == (after[i - 1].0, after[i - 1].1@));
    }
    assert(kept.last() == (after.last().0, after.last().1@));
}

/// Switches are remembered up to two hundred and fifty-six likewise.
pub proof fn law_switches_are_remembered_up_to_a_number(
    kept: &mut ReplayPrerequisites,
    family: &str,
    noted: RecentReplayPrerequisite,
    i: int,
)
    requires
        old(kept).wf(),
        old(kept).by_family@.contains_key(family@),
        call_ensures(
            ReplayPrerequisites::record_recent_replay_prerequisite,
            (kept, family, noted),
            (),
        ),
        0 <= i < old(kept).by_family@[family@]@.len(),
    ensures
        ({
            let before = old(kept).by_family@[family@]@;
            let after = final(kept).by_family@[family@]@;
            &&& before.len() < 256 ==> after.len() == before.len() + 1 && after[i] == before[i]
            &&& before.len() == 256 ==> after.len() == 256 && (i > 0 ==> after[i - 1] == before[i])
        }),
{
    assert(final(kept).entries(family@).len() > 0);
}

/// To drop families without errors, or without switches, loses neither.
pub proof fn law_dropping_empty_families_loses_nothing(
    errors: &mut SideEffectErrors,
    kept: &mut ReplayPrerequisites,
    family: Seq<char>,
)
    requires
        call_ensures(SideEffectErrors::drop_empty, (errors,), ()),
        call_ensures(ReplayPrerequisites::drop_empty, (kept,), ()),
    ensures
        final(errors).errors(family) == old(errors).errors(family),
        final(kept).entries(family) == old(kept).entries(family),
        old(errors).errors(family).len() == 0 ==> !final(errors).by_family@.contains_key(family),
        old(kept).entries(family).len() == 0 ==> !final(kept).by_family@.contains_key(family),
{
    if old(errors).errors(family).len() == 0 {
        assert(old(errors).errors(family) =~= Seq::empty());
    }
    if old(kept).entries(family).len() == 0 {
        assert(old(kept).entries(family) =~= Seq::empty());
    }
}

/// What is cleared of a worktree is gone, and nothing of another.
pub proof fn law_what_is_cleared_is_gone(
    picks: &mut PendingRewrites,
    uncommitted: &mut PendingRewrites,
    name: &str,
    other: &str,
    before: Vec<String>,
    left: Vec<String>,
    there: Vec<String>,
)
    requires
        call_ensures(
            PendingRewrites::pending_cherry_pick_sources_for_worktree,
            (old(picks), other),
            before,
        ),
        call_ensures(
            PendingRewrites::clear_pending_cherry_pick_sources_for_worktree,
            (picks, name),
            (),
        ),
        call_ensures(
            PendingRewrites::pending_cherry_pick_sources_for_worktree,
            (final(picks), name),
            left,
        ),
        call_ensures(
            PendingRewrites::pending_cherry_pick_sources_for_worktree,
            (final(picks), other),
            there,
        ),
        call_ensures(
            PendingRewrites::clear_pending_cherry_pick_no_commit_for_worktree,
            (uncommitted, name),
            (),
        ),
    ensures
        left@.len() == 0,
        other@ != name@ ==> views(there@) == views(before@),
        !final(uncommitted).no_commits@.contains_key(name@),
        final(uncommitted).cherry_picks == old(uncommitted).cherry_picks,
        final(picks).no_commits == old(picks).no_commits,
{
    assert(views(left@).len() == left@.len());
}

/// A map gives back what was put in under a name, until it is taken out; other names are not
/// touched.
pub proof fn law_maps_give_back_what_was_put_in(
    first: &mut KeyMap<u64>,
    second: &mut KeyMap<u64>,
    key: String,
    name: &str,
    other: &str,
    value: u64,
    found: Option<&u64>,
    before: Option<&u64>,
    there: Option<&u64>,
    taken: Option<u64>,
    gone: Option<&u64>,
    empty: bool,
)
    requires
        name@ == key@,
        call_ensures(KeyMap::<u64>::get, (old(first), other), before),
        call_ensures(KeyMap::<u64>::insert, (first, key, value), ()),
        call_ensures(KeyMap::<u64>::get, (final(first), name), found),
        call_ensures(KeyMap::<u64>::get, (final(first), other), there),
        call_ensures(KeyMap::<u64>::is_empty, (final(first),), empty),
        *final(first) == *old(second),
        call_ensures(KeyMap::<u64>::remove, (second, name), taken),
        call_ensures(KeyMap::<u64>::get, (final(second), name), gone),
    ensures
        found is Some && *found->0 == value,
        other@ != name@ ==> (there is Some <==> before is Some) && (there is Some ==> *there->0
            == *before->0),
        taken == Some(value),
        gone is None,
        !empty,
{
    assert(!Map::<Seq<char>, u64>::empty().contains_key(name@));
}

/// To clear away what is stale keeps the squashed merges that name both heads, and only those.
pub proof fn law_clearing_away_keeps_whole_merges(pending: &mut PendingRewrites, key: Seq<char>)
    requires
        call_ensures(PendingRewrites::drop_stale, (pending,), ()),
        old(pending).squash_merges@.contains_key(key),
    ensures
        ({
            let merge = old(pending).squash_merges@[key];
            let whole = crate::text::trim_of(merge.source_head@).len() > 0 && crate::text::trim_of(
                merge.onto@,
            ).len() > 0;
            &&& final(pending).squash_merges@.contains_key(key) <==> whole
            &&& whole ==> final(pending).squash_merges@[key] == merge
        }),
{
}

} // verus!
