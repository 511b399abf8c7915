//! Checkpoints: which files they record, what holds them back and how they are counted.
use crate::checkpoint::{
    absolute_path, begin_checkpoint, checkpoint_base_commit, checkpoint_body,
    checkpoint_candidates, finish_checkpoint, relative_path, unheld, BaseCommit,
    CheckpointBodyError, CheckpointFile, CheckpointFinish, CheckpointGate, CheckpointKind,
    CheckpointRequest, FileFacts, PendingAiEdits, PreparedPathRole,
};
use crate::paths::RepoPath;
use crate::repo_state::FileSnapshot;
use crate::text::{opt_view, trim_of, views};
use vstd::prelude::*;

verus! {

/// Agents and completions are machines; people are not.
pub proof fn law_people_are_not_machines(kind: CheckpointKind, r: bool)
    requires
        call_ensures(CheckpointKind::is_ai, (&kind,), r),
    ensures
        kind is AiAgent ==> r,
        kind is AiTab ==> r,
        kind is Human ==> !r,
        kind is KnownHuman ==> !r,
{
}

proof fn lemma_announced(
    edits: Map<Seq<char>, u128>,
    paths: Seq<Seq<char>>,
    now_ns: u128,
    path: Seq<char>,
)
    ensures
        ({
            let after = crate::checkpoint::announced(edits, paths, now_ns);
            &&& paths.contains(path) ==> after.contains_key(path) && after[path] == now_ns
            &&& !paths.contains(path) ==> after.contains_key(path) == edits.contains_key(path)
                && after[path] == edits[path]
        }),
    decreases paths.len(),
{
    if paths.len() > 0 {
        let rest = paths.drop_last();
        lemma_announced(edits, rest, now_ns, path);
        if paths.contains(path) && paths.last() != path {
            assert(rest[paths.index_of(path)] == path);
        }
        if rest.contains(path) {
            assert(paths[rest.index_of(path)] == path);
        }
        if paths.last() == path {
            assert(paths[paths.len() - 1] == path);
        }
    }
}

/// An edit that was announced is waited for ten seconds, in its own family, and no longer; one
/// that nobody announced is not waited for.
pub proof fn law_announced_edits_are_waited_for(
    edits: &mut PendingAiEdits,
    family: &str,
    other: &str,
    paths: Vec<String>,
    now_ns: u128,
    path: &str,
    later_ns: u128,
    before: bool,
    before_there: bool,
    r: bool,
    there: bool,
)
    requires
        call_ensures(
            PendingAiEdits::file_has_pending_ai_edit,
            (old(edits), family, path, later_ns),
            before,
        ),
        call_ensures(
            PendingAiEdits::file_has_pending_ai_edit,
            (old(edits), other, path, later_ns),
            before_there,
        ),
        call_ensures(
            PendingAiEdits::register_pending_ai_edits,
            (edits, family, &paths, now_ns),
            (),
        ),
        call_ensures(
            PendingAiEdits::file_has_pending_ai_edit,
            (final(edits), family, path, later_ns),
            r,
        ),
        call_ensures(
            PendingAiEdits::file_has_pending_ai_edit,
            (final(edits), other, path, later_ns),
            there,
        ),
        now_ns <= later_ns,
    ensures
        views(paths@).contains(path@) ==> r == (later_ns - now_ns < 10_000_000_000),
        !views(paths@).contains(path@) ==> r == before,
        other@ != family@ ==> there == before_there,
{
    lemma_announced(old(edits).edits(family@), views(paths@), now_ns, path@);
}

/// An edit that is done is not waited for any longer; others still are.
pub proof fn law_edits_that_are_done_are_not_waited_for(
    edits: &mut PendingAiEdits,
    family: &str,
    paths: Vec<String>,
    path: &str,
    now_ns: u128,
    before: bool,
    r: bool,
)
    requires
        call_ensures(
            PendingAiEdits::file_has_pending_ai_edit,
            (old(edits), family, path, now_ns),
            before,
        ),
        call_ensures(PendingAiEdits::clear_pending_ai_edits, (edits, family, &paths), ()),
        call_ensures(
            PendingAiEdits::file_has_pending_ai_edit,
            (final(edits), family, path, now_ns),
            r,
        ),
    ensures
        views(paths@).contains(path@) ==> !r,
        !views(paths@).contains(path@) ==> r == before,
{
    let gone = views(paths@).to_set();
    assert(gone.contains(path@) == views(paths@).contains(path@));
}

/// To clear away what has expired changes nothing of what is waited for, then or later.
pub proof fn law_clearing_away_expired_edits_changes_nothing(
    edits: &mut PendingAiEdits,
    family: &str,
    path: &str,
    now_ns: u128,
    later_ns: u128,
    before: bool,
    r: bool,
)
    requires
        now_ns <= later_ns,
        call_ensures(
            PendingAiEdits::file_has_pending_ai_edit,
            (old(edits), family, path, later_ns),
            before,
        ),
        call_ensures(PendingAiEdits::drop_expired, (edits, now_ns), ()),
        call_ensures(
            PendingAiEdits::file_has_pending_ai_edit,
            (final(edits), family, path, later_ns),
            r,
        ),
    ensures
        r == before,
{
    assert(final(edits).edits(family@) == crate::keyed::retained(
        old(edits).edits(family@),
        crate::checkpoint::is_still_pending(now_ns),
    ));
}

proof fn lemma_unheld(
    files: Seq<CheckpointFile>,
    edits: PendingAiEdits,
    family: Seq<char>,
    now_ns: u128,
    file: CheckpointFile,
)
    ensures
        unheld(files, edits, family, now_ns).contains(file) <==> files.contains(file)
            && !edits.pending(family, file.canonical@, now_ns),
    decreases files.len(),
{
    let all = unheld(files, edits, family, now_ns);
    if files.len() > 0 {
        let rest = files.skip(1);
        let left = unheld(rest, edits, family, now_ns);
        lemma_unheld(rest, edits, family, now_ns, file);
        if rest.contains(file) {
            assert(files[rest.index_of(file) + 1] == file);
        }
        if files.contains(file) && files[0] != file {
            assert(rest[files.index_of(file) - 1] == file);
        }
        if files[0] == file {
            assert(files.contains(file));
        }
        if !edits.pending(family, files[0].canonical@, now_ns) {
            assert(all =~= seq![files[0]] + left);
            assert(all[0] == files[0]);
            if left.contains(file) {
                assert(all[left.index_of(file) + 1] == file);
            }
            if all.contains(file) && files[0] != file {
                assert(left[all.index_of(file) - 1] == file);
            }
        }
    }
}

/// A save by a person while an agent has announced to edit the file is left out: it is the
/// agent's. A save of any other file is recorded. Where every file is left out, there is no
/// checkpoint at all.
pub proof fn law_saves_of_announced_edits_are_left_out(
    first: &mut PendingAiEdits,
    second: &mut PendingAiEdits,
    family: &str,
    announcement: CheckpointRequest,
    save: CheckpointRequest,
    at_ns: u128,
    later_ns: u128,
    passed: Option<CheckpointRequest>,
    r: Option<CheckpointRequest>,
    i: int,
    file: CheckpointFile,
)
    requires
        announcement.path_role is WillEdit && announcement.agent_tool is Some,
        save.path_role is Edited && save.checkpoint_kind is KnownHuman,
        at_ns <= later_ns && later_ns - at_ns < 10_000_000_000,
        call_ensures(begin_checkpoint, (first, family, announcement, at_ns), passed),
        *final(first) == *old(second),
        call_ensures(begin_checkpoint, (second, family, save, later_ns), r),
        0 <= i < announcement.files@.len(),
    ensures
        r is Some && r->0.files@.contains(file) ==> file.canonical@
            != announcement.files@[i].canonical@ && save.files@.contains(file),
        save.files@.len() > 0 && (forall|k: int|
            0 <= k < save.files@.len() ==> (#[trigger] save.files@[k]).canonical@
                == announcement.files@[i].canonical@) ==> r is None,
        save.files@.len() == 0 ==> r is Some,
{
    let paths = crate::checkpoint::canonical_paths(announcement.files@);
    let path = announcement.files@[i].canonical@;
    assert(paths[i] == path);
    lemma_announced(old(first).edits(family@), paths, at_ns, path);
    assert(final(second).pending(family@, path, later_ns));
    lemma_unheld(save.files@, *final(second), family@, later_ns, file);
    let left = unheld(save.files@, *final(second), family@, later_ns);
    if left.len() > 0 {
        lemma_unheld(save.files@, *final(second), family@, later_ns, left[0]);
        assert(left.contains(left[0]));
        let k = save.files@.index_of(left[0]);
        assert(save.files@[k] == left[0]);
    }
}

/// A save by a person of a file that nobody announced to edit is recorded.
pub proof fn law_other_saves_are_recorded(
    edits: &mut PendingAiEdits,
    family: &str,
    save: CheckpointRequest,
    now_ns: u128,
    name: &str,
    held: bool,
    r: Option<CheckpointRequest>,
    i: int,
)
    requires
        0 <= i < save.files@.len(),
        save.path_role is Edited,
        name@ == save.files@[i].canonical@,
        call_ensures(
            PendingAiEdits::file_has_pending_ai_edit,
            (old(edits), family, name, now_ns),
            held,
        ),
        !held,
        call_ensures(begin_checkpoint, (edits, family, save, now_ns), r),
    ensures
        r is Some && r->0.files@.contains(save.files@[i]),
{
    let file = save.files@[i];
    lemma_unheld(save.files@, *final(edits), family@, now_ns, file);
    assert(save.files@.contains(file));
}

/// What is not a save by a person is recorded with all its files, whatever is announced, and
/// nothing of a request but its files is ever changed.
pub proof fn law_agents_are_never_held_back(
    edits: &mut PendingAiEdits,
    family: &str,
    request: CheckpointRequest,
    now_ns: u128,
    r: Option<CheckpointRequest>,
)
    requires
        call_ensures(begin_checkpoint, (edits, family, request, now_ns), r),
    ensures
        !(request.checkpoint_kind is KnownHuman) ==> r is Some && r->0.files@ == request.files@,
        r is Some ==> r->0.trace_id == request.trace_id && r->0.checkpoint_kind
            == request.checkpoint_kind && r->0.path_role == request.path_role && r->0.agent_tool
            == request.agent_tool,
        request.path_role is Edited ==> final(edits).edits(family@) == old(edits).edits(family@),
        request.agent_tool is None ==> final(edits).edits(family@) == old(edits).edits(family@),
{
}

/// An edit by a machine that was recorded is not waited for any longer; one that could not be
/// recorded, one by a person and one that is only announced leave what is waited for alone.
pub proof fn law_recorded_edits_are_done(
    edits: &mut PendingAiEdits,
    family: &str,
    kind: CheckpointKind,
    role: PreparedPathRole,
    files: Vec<CheckpointFile>,
    result: Result<u64, String>,
    now_ns: u128,
    name: &str,
    before: bool,
    after: bool,
    r: CheckpointFinish,
    i: int,
)
    requires
        0 <= i < files@.len(),
        name@ == files@[i].canonical@,
        call_ensures(
            PendingAiEdits::file_has_pending_ai_edit,
            (old(edits), family, name, now_ns),
            before,
        ),
        call_ensures(finish_checkpoint, (edits, family, kind, role, &files, result), r),
        call_ensures(
            PendingAiEdits::file_has_pending_ai_edit,
            (final(edits), family, name, now_ns),
            after,
        ),
    ensures
        result is Ok && (kind is AiAgent || kind is AiTab) && role is Edited ==> !after,
        result is Err || kind is Human || kind is KnownHuman || role is WillEdit ==> after
            == before,
{
    let paths = crate::checkpoint::canonical_paths(files@);
    assert(paths[i] == name@);
    assert(paths.to_set().contains(name@));
}

/// A checkpoint that was recorded takes its files as seen, and one by a person the whole
/// worktree; one that failed takes nothing as seen and tells why.
pub proof fn law_what_was_recorded_is_taken_as_seen(
    edits: &mut PendingAiEdits,
    family: &str,
    kind: CheckpointKind,
    role: PreparedPathRole,
    files: Vec<CheckpointFile>,
    result: Result<u64, String>,
    r: CheckpointFinish,
)
    requires
        call_ensures(finish_checkpoint, (edits, family, kind, role, &files, result), r),
    ensures
        result is Ok ==> r.watermark_paths@.len() == files@.len() && r.error is None
            && r.log_entry.seq == result->Ok_0 && r.log_entry.status@ == "ok"@,
        result is Ok ==> forall|i: int|
            0 <= i < files@.len() ==> (#[trigger] r.watermark_paths@[i])@ == files@[i].path@,
        result is Err ==> r.watermark_paths@.len() == 0 && opt_view(r.error) == Some(
            result->Err_0@,
        ) && r.log_entry.seq == 0 && r.log_entry.status@ == "error"@ && opt_view(r.log_entry.error)
            == Some(result->Err_0@),
        r.watermark_worktree <==> result is Ok && kind is Human,
{
    let seen = views(r.watermark_paths@);
    assert(seen.len() == r.watermark_paths@.len());
    if result is Ok {
        assert forall|i: int| 0 <= i < files@.len() implies (
        #[trigger] r.watermark_paths@[i])@ == files@[i].path@ by {
            assert(seen[i] == files@[i].path@);
        }
    }
}

/// A body that is followed by a newline is read back, whatever stands behind it; a body cut
/// short, one without its newline and one with something else there are told apart.
pub proof fn law_bodies_are_read_up_to_their_newline(
    received: Vec<u8>,
    n: usize,
    body: Seq<u8>,
    mark: u8,
    behind: Seq<u8>,
    r: Result<Vec<u8>, CheckpointBodyError>,
)
    requires
        call_ensures(checkpoint_body, (&received, n), r),
    ensures
        received@ == body.push(mark) + behind && n == body.len() && mark == 10 ==> r is Ok
            && r->Ok_0@ == body,
        received@ == body.push(mark) + behind && n == body.len() && mark != 10 ==> r == Err::<
            Vec<u8>,
            CheckpointBodyError,
        >(CheckpointBodyError::WrongDelimiter),
        received@ == body && n == body.len() ==> r == Err::<Vec<u8>, CheckpointBodyError>(
            CheckpointBodyError::MissingDelimiter,
        ),
        received@ == body && n > body.len() ==> r == Err::<Vec<u8>, CheckpointBodyError>(
            CheckpointBodyError::Truncated,
        ),
{
    if received@ == body.push(mark) + behind && n == body.len() {
        assert(received@[n as int] == mark);
        assert(received@.take(n as int) =~= body);
    }
}

/// Checkpoints are numbered one by one while they are accepted. A gate that is closed gives no
/// number out and changes nothing.
pub proof fn law_checkpoints_are_numbered_one_by_one(
    first: &mut CheckpointGate,
    second: &mut CheckpointGate,
    a: Option<u64>,
    b: Option<u64>,
)
    requires
        old(first).next_receipt_seq < u64::MAX - 1,
        old(first).unadmitted < u64::MAX - 1,
        call_ensures(CheckpointGate::accept, (first,), a),
        *final(first) == *old(second),
        call_ensures(CheckpointGate::accept, (second,), b),
    ensures
        a is Some && b is Some <==> old(first).accepting,
        a is Some && b is Some ==> b->0 == a->0 + 1 && a->0 == old(first).next_receipt_seq + 1,
        !old(first).accepting ==> a is None && b is None && *final(second) == *old(first),
{
}

/// To open or close the intake is all that `set_checkpoint_acceptance` does.
pub proof fn law_the_intake_opens_and_closes(
    first: &mut CheckpointGate,
    second: &mut CheckpointGate,
    accepting: bool,
    r: Option<u64>,
)
    requires
        old(first).next_receipt_seq < u64::MAX,
        old(first).unadmitted < u64::MAX,
        call_ensures(CheckpointGate::set_checkpoint_acceptance, (first, accepting), ()),
        *final(first) == *old(second),
        call_ensures(CheckpointGate::accept, (second,), r),
    ensures
        r is Some <==> accepting,
        final(first).next_receipt_seq == old(first).next_receipt_seq,
        final(first).processed_receipt_seq == old(first).processed_receipt_seq,
        final(first).unadmitted == old(first).unadmitted,
{
}

/// A checkpoint that was accepted and admitted is admitted through its number and no further,
/// and nothing is outstanding once as many were admitted as were accepted.
pub proof fn law_admissions_answer_acceptances(
    first: &mut CheckpointGate,
    second: &mut CheckpointGate,
    receipt: Option<u64>,
    done: bool,
    through: bool,
    further: bool,
)
    requires
        old(first).accepting,
        old(first).next_receipt_seq < u64::MAX - 1,
        old(first).unadmitted < u64::MAX,
        call_ensures(CheckpointGate::accept, (first,), receipt),
        *final(first) == *old(second),
        call_ensures(
            CheckpointGate::complete_checkpoint_admission,
            (second, receipt->0),
            done,
        ),
        call_ensures(CheckpointGate::admitted_through, (final(second), receipt->0), through),
        call_ensures(
            CheckpointGate::admitted_through,
            (final(second), (receipt->0 + 1) as u64),
            further,
        ),
    ensures
        through,
        !further,
        done <==> old(first).unadmitted == 0,
        final(second).unadmitted == old(first).unadmitted,
{
}

proof fn lemma_candidates(files: Seq<CheckpointFile>, facts: Seq<FileFacts>, n: nat)
    requires
        n <= files.len() <= usize::MAX,
    ensures
        ({
            let all = crate::checkpoint::candidates_among(files, facts, n);
            &&& forall|i: usize| #[trigger]
                all.contains(i) <==> i < n && crate::checkpoint::is_candidate(files, facts, i as int)
            &&& forall|a: int, b: int| 0 <= a < b < all.len() ==> all[a] < all[b]
        }),
    decreases n,
{
    let all = crate::checkpoint::candidates_among(files, facts, n);
    if n > 0 {
        lemma_candidates(files, facts, (n - 1) as nat);
        let before = crate::checkpoint::candidates_among(files, facts, (n - 1) as nat);
        let last = (n - 1) as usize;
        assert forall|k: int| 0 <= k < before.len() implies before[k] < last by {
            assert(before.contains(before[k]));
        }
        assert forall|i: usize| #[trigger]
            all.contains(i) <==> i < n && crate::checkpoint::is_candidate(files, facts, i as int) by {
            if crate::checkpoint::is_candidate(files, facts, n - 1) {
                assert(all[before.len() as int] == last);
                if before.contains(i) {
                    assert(all[before.index_of(i)] == i);
                }
                if all.contains(i) && i != last {
                    assert(before[all.index_of(i)] == i);
                    assert(before.contains(i));
                }
            }
        }
    }
}

/// The files that a checkpoint records, in order: those with a path, that lie in the worktree,
/// are not ignored and hold text; of several with one path only the first counts.
pub proof fn law_what_a_checkpoint_records(
    files: Vec<CheckpointFile>,
    facts: Vec<FileFacts>,
    r: Vec<usize>,
    i: usize,
)
    requires
        files@.len() == facts@.len(),
        call_ensures(checkpoint_candidates, (&files, &facts), r),
        i < files@.len(),
    ensures
        r@.contains(i) ==> trim_of(files@[i as int].path@).len() > 0 && facts@[i as int].in_workdir
            && !facts@[i as int].ignored && files@[i as int].content is Some
            && !files@[i as int].content->0@.contains('\0'),
        r@.contains(i) ==> forall|j: int|
            0 <= j < i && trim_of((#[trigger] files@[j]).path@).len() > 0 && facts@[j].in_workdir
                ==> facts@[j].relative@ != facts@[i as int].relative@,
        trim_of(files@[i as int].path@).len() > 0 && facts@[i as int].in_workdir
            && !facts@[i as int].ignored && files@[i as int].content is Some
            && !files@[i as int].content->0@.contains('\0') && (forall|j: int|
            0 <= j < i ==> (#[trigger] facts@[j]).relative@ != facts@[i as int].relative@)
            ==> r@.contains(i),
        forall|a: int, b: int| 0 <= a < b < r@.len() ==> r@[a] < r@[b],
{
    assert(files@.len() == files.len());
    lemma_candidates(files@, facts@, files@.len());
    assert(r@.contains(i) <==> crate::checkpoint::is_candidate(files@, facts@, i as int));
    if r@.contains(i) {
        assert forall|j: int|
            0 <= j < i && trim_of((#[trigger] files@[j]).path@).len() > 0
                && facts@[j].in_workdir implies facts@[j].relative@
            != facts@[i as int].relative@ by {
            assert(crate::checkpoint::counts(files@[j], facts@[j]));
        }
    }
    if crate::checkpoint::stands_earlier(files@, facts@, i as int) {
        let j = choose|j: int|
            0 <= j < i && crate::checkpoint::counts(#[trigger] files@[j], facts@[j])
                && facts@[j].relative@ == facts@[i as int].relative@;
        assert(facts@[j].relative@ == facts@[i as int].relative@);
    }
}

/// The base of a checkpoint is that of its first file; without files it has none.
pub proof fn law_the_first_file_gives_the_base(
    files: Vec<CheckpointFile>,
    sha: String,
    r: Option<String>,
)
    requires
        call_ensures(checkpoint_base_commit, (&files,), r),
    ensures
        files@.len() == 0 <==> r is None,
        files@.len() > 0 && files@[0].base_commit == BaseCommit::Sha(sha) ==> r->0@ == sha@,
        files@.len() > 0 && files@[0].base_commit is Initial ==> r->0@ == "initial"@,
{
}

/// An absolute path stays as it is; any other lies in the worktree.
pub proof fn law_paths_lie_in_the_worktree(path: RepoPath, workdir: RepoPath, r: RepoPath, joined: RepoPath)
    requires
        call_ensures(absolute_path, (&path, &workdir), r),
        call_ensures(RepoPath::join, (&workdir, &path), joined),
    ensures
        path.absolute ==> r@ == path@ && r.text@ == path.text@,
        !path.absolute ==> r@ == joined@ && r.text@ == joined.text@,
{
}

/// A file of the worktree is named by its path below it, as the file system resolves both; a
/// file elsewhere by the path that was given.
pub proof fn law_files_are_named_below_the_worktree(
    path: &str,
    absolute: RepoPath,
    workdir: RepoPath,
    files: FileSnapshot,
    place: RepoPath,
    base: RepoPath,
    resolved: Option<RepoPath>,
    plain: Option<RepoPath>,
    r: String,
)
    requires
        call_ensures(relative_path, (path, &absolute, &workdir, &files), r),
        place@ == files.canonical_at(absolute@),
        place.text@ == files.canonical_text_at(absolute@, absolute.text@),
        base@ == files.canonical_at(workdir@),
        call_ensures(RepoPath::below, (&place, &base), resolved),
        call_ensures(RepoPath::below, (&absolute, &workdir), plain),
    ensures
        resolved is Some ==> r@ == crate::untraced_fixup_ignore::posix_of(resolved->0.text@),
        resolved is None && plain is Some ==> r@ == crate::untraced_fixup_ignore::posix_of(
            plain->0.text@,
        ),
        resolved is None && plain is None ==> r@ == crate::untraced_fixup_ignore::posix_of(
            trim_of(path@),
        ),
{
}

} // verus!
