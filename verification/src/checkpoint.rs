//! Checkpoints: how they are received, admitted, held back and resolved.
use crate::effects::{checkpoint_completion_entry, error_of, status_of, TestCompletionLogEntry};
use crate::keyed::{retained, KeyMap};
use crate::paths::{below_text, joined_text, path_below, path_join, RepoPath};
use crate::repo_state::FileSnapshot;
use crate::text::{contains_char, opt_view, str_eq, trim, trim_of, views};
use crate::untraced_fixup_ignore::{normalize_to_posix, posix_of};
use vstd::prelude::*;

verus! {

/// For how long an edit that an agent announced is waited for.
pub const PENDING_AI_EDIT_TIMEOUT_NS: u128 = 10_000_000_000;

/// Who made what a checkpoint records.
#[derive(Debug, Clone, Copy, PartialEq, Eq, Structural)]
pub enum CheckpointKind {
    Human,
    KnownHuman,
    AiAgent,
    AiTab,
}

impl CheckpointKind {
    /// Whether a machine made it.
    pub open spec fn ai(self) -> bool {
        self == CheckpointKind::AiAgent || self == CheckpointKind::AiTab
    }

    /// Whether a machine made it.
    pub fn is_ai(&self) -> (r: bool)
        ensures
            r == self.ai(),
    {
        *self == CheckpointKind::AiAgent || *self == CheckpointKind::AiTab
    }
}

/// Whether the files of a checkpoint were edited, or are about to be.
#[derive(Debug, Clone, Copy, PartialEq, Eq, Structural)]
pub enum PreparedPathRole {
    Edited,
    WillEdit,
}

/// The commit that a file is compared with.
#[derive(Debug)]
pub enum BaseCommit {
    Sha(String),
    Initial,
}

/// A file of a checkpoint.
#[derive(Debug)]
pub struct CheckpointFile {
    pub path: String,
    /// The path as the file system resolves it.
    pub canonical: String,
    pub repo_work_dir: String,
    pub base_commit: BaseCommit,
    pub content: Option<String>,
}

/// A checkpoint.
#[derive(Debug)]
pub struct CheckpointRequest {
    pub trace_id: String,
    pub checkpoint_kind: CheckpointKind,
    pub path_role: PreparedPathRole,
    /// The tool of the agent that made it.
    pub agent_tool: Option<String>,
    pub files: Vec<CheckpointFile>,
}

/// The edits that agents announced, by family and path, with the time of each.
pub struct PendingAiEdits {
    pub by_family: KeyMap<KeyMap<u128>>,
}

/// The edits with these paths announced now.
pub open spec fn announced(
    edits: Map<Seq<char>, u128>,
    paths: Seq<Seq<char>>,
    now_ns: u128,
) -> Map<Seq<char>, u128>
    decreases paths.len(),
{
    if paths.len() == 0 {
        edits
    } else {
        announced(edits, paths.drop_last(), now_ns).insert(paths.last(), now_ns)
    }
}

/// Whether an edit that was announced then is still waited for.
pub open spec fn still_pending(announced_at: u128, now_ns: u128) -> bool {
    now_ns < announced_at || now_ns - announced_at < PENDING_AI_EDIT_TIMEOUT_NS
}

/// The test for an edit that is still waited for.
pub open spec fn is_still_pending(now_ns: u128) -> spec_fn(u128) -> bool {
    |announced_at: u128| still_pending(announced_at, now_ns)
}

impl PendingAiEdits {
    /// The edits announced in a family.
    pub open spec fn edits(self, family: Seq<char>) -> Map<Seq<char>, u128> {
        if self.by_family@.contains_key(family) {
            self.by_family@[family]@
        } else {
            Map::empty()
        }
    }

    /// Whether an edit of a file is waited for.
    pub open spec fn pending(self, family: Seq<char>, path: Seq<char>, now_ns: u128) -> bool {
        self.edits(family).contains_key(path) && still_pending(self.edits(family)[path], now_ns)
    }

    /// Nothing is waited for.
    pub fn new() -> (r: PendingAiEdits)
        ensures
            r.by_family@ == Map::<Seq<char>, KeyMap<u128>>::empty(),
    {
        PendingAiEdits { by_family: KeyMap::new() }
    }

    /// Notes that these files are about to be edited.
    pub fn register_pending_ai_edits(&mut self, family: &str, paths: &Vec<String>, now_ns: u128)
        ensures
            final(self).edits(family@) == announced(
                old(self).edits(family@),
                views(paths@),
                now_ns,
            ),
            forall|other: Seq<char>|
                other != family@ ==> final(self).edits(other) == old(self).edits(other),
    {
        let ghost before = self.edits(family@);
        let ghost all = views(paths@);
        let taken = self.by_family.remove(family);
        let mut edits = match taken {
            Some(edits) => edits,
            None => KeyMap::new(),
        };
        let mut i: usize = 0;
        assert(all.take(0) =~= Seq::<Seq<char>>::empty());
        assert(edits@ =~= before);
        while i < paths.len()
            invariant
                i <= paths.len(),
                all == views(paths@),
                edits@ == announced(before, all.take(i as int), now_ns),
            decreases paths.len() - i,
        {
            assert(all.take(i + 1).drop_last() =~= all.take(i as int));
            assert(all.take(i + 1).last() == paths@[i as int]@);
            edits.insert(paths[i].clone(), now_ns);
            i += 1;
        }
        assert(all.take(all.len() as int) =~= all);
        self.by_family.insert(family.to_owned(), edits);
    }

    /// Notes that these files were edited.
    pub fn clear_pending_ai_edits(&mut self, family: &str, paths: &Vec<String>)
        ensures
            final(self).edits(family@) == old(self).edits(family@).remove_keys(
                views(paths@).to_set(),
            ),
            forall|other: Seq<char>|
                other != family@ ==> final(self).edits(other) == old(self).edits(other),
            final(self).by_family@.contains_key(family@) ==> final(self).edits(family@) != Map::<
                Seq<char>,
                u128,
            >::empty(),
    {
        match self.by_family.remove(family) {
            Some(mut edits) => {
                edits.remove_all(paths);
                if !edits.is_empty() {
                    self.by_family.insert(family.to_owned(), edits);
                }
            },
            None => {
                assert(old(self).edits(family@).remove_keys(views(paths@).to_set()) =~= Map::<
                    Seq<char>,
                    u128,
                >::empty());
            },
        }
    }

    /// Whether an edit of a file is waited for.
    pub fn file_has_pending_ai_edit(&self, family: &str, path: &str, now_ns: u128) -> (r: bool)
        ensures
            r == self.pending(family@, path@, now_ns),
    {
        match self.by_family.get(family) {
            Some(edits) => match edits.get(path) {
                Some(at) => now_ns.saturating_sub(*at) < PENDING_AI_EDIT_TIMEOUT_NS,
                None => false,
            },
            None => false,
        }
    }

    /// Forgets the edits that are no longer waited for.
    pub fn drop_expired(&mut self, now_ns: u128)
        ensures
            final(self).by_family@.dom().subset_of(old(self).by_family@.dom()),
            forall|family: Seq<char>| #[trigger]
                final(self).edits(family) == retained(
                    old(self).edits(family),
                    is_still_pending(now_ns),
                ),
            forall|family: Seq<char>| #[trigger]
                final(self).by_family@.contains_key(family) ==> old(self).by_family@.contains_key(
                    family,
                ) && final(self).edits(family) != Map::<Seq<char>, u128>::empty(),
    {
        let ghost before = self.by_family@;
        let ghost keys = self.by_family.keys();
        let mut names: Vec<String> = Vec::new();
        let n: usize = self.by_family.len();
        let mut i: usize = 0;
        while i < n
            invariant
                i <= n,
                n == keys.len(),
                keys == self.by_family.keys(),
                before == self.by_family@,
                names@.len() == i,
                forall|j: int| 0 <= j < i ==> (#[trigger] names@[j])@ == keys[j],
            decreases n - i,
        {
            names.push(self.by_family.key_at(i).clone());
            i += 1;
        }
        let mut next: KeyMap<KeyMap<u128>> = KeyMap::new();
        let mut k: usize = 0;
        assert forall|family: Seq<char>| #[trigger] before.contains_key(family) implies exists|j: int|
            0 <= j < n && keys[j] == family by {
            assert(keys.contains(family));
        }
        while k < n
            invariant
                k <= n,
                n == keys.len(),
                n == names@.len(),
                before == old(self).by_family@,
                keys.no_duplicates(),
                forall|j: int| 0 <= j < n ==> (#[trigger] names@[j])@ == keys[j],
                forall|family: Seq<char>| #[trigger]
                    before.contains_key(family) ==> exists|j: int| 0 <= j < n && keys[j] == family,
                forall|j: int| 0 <= j < n ==> before.contains_key(#[trigger] keys[j]),
                forall|j: int|
                    k <= j < n ==> self.by_family@.contains_key(#[trigger] keys[j])
                        && self.by_family@[keys[j]] == before[keys[j]],
                forall|j: int|
                    0 <= j < k ==> (if retained(
                        before[#[trigger] keys[j]]@,
                        is_still_pending(now_ns),
                    ) == Map::<Seq<char>, u128>::empty() {
                        !next@.contains_key(keys[j])
                    } else {
                        next@.contains_key(keys[j]) && next@[keys[j]]@ == retained(
                            before[keys[j]]@,
                            is_still_pending(now_ns),
                        )
                    }),
                forall|family: Seq<char>| #[trigger]
                    next@.contains_key(family) ==> exists|j: int| 0 <= j < k && keys[j] == family,
            decreases n - k,
        {
            let name = names[k].as_str();
            assert(name@ == keys[k as int]);
            if let Some(mut edits) = self.by_family.remove(name) {
                let ghost whole = edits@;
                let m: usize = edits.len();
                let mut keep: Vec<bool> = Vec::new();
                let mut e: usize = 0;
                while e < m
                    invariant
                        e <= m,
                        m == edits.keys().len(),
                        keep@.len() == e,
                        forall|j: int|
                            0 <= j < e ==> #[trigger] keep@[j] == is_still_pending(now_ns)(
                                edits@[edits.keys()[j]],
                            ),
                    decreases m - e,
                {
                    let at: u128 = *edits.value_at(e);
                    keep.push(now_ns.saturating_sub(at) < PENDING_AI_EDIT_TIMEOUT_NS);
                    e += 1;
                }
                edits.retain(&keep, Ghost(is_still_pending(now_ns)));
                assert(whole == before[keys[k as int]]@);
                if !edits.is_empty() {
                    next.insert(names[k].clone(), edits);
                }
            }
            k += 1;
        }
        let ghost rebuilt = next@;
        self.by_family = next;
        assert forall|family: Seq<char>| #[trigger] self.edits(family) == retained(
            old(self).edits(family),
            is_still_pending(now_ns),
        ) by {
            if before.contains_key(family) {
                let j = choose|j: int| 0 <= j < n && keys[j] == family;
                assert(keys[j] == family);
                if retained(before[keys[j]]@, is_still_pending(now_ns)) == Map::<
                    Seq<char>,
                    u128,
                >::empty() {
                    assert(!rebuilt.contains_key(keys[j]));
                }
            } else {
                if rebuilt.contains_key(family) {
                    let j = choose|j: int| 0 <= j < n && keys[j] == family;
                    assert(before.contains_key(keys[j]));
                }
                assert(retained(Map::<Seq<char>, u128>::empty(), is_still_pending(now_ns)) =~= Map::<
                    Seq<char>,
                    u128,
                >::empty());
            }
        }
        assert forall|family: Seq<char>| #[trigger]
            self.by_family@.contains_key(family) implies old(self).by_family@.contains_key(family)
            && self.edits(family) != Map::<Seq<char>, u128>::empty() by {
            let j = choose|j: int| 0 <= j < n && keys[j] == family;
            assert(before.contains_key(keys[j]));
        }
    }
}

/// An edit that was announced is waited for until its time is over or the
/// edit was made, and no longer.
pub proof fn law_an_announced_edit_expires(at: u128, now_ns: u128, later_ns: u128)
    requires
        now_ns <= later_ns,
        !still_pending(at, now_ns),
    ensures
        !still_pending(at, later_ns),
{
}

/// The paths of some files, as the file system resolves them.
pub open spec fn canonical_paths(files: Seq<CheckpointFile>) -> Seq<Seq<char>> {
    files.map_values(|f: CheckpointFile| f.canonical@)
}

/// The paths of some files.
pub open spec fn paths_of_files(files: Seq<CheckpointFile>) -> Seq<Seq<char>> {
    files.map_values(|f: CheckpointFile| f.path@)
}

/// The files whose edits are not waited for.
pub open spec fn unheld(
    files: Seq<CheckpointFile>,
    edits: PendingAiEdits,
    family: Seq<char>,
    now_ns: u128,
) -> Seq<CheckpointFile>
    decreases files.len(),
{
    if files.len() == 0 {
        Seq::empty()
    } else if edits.pending(family, files[0].canonical@, now_ns) {
        unheld(files.skip(1), edits, family, now_ns)
    } else {
        seq![files[0]] + unheld(files.skip(1), edits, family, now_ns)
    }
}

fn canonicals(files: &Vec<CheckpointFile>) -> (r: Vec<String>)
    ensures
        views(r@) == canonical_paths(files@),
{
    let mut out: Vec<String> = Vec::new();
    let mut i: usize = 0;
    while i < files.len()
        invariant
            i <= files.len(),
            out@.len() == i,
            forall|j: int| 0 <= j < i ==> (#[trigger] out@[j])@ == files@[j].canonical@,
        decreases files.len() - i,
    {
        out.push(files[i].canonical.clone());
        i += 1;
    }
    assert(views(out@) =~= canonical_paths(files@));
    out
}

fn file_paths(files: &Vec<CheckpointFile>) -> (r: Vec<String>)
    ensures
        views(r@) == paths_of_files(files@),
{
    let mut out: Vec<String> = Vec::new();
    let mut i: usize = 0;
    while i < files.len()
        invariant
            i <= files.len(),
            out@.len() == i,
            forall|j: int| 0 <= j < i ==> (#[trigger] out@[j])@ == files@[j].path@,
        decreases files.len() - i,
    {
        out.push(files[i].path.clone());
        i += 1;
    }
    assert(views(out@) =~= paths_of_files(files@));
    out
}

fn drop_held(files: Vec<CheckpointFile>, edits: &PendingAiEdits, family: &str, now_ns: u128) -> (r:
    Vec<CheckpointFile>)
    ensures
        r@ == unheld(files@, *edits, family@, now_ns),
{
    let ghost all = files@;
    let mut rest = files;
    let mut kept: Vec<CheckpointFile> = Vec::new();
    assert(kept@ + unheld(all, *edits, family@, now_ns) =~= unheld(all, *edits, family@, now_ns));
    while rest.len() > 0
        invariant
            unheld(all, *edits, family@, now_ns) == kept@ + unheld(
                rest@,
                *edits,
                family@,
                now_ns,
            ),
        decreases rest@.len(),
    {
        let ghost before = rest@;
        let ghost was = kept@;
        let file = rest.remove(0);
        assert(rest@ =~= before.skip(1));
        let held = edits.file_has_pending_ai_edit(family, file.canonical.as_str(), now_ns);
        if !held {
            kept.push(file);
            assert(was + (seq![before[0]] + unheld(rest@, *edits, family@, now_ns)) =~= kept@
                + unheld(rest@, *edits, family@, now_ns));
        }
    }
    assert(kept@ + Seq::<CheckpointFile>::empty() =~= kept@);
    kept
}

/// The edits that are waited for once a checkpoint came up.
pub open spec fn edits_at_start(
    edits: Map<Seq<char>, u128>,
    request: CheckpointRequest,
    now_ns: u128,
) -> Map<Seq<char>, u128> {
    if request.path_role == PreparedPathRole::WillEdit && request.agent_tool is Some {
        announced(edits, canonical_paths(request.files@), now_ns)
    } else {
        edits
    }
}

/// Takes a checkpoint up. An agent that is about to edit is noted. From what a
/// human is known to have saved the files that an agent is just editing are left
/// out; when none is left, the checkpoint is held back and nothing is returned.
pub fn begin_checkpoint(
    edits: &mut PendingAiEdits,
    family: &str,
    request: CheckpointRequest,
    now_ns: u128,
) -> (r: Option<CheckpointRequest>)
    ensures
        final(edits).edits(family@) == edits_at_start(old(edits).edits(family@), request, now_ns),
        forall|other: Seq<char>|
            other != family@ ==> final(edits).edits(other) == old(edits).edits(other),
        ({
            let left = unheld(request.files@, *final(edits), family@, now_ns);
            let filtered = request.checkpoint_kind == CheckpointKind::KnownHuman;
            &&& r is None <==> filtered && left.len() == 0 && request.files@.len() > 0
            &&& r is Some ==> {
                &&& (r->0).files@ == if filtered {
                    left
                } else {
                    request.files@
                }
                &&& (r->0).trace_id == request.trace_id
                &&& (r->0).checkpoint_kind == request.checkpoint_kind
                &&& (r->0).path_role == request.path_role
                &&& (r->0).agent_tool == request.agent_tool
            }
        }),
{
    let mut request = request;
    if request.path_role == PreparedPathRole::WillEdit && request.agent_tool.is_some() {
        let paths = canonicals(&request.files);
        edits.register_pending_ai_edits(family, &paths, now_ns);
    }
    if request.checkpoint_kind == CheckpointKind::KnownHuman {
        let had: usize = request.files.len();
        let mut files: Vec<CheckpointFile> = Vec::new();
        std::mem::swap(&mut files, &mut request.files);
        let kept = drop_held(files, edits, family, now_ns);
        if kept.len() == 0 && had > 0 {
            return None;
        }
        request.files = kept;
    }
    Some(request)
}

/// What is done once a checkpoint was recorded, or was not.
#[derive(Debug)]
pub struct CheckpointFinish {
    /// The files whose times are taken as seen.
    pub watermark_paths: Vec<String>,
    /// Whether the whole worktree is taken as seen now.
    pub watermark_worktree: bool,
    /// What failed.
    pub error: Option<String>,
    pub log_entry: TestCompletionLogEntry,
}

/// Finishes a checkpoint: an agent's edit that was recorded is no longer waited
/// for, and what was recorded is taken as seen, with a human's the whole worktree.
pub fn finish_checkpoint(
    edits: &mut PendingAiEdits,
    family: &str,
    kind: CheckpointKind,
    path_role: PreparedPathRole,
    files: &Vec<CheckpointFile>,
    result: Result<u64, String>,
) -> (r: CheckpointFinish)
    ensures
        final(edits).edits(family@) == if result is Ok && kind.ai() && path_role
            == PreparedPathRole::Edited {
            old(edits).edits(family@).remove_keys(canonical_paths(files@).to_set())
        } else {
            old(edits).edits(family@)
        },
        forall|other: Seq<char>|
            other != family@ ==> final(edits).edits(other) == old(edits).edits(other),
        views(r.watermark_paths@) == if result is Ok {
            paths_of_files(files@)
        } else {
            Seq::empty()
        },
        r.watermark_worktree == (result is Ok && kind == CheckpointKind::Human),
        opt_view(r.error) == error_of(result),
        r.log_entry.seq == (match result {
            Ok(seq) => seq,
            Err(_) => 0,
        }),
        r.log_entry.family_key@ == family@,
        r.log_entry.kind@ == "checkpoint"@,
        opt_view(r.log_entry.primary_command) == Some("checkpoint"@),
        r.log_entry.test_sync_session is None,
        r.log_entry.exit_code is None,
        r.log_entry.sync_tracked,
        r.log_entry.status@ == status_of(result),
        opt_view(r.log_entry.error) == error_of(result),
{
    let mut watermark_paths: Vec<String> = Vec::new();
    assert(views(watermark_paths@) =~= Seq::<Seq<char>>::empty());
    let mut watermark_worktree = false;
    let mut error = None;
    match &result {
        Ok(_) => {
            if kind.is_ai() && path_role == PreparedPathRole::Edited {
                let paths = canonicals(files);
                edits.clear_pending_ai_edits(family, &paths);
            }
            watermark_paths = file_paths(files);
            watermark_worktree = kind == CheckpointKind::Human;
        },
        Err(e) => {
            error = Some(e.clone());
        },
    }
    let outcome = Some(result);
    let log_entry = checkpoint_completion_entry(family, &outcome);
    CheckpointFinish { watermark_paths, watermark_worktree, error, log_entry }
}

/// An agent that announced its edits and then recorded them leaves nothing waited for.
pub proof fn law_recorded_edits_are_not_waited_for(
    edits: Map<Seq<char>, u128>,
    paths: Seq<Seq<char>>,
    now_ns: u128,
    path: Seq<char>,
)
    requires
        paths.contains(path),
    ensures
        announced(edits, paths, now_ns).contains_key(path),
        !announced(edits, paths, now_ns).remove_keys(paths.to_set()).contains_key(path),
{
    lemma_announced(edits, paths, now_ns, path);
}

proof fn lemma_announced(
    edits: Map<Seq<char>, u128>,
    paths: Seq<Seq<char>>,
    now_ns: u128,
    path: Seq<char>,
)
    requires
        paths.contains(path),
    ensures
        announced(edits, paths, now_ns).contains_key(path),
        announced(edits, paths, now_ns)[path] == now_ns,
    decreases paths.len(),
{
    if paths.last() != path {
        let i = choose|i: int| 0 <= i < paths.len() && paths[i] == path;
        assert(paths.drop_last()[i] == path);
        lemma_announced(edits, paths.drop_last(), now_ns, path);
    }
}

/// While an agent's edit is waited for, what a human is known to have saved of
/// that file is not recorded.
pub proof fn law_a_save_during_an_edit_is_left_out(
    files: Seq<CheckpointFile>,
    edits: PendingAiEdits,
    family: Seq<char>,
    now_ns: u128,
    i: int,
)
    requires
        0 <= i < unheld(files, edits, family, now_ns).len(),
    ensures
        !edits.pending(family, unheld(files, edits, family, now_ns)[i].canonical@, now_ns),
    decreases files.len(),
{
    if files.len() > 0 {
        let rest = unheld(files.skip(1), edits, family, now_ns);
        if edits.pending(family, files[0].canonical@, now_ns) {
            law_a_save_during_an_edit_is_left_out(files.skip(1), edits, family, now_ns, i);
        } else if i > 0 {
            law_a_save_during_an_edit_is_left_out(files.skip(1), edits, family, now_ns, i - 1);
        }
    }
}

/// Why a checkpoint's body is refused.
#[derive(Debug, Clone, Copy, PartialEq, Eq, Structural)]
pub enum CheckpointBodyError {
    /// The peer went away within the body.
    Truncated,
    /// The peer went away before the delimiter.
    MissingDelimiter,
    /// Something else stood where the delimiter should.
    WrongDelimiter,
}

/// A checkpoint's body in what was received.
pub open spec fn body_in(received: Seq<u8>, body_bytes: nat) -> Result<
    Seq<u8>,
    CheckpointBodyError,
> {
    if received.len() < body_bytes {
        Err(CheckpointBodyError::Truncated)
    } else if received.len() == body_bytes {
        Err(CheckpointBodyError::MissingDelimiter)
    } else if received[body_bytes as int] != 10u8 {
        Err(CheckpointBodyError::WrongDelimiter)
    } else {
        Ok(received.take(body_bytes as int))
    }
}

/// Takes a checkpoint's body from what was received: just as many bytes as were
/// announced, followed by a newline.
pub fn checkpoint_body(received: &Vec<u8>, body_bytes: usize) -> (r: Result<
    Vec<u8>,
    CheckpointBodyError,
>)
    ensures
        match r {
            Ok(body) => body_in(received@, body_bytes as nat) == Ok::<
                Seq<u8>,
                CheckpointBodyError,
            >(body@),
            Err(error) => body_in(received@, body_bytes as nat) == Err::<
                Seq<u8>,
                CheckpointBodyError,
            >(error),
        },
{
    if received.len() < body_bytes {
        return Err(CheckpointBodyError::Truncated);
    }
    if received.len() == body_bytes {
        return Err(CheckpointBodyError::MissingDelimiter);
    }
    if received[body_bytes] != 10u8 {
        return Err(CheckpointBodyError::WrongDelimiter);
    }
    let mut body: Vec<u8> = Vec::new();
    let mut i: usize = 0;
    while i < body_bytes
        invariant
            i <= body_bytes,
            body_bytes < received.len(),
            body@ =~= received@.take(i as int),
        decreases body_bytes - i,
    {
        body.push(received[i]);
        i += 1;
    }
    Ok(body)
}

/// A body that was sent with its delimiter is read back whole, whatever comes behind it.
pub proof fn law_framed_bodies_are_read_back(body: Seq<u8>, behind: Seq<u8>)
    ensures
        body_in(body.push(10u8) + behind, body.len()) == Ok::<Seq<u8>, CheckpointBodyError>(body),
{
    assert((body.push(10u8) + behind).take(body.len() as int) =~= body);
}

/// The counting of accepted checkpoints.
#[derive(Debug, Clone, Copy, PartialEq, Eq, Structural)]
pub struct CheckpointGate {
    pub accepting: bool,
    /// The number of the last checkpoint that was accepted.
    pub next_receipt_seq: u64,
    /// The number of the last checkpoint that was admitted or given up.
    pub processed_receipt_seq: u64,
    /// How many accepted checkpoints were not yet admitted or given up.
    pub unadmitted: u64,
}

impl CheckpointGate {
    /// Open, with nothing accepted.
    pub fn new() -> (r: CheckpointGate)
        ensures
            r == (CheckpointGate {
                accepting: true,
                next_receipt_seq: 0,
                processed_receipt_seq: 0,
                unadmitted: 0,
            }),
    {
        CheckpointGate {
            accepting: true,
            next_receipt_seq: 0,
            processed_receipt_seq: 0,
            unadmitted: 0,
        }
    }

    /// One whose intake is closed.
    pub open spec fn closed(self) -> CheckpointGate {
        CheckpointGate { accepting: false, ..self }
    }

    /// Once a checkpoint was accepted.
    pub open spec fn accepted(self) -> CheckpointGate {
        CheckpointGate {
            next_receipt_seq: (self.next_receipt_seq + 1) as u64,
            unadmitted: (self.unadmitted + 1) as u64,
            ..self
        }
    }

    /// Once a checkpoint was admitted or given up.
    pub open spec fn admitted(self, receipt_seq: u64) -> CheckpointGate {
        CheckpointGate {
            processed_receipt_seq: receipt_seq,
            unadmitted: if self.unadmitted == 0 {
                0
            } else {
                (self.unadmitted - 1) as u64
            },
            ..self
        }
    }

    /// Whether the numbers agree: what was accepted was admitted, or is counted.
    pub open spec fn agrees(self) -> bool {
        self.processed_receipt_seq + self.unadmitted == self.next_receipt_seq
    }

    /// Opens or closes the intake.
    pub fn set_checkpoint_acceptance(&mut self, accepting: bool)
        ensures
            *final(self) == (CheckpointGate { accepting, ..*old(self) }),
    {
        self.accepting = accepting;
    }

    /// Accepts a checkpoint and numbers it; a closed intake accepts none.
    pub fn accept(&mut self) -> (r: Option<u64>)
        requires
            old(self).next_receipt_seq < u64::MAX,
            old(self).unadmitted < u64::MAX,
        ensures
            r is Some <==> old(self).accepting,
            r is Some ==> r->0 == final(self).next_receipt_seq && *final(self) == old(
                self,
            ).accepted(),
            r is None ==> *final(self) == *old(self),
    {
        if !self.accepting {
            return None;
        }
        self.next_receipt_seq = self.next_receipt_seq + 1;
        self.unadmitted = self.unadmitted + 1;
        Some(self.next_receipt_seq)
    }

    /// Notes that a checkpoint was admitted or given up; says whether all families
    /// are to be drained now.
    pub fn complete_checkpoint_admission(&mut self, receipt_seq: u64) -> (r: bool)
        ensures
            *final(self) == old(self).admitted(receipt_seq),
            r == (final(self).unadmitted == 0),
    {
        self.processed_receipt_seq = receipt_seq;
        self.unadmitted = self.unadmitted.saturating_sub(1);
        self.unadmitted == 0
    }

    /// Whether everything accepted up to a checkpoint was admitted or given up.
    pub fn admitted_through(&self, target: u64) -> (r: bool)
        ensures
            r == (self.processed_receipt_seq >= target),
    {
        self.processed_receipt_seq >= target
    }
}

/// Where checkpoints are admitted in the order in which they were accepted, the numbers
/// keep agreeing, and everything that was accepted is admitted just when none is counted
/// any more.
pub proof fn law_admissions_keep_count(gate: CheckpointGate)
    requires
        gate.agrees(),
        gate.next_receipt_seq < u64::MAX,
    ensures
        gate.accepted().agrees(),
        gate.closed().agrees(),
        gate.unadmitted > 0 ==> gate.admitted((gate.processed_receipt_seq + 1) as u64).agrees(),
        gate.processed_receipt_seq >= gate.next_receipt_seq <==> gate.unadmitted == 0,
{
}

/// The path of a checkpoint's file below the worktree, in the form with slashes:
/// below the resolved worktree, else below the worktree as given, else the path itself.
pub open spec fn relative_path_of(
    path: Seq<char>,
    absolute: RepoPath,
    workdir: RepoPath,
    files: FileSnapshot,
) -> Seq<char> {
    let place = files.canonical_at(absolute@);
    let base = files.canonical_at(workdir@);
    posix_of(
        if path_below(place, base) is Some {
            below_text(
                files.canonical_text_at(absolute@, absolute.text@),
                base.0,
                base.1.len(),
            )
        } else if path_below(absolute@, workdir@) is Some {
            below_text(absolute.text@, workdir@.0, workdir@.1.len())
        } else {
            trim_of(path)
        },
    )
}

/// A checkpoint's file as an absolute path.
pub fn absolute_path(path: &RepoPath, workdir: &RepoPath) -> (r: RepoPath)
    ensures
        r@ == (if path@.0 {
            path@
        } else {
            path_join(workdir@, path@)
        }),
        r.text@ == joined_text(workdir.text@, path.text@, path@.0),
{
    if path.is_absolute() {
        path.copy()
    } else {
        workdir.join(path)
    }
}

/// The path of a checkpoint's file below the worktree.
pub fn relative_path(path: &str, absolute: &RepoPath, workdir: &RepoPath, files: &FileSnapshot) -> (r:
    String)
    ensures
        r@ == relative_path_of(path@, *absolute, *workdir, *files),
{
    if let Some(below) = files.canonicalize(absolute).below(&files.canonicalize(workdir)) {
        return normalize_to_posix(below.to_text().as_str());
    }
    if let Some(below) = absolute.below(workdir) {
        return normalize_to_posix(below.to_text().as_str());
    }
    normalize_to_posix(trim(path).as_str())
}

/// What is known of one file of a checkpoint.
#[derive(Debug)]
pub struct FileFacts {
    /// Whether it lies in the worktree.
    pub in_workdir: bool,
    /// Its path below the worktree.
    pub relative: String,
    /// Whether the user has it ignored.
    pub ignored: bool,
}

/// Whether a file counts at all: it is named, and lies in the worktree.
pub open spec fn counts(file: CheckpointFile, facts: FileFacts) -> bool {
    trim_of(file.path@).len() > 0 && facts.in_workdir
}

/// Whether a file stands earlier under the same path.
pub open spec fn stands_earlier(
    files: Seq<CheckpointFile>,
    facts: Seq<FileFacts>,
    i: int,
) -> bool {
    exists|j: int|
        0 <= j < i && counts(#[trigger] files[j], facts[j]) && facts[j].relative@
            == facts[i].relative@
}

/// Whether a file's content is text.
pub open spec fn holds_text(file: CheckpointFile) -> bool {
    file.content is Some && !(file.content->0)@.contains('\0')
}

/// Whether a file of a checkpoint is recorded, as far as there is room for it.
pub open spec fn is_candidate(files: Seq<CheckpointFile>, facts: Seq<FileFacts>, i: int) -> bool {
    counts(files[i], facts[i]) && !stands_earlier(files, facts, i) && !facts[i].ignored
        && holds_text(files[i])
}

/// The places of the files among the first `n` that are recorded.
pub open spec fn candidates_among(
    files: Seq<CheckpointFile>,
    facts: Seq<FileFacts>,
    n: nat,
) -> Seq<usize>
    decreases n,
{
    if n == 0 {
        Seq::empty()
    } else {
        let before = candidates_among(files, facts, (n - 1) as nat);
        if is_candidate(files, facts, n - 1) {
            before.push((n - 1) as usize)
        } else {
            before
        }
    }
}

fn is_counted(file: &CheckpointFile, facts: &FileFacts) -> (r: bool)
    ensures
        r == counts(*file, *facts),
{
    let name = trim(file.path.as_str());
    name.as_str().unicode_len() > 0 && facts.in_workdir
}

fn is_standing_earlier(files: &Vec<CheckpointFile>, facts: &Vec<FileFacts>, i: usize) -> (r: bool)
    requires
        i < files@.len(),
        files@.len() == facts@.len(),
    ensures
        r == stands_earlier(files@, facts@, i as int),
{
    let mut j: usize = 0;
    while j < i
        invariant
            j <= i < files@.len(),
            files@.len() == facts@.len(),
            forall|k: int|
                0 <= k < j ==> !(counts(#[trigger] files@[k], facts@[k]) && facts@[k].relative@
                    == facts@[i as int].relative@),
        decreases i - j,
    {
        if is_counted(&files[j], &facts[j]) && str_eq(
            facts[j].relative.as_str(),
            facts[i].relative.as_str(),
        ) {
            assert(counts(files@[j as int], facts@[j as int]));
            return true;
        }
        j += 1;
    }
    false
}

/// The files of a checkpoint that are recorded, in order, as far as there is
/// room for them: those that are named, lie in the worktree, stand under a path
/// for the first time, are not ignored, and hold text.
pub fn checkpoint_candidates(files: &Vec<CheckpointFile>, facts: &Vec<FileFacts>) -> (r: Vec<usize>)
    requires
        files@.len() == facts@.len(),
    ensures
        r@ == candidates_among(files@, facts@, files@.len()),
{
    let mut out: Vec<usize> = Vec::new();
    let mut i: usize = 0;
    while i < files.len()
        invariant
            i <= files.len(),
            files@.len() == facts@.len(),
            out@ == candidates_among(files@, facts@, i as nat),
        decreases files.len() - i,
    {
        let text = match &files[i].content {
            Some(content) => !contains_char(content.as_str(), '\0'),
            None => false,
        };
        if is_counted(&files[i], &facts[i]) && !is_standing_earlier(files, facts, i)
            && !facts[i].ignored && text {
            out.push(i);
        }
        i += 1;
    }
    out
}

/// The name of the commit that a checkpoint is compared with: that of its first file.
pub fn checkpoint_base_commit(files: &Vec<CheckpointFile>) -> (r: Option<String>)
    ensures
        opt_view(r) == (if files@.len() == 0 {
            None
        } else {
            Some(
                match files@[0].base_commit {
                    BaseCommit::Sha(sha) => sha@,
                    BaseCommit::Initial => "initial"@,
                },
            )
        }),
{
    if files.len() == 0 {
        return None;
    }
    match &files[0].base_commit {
        BaseCommit::Sha(sha) => Some(sha.clone()),
        BaseCommit::Initial => Some("initial".to_owned()),
    }
}

/// No two files that are recorded stand under the same path.
pub proof fn law_recorded_paths_are_distinct(
    files: Seq<CheckpointFile>,
    facts: Seq<FileFacts>,
    i: int,
    j: int,
)
    requires
        files.len() == facts.len(),
        0 <= i < j < files.len(),
        is_candidate(files, facts, i),
        is_candidate(files, facts, j),
    ensures
        facts[i].relative@ != facts[j].relative@,
{
    assert(counts(files[i], facts[i]));
}

} // verus!
