//! What is known of every git process whose trace is being read.
use crate::keyed::KeyMap;
use crate::paths::{opt_path_view, PathModel, RepoPath};
use crate::text::{clone_opt, clone_strings, opt_view, str_eq, views};
use crate::trace::{
    makes_its_repo, payload_primary_of, primary_of, root_sid_of, text_or_empty, time_ns_of,
    trace_argv_primary_command, trace_command_uses_target_repo_context_only,
    trace_payload_primary_command, trace_payload_time_ns, trace_root_sid, TracePayload,
};
use vstd::prelude::*;

verus! {

/// What is known of one root: the process that a trace started with.
#[derive(Debug)]
pub struct RootRecord {
    pub worktree: Option<RepoPath>,
    pub family: Option<String>,
    pub argv: Option<Vec<String>>,
    pub started_at_ns: Option<u128>,
    pub reflog_start_offsets: Option<Vec<(String, u64)>>,
    pub mutating: Option<bool>,
    pub target_repo_only: Option<bool>,
    pub last_activity_ns: Option<u64>,
    pub definitely_read_only: bool,
    pub open_connections: Option<usize>,
    pub close_marker_enqueued: bool,
    pub finishing: bool,
    pub release_logged: bool,
}

/// A root as its logic sees it.
pub struct RootModel {
    pub worktree: Option<PathModel>,
    pub family: Option<Seq<char>>,
    pub argv: Option<Seq<Seq<char>>>,
    pub started_at_ns: Option<u128>,
    pub reflog_start_offsets: Option<Seq<(Seq<char>, u64)>>,
    pub mutating: Option<bool>,
    pub target_repo_only: Option<bool>,
    pub last_activity_ns: Option<u64>,
    pub definitely_read_only: bool,
    pub open_connections: Option<usize>,
    pub close_marker_enqueued: bool,
    pub finishing: bool,
    pub release_logged: bool,
}

/// A root of which nothing is known.
pub open spec fn blank() -> RootModel {
    RootModel {
        worktree: None,
        family: None,
        argv: None,
        started_at_ns: None,
        reflog_start_offsets: None,
        mutating: None,
        target_repo_only: None,
        last_activity_ns: None,
        definitely_read_only: false,
        open_connections: None,
        close_marker_enqueued: false,
        finishing: false,
        release_logged: false,
    }
}

/// Offsets as plain values.
pub open spec fn offsets_view(v: Seq<(String, u64)>) -> Seq<(Seq<char>, u64)> {
    v.map_values(|e: (String, u64)| (e.0@, e.1))
}

/// Optional offsets as plain values.
pub open spec fn opt_offsets_view(o: Option<Vec<(String, u64)>>) -> Option<Seq<(Seq<char>, u64)>> {
    match o {
        Some(v) => Some(offsets_view(v@)),
        None => None,
    }
}

impl View for RootRecord {
    type V = RootModel;

    open spec fn view(&self) -> RootModel {
        RootModel {
            worktree: match self.worktree {
                Some(w) => Some(w@),
                None => None,
            },
            family: opt_view(self.family),
            argv: match self.argv {
                Some(argv) => Some(views(argv@)),
                None => None,
            },
            started_at_ns: self.started_at_ns,
            reflog_start_offsets: opt_offsets_view(self.reflog_start_offsets),
            mutating: self.mutating,
            target_repo_only: self.target_repo_only,
            last_activity_ns: self.last_activity_ns,
            definitely_read_only: self.definitely_read_only,
            open_connections: self.open_connections,
            close_marker_enqueued: self.close_marker_enqueued,
            finishing: self.finishing,
            release_logged: self.release_logged,
        }
    }
}

/// A copy of a list of offsets.
pub fn clone_offsets(v: &Vec<(String, u64)>) -> (r: Vec<(String, u64)>)
    ensures
        offsets_view(r@) == offsets_view(v@),
{
    let mut out: Vec<(String, u64)> = Vec::new();
    let mut i: usize = 0;
    assert(offsets_view(out@) =~= offsets_view(v@).take(0));
    while i < v.len()
        invariant
            i <= v.len(),
            offsets_view(out@) == offsets_view(v@).take(i as int),
        decreases v.len() - i,
    {
        let ghost before = offsets_view(out@);
        out.push((v[i].0.clone(), v[i].1));
        assert(offsets_view(out@) =~= before.push(offsets_view(v@)[i as int]));
        assert(offsets_view(out@) =~= offsets_view(v@).take(i + 1));
        i += 1;
    }
    assert(offsets_view(v@).take(v@.len() as int) =~= offsets_view(v@));
    out
}

/// What is known of every root, and how many connections have not said yet whose they are.
pub struct TraceIngressState {
    pub roots: KeyMap<RootRecord>,
    pub unidentified_open_connections: usize,
}

/// Which families a root fenced.
#[derive(Debug, PartialEq, Eq)]
pub enum FenceScope {
    Family(String),
    /// The root was never attributed to a family, so it fenced every one.
    EveryFamily,
}

/// Whether a root could still change refs that matter to `family` (to any
/// family, for `None`): it is open, not known to be read-only, mutating or not
/// classified yet, and attributed to `family` or to none yet.
pub open spec fn may_mutate(root: RootModel, family: Option<Seq<char>>) -> bool {
    &&& root.open_connections is Some
    &&& root.open_connections->0 > 0
    &&& !root.definitely_read_only
    &&& root.mutating != Some(false)
    &&& family is None || root.family is None || root.family == family
}

/// Whether a root that closes without its last frame is cleared by the ingest
/// worker and not at once.
pub open spec fn needs_close_marker(root: RootModel) -> bool {
    may_mutate(root, None) || root.reflog_start_offsets is Some
}

/// What a root fences.
pub open spec fn fenced_by(root: RootModel) -> Option<Option<Seq<char>>> {
    if may_mutate(root, None) {
        Some(root.family)
    } else {
        None
    }
}

/// A fence scope as a plain value: one family, or every one.
pub open spec fn scope_view(scope: Option<FenceScope>) -> Option<Option<Seq<char>>> {
    match scope {
        Some(FenceScope::Family(family)) => Some(Some(family@)),
        Some(FenceScope::EveryFamily) => Some(None),
        None => None,
    }
}

/// A root whose connection was closed once, and whether that calls for a close marker.
pub open spec fn closed(root: RootModel) -> (RootModel, bool) {
    if root.open_connections is Some && root.open_connections->0 > 1 {
        (
            RootModel {
                open_connections: Some((root.open_connections->0 - 1) as usize),
                ..root
            },
            false,
        )
    } else if root.finishing {
        (root, false)
    } else if !needs_close_marker(root) {
        (blank(), false)
    } else if root.close_marker_enqueued {
        (root, false)
    } else {
        (RootModel { close_marker_enqueued: true, ..root }, true)
    }
}

/// The roots after the listed ones were closed in turn.
pub open spec fn closed_all(
    model: Map<Seq<char>, RootModel>,
    list: Seq<Seq<char>>,
) -> Map<Seq<char>, RootModel>
    decreases list.len(),
{
    if list.len() == 0 {
        model
    } else {
        let before = closed_all(model, list.drop_last());
        before.insert(list.last(), closed(before[list.last()]).0)
    }
}

/// The roots for which closing the listed ones calls for a close marker.
pub open spec fn close_markers(
    model: Map<Seq<char>, RootModel>,
    list: Seq<Seq<char>>,
) -> Seq<Seq<char>>
    decreases list.len(),
{
    if list.len() == 0 {
        Seq::empty()
    } else {
        let before = close_markers(model, list.drop_last());
        if closed(closed_all(model, list.drop_last())[list.last()]).1 {
            before.push(list.last())
        } else {
            before
        }
    }
}

/// What was found out about a frame outside the daemon's state.
#[derive(Debug)]
pub struct FrameFacts {
    /// Whether the frame's own command is guaranteed to change nothing.
    pub definitely_read_only: bool,
    /// Whether the command that the frame belongs to may change refs.
    pub may_mutate_refs: bool,
    /// The family of the worktree that the frame points at.
    pub resolved_family: Option<String>,
}

/// What is carried from the first look at a frame to the second, between which
/// the reflogs of the root's worktree may be read.
pub struct TrackedFrame {
    pub root: String,
    pub event_is_read_only: bool,
    pub terminal: bool,
    /// The worktree whose reflog lengths are wanted.
    pub capture: Option<RepoPath>,
}

/// The session id of a frame's root, if the frame has a session.
pub open spec fn frame_root(payload: TracePayload) -> Seq<char> {
    root_sid_of(text_or_empty(opt_view(payload.sid)))
}

/// Whether a frame was written by its root itself, and not by a process that it started.
pub open spec fn is_own_frame(payload: TracePayload) -> bool {
    text_or_empty(opt_view(payload.sid)) == frame_root(payload)
}

/// Whether a frame is its root's first.
pub open spec fn is_start_frame(payload: TracePayload) -> bool {
    is_own_frame(payload) && text_or_empty(opt_view(payload.event)) == "start"@
}

/// Whether a frame is its root's last.
pub open spec fn is_last_frame(payload: TracePayload) -> bool {
    is_own_frame(payload) && text_or_empty(opt_view(payload.event)) == "atexit"@
}

/// The command line that a frame belongs to: its own, or its root's.
pub open spec fn effective_argv(root: RootModel, payload: TracePayload) -> Seq<Seq<char>> {
    if payload.argv@.len() > 0 {
        views(payload.argv@)
    } else {
        match root.argv {
            Some(argv) => argv,
            None => Seq::empty(),
        }
    }
}

/// The command that a frame belongs to.
pub open spec fn effective_primary(root: RootModel, payload: TracePayload) -> Option<Seq<char>> {
    match payload_primary_of(payload) {
        Some(name) => Some(name),
        None => primary_of(effective_argv(root, payload)),
    }
}

/// Whether a frame's own command is read-only, given what was found out about it.
pub open spec fn read_only_frame(payload: TracePayload, facts: FrameFacts) -> bool {
    payload_primary_of(payload) is Some && facts.definitely_read_only
}

/// Whether the command that a frame belongs to may change refs.
pub open spec fn mutating_frame(
    root: RootModel,
    payload: TracePayload,
    facts: FrameFacts,
) -> bool {
    effective_primary(root, payload) is Some && facts.may_mutate_refs
}

/// A root after the first look at one of its frames. Only its own frames say
/// anything of its family, its worktree and its command, and only the first
/// classification counts.
pub open spec fn after_frame(
    root: RootModel,
    payload: TracePayload,
    hint: Option<PathModel>,
    facts: FrameFacts,
    now_ns: u128,
) -> RootModel {
    let own = is_own_frame(payload);
    let start = is_start_frame(payload);
    let has_argv = payload.argv@.len() > 0;
    let primary = effective_primary(root, payload);
    RootModel {
        last_activity_ns: Some(now_ns as u64),
        started_at_ns: if start && root.started_at_ns is None {
            match time_ns_of(payload) {
                Some(time) => Some(time),
                None => Some(now_ns),
            }
        } else {
            root.started_at_ns
        },
        family: if own && hint is Some && facts.resolved_family is Some {
            opt_view(facts.resolved_family)
        } else {
            root.family
        },
        worktree: if own && hint is Some {
            hint
        } else {
            root.worktree
        },
        argv: if start && has_argv {
            Some(views(payload.argv@))
        } else {
            root.argv
        },
        definitely_read_only: root.definitely_read_only || (start && has_argv && read_only_frame(
            payload,
            facts,
        )),
        mutating: if own && primary is Some && root.mutating is None {
            Some(mutating_frame(root, payload, facts))
        } else {
            root.mutating
        },
        target_repo_only: if own && primary is Some && root.target_repo_only is None {
            Some(makes_its_repo(primary))
        } else {
            root.target_repo_only
        },
        ..root
    }
}

/// The worktree whose reflog lengths are wanted after the first look at a frame.
pub open spec fn wanted_capture(
    root: RootModel,
    payload: TracePayload,
    hint: Option<PathModel>,
    facts: FrameFacts,
    now_ns: u128,
) -> Option<PathModel> {
    if is_own_frame(payload) && mutating_frame(root, payload, facts) && !is_last_frame(payload)
        && !root.finishing && root.reflog_start_offsets is None {
        match hint {
            Some(worktree) => Some(worktree),
            None => root.worktree,
        }
    } else {
        None
    }
}

/// A root with reflog lengths that were read for it: the first ones count, and
/// a root that has meanwhile ended keeps none.
pub open spec fn with_capture(
    root: RootModel,
    captured: Option<Seq<(Seq<char>, u64)>>,
) -> RootModel {
    if captured is Some && root.last_activity_ns is Some && root.reflog_start_offsets is None {
        RootModel { reflog_start_offsets: captured, ..root }
    } else {
        root
    }
}

/// Whether a root is known to be read-only after the second look at a frame.
pub open spec fn read_only_root(root: RootModel, event_is_read_only: bool) -> bool {
    event_is_read_only || root.definitely_read_only
}

/// A root after the second look at one of its frames.
pub open spec fn settled(root: RootModel, event_is_read_only: bool, terminal: bool) -> RootModel {
    if terminal {
        RootModel {
            finishing: root.finishing || !read_only_root(root, event_is_read_only),
            worktree: None,
            reflog_start_offsets: None,
            target_repo_only: None,
            last_activity_ns: None,
            definitely_read_only: false,
            ..root
        }
    } else {
        root
    }
}

impl TraceIngressState {
    /// What is known of a root.
    pub open spec fn root(self, sid: Seq<char>) -> RootModel {
        if self.roots@.contains_key(sid) {
            self.roots@[sid]@
        } else {
            blank()
        }
    }

    /// What is known of every root.
    pub open spec fn model(self) -> Map<Seq<char>, RootModel> {
        Map::new(|sid: Seq<char>| true, |sid: Seq<char>| self.root(sid))
    }

    /// Nothing is known of any root.
    pub fn new() -> (r: TraceIngressState)
        ensures
            r.roots@ == Map::<Seq<char>, RootRecord>::empty(),
            forall|sid: Seq<char>| r.root(sid) == blank(),
            r.unidentified_open_connections == 0,
    {
        TraceIngressState { roots: KeyMap::new(), unidentified_open_connections: 0 }
    }

    fn take_root(&mut self, sid: &str) -> (r: RootRecord)
        ensures
            r@ == old(self).root(sid@),
            final(self).model() == old(self).model().insert(sid@, blank()),
            final(self).unidentified_open_connections == old(self).unidentified_open_connections,
    {
        let taken = self.roots.replace(sid, blank_record());
        assert(self.model() =~= old(self).model().insert(sid@, blank()));
        match taken {
            Some(record) => record,
            None => blank_record(),
        }
    }

    fn forget_root(&mut self, sid: &str) -> (r: RootRecord)
        ensures
            r@ == old(self).root(sid@),
            final(self).model() == old(self).model().insert(sid@, blank()),
            !final(self).roots@.contains_key(sid@),
            final(self).unidentified_open_connections == old(self).unidentified_open_connections,
    {
        let taken = self.roots.remove(sid);
        assert(self.model() =~= old(self).model().insert(sid@, blank()));
        match taken {
            Some(record) => record,
            None => blank_record(),
        }
    }

    fn put_root(&mut self, sid: &str, record: RootRecord)
        ensures
            final(self).model() == old(self).model().insert(sid@, record@),
            final(self).roots@.contains_key(sid@),
            final(self).unidentified_open_connections == old(self).unidentified_open_connections,
    {
        self.roots.insert(sid.to_owned(), record);
        assert(self.model() =~= old(self).model().insert(sid@, record@));
    }

    /// Records that a connection turned out to belong to a root.
    pub fn trace_root_connection_opened(&mut self, root_sid: &str)
        ensures
            final(self).model() == old(self).model().insert(
                root_sid@,
                RootModel {
                    open_connections: (match old(self).root(root_sid@).open_connections {
                        Some(count) => Some(
                            if count < usize::MAX {
                                (count + 1) as usize
                            } else {
                                count
                            },
                        ),
                        None => Some(1),
                    }),
                    ..old(self).root(root_sid@)
                },
            ),
            final(self).unidentified_open_connections == old(self).unidentified_open_connections,
    {
        let mut record = self.take_root(root_sid);
        record.open_connections = match record.open_connections {
            Some(count) => Some(count.saturating_add(1)),
            None => Some(1),
        };
        self.put_root(root_sid, record);
        assert(self.model() =~= old(self).model().insert(root_sid@, self.root(root_sid@)));
    }

    /// Whether a root could still change refs that matter to `family`.
    pub fn open_root_may_mutate_family(&self, root_sid: &str, family: &Option<String>) -> (r: bool)
        ensures
            r == may_mutate(self.root(root_sid@), opt_view(*family)),
    {
        match self.roots.get(root_sid) {
            None => false,
            Some(record) => record_may_mutate(record, family),
        }
    }

    /// Whether any open root could still change refs.
    pub fn has_open_trace_roots_that_may_mutate_refs(&self) -> (r: bool)
        ensures
            r == exists|sid: Seq<char>| may_mutate(#[trigger] self.root(sid), None),
    {
        self.any_may_mutate(&None)
    }

    /// Whether any open root could still change refs of one family.
    pub fn has_open_trace_roots_that_may_mutate_family(&self, family: &str) -> (r: bool)
        ensures
            r == exists|sid: Seq<char>| may_mutate(#[trigger] self.root(sid), Some(family@)),
    {
        self.any_may_mutate(&Some(family.to_owned()))
    }

    fn any_may_mutate(&self, family: &Option<String>) -> (r: bool)
        ensures
            r == exists|sid: Seq<char>| may_mutate(#[trigger] self.root(sid), opt_view(*family)),
    {
        let n: usize = self.roots.len();
        let ghost keys = self.roots.keys();
        let mut i: usize = 0;
        while i < n
            invariant
                i <= n,
                n == keys.len(),
                keys == self.roots.keys(),
                forall|k: Seq<char>| #[trigger] self.roots@.contains_key(k) <==> keys.contains(k),
                forall|j: int|
                    0 <= j < i ==> !may_mutate(self.root(#[trigger] keys[j]), opt_view(*family)),
            decreases n - i,
        {
            let record = self.roots.value_at(i);
            assert(self.root(keys[i as int]) == record@);
            if record_may_mutate(record, family) {
                return true;
            }
            i += 1;
        }
        assert forall|sid: Seq<char>| !may_mutate(#[trigger] self.root(sid), opt_view(*family)) by {
            if self.roots@.contains_key(sid) {
                assert(keys[keys.index_of(sid)] == sid);
            }
        }
        false
    }

    /// Forgets a root; returns what it fenced.
    pub fn clear_trace_ingress_root(&mut self, root_sid: &str) -> (r: Option<FenceScope>)
        ensures
            scope_view(r) == fenced_by(old(self).root(root_sid@)),
            final(self).model() == old(self).model().insert(root_sid@, blank()),
            !final(self).roots@.contains_key(root_sid@),
            final(self).unidentified_open_connections == old(self).unidentified_open_connections,
    {
        let record = self.forget_root(root_sid);
        if record_may_mutate(&record, &None) {
            match record.family {
                Some(family) => Some(FenceScope::Family(family)),
                None => Some(FenceScope::EveryFamily),
            }
        } else {
            None
        }
    }

    /// Records that the connection of each of the roots was closed; returns
    /// those that call for a close marker.
    pub fn record_trace_connection_close(&mut self, roots: &Vec<String>) -> (r: Vec<String>)
        ensures
            final(self).model() == closed_all(old(self).model(), views(roots@)),
            views(r@) == close_markers(old(self).model(), views(roots@)),
            final(self).unidentified_open_connections == old(self).unidentified_open_connections,
    {
        let ghost list = views(roots@);
        let mut markers: Vec<String> = Vec::new();
        let mut i: usize = 0;
        assert(list.take(0) =~= Seq::<Seq<char>>::empty());
        assert(views(markers@) =~= Seq::<Seq<char>>::empty());
        while i < roots.len()
            invariant
                i <= roots.len(),
                list == views(roots@),
                self.model() == closed_all(old(self).model(), list.take(i as int)),
                views(markers@) == close_markers(old(self).model(), list.take(i as int)),
                self.unidentified_open_connections == old(self).unidentified_open_connections,
            decreases roots.len() - i,
        {
            let ghost sid = roots@[i as int]@;
            let ghost before = self.model();
            let ghost found = views(markers@);
            proof {
                assert(list.take(i + 1).drop_last() =~= list.take(i as int));
                assert(list.take(i + 1).last() == sid);
                assert(before[sid] == self.root(sid));
            }
            let mut record = self.take_root(roots[i].as_str());
            let several = match record.open_connections {
                Some(count) => count > 1,
                None => false,
            };
            let needs_marker = record_may_mutate(&record, &None)
                || record.reflog_start_offsets.is_some();
            if several {
                record.open_connections = match record.open_connections {
                    Some(count) => Some(count - 1),
                    None => None,
                };
                self.put_root(roots[i].as_str(), record);
            } else if record.finishing {
                self.put_root(roots[i].as_str(), record);
            } else if !needs_marker {
                self.forget_root(roots[i].as_str());
            } else if record.close_marker_enqueued {
                self.put_root(roots[i].as_str(), record);
            } else {
                record.close_marker_enqueued = true;
                self.put_root(roots[i].as_str(), record);
                markers.push(roots[i].clone());
                assert(views(markers@) =~= found.push(sid));
            }
            assert(self.model() =~= before.insert(sid, closed(before[sid]).0));
            i += 1;
        }
        assert(list.take(list.len() as int) =~= list);
        markers
    }

    /// Records a connection that has not said yet whose it is.
    pub fn trace_unidentified_connection_opened(&mut self)
        ensures
            final(self).unidentified_open_connections == (if old(
                self,
            ).unidentified_open_connections < usize::MAX {
                (old(self).unidentified_open_connections + 1) as usize
            } else {
                usize::MAX
            }),
            final(self).roots == old(self).roots,
    {
        self.unidentified_open_connections = self.unidentified_open_connections.saturating_add(1);
    }

    /// Records that such a connection has said whose it is, or closed.
    pub fn trace_unidentified_connection_identified_or_closed(&mut self)
        ensures
            final(self).unidentified_open_connections == (if old(
                self,
            ).unidentified_open_connections > 0 {
                (old(self).unidentified_open_connections - 1) as usize
            } else {
                0
            }),
            final(self).roots == old(self).roots,
    {
        self.unidentified_open_connections = self.unidentified_open_connections.saturating_sub(1);
    }

    /// The command and the command line that a frame belongs to, by which it is
    /// to be classified.
    pub fn effective_invocation(&self, payload: &TracePayload) -> (r: (Option<String>, Vec<String>))
        ensures
            opt_view(r.0) == effective_primary(self.root(frame_root(*payload)), *payload),
            views(r.1@) == effective_argv(self.root(frame_root(*payload)), *payload),
    {
        let root = frame_root_sid(payload);
        let argv: Vec<String> = if payload.argv.len() > 0 {
            clone_strings(&payload.argv)
        } else {
            let stored: Option<Vec<String>> = match self.roots.get(root.as_str()) {
                Some(record) => match &record.argv {
                    Some(argv) => Some(clone_strings(argv)),
                    None => None,
                },
                None => None,
            };
            match stored {
                Some(argv) => argv,
                None => {
                    let none: Vec<String> = Vec::new();
                    assert(views(none@) =~= Seq::<Seq<char>>::empty());
                    none
                },
            }
        };
        let primary = match trace_payload_primary_command(payload) {
            Some(name) => Some(name),
            None => trace_argv_primary_command(&argv),
        };
        (primary, argv)
    }

    /// The first look at a frame: what it says of its root is recorded. A frame
    /// without a session says nothing.
    pub fn track_trace_payload_for_ingest(
        &mut self,
        payload: &TracePayload,
        hint: &Option<RepoPath>,
        facts: &FrameFacts,
        now_ns: u128,
    ) -> (r: Option<TrackedFrame>)
        ensures
            ({
                let sid = frame_root(*payload);
                let root = old(self).root(sid);
                let at = opt_path_view(*hint);
                if text_or_empty(opt_view(payload.sid)).len() == 0 {
                    &&& r is None
                    &&& *final(self) == *old(self)
                } else {
                    &&& r is Some
                    &&& final(self).model() == old(self).model().insert(
                        sid,
                        after_frame(root, *payload, at, *facts, now_ns),
                    )
                    &&& r->0.root@ == sid
                    &&& r->0.event_is_read_only == read_only_frame(*payload, *facts)
                    &&& r->0.terminal == is_last_frame(*payload)
                    &&& opt_path_view(r->0.capture) == wanted_capture(root, *payload, at, *facts, now_ns)
                }
            }),
            final(self).unidentified_open_connections == old(self).unidentified_open_connections,
    {
        let sid: String = match &payload.sid {
            Some(sid) => sid.clone(),
            None => String::new(),
        };
        if sid.as_str().unicode_len() == 0 {
            assert(sid@ =~= Seq::<char>::empty());
            return None;
        }
        let root = trace_root_sid(sid.as_str());
        let own = str_eq(sid.as_str(), root.as_str());
        let event: String = match &payload.event {
            Some(event) => event.clone(),
            None => String::new(),
        };
        proof {
            assert(text_or_empty(opt_view(payload.sid)) =~= sid@);
            assert(text_or_empty(opt_view(payload.event)) =~= event@);
        }
        let start = own && str_eq(event.as_str(), "start");
        let terminal = own && str_eq(event.as_str(), "atexit");
        let (primary, _) = self.effective_invocation(payload);
        let early = trace_payload_primary_command(payload);
        let event_is_read_only = early.is_some() && facts.definitely_read_only;
        let mutates = primary.is_some() && facts.may_mutate_refs;
        let time = trace_payload_time_ns(payload);

        let ghost known = self.root(root@);
        let ghost at = opt_path_view(*hint);
        let record = self.take_root(root.as_str());
        let wanted = own && mutates && !terminal && !record.finishing
            && record.reflog_start_offsets.is_none();
        let capture: Option<RepoPath> = if wanted {
            match hint {
                Some(worktree) => Some(worktree.copy()),
                None => match &record.worktree {
                    Some(worktree) => Some(worktree.copy()),
                    None => None,
                },
            }
        } else {
            None
        };
        let look = FrameLook { own, start, event_is_read_only, mutates, time, now_ns };
        let updated = record_after_frame(record, payload, hint, facts, &primary, &look);
        self.put_root(root.as_str(), updated);
        assert(self.model() =~= old(self).model().insert(
            root@,
            after_frame(known, *payload, at, *facts, now_ns),
        ));
        Some(TrackedFrame { root, event_is_read_only, terminal, capture })
    }

    /// The second look at a frame, with the reflog lengths that were wanted for
    /// it. The frame takes on what is known of its root's reflogs. Returns
    /// whether its root is known to change nothing.
    pub fn finish_tracked_frame(
        &mut self,
        frame: TrackedFrame,
        payload: &mut TracePayload,
        captured: Option<Vec<(String, u64)>>,
    ) -> (r: bool)
        ensures
            ({
                let root = with_capture(old(self).root(frame.root@), opt_offsets_view(captured));
                &&& r == read_only_root(root, frame.event_is_read_only)
                &&& final(self).model() == old(self).model().insert(
                    frame.root@,
                    settled(root, frame.event_is_read_only, frame.terminal),
                )
                &&& opt_offsets_view(final(payload).reflog_start_offsets) == (if old(
                    payload,
                ).reflog_start_offsets is None {
                    root.reflog_start_offsets
                } else {
                    opt_offsets_view(old(payload).reflog_start_offsets)
                })
            }),
            *final(payload) == (TracePayload {
                reflog_start_offsets: final(payload).reflog_start_offsets,
                ..*old(payload)
            }),
            final(self).unidentified_open_connections == old(self).unidentified_open_connections,
    {
        let known = self.roots.contains(frame.root.as_str());
        let ghost before = self.root(frame.root@);
        let mut record = self.take_root(frame.root.as_str());
        if let Some(offsets) = captured {
            if record.last_activity_ns.is_some() && record.reflog_start_offsets.is_none() {
                record.reflog_start_offsets = Some(offsets);
            }
        }
        let read_only = frame.event_is_read_only || record.definitely_read_only;
        let inherited: Option<Vec<(String, u64)>> = match &record.reflog_start_offsets {
            Some(offsets) => Some(clone_offsets(offsets)),
            None => None,
        };
        if frame.terminal {
            if !read_only {
                record.finishing = true;
            }
            record.worktree = None;
            record.reflog_start_offsets = None;
            record.target_repo_only = None;
            record.last_activity_ns = None;
            record.definitely_read_only = false;
        }
        if known || frame.terminal {
            self.put_root(frame.root.as_str(), record);
        }
        assert(self.model() =~= old(self).model().insert(frame.root@, record@));
        if payload.reflog_start_offsets.is_none() {
            payload.reflog_start_offsets = inherited;
        }
        read_only
    }
}

fn blank_record() -> (r: RootRecord)
    ensures
        r@ == blank(),
{
    RootRecord {
        worktree: None,
        family: None,
        argv: None,
        started_at_ns: None,
        reflog_start_offsets: None,
        mutating: None,
        target_repo_only: None,
        last_activity_ns: None,
        definitely_read_only: false,
        open_connections: None,
        close_marker_enqueued: false,
        finishing: false,
        release_logged: false,
    }
}

fn record_may_mutate(record: &RootRecord, family: &Option<String>) -> (r: bool)
    ensures
        r == may_mutate(record@, opt_view(*family)),
{
    let open = match record.open_connections {
        Some(count) => count > 0,
        None => false,
    };
    let unclassified_or_mutating = match record.mutating {
        Some(mutating) => mutating,
        None => true,
    };
    let attributed = match (family, &record.family) {
        (Some(family), Some(own)) => str_eq(own.as_str(), family.as_str()),
        _ => true,
    };
    open && !record.definitely_read_only && unclassified_or_mutating && attributed
}

struct FrameLook {
    own: bool,
    start: bool,
    event_is_read_only: bool,
    mutates: bool,
    time: Option<u128>,
    now_ns: u128,
}

fn record_after_frame(
    record: RootRecord,
    payload: &TracePayload,
    hint: &Option<RepoPath>,
    facts: &FrameFacts,
    primary: &Option<String>,
    look: &FrameLook,
) -> (r: RootRecord)
    requires
        look.own == is_own_frame(*payload),
        look.start == is_start_frame(*payload),
        look.event_is_read_only == read_only_frame(*payload, *facts),
        look.mutates == mutating_frame(record@, *payload, *facts),
        look.time == time_ns_of(*payload),
        opt_view(*primary) == effective_primary(record@, *payload),
    ensures
        r@ == after_frame(
            record@,
            *payload,
            opt_path_view(*hint),
            *facts,
            look.now_ns,
        ),
{
    #[verifier::truncate]
    let activity: u64 = look.now_ns as u64;
    let started_at_ns: Option<u128> = if look.start && record.started_at_ns.is_none() {
        match look.time {
            Some(time) => Some(time),
            None => Some(look.now_ns),
        }
    } else {
        record.started_at_ns
    };
    let takes_family = look.own && hint.is_some() && facts.resolved_family.is_some();
    let family: Option<String> = if takes_family {
        clone_opt(&facts.resolved_family)
    } else {
        record.family
    };
    let worktree: Option<RepoPath> = match hint {
        Some(path) => if look.own {
            Some(path.copy())
        } else {
            record.worktree
        },
        None => record.worktree,
    };
    let takes_argv = look.start && payload.argv.len() > 0;
    let argv: Option<Vec<String>> = if takes_argv {
        Some(clone_strings(&payload.argv))
    } else {
        record.argv
    };
    let classified = look.own && primary.is_some();
    let mutating: Option<bool> = if classified && record.mutating.is_none() {
        Some(look.mutates)
    } else {
        record.mutating
    };
    let target_repo_only: Option<bool> = if classified && record.target_repo_only.is_none() {
        Some(trace_command_uses_target_repo_context_only(primary))
    } else {
        record.target_repo_only
    };
    RootRecord {
        worktree,
        family,
        argv,
        started_at_ns,
        reflog_start_offsets: record.reflog_start_offsets,
        mutating,
        target_repo_only,
        last_activity_ns: Some(activity),
        definitely_read_only: record.definitely_read_only || (takes_argv
            && look.event_is_read_only),
        open_connections: record.open_connections,
        close_marker_enqueued: record.close_marker_enqueued,
        finishing: record.finishing,
        release_logged: record.release_logged,
    }
}

/// The session id of a frame's root.
pub fn frame_root_sid(payload: &TracePayload) -> (r: String)
    ensures
        r@ == frame_root(*payload),
{
    match &payload.sid {
        Some(sid) => trace_root_sid(sid.as_str()),
        None => {
            let none: String = String::new();
            assert(none@ =~= text_or_empty(opt_view(payload.sid)));
            trace_root_sid(none.as_str())
        },
    }
}

/// Clearing a root forgets all of it, lifts its fence, and touches no other root.
pub proof fn law_clearing_lifts_the_fence(
    model: Map<Seq<char>, RootModel>,
    sid: Seq<char>,
    other: Seq<char>,
    family: Option<Seq<char>>,
)
    requires
        model.contains_key(other),
        other != sid,
    ensures
        !may_mutate(model.insert(sid, blank())[sid], family),
        fenced_by(model.insert(sid, blank())[sid]) is None,
        model.insert(sid, blank())[other] == model[other],
{
}

/// A frame of a process that a root started changes nothing of what the root is
/// judged by: not its family, its worktree, its command or its classification.
pub proof fn law_child_frames_do_not_reclassify(
    root: RootModel,
    payload: TracePayload,
    hint: Option<PathModel>,
    facts: FrameFacts,
    now_ns: u128,
)
    requires
        !is_own_frame(payload),
    ensures
        after_frame(root, payload, hint, facts, now_ns) == (RootModel {
            last_activity_ns: Some(now_ns as u64),
            ..root
        }),
        wanted_capture(root, payload, hint, facts, now_ns) is None,
{
}

/// A root that fences keeps fencing, with the same scope, when its last frame
/// is read: only the ingest worker lifts its fence.
pub proof fn law_a_finishing_root_keeps_its_fence(
    root: RootModel,
    family: Option<Seq<char>>,
)
    requires
        may_mutate(root, family),
    ensures
        may_mutate(settled(root, false, true), family),
        settled(root, false, true).finishing,
        fenced_by(settled(root, false, true)) == fenced_by(root),
        closed(settled(root, false, true)).0.finishing,
        may_mutate(closed(settled(root, false, true)).0, family),
        !closed(settled(root, false, true)).1,
{
}

/// A root that is known to change nothing never becomes a fence: not when its
/// last frame is read, and not while it is open. (A root without a
/// classification of its own is not meant.)
pub proof fn law_a_read_only_root_never_fences(root: RootModel, family: Option<Seq<char>>)
    requires
        root.definitely_read_only,
        root.mutating == Some(false),
        !root.finishing,
    ensures
        !may_mutate(root, family),
        !may_mutate(settled(root, false, true), family),
        !settled(root, false, true).finishing,
{
}

/// Reflog lengths that arrive after a root's last frame are not kept.
pub proof fn law_late_captures_are_dropped(
    root: RootModel,
    captured: Option<Seq<(Seq<char>, u64)>>,
    event_is_read_only: bool,
)
    ensures
        with_capture(settled(root, event_is_read_only, true), captured) == settled(
            root,
            event_is_read_only,
            true,
        ),
{
}

} // verus!
