//! How trace frames come in: read off a connection, queued with a number, and
//! worked off in the order of their numbers.
use crate::ingress::{RootModel, TraceIngressState};
use crate::keyed::{retained, KeyMap};
use crate::text::{contains_str, opt_view, sort_strings, str_eq, trim, trim_of, views};
use crate::trace::{
    is_ingested_event, is_terminal_root_trace_event, raw_event_of, raw_trace_event_type,
    reader_should_ingest_trace_event, root_sid_of, text_or_empty, trace_root_sid, SeqField,
    TextField, TracePayload, TRACE_CONNECTION_CLOSED_EVENT, TRACE_DRAIN_PROBE_EVENT,
};
use std::collections::BTreeMap;
use vstd::prelude::*;

verus! {

broadcast use vstd::std_specs::btree::group_btree_axioms;

/// How many frames may wait to be worked off.
pub const TRACE_INGEST_QUEUE_CAPACITY: usize = 16_384;

/// After how many frames what is stale is dropped.
pub const GC_INTERVAL: u64 = 500;

/// The root of a frame that names a session.
pub open spec fn payload_root(payload: TracePayload) -> Option<Seq<char>> {
    match opt_view(payload.sid) {
        Some(sid) => Some(root_sid_of(sid)),
        None => None,
    }
}

/// The root of a frame that names a session.
pub fn trace_payload_root_sid(payload: &TracePayload) -> (r: Option<String>)
    ensures
        opt_view(r) == payload_root(*payload),
{
    match &payload.sid {
        Some(sid) => Some(trace_root_sid(sid.as_str())),
        None => None,
    }
}

/// Whether a frame is the last that is seen of its root: the root's own
/// `atexit`, or the mark of its closed connection.
pub open spec fn final_frame(payload: TracePayload) -> bool {
    let event = text_or_empty(opt_view(payload.event));
    let sid = text_or_empty(opt_view(payload.sid));
    event == TRACE_CONNECTION_CLOSED_EVENT@ || (sid == root_sid_of(sid) && event == "atexit"@)
}

fn text_of(field: &Option<String>) -> (r: String)
    ensures
        r@ == text_or_empty(opt_view(*field)),
{
    match field {
        Some(text) => text.clone(),
        None => {
            let none = String::new();
            assert(none@ =~= Seq::<char>::empty());
            none
        },
    }
}

/// Whether a frame is the last that is seen of its root.
pub fn trace_payload_is_root_final_frame(payload: &TracePayload) -> (r: bool)
    ensures
        r == final_frame(*payload),
{
    let event = text_of(&payload.event);
    let sid = text_of(&payload.sid);
    let root = trace_root_sid(sid.as_str());
    str_eq(event.as_str(), TRACE_CONNECTION_CLOSED_EVENT) || is_terminal_root_trace_event(
        event.as_str(),
        sid.as_str(),
        root.as_str(),
    )
}

/// What a line off a connection is good for.
#[derive(Debug, Clone, Copy, PartialEq, Eq, Structural)]
pub enum LineVerdict {
    /// Nothing: it is blank, or its first field names an event of no use.
    Skip,
    /// It is read.
    Parse,
}

/// The frame with which the daemon notes that a root's connection closed.
pub fn close_marker(root_sid: String, time_ns: u64) -> (r: TracePayload)
    ensures
        opt_view(r.event) == Some(TRACE_CONNECTION_CLOSED_EVENT@),
        r.sid == Some(root_sid),
        r.time_ns == Some(time_ns),
        r.name is None,
        r.argv@.len() == 0,
        r.worktree is Absent,
        r.repo_working_dir is None,
        r.repo is None,
        !r.secondary_repo,
        r.cwd is None,
        r.time is None,
        r.ts is None,
        r.abs_ns is None,
        r.probe_id is None,
        r.ingest_seq is Absent,
        r.reflog_start_offsets is None,
        r.raw@.len() == 0,
{
    TracePayload {
        event: Some(TRACE_CONNECTION_CLOSED_EVENT.to_owned()),
        sid: Some(root_sid),
        name: None,
        argv: Vec::new(),
        worktree: TextField::Absent,
        repo_working_dir: None,
        repo: None,
        secondary_repo: false,
        cwd: None,
        time: None,
        time_ns: Some(time_ns),
        ts: None,
        abs_ns: None,
        probe_id: None,
        ingest_seq: SeqField::Absent,
        reflog_start_offsets: None,
        raw: String::new(),
    }
}

/// Whether a line is passed over without being read.
pub open spec fn passed_over(line: Seq<char>) -> bool {
    let trimmed = trim_of(line);
    trimmed.len() == 0 || match raw_event_of(trimmed) {
        Some(event) => event != TRACE_DRAIN_PROBE_EVENT@ && !is_ingested_event(event),
        None => false,
    }
}

/// What a line off a connection is good for.
pub fn trace_line_verdict(line: &str) -> (r: LineVerdict)
    ensures
        r == (if passed_over(line@) {
            LineVerdict::Skip
        } else {
            LineVerdict::Parse
        }),
{
    let trimmed = trim(line);
    if trimmed.as_str().unicode_len() == 0 {
        return LineVerdict::Skip;
    }
    if let Some(event) = raw_trace_event_type(trimmed.as_str()) {
        if !reader_should_ingest_trace_event(event.as_str()) {
            return LineVerdict::Skip;
        }
    }
    LineVerdict::Parse
}

/// What a frame that was read is good for.
#[derive(Debug, Clone, Copy, PartialEq, Eq, Structural)]
pub enum FrameUse {
    /// Nothing.
    Ignore,
    /// It probes the connection, with this number where it has one.
    Probe(Option<u64>),
    /// It is taken in.
    Ingest,
}

/// What a frame that was read is good for.
pub fn trace_frame_use(payload: &TracePayload) -> (r: FrameUse)
    ensures
        r == ({
            let event = text_or_empty(opt_view(payload.event));
            if event == TRACE_DRAIN_PROBE_EVENT@ {
                FrameUse::Probe(payload.probe_id)
            } else if is_ingested_event(event) {
                FrameUse::Ingest
            } else {
                FrameUse::Ignore
            }
        }),
{
    let event = text_of(&payload.event);
    if str_eq(event.as_str(), TRACE_DRAIN_PROBE_EVENT) {
        FrameUse::Probe(payload.probe_id)
    } else if reader_should_ingest_trace_event(event.as_str()) {
        FrameUse::Ingest
    } else {
        FrameUse::Ignore
    }
}

/// A root with one more connection.
pub open spec fn opened(root: RootModel) -> RootModel {
    RootModel {
        open_connections: (match root.open_connections {
            Some(count) => Some(
                if count < usize::MAX {
                    (count + 1) as usize
                } else {
                    count
                },
            ),
            None => Some(1),
        }),
        ..root
    }
}

/// Whether the books are right once a connection named a root: one that it had not named
/// is open once more, and with its first root the connection is no longer unidentified.
pub open spec fn root_observed(
    before: TraceIngressState,
    after: TraceIngressState,
    roots: Seq<Seq<char>>,
    roots_after: Seq<Seq<char>>,
    root: Option<Seq<char>>,
) -> bool {
    let unidentified = before.unidentified_open_connections;
    match root {
        None => after.model() == before.model() && after.unidentified_open_connections
            == unidentified && roots_after == roots,
        Some(root) => {
            &&& roots_after == if roots.contains(root) {
                roots
            } else {
                roots.push(root)
            }
            &&& after.model() == if roots.contains(root) {
                before.model()
            } else {
                before.model().insert(root, opened(before.root(root)))
            }
            &&& after.unidentified_open_connections == if roots.len() > 0 {
                unidentified as int
            } else if unidentified > 0 {
                unidentified - 1
            } else {
                0
            }
        },
    }
}

/// Notes whose frame was read off a connection. The first time that a root is
/// seen there its connection counts as open; with its first root a connection
/// is no longer an unidentified one.
pub fn observe_frame_root(
    ingress: &mut TraceIngressState,
    observed: &mut Vec<String>,
    payload: &TracePayload,
)
    ensures
        root_observed(
            *old(ingress),
            *final(ingress),
            views(old(observed)@),
            views(final(observed)@),
            payload_root(*payload),
        ),
{
    let ghost roots = views(observed@);
    assert(roots.len() == observed@.len());
    if let Some(root) = trace_payload_root_sid(payload) {
        let first = observed.len() == 0;
        if !contains_str(observed, root.as_str()) {
            let ghost name = root@;
            ingress.trace_root_connection_opened(root.as_str());
            observed.push(root);
            assert(views(observed@) =~= roots.push(name));
        }
        if first {
            let ghost model = ingress.model();
            ingress.trace_unidentified_connection_identified_or_closed();
            assert(ingress.model() =~= model);
        }
    }
}

/// Closes the books on a connection; returns the roots for which a close marker is
/// to be queued, in the order of their names.
pub fn finalize_trace_connection_roots(ingress: &mut TraceIngressState, observed: &Vec<String>) -> (r:
    Vec<String>)
    ensures
        ({
            let roots = views(observed@);
            if roots.len() == 0 {
                &&& r@.len() == 0
                &&& final(ingress).model() == old(ingress).model()
                &&& final(ingress).unidentified_open_connections == if old(
                    ingress,
                ).unidentified_open_connections > 0 {
                    old(ingress).unidentified_open_connections - 1
                } else {
                    0
                }
            } else {
                &&& final(ingress).unidentified_open_connections == old(
                    ingress,
                ).unidentified_open_connections
                &&& exists|sorted: Seq<Seq<char>>| #[trigger]
                    crate::text::in_order(sorted) && sorted.to_multiset() == roots.to_multiset()
                        && final(ingress).model() == crate::ingress::closed_all(
                        old(ingress).model(),
                        sorted,
                    ) && views(r@) == crate::ingress::close_markers(old(ingress).model(), sorted)
            }
        }),
{
    assert(views(observed@).len() == observed@.len());
    if observed.len() == 0 {
        let ghost model = ingress.model();
        ingress.trace_unidentified_connection_identified_or_closed();
        assert(ingress.model() =~= model);
        return Vec::new();
    }
    let sorted = sort_strings(observed);
    let ghost names = views(sorted@);
    assert(crate::text::in_order(names));
    ingress.record_trace_connection_close(&sorted)
}

/// Whether there is room for one more frame.
#[derive(Debug, Clone, Copy, PartialEq, Eq, Structural)]
pub enum QueueRoom {
    NotStarted,
    Closed,
    Full,
    Room,
}

/// Why a frame was not queued.
#[derive(Debug, Clone, Copy, PartialEq, Eq, Structural)]
pub enum EnqueueError {
    NotStarted,
    WorkerGone,
    QueueFull,
}

impl EnqueueError {
    /// The error in words.
    pub fn message(&self) -> (r: &'static str)
        ensures
            r@ == (match *self {
                EnqueueError::NotStarted => "trace ingest worker not started"@,
                EnqueueError::WorkerGone =>
                    "trace ingest queue send failed: worker may have crashed"@,
                EnqueueError::QueueFull => "trace ingest queue is full; daemon shutting down"@,
            }),
    {
        match self {
            EnqueueError::NotStarted => "trace ingest worker not started",
            EnqueueError::WorkerGone => "trace ingest queue send failed: worker may have crashed",
            EnqueueError::QueueFull => "trace ingest queue is full; daemon shutting down",
        }
    }

    /// Whether the daemon has to shut down.
    pub fn shuts_down(&self) -> (r: bool)
        ensures
            r == (*self != EnqueueError::NotStarted),
    {
        match self {
            EnqueueError::NotStarted => false,
            _ => true,
        }
    }
}

/// The counting of queued frames.
pub struct TraceQueue {
    /// The number of the last frame that was queued.
    pub next_seq: u64,
    /// The number of the last frame that was worked off.
    pub processed_seq: u64,
    /// How many frames wait.
    pub queued: u64,
    /// How many wait of each root.
    pub queued_by_root: KeyMap<u64>,
    /// How many were lost because the queue was full.
    pub dropped_queue_full: u64,
}

/// The test for a count that is not zero.
pub open spec fn is_counted() -> spec_fn(u64) -> bool {
    |count: u64| count > 0
}

/// A number with one more, up to its limit.
pub open spec fn one_more(n: u64) -> u64 {
    if n < u64::MAX {
        (n + 1) as u64
    } else {
        u64::MAX
    }
}

/// A number with one less, down to nothing.
pub open spec fn one_less(n: u64) -> u64 {
    if n > 0 {
        (n - 1) as u64
    } else {
        0
    }
}

impl TraceQueue {
    /// No frame was queued more often than the last number says, and no root is
    /// counted without a frame.
    pub open spec fn wf(self) -> bool {
        &&& self.processed_seq <= self.next_seq
        &&& forall|root: Seq<char>| #[trigger]
            self.queued_by_root@.contains_key(root) ==> self.queued_by_root@[root] > 0
    }

    /// How many frames of a root wait.
    pub open spec fn waiting(self, root: Seq<char>) -> u64 {
        if self.queued_by_root@.contains_key(root) {
            self.queued_by_root@[root]
        } else {
            0
        }
    }

    /// Nothing is queued.
    pub fn new() -> (r: TraceQueue)
        ensures
            r.wf(),
            r.next_seq == 0,
            r.processed_seq == 0,
            r.queued == 0,
            r.dropped_queue_full == 0,
            r.queued_by_root@ == Map::<Seq<char>, u64>::empty(),
    {
        TraceQueue {
            next_seq: 0,
            processed_seq: 0,
            queued: 0,
            queued_by_root: KeyMap::new(),
            dropped_queue_full: 0,
        }
    }

    /// Queues a frame: gives it a number, unless it says something in a number's place, and
    /// counts it. Without room it is neither numbered nor counted, so that the numbers have
    /// no gaps.
    pub fn enqueue_trace_payload(&mut self, payload: &mut TracePayload, room: QueueRoom) -> (r: Result<
        (),
        EnqueueError,
    >)
        requires
            old(self).next_seq < u64::MAX,
        ensures
            r == (match room {
                QueueRoom::NotStarted => Err::<(), EnqueueError>(EnqueueError::NotStarted),
                QueueRoom::Closed => Err(EnqueueError::WorkerGone),
                QueueRoom::Full => Err(EnqueueError::QueueFull),
                QueueRoom::Room => Ok(()),
            }),
            r is Err ==> {
                &&& *final(payload) == *old(payload)
                &&& final(self).next_seq == old(self).next_seq
                &&& final(self).queued == old(self).queued
                &&& final(self).queued_by_root == old(self).queued_by_root
                &&& final(self).dropped_queue_full == if room == QueueRoom::Full {
                    one_more(old(self).dropped_queue_full)
                } else {
                    old(self).dropped_queue_full
                }
            },
            r is Ok ==> {
                let numbered = old(payload).ingest_seq is Absent;
                &&& *final(payload) == (TracePayload {
                    ingest_seq: if numbered {
                        SeqField::Number((old(self).next_seq + 1) as u64)
                    } else {
                        old(payload).ingest_seq
                    },
                    ..*old(payload)
                })
                &&& final(self).next_seq == if numbered {
                    old(self).next_seq + 1
                } else {
                    old(self).next_seq as int
                }
                &&& final(self).queued == one_more(old(self).queued)
                &&& final(self).dropped_queue_full == old(self).dropped_queue_full
                &&& final(self).queued_by_root@ == match payload_root(*old(payload)) {
                    Some(root) => old(self).queued_by_root@.insert(
                        root,
                        one_more(old(self).waiting(root)),
                    ),
                    None => old(self).queued_by_root@,
                }
            },
            final(self).processed_seq == old(self).processed_seq,
            old(self).wf() ==> final(self).wf(),
    {
        match room {
            QueueRoom::NotStarted => {
                return Err(EnqueueError::NotStarted);
            },
            QueueRoom::Closed => {
                return Err(EnqueueError::WorkerGone);
            },
            QueueRoom::Full => {
                self.dropped_queue_full = self.dropped_queue_full.saturating_add(1);
                return Err(EnqueueError::QueueFull);
            },
            QueueRoom::Room => {},
        }
        if let Some(root) = trace_payload_root_sid(payload) {
            let count: u64 = match self.queued_by_root.get(root.as_str()) {
                Some(count) => count.saturating_add(1),
                None => 1,
            };
            self.queued_by_root.insert(root, count);
        }
        if payload.ingest_seq == SeqField::Absent {
            self.next_seq = self.next_seq + 1;
            payload.ingest_seq = SeqField::Number(self.next_seq);
        }
        self.queued = self.queued.saturating_add(1);
        Ok(())
    }

    /// Notes that a frame of this root was worked off.
    pub fn record_processed(&mut self, root_sid: &Option<String>, seq: u64)
        ensures
            final(self).processed_seq == seq,
            final(self).queued == one_less(old(self).queued),
            final(self).next_seq == old(self).next_seq,
            final(self).dropped_queue_full == old(self).dropped_queue_full,
            final(self).queued_by_root@ == (match opt_view(*root_sid) {
                Some(root) => if old(self).waiting(root) > 1 {
                    old(self).queued_by_root@.insert(root, one_less(old(self).waiting(root)))
                } else {
                    old(self).queued_by_root@.remove(root)
                },
                None => old(self).queued_by_root@,
            }),
            old(self).wf() && seq <= old(self).next_seq ==> final(self).wf(),
    {
        self.queued = self.queued.saturating_sub(1);
        if let Some(root) = root_sid {
            let count: u64 = match self.queued_by_root.get(root.as_str()) {
                Some(count) => *count,
                None => 0,
            };
            if count > 1 {
                self.queued_by_root.insert(root.clone(), count - 1);
            } else {
                self.queued_by_root.remove(root.as_str());
            }
        }
        self.processed_seq = seq;
    }

    /// Forgets how many frames of a root wait.
    pub fn forget_root(&mut self, root_sid: &str)
        ensures
            final(self).queued_by_root@ == old(self).queued_by_root@.remove(root_sid@),
            final(self).next_seq == old(self).next_seq,
            final(self).processed_seq == old(self).processed_seq,
            final(self).queued == old(self).queued,
            final(self).dropped_queue_full == old(self).dropped_queue_full,
            old(self).wf() ==> final(self).wf(),
    {
        self.queued_by_root.remove(root_sid);
    }

    /// Whether every frame up to this one was worked off.
    pub fn processed_through(&self, target: u64) -> (r: bool)
        ensures
            r == (self.processed_seq >= target),
    {
        self.processed_seq >= target
    }

    /// Drops the roots of which no frame waits.
    pub fn drop_empty(&mut self)
        ensures
            final(self).queued_by_root@ == retained(old(self).queued_by_root@, is_counted()),
            final(self).next_seq == old(self).next_seq,
            final(self).processed_seq == old(self).processed_seq,
            final(self).queued == old(self).queued,
            final(self).dropped_queue_full == old(self).dropped_queue_full,
    {
        let n: usize = self.queued_by_root.len();
        let mut keep: Vec<bool> = Vec::new();
        let mut i: usize = 0;
        while i < n
            invariant
                i <= n,
                n == self.queued_by_root.keys().len(),
                keep@.len() == i,
                forall|j: int|
                    0 <= j < i ==> #[trigger] keep@[j] == is_counted()(
                        self.queued_by_root@[self.queued_by_root.keys()[j]],
                    ),
            decreases n - i,
        {
            let count: u64 = *self.queued_by_root.value_at(i);
            keep.push(count > 0);
            i += 1;
        }
        self.queued_by_root.retain(&keep, Ghost(is_counted()));
    }
}

/// Why the worker gives up.
#[derive(Debug, Clone, Copy, PartialEq, Eq, Structural)]
pub enum ReorderError {
    MissingSeq,
    Overflow,
    Duplicate,
}

/// The frames that came ahead of their turn.
pub struct ReorderBuffer {
    /// The number whose turn it is.
    pub next_seq: u64,
    pub pending: BTreeMap<u64, TracePayload>,
    pub capacity: usize,
    /// How many frames were worked off.
    pub processed: u64,
}

/// A frame whose turn it is.
#[derive(Debug)]
pub struct OrderedFrame {
    pub seq: u64,
    pub payload: TracePayload,
    /// Whether what is stale is to be dropped once it was worked off.
    pub gc_due: bool,
}

impl ReorderBuffer {
    /// No frame is kept whose turn is over.
    pub open spec fn wf(self) -> bool {
        forall|seq: u64| #[trigger] self.pending@.contains_key(seq) ==> seq >= self.next_seq
    }

    /// Nothing came yet.
    pub fn new(capacity: usize) -> (r: ReorderBuffer)
        ensures
            r.wf(),
            r.next_seq == 1,
            r.pending@ == Map::<u64, TracePayload>::empty(),
            r.capacity == capacity,
            r.processed == 0,
    {
        ReorderBuffer { next_seq: 1, pending: BTreeMap::new(), capacity, processed: 0 }
    }

    /// Takes a frame in. One that has no number is refused.
    pub fn receive(&mut self, payload: TracePayload) -> (r: Result<(), ReorderError>)
        ensures
            final(self).next_seq == old(self).next_seq,
            final(self).capacity == old(self).capacity,
            final(self).processed == old(self).processed,
            r is Ok <==> payload.ingest_seq is Number && old(self).pending@.dom().len()
                < old(self).capacity && !old(self).pending@.contains_key(payload.ingest_seq->0),
            final(self).pending@ == (if r == Err::<(), ReorderError>(ReorderError::MissingSeq) || r
                == Err::<(), ReorderError>(ReorderError::Overflow) {
                old(self).pending@
            } else {
                old(self).pending@.insert(payload.ingest_seq->0, payload)
            }),
            r is Ok && old(self).wf() && payload.ingest_seq->0 >= old(self).next_seq
                ==> final(self).wf(),
            r is Err ==> r->Err_0 == if payload.ingest_seq !is Number {
                ReorderError::MissingSeq
            } else if old(self).pending@.dom().len() >= old(self).capacity {
                ReorderError::Overflow
            } else {
                ReorderError::Duplicate
            },
    {
        let seq: u64 = match payload.ingest_seq {
            SeqField::Number(seq) => seq,
            SeqField::Absent | SeqField::NotNumber => {
                return Err(ReorderError::MissingSeq);
            },
        };
        if self.pending.len() >= self.capacity {
            return Err(ReorderError::Overflow);
        }
        match self.pending.insert(seq, payload) {
            Some(_) => Err(ReorderError::Duplicate),
            None => Ok(()),
        }
    }

    /// Takes out the frame whose turn it is, without its number.
    pub fn take_next(&mut self) -> (r: Option<OrderedFrame>)
        ensures
            r is Some <==> old(self).pending@.contains_key(old(self).next_seq),
            r is Some ==> {
                &&& (r->0).seq == old(self).next_seq
                &&& (r->0).payload == (TracePayload {
                    ingest_seq: SeqField::Absent,
                    ..old(self).pending@[old(self).next_seq]
                })
                &&& final(self).pending@ == old(self).pending@.remove(old(self).next_seq)
                &&& final(self).next_seq == one_more(old(self).next_seq)
                &&& final(self).processed == one_more(old(self).processed)
                &&& (r->0).gc_due == (final(self).processed % GC_INTERVAL == 0)
            },
            r is None ==> final(self).pending@ == old(self).pending@ && final(self).next_seq
                == old(self).next_seq && final(self).processed == old(self).processed,
            final(self).capacity == old(self).capacity,
            old(self).wf() && old(self).next_seq < u64::MAX ==> final(self).wf(),
    {
        let seq: u64 = self.next_seq;
        match self.pending.remove(&seq) {
            Some(mut payload) => {
                assert(self.pending@ =~= old(self).pending@.remove(seq));
                payload.ingest_seq = SeqField::Absent;
                self.next_seq = self.next_seq.saturating_add(1);
                self.processed = self.processed.saturating_add(1);
                Some(OrderedFrame { seq, payload, gc_due: self.processed % GC_INTERVAL == 0 })
            },
            None => {
                assert(self.pending@ =~= old(self).pending@);
                None
            },
        }
    }

    /// How many frames wait for their turn.
    pub fn buffered(&self) -> (r: usize)
        ensures
            r == self.pending@.dom().len(),
    {
        self.pending.len()
    }
}

/// What a frame whose turn it is calls for.
#[derive(Debug)]
pub enum FrameStep {
    /// Nothing.
    Nothing,
    /// Forget this root: its connection closed.
    CloseRoot { root: String },
    /// Hand it on. `narrows` says that its root's worktree is now known, so that
    /// other families may go on; `terminal` that it is the last of its root.
    Normalize { narrows: bool, terminal: bool },
}

/// What a frame whose turn it is calls for; `hinted` says whether it tells its worktree.
pub fn frame_step(payload: &TracePayload, hinted: bool) -> (r: FrameStep)
    ensures
        ({
            let event = opt_view(payload.event);
            let root = payload_root(*payload);
            match r {
                FrameStep::Nothing => event is None || event == Some(
                    TRACE_CONNECTION_CLOSED_EVENT@,
                ) && root is None,
                FrameStep::CloseRoot { root: name } => event == Some(TRACE_CONNECTION_CLOSED_EVENT@)
                    && root == Some(name@),
                FrameStep::Normalize { narrows, terminal } => event is Some && event != Some(
                    TRACE_CONNECTION_CLOSED_EVENT@,
                ) && narrows == hinted && terminal == (text_or_empty(opt_view(payload.sid))
                    == text_or_empty(root) && event == Some("atexit"@)),
            }
        }),
{
    let event = match &payload.event {
        Some(event) => event,
        None => {
            return FrameStep::Nothing;
        },
    };
    let root = trace_payload_root_sid(payload);
    if str_eq(event.as_str(), TRACE_CONNECTION_CLOSED_EVENT) {
        return match root {
            Some(root) => FrameStep::CloseRoot { root },
            None => FrameStep::Nothing,
        };
    }
    let sid = text_of(&payload.sid);
    let root = text_of(&root);
    FrameStep::Normalize {
        narrows: hinted,
        terminal: is_terminal_root_trace_event(event.as_str(), sid.as_str(), root.as_str()),
    }
}

/// What came of a frame that was handed on.
#[derive(Debug)]
pub enum Emitted {
    /// It ended this root's command.
    Command { root_sid: String },
    Nothing,
    Failed,
}

/// The root that is forgotten once a frame was handed on: that of the command
/// that it ended, else, with its last frame, its own. The last frame always
/// lifts a root's fence, whatever came of it.
pub fn root_to_clear(payload_root: &Option<String>, terminal: bool, emitted: &Emitted) -> (r: Option<
    String,
>)
    ensures
        opt_view(r) == (match *emitted {
            Emitted::Command { root_sid } => Some(root_sid@),
            _ => if terminal {
                opt_view(*payload_root)
            } else {
                None
            },
        }),
{
    match emitted {
        Emitted::Command { root_sid } => Some(root_sid.clone()),
        _ => if terminal {
            match payload_root {
                Some(root) => Some(root.clone()),
                None => None,
            }
        } else {
            None
        },
    }
}

/// What is kept, and whose turn it is, once `k` frames were asked for.
pub open spec fn after_takes(pending: Map<u64, TracePayload>, next_seq: u64, k: nat) -> (
    Map<u64, TracePayload>,
    u64,
)
    decreases k,
{
    if k == 0 {
        (pending, next_seq)
    } else {
        let (left, next) = after_takes(pending, next_seq, (k - 1) as nat);
        if left.contains_key(next) {
            (left.remove(next), one_more(next))
        } else {
            (left, next)
        }
    }
}

/// In whatever order frames came in, they are worked off in the order of their
/// numbers and without a gap: when the `k` frames whose turn is next have all come,
/// the frame taken out behind `j` others is the one with the number `next_seq + j`.
pub proof fn law_frames_come_in_order(
    pending: Map<u64, TracePayload>,
    next_seq: u64,
    k: nat,
    j: nat,
)
    requires
        next_seq + k <= u64::MAX,
        forall|seq: u64| next_seq <= seq < next_seq + k ==> #[trigger] pending.contains_key(seq),
        j < k,
    ensures
        after_takes(pending, next_seq, j).1 == next_seq + j,
        after_takes(pending, next_seq, j).0.contains_key((next_seq + j) as u64),
        after_takes(pending, next_seq, j).0[(next_seq + j) as u64] == pending[(next_seq
            + j) as u64],
        forall|seq: u64|
            seq >= next_seq + j && #[trigger] pending.contains_key(seq) ==> after_takes(
                pending,
                next_seq,
                j,
            ).0.contains_key(seq) && after_takes(pending, next_seq, j).0[seq] == pending[seq],
    decreases j,
{
    assert(pending.contains_key((next_seq + j) as u64));
    if j > 0 {
        law_frames_come_in_order(pending, next_seq, k, (j - 1) as nat);
        assert forall|seq: u64|
            seq >= next_seq + j && #[trigger] pending.contains_key(seq) implies after_takes(
            pending,
            next_seq,
            j,
        ).0.contains_key(seq) && after_takes(pending, next_seq, j).0[seq] == pending[seq] by {
            let before = after_takes(pending, next_seq, (j - 1) as nat);
            assert(before.0.contains_key(seq) && before.0[seq] == pending[seq]);
        }
    }
}

/// A frame whose number has not come yet holds back all behind it.
pub proof fn law_a_missing_frame_holds_back(
    pending: Map<u64, TracePayload>,
    next_seq: u64,
    k: nat,
)
    requires
        !pending.contains_key(next_seq),
    ensures
        after_takes(pending, next_seq, k) == (pending, next_seq),
    decreases k,
{
    if k > 0 {
        law_a_missing_frame_holds_back(pending, next_seq, (k - 1) as nat);
    }
}

} // verus!
