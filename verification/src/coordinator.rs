//! The daemon's state as a whole.
use crate::checkpoint::{
    is_still_pending, CheckpointGate, CheckpointRequest, PendingAiEdits,
};
use crate::commands::{AppliedCommand, NormalizedCommand};
use crate::drain_schedule::ScheduledDrains;
use crate::effects::{
    has_errors, has_prerequisites, InflightEffects, ReplayPrerequisites, SideEffectErrors,
};
use crate::fence::FenceCounters;
use crate::ingest::{is_counted, one_less, TraceQueue};
use crate::ingress::{blank, fenced_by, scope_view, FenceScope, TraceIngressState};
use crate::keyed::{retained, KeyMap};
use crate::lifecycle::{DrainProbes, Lifecycle};
use crate::pending::{is_filled, names_both_heads, PendingRewrites};
use crate::quota::{
    CheckpointIngressQuota, CheckpointIngressReservation, CHECKPOINT_INGRESS_BYTE_LIMIT,
    CHECKPOINT_INGRESS_REQUEST_LIMIT,
};
use crate::sequencer::{
    has_entries, FamilySequencerEntry, FamilySequencerSlot, FamilySequencers,
};
use crate::text::{concat, opt_view};
use vstd::prelude::*;

verus! {

/// Who holds, or waits for, the right to work on a family.
pub struct ExecLocks {
    pub holders: KeyMap<usize>,
}

/// The test for a lock that someone holds or waits for.
pub open spec fn is_held() -> spec_fn(usize) -> bool {
    |holders: usize| holders > 0
}

impl ExecLocks {
    /// How many hold, or wait for, the right to work on a family.
    pub open spec fn count(self, family: Seq<char>) -> nat {
        if self.holders@.contains_key(family) {
            self.holders@[family] as nat
        } else {
            0
        }
    }

    /// No lock is known.
    pub fn new() -> (r: ExecLocks)
        ensures
            r.holders@ == Map::<Seq<char>, usize>::empty(),
    {
        ExecLocks { holders: KeyMap::new() }
    }

    /// Someone asks for the right to work on a family.
    pub fn take(&mut self, family: &str)
        requires
            old(self).count(family@) < usize::MAX,
        ensures
            final(self).holders@ == old(self).holders@.insert(
                family@,
                (old(self).count(family@) + 1) as usize,
            ),
    {
        let count: usize = match self.holders.get(family) {
            Some(count) => *count + 1,
            None => 1,
        };
        self.holders.insert(family.to_owned(), count);
    }

    /// Someone gives the right to work on a family back.
    pub fn give_back(&mut self, family: &str)
        ensures
            final(self).holders@ == (if old(self).count(family@) == 0 {
                old(self).holders@
            } else {
                old(self).holders@.insert(family@, (old(self).count(family@) - 1) as usize)
            }),
    {
        let count: usize = match self.holders.get(family) {
            Some(count) => *count,
            None => 0,
        };
        if count > 0 {
            self.holders.insert(family.to_owned(), count - 1);
        }
    }

    /// Forgets the locks that nobody holds; a lock that was forgotten while someone
    /// held it would let two work on one family.
    pub fn drop_idle(&mut self)
        ensures
            final(self).holders@ == retained(old(self).holders@, is_held()),
    {
        let n: usize = self.holders.len();
        let mut keep: Vec<bool> = Vec::new();
        let mut i: usize = 0;
        while i < n
            invariant
                i <= n,
                n == self.holders.keys().len(),
                keep@.len() == i,
                forall|j: int|
                    0 <= j < i ==> #[trigger] keep@[j] == is_held()(
                        self.holders@[self.holders.keys()[j]],
                    ),
            decreases n - i,
        {
            let holders: usize = *self.holders.value_at(i);
            keep.push(holders > 0);
            i += 1;
        }
        self.holders.retain(&keep, Ghost(is_held()));
    }
}

/// The daemon's state.
pub struct ActorDaemonCoordinator {
    pub ingress: TraceIngressState,
    pub queue: TraceQueue,
    pub sequencers: FamilySequencers,
    pub drains: ScheduledDrains,
    pub inflight: InflightEffects,
    pub errors: SideEffectErrors,
    pub prerequisites: ReplayPrerequisites,
    pub pending: PendingRewrites,
    pub ai_edits: PendingAiEdits,
    pub exec_locks: ExecLocks,
    pub gate: CheckpointGate,
    pub quota: CheckpointIngressQuota,
    pub fence_counters: FenceCounters,
    pub probes: DrainProbes,
    pub lifecycle: Lifecycle,
}

/// A checkpoint that was accepted and whose family is known.
pub struct PreparedCheckpointAdmission {
    pub receipt_seq: u64,
    pub received_at_ns: u128,
    pub family: String,
    pub request: CheckpointRequest,
    pub reservation: CheckpointIngressReservation,
}

/// Why an accepted checkpoint cannot be admitted.
#[derive(Debug)]
pub enum AdmissionError {
    /// Its body cannot be read.
    InvalidBody(String),
    /// It names no file.
    NoFiles,
}

impl AdmissionError {
    /// The error in words.
    pub fn message(&self) -> (r: String)
        ensures
            r@ == (match *self {
                AdmissionError::InvalidBody(error) => "invalid accepted checkpoint body: "@ + error@,
                AdmissionError::NoFiles => "accepted checkpoint contains no files"@,
            }),
    {
        match self {
            AdmissionError::InvalidBody(error) => concat(
                "invalid accepted checkpoint body: ",
                error.as_str(),
            ),
            AdmissionError::NoFiles => "accepted checkpoint contains no files".to_owned(),
        }
    }
}

/// The worktree whose family an accepted checkpoint is admitted to: that of its first
/// file.
pub fn admission_work_dir(body: Result<CheckpointRequest, String>) -> (r: Result<
    (CheckpointRequest, String),
    AdmissionError,
>)
    ensures
        (match r {
            Ok((request, work_dir)) => body == Ok::<_, String>(request) && request.files@.len() > 0
                && work_dir@ == request.files@[0].repo_work_dir@,
            Err(AdmissionError::InvalidBody(error)) => body == Err::<CheckpointRequest, _>(error),
            Err(AdmissionError::NoFiles) => body is Ok && body->Ok_0.files@.len() == 0,
        }),
{
    match body {
        Ok(request) => {
            if request.files.len() == 0 {
                return Err(AdmissionError::NoFiles);
            }
            let work_dir = request.files[0].repo_work_dir.clone();
            Ok((request, work_dir))
        },
        Err(error) => Err(AdmissionError::InvalidBody(error)),
    }
}

/// The tool under whose name a checkpoint is announced to the transcripts.
pub fn stream_tool(request: &CheckpointRequest) -> (r: String)
    ensures
        r@ == (match request.agent_tool {
            Some(tool) => tool@,
            None => "unknown"@,
        }),
{
    match &request.agent_tool {
        Some(tool) => tool.clone(),
        None => "unknown".to_owned(),
    }
}

/// How the preparation of an accepted checkpoint ended.
pub enum AdmissionOutcome {
    Prepared(PreparedCheckpointAdmission),
    /// It cannot be admitted.
    Failed { receipt_seq: u64, reservation: CheckpointIngressReservation },
    /// The preparation broke off.
    Panicked { receipt_seq: u64, reservation: CheckpointIngressReservation },
}

/// What follows from an admission.
#[derive(Debug, Clone, Copy, PartialEq, Eq, Structural)]
pub struct AdmissionSettled {
    /// Whether all families are to be drained now.
    pub drain_all: bool,
    /// Whether the daemon shuts down and no more is admitted.
    pub shut_down: bool,
}

/// The test of a sequencer state for entries, over all families.
pub open spec fn work_is_queued(sequencers: FamilySequencers) -> bool {
    exists|family: Seq<char>| sequencers.entries(family).len() > 0
}

/// Whether there is work that a restart would lose: accepted checkpoints, frames that
/// wait, entries that wait, and passes that are being done. A command that still runs is none.
pub open spec fn attribution_work(c: ActorDaemonCoordinator) -> bool {
    ||| c.quota.requests > 0
    ||| c.queue.queued > 0
    ||| c.inflight.counts@ != Map::<Seq<char>, usize>::empty()
    ||| work_is_queued(c.sequencers)
}

/// Whether what holds nothing any more was dropped, and nothing else.
pub open spec fn stale_dropped(
    before: ActorDaemonCoordinator,
    after: ActorDaemonCoordinator,
    now_ns: u128,
) -> bool {
    &&& after.prerequisites.by_family@ == retained(
        before.prerequisites.by_family@,
        has_prerequisites(),
    )
    &&& after.errors.by_family@ == retained(before.errors.by_family@, has_errors())
    &&& after.sequencers.by_family@ == retained(
        before.sequencers.by_family@,
        has_entries(),
    )
    &&& after.exec_locks.holders@ == retained(before.exec_locks.holders@, is_held())
    &&& after.pending.cherry_picks@ == retained(
        before.pending.cherry_picks@,
        is_filled(),
    )
    &&& after.pending.squash_merges@ == retained(
        before.pending.squash_merges@,
        names_both_heads(),
    )
    &&& after.pending.rebases == before.pending.rebases
    &&& after.pending.no_commits == before.pending.no_commits
    &&& after.queue.queued_by_root@ == retained(
        before.queue.queued_by_root@,
        is_counted(),
    )
    &&& after.queue.next_seq == before.queue.next_seq
    &&& after.queue.processed_seq == before.queue.processed_seq
    &&& after.queue.queued == before.queue.queued
    &&& forall|family: Seq<char>| #[trigger]
        after.ai_edits.edits(family) == retained(
            before.ai_edits.edits(family),
            is_still_pending(now_ns),
        )
    &&& after == (ActorDaemonCoordinator {
        prerequisites: after.prerequisites,
        errors: after.errors,
        sequencers: after.sequencers,
        exec_locks: after.exec_locks,
        pending: after.pending,
        queue: after.queue,
        ai_edits: after.ai_edits,
        ..before
    })
}

impl ActorDaemonCoordinator {
    /// Every part is in order.
    pub open spec fn wf(self) -> bool {
        &&& self.queue.wf()
        &&& self.sequencers.wf()
        &&& self.inflight.wf()
        &&& self.errors.wf()
        &&& self.prerequisites.wf()
        &&& self.pending.wf()
        &&& self.quota.wf()
        &&& self.probes.wf()
    }

    /// A daemon that just started.
    pub fn new() -> (r: ActorDaemonCoordinator)
        ensures
            r.wf(),
            !attribution_work(r),
            forall|sid: Seq<char>| r.ingress.root(sid) == blank(),
            r.ingress.unidentified_open_connections == 0,
            r.queue.next_seq == 0 && r.queue.processed_seq == 0 && r.queue.queued == 0,
            r.queue.dropped_queue_full == 0,
            r.queue.queued_by_root@.dom() == Set::<Seq<char>>::empty(),
            r.sequencers.by_family@.dom() == Set::<Seq<char>>::empty(),
            r.drains.families@.dom() == Set::<Seq<char>>::empty(),
            r.inflight.counts@.dom() == Set::<Seq<char>>::empty(),
            r.errors.by_family@.dom() == Set::<Seq<char>>::empty(),
            r.prerequisites.by_family@.dom() == Set::<Seq<char>>::empty(),
            r.pending.rebases@.dom() == Set::<Seq<char>>::empty(),
            r.pending.cherry_picks@.dom() == Set::<Seq<char>>::empty(),
            r.pending.no_commits@.dom() == Set::<Seq<char>>::empty(),
            r.pending.squash_merges@.dom() == Set::<Seq<char>>::empty(),
            r.ai_edits.by_family@.dom() == Set::<Seq<char>>::empty(),
            r.exec_locks.holders@.dom() == Set::<Seq<char>>::empty(),
            r.gate == (CheckpointGate {
                accepting: true,
                next_receipt_seq: 0,
                processed_receipt_seq: 0,
                unadmitted: 0,
            }),
            r.gate.agrees(),
            r.quota == (CheckpointIngressQuota {
                request_limit: CHECKPOINT_INGRESS_REQUEST_LIMIT,
                byte_limit: CHECKPOINT_INGRESS_BYTE_LIMIT,
                requests: 0,
                bytes: 0,
            }),
            r.fence_counters == (FenceCounters {
                causal_grace_expirations: 0,
                causal_fence_hard_cap_releases: 0,
            }),
            r.probes == (DrainProbes { issued: 0, observed: 0 }),
            r.lifecycle == (Lifecycle {
                shutting_down: false,
                action: 0,
                teardown_complete: false,
                checkpoints_dropped: 0,
                losses_counted: false,
            }),
    {
        ActorDaemonCoordinator {
            ingress: TraceIngressState::new(),
            queue: TraceQueue::new(),
            sequencers: FamilySequencers::new(),
            drains: ScheduledDrains::new(),
            inflight: InflightEffects::new(),
            errors: SideEffectErrors::new(),
            prerequisites: ReplayPrerequisites::new(),
            pending: PendingRewrites::new(),
            ai_edits: PendingAiEdits::new(),
            exec_locks: ExecLocks::new(),
            gate: CheckpointGate::new(),
            quota: CheckpointIngressQuota::new(
                CHECKPOINT_INGRESS_REQUEST_LIMIT,
                CHECKPOINT_INGRESS_BYTE_LIMIT,
            ),
            fence_counters: FenceCounters {
                causal_grace_expirations: 0,
                causal_fence_hard_cap_releases: 0,
            },
            probes: DrainProbes::new(),
            lifecycle: Lifecycle::new(),
        }
    }

    /// Whether there is work that a restart would lose.
    pub fn has_pending_attribution_work(&self) -> (r: bool)
        ensures
            r == attribution_work(*self),
    {
        self.quota.outstanding().0 > 0 || self.queue.queued > 0
            || self.inflight.has_inflight_family_effects() || self.sequencers.has_entries()
    }

    /// Whether there is work left at all: that which a restart would lose, frames whose numbers
    /// were not reached, and open roots that hold the fence (`fence_held`).
    pub fn has_pending_daemon_work(&self, fence_held: bool) -> (r: bool)
        ensures
            r == (attribution_work(*self) || self.queue.next_seq > self.queue.processed_seq
                || fence_held),
    {
        self.has_pending_attribution_work() || self.queue.next_seq > self.queue.processed_seq
            || fence_held
    }

    /// Whether what was accepted is worked off, so that the daemon may end.
    pub fn accepted_checkpoints_are_drained(&self) -> (r: bool)
        ensures
            r == (self.quota.requests == 0 && self.inflight.counts@ == Map::<
                Seq<char>,
                usize,
            >::empty()),
    {
        self.quota.outstanding().0 == 0 && !self.inflight.has_inflight_family_effects()
    }

    /// Whether the families are worked off, so that a wait for one may end.
    pub fn families_are_synced(&self) -> (r: bool)
        ensures
            r == (self.gate.unadmitted == 0 && self.inflight.counts@ == Map::<
                Seq<char>,
                usize,
            >::empty()),
    {
        self.gate.unadmitted == 0 && !self.inflight.has_inflight_family_effects()
    }

    /// Forgets a root: what it is known by, and how many of its frames wait. Returns what
    /// it fenced.
    pub fn clear_trace_root_tracking(&mut self, root_sid: &str) -> (r: Option<FenceScope>)
        ensures
            scope_view(r) == fenced_by(old(self).ingress.root(root_sid@)),
            final(self).ingress.model() == old(self).ingress.model().insert(root_sid@, blank()),
            final(self).queue.queued_by_root@ == old(self).queue.queued_by_root@.remove(root_sid@),
            final(self).queue.next_seq == old(self).queue.next_seq,
            final(self).queue.processed_seq == old(self).queue.processed_seq,
            final(self).queue.queued == old(self).queue.queued,
            final(self).queue.dropped_queue_full == old(self).queue.dropped_queue_full,
            *final(self) == (ActorDaemonCoordinator {
                ingress: final(self).ingress,
                queue: final(self).queue,
                ..*old(self)
            }),
            old(self).wf() ==> final(self).wf(),
    {
        let fenced = self.ingress.clear_trace_ingress_root(root_sid);
        self.queue.forget_root(root_sid);
        fenced
    }

    /// Admits an accepted checkpoint to its family; says whether all families are to be
    /// drained now.
    pub fn complete_checkpoint_admission(
        &mut self,
        prepared: PreparedCheckpointAdmission,
        now_ns: u128,
    ) -> (r: bool)
        requires
            old(self).wf(),
        ensures
            final(self).wf(),
            old(self).sequencers.is_followed_by(
                final(self).sequencers,
                prepared.family@,
                prepared.received_at_ns,
                (FamilySequencerSlot {
                    enqueued_at_ns: now_ns,
                    entry: FamilySequencerEntry::Checkpoint {
                        request: prepared.request,
                        receipt_seq: prepared.receipt_seq,
                        reservation: prepared.reservation,
                    },
                }),
            ),
            final(self).gate == old(self).gate.admitted(prepared.receipt_seq),
            r == (final(self).gate.unadmitted == 0),
            *final(self) == (ActorDaemonCoordinator {
                sequencers: final(self).sequencers,
                gate: final(self).gate,
                ..*old(self)
            }),
    {
        self.sequencers.append_family_sequencer_entry(
            prepared.family.as_str(),
            prepared.received_at_ns,
            now_ns,
            FamilySequencerEntry::Checkpoint {
                request: prepared.request,
                receipt_seq: prepared.receipt_seq,
                reservation: prepared.reservation,
            },
        );
        self.gate.complete_checkpoint_admission(prepared.receipt_seq)
    }

    /// Gives an accepted checkpoint up; its room is free again.
    pub fn complete_failed_checkpoint_admission(
        &mut self,
        receipt_seq: u64,
        reservation: CheckpointIngressReservation,
    ) -> (r: bool)
        ensures
            final(self).gate == old(self).gate.admitted(receipt_seq),
            final(self).quota == old(self).quota.given_back(reservation.body_bytes),
            r == (final(self).gate.unadmitted == 0),
            *final(self) == (ActorDaemonCoordinator {
                quota: final(self).quota,
                gate: final(self).gate,
                ..*old(self)
            }),
            old(self).wf() ==> final(self).wf(),
    {
        self.quota.release(reservation);
        self.gate.complete_checkpoint_admission(receipt_seq)
    }

    /// Ends the admission of a checkpoint, whatever came of it; after one that broke off the
    /// daemon shuts down.
    pub fn settle_admission(&mut self, outcome: AdmissionOutcome, now_ns: u128) -> (r:
        AdmissionSettled)
        requires
            old(self).wf(),
        ensures
            final(self).wf(),
            r.shut_down == (outcome is Panicked),
            r.drain_all == (final(self).gate.unadmitted == 0),
            final(self).gate == old(self).gate.admitted(
                match outcome {
                    AdmissionOutcome::Prepared(prepared) => prepared.receipt_seq,
                    AdmissionOutcome::Failed { receipt_seq, .. } => receipt_seq,
                    AdmissionOutcome::Panicked { receipt_seq, .. } => receipt_seq,
                },
            ),
            match outcome {
                AdmissionOutcome::Prepared(prepared) => {
                    &&& final(self).quota == old(self).quota
                    &&& old(self).sequencers.is_followed_by(
                        final(self).sequencers,
                        prepared.family@,
                        prepared.received_at_ns,
                        (FamilySequencerSlot {
                            enqueued_at_ns: now_ns,
                            entry: FamilySequencerEntry::Checkpoint {
                                request: prepared.request,
                                receipt_seq: prepared.receipt_seq,
                                reservation: prepared.reservation,
                            },
                        }),
                    )
                },
                AdmissionOutcome::Failed { reservation, .. } => final(self).quota == old(
                    self,
                ).quota.given_back(reservation.body_bytes) && final(self).sequencers == old(
                    self,
                ).sequencers,
                AdmissionOutcome::Panicked { reservation, .. } => final(self).quota == old(
                    self,
                ).quota.given_back(reservation.body_bytes) && final(self).sequencers == old(
                    self,
                ).sequencers,
            },
            *final(self) == (ActorDaemonCoordinator {
                sequencers: final(self).sequencers,
                quota: final(self).quota,
                gate: final(self).gate,
                ..*old(self)
            }),
    {
        match outcome {
            AdmissionOutcome::Prepared(prepared) => AdmissionSettled {
                drain_all: self.complete_checkpoint_admission(prepared, now_ns),
                shut_down: false,
            },
            AdmissionOutcome::Failed { receipt_seq, reservation } => AdmissionSettled {
                drain_all: self.complete_failed_checkpoint_admission(receipt_seq, reservation),
                shut_down: false,
            },
            AdmissionOutcome::Panicked { receipt_seq, reservation } => AdmissionSettled {
                drain_all: self.complete_failed_checkpoint_admission(receipt_seq, reservation),
                shut_down: true,
            },
        }
    }

    /// Queues a finished command for its family, when it takes part in the family's order
    /// (`participates`); returns the family, or the command when it has to be applied first.
    pub fn sequence_emitted_command(
        &mut self,
        command: NormalizedCommand,
        participates: bool,
        now_ns: u128,
    ) -> (r: Result<String, NormalizedCommand>)
        requires
            old(self).wf(),
        ensures
            final(self).wf(),
            r is Ok <==> command.family_key is Some && participates,
            r is Err ==> r->Err_0 == command && *final(self) == *old(self),
            r is Ok ==> r->Ok_0@ == (command.family_key->0)@ && old(self).sequencers.is_followed_by(
                final(self).sequencers,
                r->Ok_0@,
                command.started_at_ns,
                (FamilySequencerSlot {
                    enqueued_at_ns: now_ns,
                    entry: FamilySequencerEntry::ReadyCommand(command),
                }),
            ),
            *final(self) == (ActorDaemonCoordinator {
                sequencers: final(self).sequencers,
                ..*old(self)
            }),
    {
        if !participates {
            return Err(command);
        }
        let family = match &command.family_key {
            Some(family) => family.clone(),
            None => {
                return Err(command);
            },
        };
        let started_at_ns: u128 = command.started_at_ns;
        self.sequencers.append_family_sequencer_entry(
            family.as_str(),
            started_at_ns,
            now_ns,
            FamilySequencerEntry::ReadyCommand(command),
        );
        Ok(family)
    }

    /// Queues what follows from a command that was applied already; returns its family.
    /// Of a command without one nothing is queued.
    pub fn sequence_applied_command(&mut self, applied: AppliedCommand, now_ns: u128) -> (r: Option<
        String,
    >)
        requires
            old(self).wf(),
        ensures
            final(self).wf(),
            opt_view(r) == opt_view(applied.command.family_key),
            r is None ==> *final(self) == *old(self),
            r is Some ==> old(self).sequencers.is_followed_by(
                final(self).sequencers,
                (r->0)@,
                applied.command.started_at_ns,
                (FamilySequencerSlot {
                    enqueued_at_ns: now_ns,
                    entry: FamilySequencerEntry::AppliedSideEffects(applied),
                }),
            ),
            *final(self) == (ActorDaemonCoordinator {
                sequencers: final(self).sequencers,
                ..*old(self)
            }),
    {
        let family = match &applied.command.family_key {
            Some(family) => family.clone(),
            None => {
                return None;
            },
        };
        let started_at_ns: u128 = applied.command.started_at_ns;
        self.sequencers.append_family_sequencer_entry(
            family.as_str(),
            started_at_ns,
            now_ns,
            FamilySequencerEntry::AppliedSideEffects(applied),
        );
        Some(family)
    }

    /// Notes that a frame was worked off. Where that failed, and the frame was its root's
    /// last, the root is cleared all the same; returns whom it held up.
    pub fn finish_frame(&mut self, root: &Option<String>, seq: u64, last: bool, failed: bool) -> (r:
        Option<FenceScope>)
        ensures
            ({
                let clears = failed && last && *root is Some;
                let name = (*root)->0@;
                &&& scope_view(r) == if clears {
                    fenced_by(old(self).ingress.root(name))
                } else {
                    None
                }
                &&& final(self).ingress.model() == if clears {
                    old(self).ingress.model().insert(name, blank())
                } else {
                    old(self).ingress.model()
                }
                &&& final(self).queue.queued_by_root@ == if *root is None {
                    old(self).queue.queued_by_root@
                } else if !clears && old(self).queue.waiting(name) > 1 {
                    old(self).queue.queued_by_root@.insert(
                        name,
                        (old(self).queue.waiting(name) - 1) as u64,
                    )
                } else {
                    old(self).queue.queued_by_root@.remove(name)
                }
            }),
            final(self).queue.processed_seq == seq,
            final(self).queue.queued == one_less(old(self).queue.queued),
            final(self).queue.next_seq == old(self).queue.next_seq,
            final(self).queue.dropped_queue_full == old(self).queue.dropped_queue_full,
            *final(self) == (ActorDaemonCoordinator {
                ingress: final(self).ingress,
                queue: final(self).queue,
                ..*old(self)
            }),
            old(self).wf() && seq <= old(self).queue.next_seq ==> final(self).wf(),
    {
        let mut fenced: Option<FenceScope> = None;
        if failed && last {
            if let Some(name) = root {
                fenced = self.clear_trace_root_tracking(name.as_str());
            }
        }
        self.queue.record_processed(root, seq);
        assert(self.queue.queued_by_root@ =~= (if *root is None {
            old(self).queue.queued_by_root@
        } else if !(failed && last) && old(self).queue.waiting((*root)->0@) > 1 {
            old(self).queue.queued_by_root@.insert(
                (*root)->0@,
                (old(self).queue.waiting((*root)->0@) - 1) as u64,
            )
        } else {
            old(self).queue.queued_by_root@.remove((*root)->0@)
        }));
        fenced
    }

    /// Drops what holds nothing any more.
    pub fn gc_stale_family_state(&mut self, now_ns: u128)
        requires
            old(self).wf(),
        ensures
            final(self).wf(),
            stale_dropped(*old(self), *final(self), now_ns),
    {
        self.prerequisites.drop_empty();
        self.errors.drop_empty();
        self.sequencers.drop_idle();
        self.exec_locks.drop_idle();
        self.pending.drop_stale();
        self.queue.drop_empty();
        self.ai_edits.drop_expired(now_ns);
    }
}

/// A command that still runs is no work that a restart would lose: whatever is known of
/// open roots, only what was queued counts.
pub proof fn law_open_roots_are_no_pending_work(
    c: ActorDaemonCoordinator,
    ingress: TraceIngressState,
)
    ensures
        attribution_work(ActorDaemonCoordinator { ingress, ..c }) == attribution_work(c),
{
}

/// Dropping what is stale loses no work.
pub proof fn law_gc_loses_no_work(
    before: ActorDaemonCoordinator,
    after: ActorDaemonCoordinator,
    now_ns: u128,
)
    requires
        stale_dropped(before, after, now_ns),
    ensures
        attribution_work(after) == attribution_work(before),
        forall|family: Seq<char>| #[trigger]
            after.sequencers.entries(family) == before.sequencers.entries(family),
{
    assert forall|family: Seq<char>| #[trigger]
        after.sequencers.entries(family) == before.sequencers.entries(family) by {
        if before.sequencers.by_family@.contains_key(family) && !has_entries()(
            before.sequencers.by_family@[family],
        ) {
            assert(before.sequencers.entries(family) =~= Seq::empty());
        }
    }
    if work_is_queued(before.sequencers) {
        let family = choose|family: Seq<char>| before.sequencers.entries(family).len() > 0;
        assert(after.sequencers.entries(family).len() > 0);
    }
    if work_is_queued(after.sequencers) {
        let family = choose|family: Seq<char>| after.sequencers.entries(family).len() > 0;
        assert(before.sequencers.entries(family).len() > 0);
    }
}

/// A lock that someone holds is not forgotten, and no other is kept.
pub proof fn law_held_locks_are_kept(
    before: ActorDaemonCoordinator,
    after: ActorDaemonCoordinator,
    now_ns: u128,
    family: Seq<char>,
)
    requires
        stale_dropped(before, after, now_ns),
    ensures
        after.exec_locks.holders@.contains_key(family) <==> before.exec_locks.holders@.contains_key(
            family,
        ) && before.exec_locks.holders@[family] > 0,
{
}

} // verus!
