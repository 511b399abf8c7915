//! The causal fence: finished work waits for older commands that have changed
//! refs and whose last frame has not been processed yet.
use crate::ingress::{
    clone_offsets, may_mutate, opt_offsets_view, RootModel, RootRecord, TraceIngressState,
};
use crate::paths::{opt_path_view, RepoPath};
use crate::text::{clone_opt, opt_view, str_eq};
use crate::trace::{primary_of, sid_pid, trace_argv_primary_command, trace_sid_pid};
use vstd::prelude::*;

verus! {

/// How long finished work waits for an older open root before that root's
/// process is looked at.
pub const FAMILY_CAUSAL_GRACE_NS: u64 = 1_000_000_000;

/// The multiple of the grace after which a root that is finishing, gone or
/// unknown no longer holds the fence.
pub const FAMILY_CAUSAL_FENCE_HARD_CAP_MULTIPLIER: u64 = 30;

/// The multiple of the grace for which a root that has changed refs may hold the fence.
pub const FAMILY_WRITTEN_ROOT_FENCE_CAP_MULTIPLIER: u64 = 600;

/// Why work proceeds past an open root.
#[derive(Debug, Clone, Copy, PartialEq, Eq, Structural)]
pub enum ReleaseReason {
    FinishingRootCap,
    WrittenRootCap,
    CausalGraceExpired,
    CausalFenceHardCap,
}

impl ReleaseReason {
    /// The reason as it is logged.
    pub fn as_str(&self) -> (r: &'static str)
        ensures
            r@ == (match *self {
                ReleaseReason::FinishingRootCap => "finishing_root_cap"@,
                ReleaseReason::WrittenRootCap => "written_root_cap"@,
                ReleaseReason::CausalGraceExpired => "causal_grace_expired"@,
                ReleaseReason::CausalFenceHardCap => "causal_fence_hard_cap"@,
            }),
    {
        match self {
            ReleaseReason::FinishingRootCap => "finishing_root_cap",
            ReleaseReason::WrittenRootCap => "written_root_cap",
            ReleaseReason::CausalGraceExpired => "causal_grace_expired",
            ReleaseReason::CausalFenceHardCap => "causal_fence_hard_cap",
        }
    }
}

/// One open root's standing against the fence.
#[derive(Debug, Clone, Copy, PartialEq, Eq, Structural)]
pub enum RootFence {
    /// It holds; its bound changes the answer after this many nanoseconds.
    Held(u128),
    /// It held past its bound, or is judged not to come before.
    Release(ReleaseReason),
    /// It has changed no refs, so it fences nothing.
    Open,
}

/// What the fence needs to know of one open root.
pub struct RootFenceProbe {
    pub root_sid: String,
    pub waited_ns: u128,
    /// Its last frame is queued, or its connection closed.
    pub finishing: bool,
    pub primary: Option<String>,
    pub reflog_start_offsets: Option<Vec<(String, u64)>>,
    pub worktree: Option<RepoPath>,
    pub started_at_ns: Option<u128>,
    pub pid: Option<u32>,
    pub wrote_refs: Option<bool>,
    pub alive: Option<bool>,
}

/// What was seen of a root outside the daemon.
#[derive(Debug, Clone, Copy)]
pub struct RootObservation {
    /// Whether its command moves `HEAD`, so that the reflog of `HEAD` reveals its writes.
    pub moves_head: bool,
    /// Whether that reflog has grown since the root started, where it could be read.
    pub reflog_grew: Option<bool>,
    /// Whether its process is alive.
    pub alive: bool,
}

/// How long the work that asks has waited for a root.
#[derive(Debug, Clone, Copy)]
pub enum WaitClock {
    /// The same for every root.
    Fixed(u128),
    /// For as long as nothing was heard of the root, as of a time.
    SinceActivity(u128),
}

/// Which open roots are asked about.
#[derive(Debug)]
pub struct FenceQuery {
    /// Roots that could change refs of this family, or of any.
    pub family: Option<String>,
    /// Roots that did not start after this time.
    pub not_after_ns: Option<u128>,
    /// Not this root.
    pub except_root: Option<String>,
    pub clock: WaitClock,
}

/// A release to log.
#[derive(Debug)]
pub struct FenceRelease {
    pub reason: ReleaseReason,
    pub context: &'static str,
    pub root_sid: String,
    pub root_primary: Option<String>,
    pub root_family: Option<String>,
    pub root_age_ms: Option<u64>,
    pub waited_ms: u64,
}

/// How many fences were released, by judgement and by a bound.
#[derive(Debug, Clone, Copy, PartialEq, Eq, Structural)]
pub struct FenceCounters {
    pub causal_grace_expirations: u64,
    pub causal_fence_hard_cap_releases: u64,
}

/// What a look at the fence came to.
pub struct FenceOutcome {
    /// After how long to look again, when a root still holds.
    pub held: Option<u128>,
    pub releases: Vec<FenceRelease>,
}

/// Held until the bound, and released with `reason` from then on.
pub open spec fn hold_until(bound: nat, waited: u128, reason: ReleaseReason) -> RootFence {
    if waited < bound {
        RootFence::Held((bound - waited) as u128)
    } else {
        RootFence::Release(reason)
    }
}

/// Whether an observed root holds the fence. The fence is for one hazard: a
/// process that has changed refs while its last frame has not been processed.
/// - A finishing root holds until it is cleared, and at most up to the hard cap.
/// - A root whose reflog has grown has changed refs, and holds up to a longer cap.
/// - A root whose reflog has not grown has changed nothing, and fences nothing.
/// - Any other root holds for the grace; after it, it is released if its process
///   is alive, and holds up to the hard cap if it is not.
pub open spec fn fence_of(
    grace: u64,
    waited: u128,
    finishing: bool,
    wrote_refs: Option<bool>,
    alive: Option<bool>,
) -> RootFence {
    let hard_cap = (grace * FAMILY_CAUSAL_FENCE_HARD_CAP_MULTIPLIER) as nat;
    let written_cap = (grace * FAMILY_WRITTEN_ROOT_FENCE_CAP_MULTIPLIER) as nat;
    if finishing {
        hold_until(hard_cap, waited, ReleaseReason::FinishingRootCap)
    } else if wrote_refs == Some(true) {
        hold_until(written_cap, waited, ReleaseReason::WrittenRootCap)
    } else if wrote_refs == Some(false) {
        RootFence::Open
    } else if waited < grace {
        RootFence::Held((grace - waited) as u128)
    } else if alive == Some(true) {
        RootFence::Release(ReleaseReason::CausalGraceExpired)
    } else {
        hold_until(hard_cap, waited, ReleaseReason::CausalFenceHardCap)
    }
}

impl RootFenceProbe {
    /// Whether this probe, as observed, holds the fence.
    pub open spec fn fence(self, grace: u64) -> RootFence {
        fence_of(grace, self.waited_ns, self.finishing, self.wrote_refs, self.alive)
    }

    /// What the reflog of `HEAD` reveals about the root.
    pub open spec fn revealed(self, seen: RootObservation) -> Option<bool> {
        if seen.moves_head && self.reflog_start_offsets is Some {
            seen.reflog_grew
        } else {
            None
        }
    }

    /// Takes over what was seen, as far as the judgement needs it: the reflog
    /// where there is one to consult, and otherwise the process, once the grace
    /// has passed.
    pub fn observe(&mut self, grace_ns: u64, seen: &RootObservation)
        ensures
            old(self).finishing ==> *final(self) == *old(self),
            !old(self).finishing ==> *final(self) == (RootFenceProbe {
                wrote_refs: old(self).revealed(*seen),
                alive: (if old(self).revealed(*seen) is None && old(self).waited_ns >= grace_ns {
                    if old(self).pid is Some {
                        Some(seen.alive)
                    } else {
                        None
                    }
                } else {
                    old(self).alive
                }),
                ..*old(self)
            }),
    {
        if self.finishing {
            return;
        }
        self.observe_reflog(seen);
        if self.wrote_refs.is_none() && self.waited_ns >= grace_ns as u128 {
            self.alive = if self.pid.is_some() {
                Some(seen.alive)
            } else {
                None
            };
        }
    }

    /// Takes over everything that was seen.
    pub fn observe_all(&mut self, seen: &RootObservation)
        ensures
            old(self).finishing ==> *final(self) == *old(self),
            !old(self).finishing ==> *final(self) == (RootFenceProbe {
                wrote_refs: old(self).revealed(*seen),
                alive: (if old(self).revealed(*seen) is None {
                    if old(self).pid is Some {
                        Some(seen.alive)
                    } else {
                        None
                    }
                } else {
                    old(self).alive
                }),
                ..*old(self)
            }),
    {
        if self.finishing {
            return;
        }
        self.observe_reflog(seen);
        if self.wrote_refs.is_none() {
            self.alive = if self.pid.is_some() {
                Some(seen.alive)
            } else {
                None
            };
        }
    }

    fn observe_reflog(&mut self, seen: &RootObservation)
        ensures
            *final(self) == (RootFenceProbe {
                wrote_refs: old(self).revealed(*seen),
                ..*old(self)
            }),
    {
        self.wrote_refs = if seen.moves_head && self.reflog_start_offsets.is_some() {
            seen.reflog_grew
        } else {
            None
        };
    }
}

/// Whether an observed root holds the fence.
pub fn classify_root_fence(grace_ns: u64, probe: &RootFenceProbe) -> (r: RootFence)
    ensures
        r == probe.fence(grace_ns),
{
    let grace: u128 = grace_ns as u128;
    assert(grace * 30 <= 0xffff_ffff_ffff_ffff * 30);
    assert(grace * 600 <= 0xffff_ffff_ffff_ffff * 600);
    let hard_cap: u128 = grace * (FAMILY_CAUSAL_FENCE_HARD_CAP_MULTIPLIER as u128);
    let written_cap: u128 = grace * (FAMILY_WRITTEN_ROOT_FENCE_CAP_MULTIPLIER as u128);
    if probe.finishing {
        return hold(hard_cap, probe.waited_ns, ReleaseReason::FinishingRootCap);
    }
    match probe.wrote_refs {
        Some(true) => {
            return hold(written_cap, probe.waited_ns, ReleaseReason::WrittenRootCap);
        },
        Some(false) => {
            return RootFence::Open;
        },
        None => {},
    }
    if probe.waited_ns < grace {
        return hold(grace, probe.waited_ns, ReleaseReason::CausalGraceExpired);
    }
    match probe.alive {
        Some(true) => RootFence::Release(ReleaseReason::CausalGraceExpired),
        _ => hold(hard_cap, probe.waited_ns, ReleaseReason::CausalFenceHardCap),
    }
}

fn hold(bound: u128, waited: u128, reason: ReleaseReason) -> (r: RootFence)
    ensures
        r == hold_until(bound as nat, waited, reason),
{
    if waited < bound {
        RootFence::Held(bound - waited)
    } else {
        RootFence::Release(reason)
    }
}

/// No root holds the fence forever: past the longest cap, nothing is held.
pub proof fn law_every_hold_is_bounded(
    grace: u64,
    waited: u128,
    finishing: bool,
    wrote_refs: Option<bool>,
    alive: Option<bool>,
)
    requires
        waited >= grace * FAMILY_WRITTEN_ROOT_FENCE_CAP_MULTIPLIER,
    ensures
        !(fence_of(grace, waited, finishing, wrote_refs, alive) is Held),
{
}

/// A root that has changed nothing is waited for by nobody, however young it is.
pub proof fn law_an_unwritten_root_fences_nothing(
    grace: u64,
    waited: u128,
    alive: Option<bool>,
)
    ensures
        fence_of(grace, waited, false, Some(false), alive) == RootFence::Open,
{
}

/// Whether a process is alive decides nothing for a root that is finishing or has changed refs.
pub proof fn law_liveness_is_only_a_fallback(
    grace: u64,
    waited: u128,
    finishing: bool,
    wrote_refs: Option<bool>,
    one: Option<bool>,
    other: Option<bool>,
)
    requires
        finishing || wrote_refs is Some,
    ensures
        fence_of(grace, waited, finishing, wrote_refs, one) == fence_of(
            grace,
            waited,
            finishing,
            wrote_refs,
            other,
        ),
{
    match wrote_refs {
        Some(true) => {},
        Some(false) => {},
        None => {},
    }
}

/// Once a root is released or open it stays so: waiting longer never brings a hold back.
pub proof fn law_releases_are_final(
    grace: u64,
    waited: u128,
    later: u128,
    finishing: bool,
    wrote_refs: Option<bool>,
    alive: Option<bool>,
)
    requires
        waited <= later,
        !(fence_of(grace, waited, finishing, wrote_refs, alive) is Held),
    ensures
        !(fence_of(grace, later, finishing, wrote_refs, alive) is Held),
{
}

/// How long the work that asks has waited for a root.
pub open spec fn waited_for(root: RootModel, clock: WaitClock) -> u128 {
    match clock {
        WaitClock::Fixed(waited) => waited,
        WaitClock::SinceActivity(now) => match root.last_activity_ns {
            Some(last) => (if now >= last {
                now - last
            } else {
                0
            }) as u64 as u128,
            None => 0,
        },
    }
}

/// Whether a root is asked about.
pub open spec fn is_candidate(sid: Seq<char>, root: RootModel, query: FenceQuery) -> bool {
    &&& may_mutate(root, opt_view(query.family))
    &&& opt_view(query.except_root) != Some(sid)
    &&& query.not_after_ns is None || root.started_at_ns is None || root.started_at_ns->0
        <= query.not_after_ns->0
}

/// Whether a probe says of a root what is known of it, with nothing observed yet.
pub open spec fn probe_says(
    probe: RootFenceProbe,
    sid: Seq<char>,
    root: RootModel,
    clock: WaitClock,
) -> bool {
    &&& probe.root_sid@ == sid
    &&& probe.waited_ns == waited_for(root, clock)
    &&& probe.finishing == (root.finishing || root.close_marker_enqueued)
    &&& opt_view(probe.primary) == (match root.argv {
        Some(argv) => primary_of(argv),
        None => None,
    })
    &&& opt_offsets_view(probe.reflog_start_offsets) == root.reflog_start_offsets
    &&& opt_path_view(probe.worktree) == root.worktree
    &&& probe.started_at_ns == root.started_at_ns
    &&& (probe.pid is Some <==> sid_pid(sid) is Some)
    &&& (probe.pid is Some ==> probe.pid->0 == sid_pid(sid)->0)
    &&& probe.wrote_refs is None
    &&& probe.alive is None
}

fn primary_in(record: &RootRecord) -> (r: Option<String>)
    ensures
        opt_view(r) == (match record@.argv {
            Some(argv) => primary_of(argv),
            None => None,
        }),
{
    match &record.argv {
        Some(argv) => trace_argv_primary_command(argv),
        None => None,
    }
}

/// What the fence needs to know of one root.
pub fn root_fence_probe(sid: &str, record: &RootRecord, clock: &WaitClock) -> (r: RootFenceProbe)
    ensures
        probe_says(r, sid@, record@, *clock),
{
    let waited_ns: u128 = match clock {
        WaitClock::Fixed(waited) => *waited,
        WaitClock::SinceActivity(now) => match record.last_activity_ns {
            Some(last) => {
                let idle: u128 = now.saturating_sub(last as u128);
                #[verifier::truncate]
                let short: u64 = idle as u64;
                short as u128
            },
            None => 0,
        },
    };
    RootFenceProbe {
        root_sid: sid.to_owned(),
        waited_ns,
        finishing: record.finishing || record.close_marker_enqueued,
        primary: primary_in(record),
        reflog_start_offsets: match &record.reflog_start_offsets {
            Some(offsets) => Some(clone_offsets(offsets)),
            None => None,
        },
        worktree: match &record.worktree {
            Some(worktree) => Some(worktree.copy()),
            None => None,
        },
        started_at_ns: record.started_at_ns,
        pid: trace_sid_pid(sid),
        wrote_refs: None,
        alive: None,
    }
}

/// A probe of every root that is asked about, one for each.
pub fn fence_probes(ingress: &TraceIngressState, query: &FenceQuery) -> (r: Vec<RootFenceProbe>)
    ensures
        forall|i: int|
            0 <= i < r@.len() ==> {
                let sid = (#[trigger] r@[i]).root_sid@;
                &&& is_candidate(sid, ingress.root(sid), *query)
                &&& probe_says(r@[i], sid, ingress.root(sid), query.clock)
            },
        forall|sid: Seq<char>|
            #![trigger ingress.root(sid)]
            is_candidate(sid, ingress.root(sid), *query) ==> exists|i: int|
                0 <= i < r@.len() && (#[trigger] r@[i]).root_sid@ == sid,
        forall|i: int, j: int|
            0 <= i < j < r@.len() ==> (#[trigger] r@[i]).root_sid@ != (#[trigger] r@[j]).root_sid@,
{
    let n: usize = ingress.roots.len();
    let ghost keys = ingress.roots.keys();
    let mut out: Vec<RootFenceProbe> = Vec::new();
    let mut i: usize = 0;
    while i < n
        invariant
            i <= n,
            n == keys.len(),
            keys == ingress.roots.keys(),
            keys.no_duplicates(),
            forall|k: Seq<char>| #[trigger] ingress.roots@.contains_key(k) <==> keys.contains(k),
            forall|a: int|
                0 <= a < out@.len() ==> {
                    let sid = (#[trigger] out@[a]).root_sid@;
                    &&& is_candidate(sid, ingress.root(sid), *query)
                    &&& probe_says(out@[a], sid, ingress.root(sid), query.clock)
                    &&& exists|c: int| 0 <= c < i && #[trigger] keys[c] == sid
                },
            forall|c: int|
                0 <= c < i && is_candidate(
                    #[trigger] keys[c],
                    ingress.root(keys[c]),
                    *query,
                ) ==> exists|a: int| 0 <= a < out@.len() && (#[trigger] out@[a]).root_sid@ == keys[c],
            forall|a: int, b: int|
                0 <= a < b < out@.len() ==> (#[trigger] out@[a]).root_sid@ != (
                #[trigger] out@[b]).root_sid@,
        decreases n - i,
    {
        let sid = ingress.roots.key_at(i);
        let record = ingress.roots.value_at(i);
        let ghost before = out@;
        assert(ingress.root(keys[i as int]) == record@);
        let excepted = match &query.except_root {
            Some(root) => str_eq(root.as_str(), sid.as_str()),
            None => false,
        };
        let early_enough = match (query.not_after_ns, record.started_at_ns) {
            (Some(limit), Some(started)) => started <= limit,
            _ => true,
        };
        if !excepted && early_enough && ingress.open_root_may_mutate_family(
            sid.as_str(),
            &query.family,
        ) {
            out.push(root_fence_probe(sid.as_str(), record, &query.clock));
            proof {
                assert forall|a: int, b: int| 0 <= a < b < out@.len() implies (
                #[trigger] out@[a]).root_sid@ != (#[trigger] out@[b]).root_sid@ by {
                    if b == before.len() {
                        let c = choose|c: int|
                            0 <= c < i && #[trigger] keys[c] == before[a].root_sid@;
                        assert(keys[c] != keys[i as int]);
                    }
                }
                assert forall|c: int|
                    0 <= c < i + 1 && is_candidate(
                        #[trigger] keys[c],
                        ingress.root(keys[c]),
                        *query,
                    ) implies exists|a: int|
                    0 <= a < out@.len() && (#[trigger] out@[a]).root_sid@ == keys[c] by {
                    if c < i {
                        let a = choose|a: int|
                            0 <= a < before.len() && (#[trigger] before[a]).root_sid@ == keys[c];
                        assert(out@[a] == before[a]);
                    } else {
                        assert(out@[before.len() as int].root_sid@ == keys[c]);
                    }
                }
                assert forall|a: int| 0 <= a < out@.len() implies exists|c: int|
                    0 <= c < i + 1 && #[trigger] keys[c] == (#[trigger] out@[a]).root_sid@ by {
                    if a < before.len() {
                        let c = choose|c: int|
                            0 <= c < i && #[trigger] keys[c] == before[a].root_sid@;
                        assert(keys[c] == out@[a].root_sid@);
                    } else {
                        assert(keys[i as int] == out@[a].root_sid@);
                    }
                }
            }
        }
        i += 1;
    }
    assert forall|sid: Seq<char>|
        is_candidate(sid, #[trigger] ingress.root(sid), *query) implies exists|a: int|
        0 <= a < out@.len() && (#[trigger] out@[a]).root_sid@ == sid by {
        assert(ingress.roots@.contains_key(sid));
        let c = keys.index_of(sid);
        assert(keys[c] == sid);
    }
    out
}

/// Whether a probe's root can still change refs.
pub open spec fn is_live(ingress: TraceIngressState, probe: RootFenceProbe) -> bool {
    may_mutate(ingress.root(probe.root_sid@), None)
}

/// Whether a probe of a live root releases it.
pub open spec fn releases(
    ingress: TraceIngressState,
    grace: u64,
    probes: Seq<RootFenceProbe>,
    sid: Seq<char>,
) -> bool {
    exists|i: int|
        0 <= i < probes.len() && (#[trigger] probes[i]).root_sid@ == sid && is_live(
            ingress,
            probes[i],
        ) && probes[i].fence(grace) is Release
}

/// How many of the releases have, or have not, run out their grace.
pub open spec fn count_grace(list: Seq<FenceRelease>, grace_expired: bool) -> nat
    decreases list.len(),
{
    if list.len() == 0 {
        0
    } else {
        count_grace(list.drop_last(), grace_expired) + (if (list.last().reason
            == ReleaseReason::CausalGraceExpired) == grace_expired {
            1nat
        } else {
            0nat
        })
    }
}

/// A counter that stops at its greatest value.
pub open spec fn counted(counter: u64, more: nat) -> u64 {
    if counter + more <= u64::MAX {
        (counter + more) as u64
    } else {
        u64::MAX
    }
}

/// Whether a release reports what is known of its root.
pub open spec fn release_says(
    release: FenceRelease,
    ingress: TraceIngressState,
    probe: RootFenceProbe,
    grace: u64,
    now_ns: u128,
    context: Seq<char>,
) -> bool {
    let root = ingress.root(probe.root_sid@);
    &&& release.root_sid@ == probe.root_sid@
    &&& probe.fence(grace) == RootFence::Release(release.reason)
    &&& release.context@ == context
    &&& opt_view(release.root_primary) == (match root.argv {
        Some(argv) => primary_of(argv),
        None => None,
    })
    &&& opt_view(release.root_family) == root.family
    &&& release.root_age_ms == (match root.started_at_ns {
        Some(started) => Some(
            ((if now_ns >= started {
                now_ns - started
            } else {
                0
            }) / 1_000_000) as u64,
        ),
        None => None,
    })
    &&& release.waited_ms == (probe.waited_ns / 1_000_000) as u64
}

fn fence_release(
    record: &RootRecord,
    probe: &RootFenceProbe,
    reason: ReleaseReason,
    now_ns: u128,
    context: &'static str,
) -> (r: FenceRelease)
    ensures
        r.root_sid@ == probe.root_sid@,
        r.reason == reason,
        r.context@ == context@,
        opt_view(r.root_primary) == (match record@.argv {
            Some(argv) => primary_of(argv),
            None => None,
        }),
        opt_view(r.root_family) == record@.family,
        r.root_age_ms == (match record@.started_at_ns {
            Some(started) => Some(
                ((if now_ns >= started {
                    now_ns - started
                } else {
                    0
                }) / 1_000_000) as u64,
            ),
            None => None,
        }),
        r.waited_ms == (probe.waited_ns / 1_000_000) as u64,
{
    let root_age_ms: Option<u64> = match record.started_at_ns {
        Some(started) => {
            let age: u128 = now_ns.saturating_sub(started) / 1_000_000;
            #[verifier::truncate]
            let short: u64 = age as u64;
            Some(short)
        },
        None => None,
    };
    let waited: u128 = probe.waited_ns / 1_000_000;
    #[verifier::truncate]
    let waited_ms: u64 = waited as u64;
    FenceRelease {
        reason,
        context,
        root_sid: probe.root_sid.clone(),
        root_primary: primary_in(record),
        root_family: clone_opt(&record.family),
        root_age_ms,
        waited_ms,
    }
}

impl TraceIngressState {
    /// Notes that a root's release was reported; returns whether it was not yet.
    pub fn mark_release_logged(&mut self, sid: &str) -> (r: bool)
        ensures
            r == !old(self).root(sid@).release_logged,
            final(self).model() == old(self).model().insert(
                sid@,
                RootModel { release_logged: true, ..old(self).root(sid@) },
            ),
            final(self).unidentified_open_connections == old(self).unidentified_open_connections,
    {
        let taken = self.roots.remove(sid);
        let mut record = match taken {
            Some(record) => record,
            None => RootRecord {
                worktree: None,
                family: None,
                argv: None,
                started_at_ns: None,
                reflog_start_offsets: None,
                mutating: None,
                target_repo_only: None,
                last_activity_ns: None,
                definitely_read_only: false,
                open_connections: None,
                close_marker_enqueued: false,
                finishing: false,
                release_logged: false,
            },
        };
        let fresh = !record.release_logged;
        record.release_logged = true;
        self.roots.insert(sid.to_owned(), record);
        assert(self.model() =~= old(self).model().insert(
            sid@,
            RootModel { release_logged: true, ..old(self).root(sid@) },
        ));
        fresh
    }
}

/// Judges the observed probes: the earliest hold, if any root still holds, and
/// a report for every root that is released for the first time. A root that was
/// cleared since it was probed fences nothing any more.
pub fn apply_fence(
    ingress: &mut TraceIngressState,
    counters: &mut FenceCounters,
    grace_ns: u64,
    probes: &Vec<RootFenceProbe>,
    now_ns: u128,
    context: &'static str,
) -> (r: FenceOutcome)
    ensures
        r.held is None <==> forall|i: int|
            0 <= i < probes@.len() && is_live(*old(ingress), #[trigger] probes@[i])
                ==> !(probes@[i].fence(grace_ns) is Held),
        r.held is Some ==> (exists|i: int|
            0 <= i < probes@.len() && is_live(*old(ingress), #[trigger] probes@[i])
                && probes@[i].fence(grace_ns) == RootFence::Held(r.held->0)),
        r.held is Some ==> (forall|i: int|
            0 <= i < probes@.len() && is_live(*old(ingress), #[trigger] probes@[i])
                && probes@[i].fence(grace_ns) is Held ==> r.held->0
                <= probes@[i].fence(grace_ns)->Held_0),
        forall|sid: Seq<char>| #[trigger]
            final(ingress).root(sid) == (RootModel {
                release_logged: old(ingress).root(sid).release_logged || releases(
                    *old(ingress),
                    grace_ns,
                    probes@,
                    sid,
                ),
                ..old(ingress).root(sid)
            }),
        forall|k: int|
            0 <= k < r.releases@.len() ==> !old(ingress).root(
                (#[trigger] r.releases@[k]).root_sid@,
            ).release_logged && exists|i: int|
                0 <= i < probes@.len() && is_live(*old(ingress), #[trigger] probes@[i])
                    && release_says(
                    r.releases@[k],
                    *old(ingress),
                    probes@[i],
                    grace_ns,
                    now_ns,
                    context@,
                ),
        forall|a: int, b: int|
            0 <= a < b < r.releases@.len() ==> (#[trigger] r.releases@[a]).root_sid@ != (
            #[trigger] r.releases@[b]).root_sid@,
        forall|sid: Seq<char>|
            #![trigger old(ingress).root(sid)]
            releases(*old(ingress), grace_ns, probes@, sid) && !old(ingress).root(
                sid,
            ).release_logged ==> exists|k: int|
                0 <= k < r.releases@.len() && (#[trigger] r.releases@[k]).root_sid@ == sid,
        final(counters).causal_grace_expirations == counted(
            old(counters).causal_grace_expirations,
            count_grace(r.releases@, true),
        ),
        final(counters).causal_fence_hard_cap_releases == counted(
            old(counters).causal_fence_hard_cap_releases,
            count_grace(r.releases@, false),
        ),
        final(ingress).unidentified_open_connections == old(ingress).unidentified_open_connections,
{
    let mut held: Option<u128> = None;
    let mut reports: Vec<FenceRelease> = Vec::new();
    let mut i: usize = 0;
    let ghost first = *ingress;
    while i < probes.len()
        invariant
            i <= probes.len(),
            first == *old(ingress),
            ingress.unidentified_open_connections == first.unidentified_open_connections,
            held is None <==> forall|j: int|
                0 <= j < i && is_live(first, #[trigger] probes@[j]) ==> !(probes@[j].fence(grace_ns)
                    is Held),
            held is Some ==> (exists|j: int|
                0 <= j < i && is_live(first, #[trigger] probes@[j]) && probes@[j].fence(grace_ns)
                    == RootFence::Held(held->0)),
            held is Some ==> (forall|j: int|
                0 <= j < i && is_live(first, #[trigger] probes@[j]) && probes@[j].fence(
                    grace_ns,
                ) is Held ==> held->0 <= probes@[j].fence(grace_ns)->Held_0),
            forall|sid: Seq<char>| #[trigger]
                ingress.root(sid) == (RootModel {
                    release_logged: first.root(sid).release_logged || releases(
                        first,
                        grace_ns,
                        probes@.take(i as int),
                        sid,
                    ),
                    ..first.root(sid)
                }),
            forall|k: int|
                0 <= k < reports@.len() ==> !first.root(
                    (#[trigger] reports@[k]).root_sid@,
                ).release_logged && ingress.root(reports@[k].root_sid@).release_logged
                    && exists|j: int|
                    0 <= j < i && is_live(first, #[trigger] probes@[j]) && release_says(
                        reports@[k],
                        first,
                        probes@[j],
                        grace_ns,
                        now_ns,
                        context@,
                    ),
            forall|a: int, b: int|
                0 <= a < b < reports@.len() ==> (#[trigger] reports@[a]).root_sid@ != (
                #[trigger] reports@[b]).root_sid@,
            forall|sid: Seq<char>|
                #![trigger first.root(sid)]
                releases(first, grace_ns, probes@.take(i as int), sid) && !first.root(
                    sid,
                ).release_logged ==> exists|k: int|
                    0 <= k < reports@.len() && (#[trigger] reports@[k]).root_sid@ == sid,
            counters.causal_grace_expirations == counted(
                old(counters).causal_grace_expirations,
                count_grace(reports@, true),
            ),
            counters.causal_fence_hard_cap_releases == counted(
                old(counters).causal_fence_hard_cap_releases,
                count_grace(reports@, false),
            ),
        decreases probes.len() - i,
    {
        let probe = &probes[i];
        let ghost now_known = *ingress;
        let ghost before = reports@;
        proof {
            lemma_releases_step(first, grace_ns, probes@, i as int);
            assert(ingress.root(probe.root_sid@) == (RootModel {
                release_logged: ingress.root(probe.root_sid@).release_logged,
                ..first.root(probe.root_sid@)
            }));
        }
        if ingress.open_root_may_mutate_family(probe.root_sid.as_str(), &None) {
            assert(is_live(first, probes@[i as int]));
            match classify_root_fence(grace_ns, probe) {
                RootFence::Held(retry_in) => {
                    let earlier = match held {
                        Some(earliest) => retry_in < earliest,
                        None => true,
                    };
                    if earlier {
                        held = Some(retry_in);
                    }
                },
                RootFence::Release(reason) => {
                    if ingress.mark_release_logged(probe.root_sid.as_str()) {
                        assert(ingress.model().contains_key(probe.root_sid@));
                        assert(ingress.model()[probe.root_sid@] == ingress.root(probe.root_sid@));
                        let record = ingress.roots.get(probe.root_sid.as_str());
                        let report = match record {
                            Some(record) => Some(
                                fence_release(record, probe, reason, now_ns, context),
                            ),
                            None => None,
                        };
                        match report {
                            Some(report) => {
                                if reason == ReleaseReason::CausalGraceExpired {
                                    counters.causal_grace_expirations =
                                    counters.causal_grace_expirations.saturating_add(1);
                                } else {
                                    counters.causal_fence_hard_cap_releases =
                                    counters.causal_fence_hard_cap_releases.saturating_add(1);
                                }
                                reports.push(report);
                            },
                            None => {},
                        }
                        assert(reports@.drop_last() =~= before);
                        assert(reports@[before.len() as int].root_sid@ == probe.root_sid@);
                    }
                },
                RootFence::Open => {},
            }
        }
        proof {
            assert forall|sid: Seq<char>| #[trigger]
                ingress.root(sid) == (RootModel {
                    release_logged: first.root(sid).release_logged || releases(
                        first,
                        grace_ns,
                        probes@.take(i + 1),
                        sid,
                    ),
                    ..first.root(sid)
                }) by {
                assert(ingress.model()[sid] == ingress.root(sid));
                assert(now_known.model()[sid] == now_known.root(sid));
            }
        }
        i += 1;
    }
    assert(probes@.take(probes@.len() as int) =~= probes@);
    FenceOutcome { held, releases: reports }
}

proof fn lemma_releases_step(
    ingress: TraceIngressState,
    grace: u64,
    probes: Seq<RootFenceProbe>,
    i: int,
)
    requires
        0 <= i < probes.len(),
    ensures
        forall|sid: Seq<char>| #[trigger]
            releases(ingress, grace, probes.take(i + 1), sid) == (releases(
                ingress,
                grace,
                probes.take(i),
                sid,
            ) || (probes[i].root_sid@ == sid && is_live(ingress, probes[i]) && probes[i].fence(
                grace,
            ) is Release)),
{
    let some = probes.take(i);
    let more = probes.take(i + 1);
    assert forall|sid: Seq<char>| #[trigger]
        releases(ingress, grace, more, sid) == (releases(ingress, grace, some, sid) || (
        probes[i].root_sid@ == sid && is_live(ingress, probes[i]) && probes[i].fence(
            grace,
        ) is Release)) by {
        if releases(ingress, grace, some, sid) {
            let j = choose|j: int|
                0 <= j < some.len() && (#[trigger] some[j]).root_sid@ == sid && is_live(
                    ingress,
                    some[j],
                ) && some[j].fence(grace) is Release;
            assert(more[j] == some[j]);
        }
        if releases(ingress, grace, more, sid) {
            let j = choose|j: int|
                0 <= j < more.len() && (#[trigger] more[j]).root_sid@ == sid && is_live(
                    ingress,
                    more[j],
                ) && more[j].fence(grace) is Release;
            if j < i {
                assert(some[j] == more[j]);
            }
        }
        assert(more[i] == probes[i]);
    }
}

/// What a sequencer entry asks: the roots of its family, other than its own,
/// that did not start after it.
pub fn entry_query(
    family: &str,
    started_at_ns: u128,
    entry_root_sid: Option<String>,
    waited_ns: u128,
) -> (r: FenceQuery)
    ensures
        opt_view(r.family) == Some(family@),
        r.not_after_ns == Some(started_at_ns),
        r.except_root == entry_root_sid,
        r.clock == WaitClock::Fixed(waited_ns),
{
    FenceQuery {
        family: Some(family.to_owned()),
        not_after_ns: Some(started_at_ns),
        except_root: entry_root_sid,
        clock: WaitClock::Fixed(waited_ns),
    }
}

/// What a wait for everything asks: every root, on how long nothing was heard of it.
pub fn await_query(now_ns: u128) -> (r: FenceQuery)
    ensures
        r.family is None,
        r.not_after_ns is None,
        r.except_root is None,
        r.clock == WaitClock::SinceActivity(now_ns),
{
    FenceQuery {
        family: None,
        not_after_ns: None,
        except_root: None,
        clock: WaitClock::SinceActivity(now_ns),
    }
}

/// What a wait for one family, or for all, asks: the roots that did not start
/// after the wait did, on the wait's own clock.
pub fn scope_query(family: Option<String>, started_ns: u128, waited_ns: u128) -> (r: FenceQuery)
    ensures
        r.family == family,
        r.not_after_ns == Some(started_ns),
        r.except_root is None,
        r.clock == WaitClock::Fixed(waited_ns),
{
    FenceQuery {
        family,
        not_after_ns: Some(started_ns),
        except_root: None,
        clock: WaitClock::Fixed(waited_ns),
    }
}

} // verus!
