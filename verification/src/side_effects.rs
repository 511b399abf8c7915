//! What follows from a finished command: which steps are taken, in which
//! order, and what each of them comes to.
use crate::commands::{
    all_picked, find_first, first_picked, head, head_scope, moved_change, new_oids, real_change,
    AppliedCommand, CommandFacts, NormalizedCommand, PullStrategy, RefChange, RefFilter, RefRule,
    SemanticEvent, StashOpKind,
};
use crate::pending::{pending_sources, PendingRewrites};
use crate::rewrite::{
    cherry_pick_destination_commits, first_head_old, first_head_transition_old,
    plan_non_ff_rewrites, rebase_start_of, rewrite_steps_of, steps_view,
    strict_rebase_original_head_from_command, Ancestry, PendingRebase, RewriteStep,
};
use crate::sources::{calls, cherry_pick_command_has_flag};
use crate::text::{clone_strings, concat, opt_view, str_eq, views};
use vstd::prelude::*;

verus! {

/// When the transcripts are swept.
#[derive(Debug, Clone, Copy, PartialEq, Eq, Structural)]
pub enum SweepTrigger {
    PostCommit,
    PostPush,
}

/// One step of what follows from a command.
#[derive(Debug, Clone, Copy, PartialEq, Eq, Structural)]
pub enum EffectStep {
    /// Forget the rebase that was given up.
    ClearRebase,
    /// Look for rewritten history.
    DetectRewrites,
    /// Note where a rebase that stopped had started.
    NoteStoppedRebase,
    /// Note what a cherry-pick that stopped has still to apply.
    NoteStoppedCherryPick,
    /// Take up the event at this place.
    Event(usize),
    /// Carry the working log over to the branch that was checked out.
    Checkout,
    /// Carry the working log over a pull that went forward.
    PullFastForward,
    /// Take up the ref update at this place.
    RefUpdate(usize),
    /// Sweep the transcripts.
    Sweep(SweepTrigger),
}

/// Why what follows from a command could not be done.
#[derive(Debug)]
pub enum SideEffectError {
    /// A rebase without a worktree.
    RebaseWithoutWorktree { sid: String },
    /// A cherry-pick without a worktree.
    CherryPickWithoutWorktree { sid: String },
    /// A cherry-pick that made commits from no head.
    CherryPickWithoutHead { sid: String },
    /// Git could not be asked.
    Git { reason: String },
}

impl SideEffectError {
    /// The error in words.
    pub open spec fn words(self) -> Seq<char> {
        match self {
            SideEffectError::RebaseWithoutWorktree { sid } =>
                "rebase side-effect state requires worktree sid="@ + sid@,
            SideEffectError::CherryPickWithoutWorktree { sid } =>
                "cherry-pick side-effect state requires worktree sid="@ + sid@,
            SideEffectError::CherryPickWithoutHead { sid } =>
                "cherry-pick complete missing original HEAD sid="@ + sid@,
            SideEffectError::Git { reason } => reason@,
        }
    }

    /// The error in words.
    pub fn message(&self) -> (r: String)
        ensures
            r@ == self.words(),
    {
        match self {
            SideEffectError::RebaseWithoutWorktree { sid } => concat(
                "rebase side-effect state requires worktree sid=",
                sid.as_str(),
            ),
            SideEffectError::CherryPickWithoutWorktree { sid } => concat(
                "cherry-pick side-effect state requires worktree sid=",
                sid.as_str(),
            ),
            SideEffectError::CherryPickWithoutHead { sid } => concat(
                "cherry-pick complete missing original HEAD sid=",
                sid.as_str(),
            ),
            SideEffectError::Git { reason } => reason.clone(),
        }
    }
}

/// Whether an event is a pull.
pub open spec fn is_pull(event: SemanticEvent) -> bool {
    event is PullCompleted
}

/// Whether an event is a pull that rebased.
pub open spec fn is_rebasing_pull(event: SemanticEvent) -> bool {
    event matches SemanticEvent::PullCompleted { strategy } && (strategy == PullStrategy::Rebase
        || strategy == PullStrategy::RebaseMerges)
}

/// Whether an event is handled on its own, so that the moves of refs say nothing more.
pub open spec fn is_own_rewrite(event: SemanticEvent) -> bool {
    event is CommitAmended || event is CommitCreated || event is CherryPickComplete
        || event is Reset
}

/// Whether an event puts stashed changes back.
pub open spec fn is_stash_restore(event: SemanticEvent) -> bool {
    event matches SemanticEvent::StashOperation { kind, .. } && (kind == StashOpKind::Pop || kind
        == StashOpKind::Apply || kind == StashOpKind::Branch)
}

/// Whether an event made a commit.
pub open spec fn is_commit(event: SemanticEvent) -> bool {
    event is CommitCreated || event is CommitAmended
}

/// The kinds of events that decide on the steps.
#[derive(Debug, Clone, Copy, PartialEq, Eq, Structural)]
pub enum EventTest {
    Pull,
    RebasingPull,
    OwnRewrite,
    StashRestore,
    MergeSquash,
    Commit,
    Push,
}

/// Whether an event is of a kind.
pub open spec fn meets(event: SemanticEvent, test: EventTest) -> bool {
    match test {
        EventTest::Pull => is_pull(event),
        EventTest::RebasingPull => is_rebasing_pull(event),
        EventTest::OwnRewrite => is_own_rewrite(event),
        EventTest::StashRestore => is_stash_restore(event),
        EventTest::MergeSquash => event is MergeSquash,
        EventTest::Commit => is_commit(event),
        EventTest::Push => event is PushCompleted,
    }
}

/// Whether there is an event of a kind.
pub open spec fn some_event(events: Seq<SemanticEvent>, test: EventTest) -> bool {
    exists|i: int| 0 <= i < events.len() && meets(#[trigger] events[i], test)
}

fn event_meets(event: &SemanticEvent, test: EventTest) -> (r: bool)
    ensures
        r == meets(*event, test),
{
    match test {
        EventTest::Pull => matches!(event, SemanticEvent::PullCompleted { .. }),
        EventTest::RebasingPull => match event {
            SemanticEvent::PullCompleted { strategy } => *strategy == PullStrategy::Rebase
                || *strategy == PullStrategy::RebaseMerges,
            _ => false,
        },
        EventTest::OwnRewrite => match event {
            SemanticEvent::CommitAmended { .. } => true,
            SemanticEvent::CommitCreated { .. } => true,
            SemanticEvent::CherryPickComplete { .. } => true,
            SemanticEvent::Reset { .. } => true,
            _ => false,
        },
        EventTest::StashRestore => match event {
            SemanticEvent::StashOperation { kind, .. } => *kind == StashOpKind::Pop || *kind
                == StashOpKind::Apply || *kind == StashOpKind::Branch,
            _ => false,
        },
        EventTest::MergeSquash => matches!(event, SemanticEvent::MergeSquash { .. }),
        EventTest::Commit => match event {
            SemanticEvent::CommitAmended { .. } => true,
            SemanticEvent::CommitCreated { .. } => true,
            _ => false,
        },
        EventTest::Push => matches!(event, SemanticEvent::PushCompleted { .. }),
    }
}

fn any_event(events: &Vec<SemanticEvent>, test: EventTest) -> (r: bool)
    ensures
        r == some_event(events@, test),
{
    let mut i: usize = 0;
    while i < events.len()
        invariant
            i <= events.len(),
            forall|j: int| 0 <= j < i ==> !meets(#[trigger] events@[j], test),
        decreases events.len() - i,
    {
        if event_meets(&events[i], test) {
            return true;
        }
        i += 1;
    }
    false
}

/// Whether a command was given this argument.
pub open spec fn has_arg(cmd: NormalizedCommand, arg: Seq<char>) -> bool {
    views(cmd.invoked_args@).contains(arg)
}

/// Whether a command is one of those that switch branches.
pub open spec fn switches(cmd: NormalizedCommand) -> bool {
    cmd.primary() == Some("checkout"@) || cmd.primary() == Some("switch"@)
}

/// Whether a command gives a rebase up.
pub open spec fn aborts_rebase(cmd: NormalizedCommand) -> bool {
    cmd.primary() == Some("rebase"@) && has_arg(cmd, "--abort"@)
}

/// Whether a command replays commits: a rebase that is not given up, or a pull that rebased.
pub open spec fn replays(cmd: NormalizedCommand, events: Seq<SemanticEvent>) -> bool {
    ||| cmd.primary() == Some("rebase"@) && !has_arg(cmd, "--abort"@)
    ||| cmd.primary() == Some("pull"@) && some_event(events, EventTest::RebasingPull)
}

/// Whether the ref moves of a command are looked at for rewritten history.
pub open spec fn detects(cmd: NormalizedCommand, events: Seq<SemanticEvent>) -> bool {
    cmd.exit_code == 0 && (replays(cmd, events) || !(aborts_rebase(cmd) || some_event(
        events,
        EventTest::OwnRewrite,
    ) || switches(cmd) || cmd.primary() == Some("branch"@) || cmd.primary() == Some("stash"@)))
}

/// The first move of `HEAD` between objects.
pub open spec fn head_start(cmd: NormalizedCommand) -> Option<RefChange> {
    first_picked(cmd.ref_changes@, real_change(head_scope()))
}

/// Whether a command that failed can have stopped a rebase.
pub open spec fn rebase_like(cmd: NormalizedCommand, events: Seq<SemanticEvent>) -> bool {
    ||| cmd.primary() == Some("rebase"@)
    ||| cmd.primary() == Some("pull"@) && (some_event(events, EventTest::RebasingPull)
        || head_start(cmd) is Some)
}

/// Whether a command asks for its changes to be merged.
pub open spec fn asks_merge(facts: CommandFacts) -> bool {
    views(facts.parsed.command_args@).contains("--merge"@) || views(
        facts.parsed.command_args@,
    ).contains("-m"@)
}

/// Whether a command that failed still did its work: a checkout that merged with
/// conflicts, a stash that was put back with conflicts, a squashed merge.
pub open spec fn works_though_failed(
    cmd: NormalizedCommand,
    events: Seq<SemanticEvent>,
    facts: CommandFacts,
) -> bool {
    ||| switches(cmd) && asks_merge(facts)
    ||| cmd.primary() == Some("stash"@) && some_event(events, EventTest::StashRestore)
    ||| cmd.primary() == Some("merge"@) && some_event(events, EventTest::MergeSquash)
}

/// When the transcripts are swept after these events, in order.
pub open spec fn sweeps_for(events: Seq<SemanticEvent>) -> Seq<SweepTrigger> {
    let commit = if some_event(events, EventTest::Commit) {
        seq![SweepTrigger::PostCommit]
    } else {
        Seq::empty()
    };
    if some_event(events, EventTest::Push) {
        commit.push(SweepTrigger::PostPush)
    } else {
        commit
    }
}

/// When the transcripts are swept after these events.
pub fn transcript_sweep_triggers_for_events(events: &Vec<SemanticEvent>) -> (r: Vec<SweepTrigger>)
    ensures
        r@ == sweeps_for(events@),
{
    let mut out: Vec<SweepTrigger> = Vec::new();
    if any_event(events, EventTest::Commit) {
        out.push(SweepTrigger::PostCommit);
    }
    if any_event(events, EventTest::Push) {
        out.push(SweepTrigger::PostPush);
    }
    assert(out@ =~= sweeps_for(events@));
    out
}

/// A step, if it is taken.
pub open spec fn step_if(condition: bool, step: EffectStep) -> Seq<EffectStep> {
    if condition {
        seq![step]
    } else {
        Seq::empty()
    }
}

/// One step for each event.
pub open spec fn event_steps(n: nat) -> Seq<EffectStep> {
    Seq::new(n, |i: int| EffectStep::Event(i as usize))
}

/// One step for each ref update among the first `n` events.
pub open spec fn ref_update_steps(events: Seq<SemanticEvent>, n: nat) -> Seq<EffectStep>
    decreases n,
{
    if n == 0 {
        Seq::empty()
    } else {
        let before = ref_update_steps(events, (n - 1) as nat);
        if events[n - 1] is RefUpdated {
            before.push(EffectStep::RefUpdate((n - 1) as usize))
        } else {
            before
        }
    }
}

/// One step for each sweep; a push that only pretended causes none.
pub open spec fn sweep_steps(events: Seq<SemanticEvent>, dry_run: bool) -> Seq<EffectStep> {
    step_if(some_event(events, EventTest::Commit), EffectStep::Sweep(SweepTrigger::PostCommit))
        + step_if(
        some_event(events, EventTest::Push) && !dry_run,
        EffectStep::Sweep(SweepTrigger::PostPush),
    )
}

/// The steps up to where a command that failed ends.
pub open spec fn first_steps(cmd: NormalizedCommand, events: Seq<SemanticEvent>) -> Seq<EffectStep> {
    step_if(aborts_rebase(cmd) && cmd.worktree is Some, EffectStep::ClearRebase) + step_if(
        detects(cmd, events),
        EffectStep::DetectRewrites,
    ) + step_if(
        cmd.exit_code != 0 && rebase_like(cmd, events),
        EffectStep::NoteStoppedRebase,
    ) + step_if(
        cmd.exit_code != 0 && cmd.primary() == Some("cherry-pick"@),
        EffectStep::NoteStoppedCherryPick,
    )
}

/// The steps of a command that did its work.
pub open spec fn last_steps(
    cmd: NormalizedCommand,
    events: Seq<SemanticEvent>,
    facts: CommandFacts,
) -> Seq<EffectStep> {
    (if cmd.worktree is Some {
        event_steps(events.len())
    } else {
        Seq::empty()
    }) + step_if(switches(cmd), EffectStep::Checkout) + step_if(
        some_event(events, EventTest::Pull) && cmd.worktree is Some,
        EffectStep::PullFastForward,
    ) + (if cmd.primary() == Some("update-ref"@) && cmd.worktree is Some {
        ref_update_steps(events, events.len())
    } else {
        Seq::empty()
    }) + sweep_steps(events, facts.dry_run)
}

/// All steps that follow from a command, in order.
pub open spec fn steps_of(
    cmd: NormalizedCommand,
    events: Seq<SemanticEvent>,
    facts: CommandFacts,
) -> Seq<EffectStep> {
    if cmd.exit_code != 0 && !works_though_failed(cmd, events, facts) {
        first_steps(cmd, events)
    } else {
        first_steps(cmd, events) + last_steps(cmd, events, facts)
    }
}

fn is_switching(cmd: &NormalizedCommand) -> (r: bool)
    ensures
        r == switches(*cmd),
{
    cmd.is("checkout") || cmd.is("switch")
}

/// Whether the command replays commits: a rebase that was not given up, or a pull that
/// rebases.
pub fn is_replaying(applied: &AppliedCommand) -> (r: bool)
    ensures
        r == replays(applied.command, applied.events@),
{
    let cmd = &applied.command;
    (cmd.is("rebase") && !cmd.has_arg("--abort")) || (cmd.is("pull") && any_event(
        &applied.events,
        EventTest::RebasingPull,
    ))
}

fn is_detecting(applied: &AppliedCommand) -> (r: bool)
    ensures
        r == detects(applied.command, applied.events@),
{
    let cmd = &applied.command;
    if cmd.exit_code != 0 {
        return false;
    }
    is_replaying(applied) || !((cmd.is("rebase") && cmd.has_arg("--abort")) || any_event(
        &applied.events,
        EventTest::OwnRewrite,
    ) || is_switching(cmd) || cmd.is("branch") || cmd.is("stash"))
}

fn is_rebase_like(applied: &AppliedCommand) -> (r: bool)
    ensures
        r == rebase_like(applied.command, applied.events@),
{
    let cmd = &applied.command;
    cmd.is("rebase") || (cmd.is("pull") && (any_event(&applied.events, EventTest::RebasingPull)
        || find_first(&cmd.ref_changes, &RefFilter::between_objects(head())).is_some()))
}

fn is_asking_merge(facts: &CommandFacts) -> (r: bool)
    ensures
        r == asks_merge(*facts),
{
    facts.has_command_flag("--merge") || facts.has_command_flag("-m")
}

fn is_working_though_failed(applied: &AppliedCommand, facts: &CommandFacts) -> (r: bool)
    ensures
        r == works_though_failed(applied.command, applied.events@, *facts),
{
    let cmd = &applied.command;
    (is_switching(cmd) && is_asking_merge(facts)) || (cmd.is("stash") && any_event(
        &applied.events,
        EventTest::StashRestore,
    )) || (cmd.is("merge") && any_event(&applied.events, EventTest::MergeSquash))
}

fn plan_first_steps(applied: &AppliedCommand) -> (r: Vec<EffectStep>)
    ensures
        r@ == first_steps(applied.command, applied.events@),
{
    let cmd = &applied.command;
    let mut out: Vec<EffectStep> = Vec::new();
    if cmd.is("rebase") && cmd.has_arg("--abort") && cmd.worktree.is_some() {
        out.push(EffectStep::ClearRebase);
    }
    if is_detecting(applied) {
        out.push(EffectStep::DetectRewrites);
    }
    if cmd.exit_code != 0 && is_rebase_like(applied) {
        out.push(EffectStep::NoteStoppedRebase);
    }
    if cmd.exit_code != 0 && cmd.is("cherry-pick") {
        out.push(EffectStep::NoteStoppedCherryPick);
    }
    assert(out@ =~= first_steps(applied.command, applied.events@));
    out
}

#[verifier::rlimit(60)]
fn plan_last_steps(out: &mut Vec<EffectStep>, applied: &AppliedCommand, facts: &CommandFacts)
    ensures
        final(out)@ == old(out)@ + last_steps(applied.command, applied.events@, *facts),
{
    let cmd = &applied.command;
    let events = &applied.events;
    let ghost start = out@;
    let n: usize = events.len();
    if cmd.worktree.is_some() {
        let mut i: usize = 0;
        while i < n
            invariant
                i <= n,
                n == events@.len(),
                out@ =~= start + event_steps(i as nat),
            decreases n - i,
        {
            out.push(EffectStep::Event(i));
            i += 1;
        }
    }
    let ghost events_done = if cmd.worktree is Some {
        event_steps(events@.len())
    } else {
        Seq::empty()
    };
    assert(out@ =~= start + events_done);
    if is_switching(cmd) {
        out.push(EffectStep::Checkout);
    }
    if cmd.worktree.is_some() && any_event(events, EventTest::Pull) {
        out.push(EffectStep::PullFastForward);
    }
    let ghost middle = events_done + step_if(switches(*cmd), EffectStep::Checkout) + step_if(
        some_event(events@, EventTest::Pull) && cmd.worktree is Some,
        EffectStep::PullFastForward,
    );
    assert(out@ =~= start + middle);
    let ghost updates = if cmd.primary() == Some("update-ref"@) && cmd.worktree is Some {
        ref_update_steps(events@, events@.len())
    } else {
        Seq::empty()
    };
    if cmd.is("update-ref") && cmd.worktree.is_some() {
        let mut i: usize = 0;
        assert(out@ =~= start + middle + ref_update_steps(events@, 0));
        while i < n
            invariant
                i <= n,
                n == events@.len(),
                out@ =~= start + middle + ref_update_steps(events@, i as nat),
            decreases n - i,
        {
            if let SemanticEvent::RefUpdated { .. } = &events[i] {
                out.push(EffectStep::RefUpdate(i));
            }
            i += 1;
        }
    }
    assert(out@ =~= start + (middle + updates));
    if any_event(events, EventTest::Commit) {
        out.push(EffectStep::Sweep(SweepTrigger::PostCommit));
    }
    if any_event(events, EventTest::Push) && !facts.dry_run {
        out.push(EffectStep::Sweep(SweepTrigger::PostPush));
    }
    assert(out@ =~= start + (middle + updates + sweep_steps(events@, facts.dry_run)));
}

/// The steps that follow from a command, in the order in which they are
/// taken; the first that fails ends them.
pub fn side_effect_steps(applied: &AppliedCommand, facts: &CommandFacts) -> (r: Vec<EffectStep>)
    ensures
        r@ == steps_of(applied.command, applied.events@, *facts),
{
    let mut out = plan_first_steps(applied);
    if applied.command.exit_code != 0 && !is_working_though_failed(applied, facts) {
        return out;
    }
    plan_last_steps(&mut out, applied, facts);
    out
}

/// Of a command that failed and did no work no event is taken up, no working
/// log is carried over and no transcript is swept.
pub proof fn law_failed_commands_have_no_effects(
    cmd: NormalizedCommand,
    events: Seq<SemanticEvent>,
    facts: CommandFacts,
    i: int,
)
    requires
        cmd.exit_code != 0,
        !works_though_failed(cmd, events, facts),
        0 <= i < steps_of(cmd, events, facts).len(),
    ensures
        ({
            let step = steps_of(cmd, events, facts)[i];
            step is ClearRebase || step is NoteStoppedRebase || step is NoteStoppedCherryPick
        }),
{
}

/// A rebase that is given up is never taken for rewritten history.
pub proof fn law_an_aborted_rebase_rewrites_nothing(
    cmd: NormalizedCommand,
    events: Seq<SemanticEvent>,
)
    requires
        aborts_rebase(cmd),
    ensures
        !detects(cmd, events),
{
    reveal_strlit("rebase");
    reveal_strlit("pull");
    assert("rebase"@.len() != "pull"@.len());
}

/// The commits that a cherry-pick names, read from a head; an empty one stands for none.
#[derive(Debug)]
pub struct SourceAnswer {
    pub head: String,
    pub sources: Result<Vec<String>, String>,
}

/// The commits that were read from a head, or why they could not be; nothing was read from
/// a head that was not asked about.
pub open spec fn sources_read_from(answers: Seq<SourceAnswer>, head: Seq<char>) -> Result<
    Seq<Seq<char>>,
    String,
>
    decreases answers.len(),
{
    if answers.len() == 0 {
        Ok(Seq::empty())
    } else if answers[0].head@ == head {
        match answers[0].sources {
            Ok(sources) => Ok(views(sources@)),
            Err(reason) => Err(reason),
        }
    } else {
        sources_read_from(answers.skip(1), head)
    }
}

/// The commits that were read from a head, or why they could not be.
pub fn find_sources(answers: &Vec<SourceAnswer>, head: &str) -> (r: Result<Vec<String>, String>)
    ensures
        (match r {
            Ok(sources) => Ok(views(sources@)),
            Err(reason) => Err(reason),
        }) == sources_read_from(answers@, head@),
{
    let mut i: usize = 0;
    assert(answers@.skip(0) =~= answers@);
    while i < answers.len()
        invariant
            i <= answers.len(),
            sources_read_from(answers@, head@) == sources_read_from(answers@.skip(i as int), head@),
        decreases answers.len() - i,
    {
        assert(answers@.skip(i as int)[0] == answers@[i as int]);
        assert(answers@.skip(i as int).skip(1) =~= answers@.skip(i + 1));
        if str_eq(answers[i].head.as_str(), head) {
            return match &answers[i].sources {
                Ok(sources) => Ok(clone_strings(sources)),
                Err(reason) => Err(reason.clone()),
            };
        }
        i += 1;
    }
    let none: Vec<String> = Vec::new();
    assert(views(none@) =~= Seq::<Seq<char>>::empty());
    Ok(none)
}

/// The commit that a stash was made on, where it is known. The list holds each stash
/// before the commit that it was made on.
pub open spec fn known_base(bases: Seq<(String, String)>, stash: Seq<char>) -> Option<Seq<char>>
    decreases bases.len(),
{
    if bases.len() == 0 {
        None
    } else if bases[0].0@ == stash {
        Some(bases[0].1@)
    } else {
        known_base(bases.skip(1), stash)
    }
}

/// The commit that a stash was made on, where it is known.
pub fn find_base(bases: &Vec<(String, String)>, stash: &str) -> (r: Option<String>)
    ensures
        opt_view(r) == known_base(bases@, stash@),
{
    let mut i: usize = 0;
    assert(bases@.skip(0) =~= bases@);
    while i < bases.len()
        invariant
            i <= bases.len(),
            known_base(bases@, stash@) == known_base(bases@.skip(i as int), stash@),
        decreases bases.len() - i,
    {
        assert(bases@.skip(i as int)[0] == bases@[i as int]);
        assert(bases@.skip(i as int).skip(1) =~= bases@.skip(i + 1));
        if str_eq(bases[i].0.as_str(), stash) {
            return Some(bases[i].1.clone());
        }
        i += 1;
    }
    None
}

/// What git answered on a command.
#[derive(Debug)]
pub struct CommandAnswers {
    /// Which of the commits that the command names comes before which.
    pub ancestry: Ancestry,
    /// The commits that a cherry-pick names, read where it started.
    pub explicit_sources: Result<Vec<String>, String>,
    /// The commits that a cherry-pick names, read from each head that its events give.
    pub event_sources: Vec<SourceAnswer>,
    /// The commits that a revert names.
    pub revert_sources: Result<Vec<String>, String>,
    /// Whether a cherry-pick is under way in the worktree.
    pub cherry_pick_under_way: bool,
    /// The commits that the stashes were made on, each behind its stash.
    pub stash_bases: Vec<(String, String)>,
}

/// Looks for rewritten history; a rebase takes up what it left when it stopped.
pub fn detect_non_ff_rewrites(
    pending: &mut PendingRewrites,
    key: &str,
    cmd: &NormalizedCommand,
    facts: &CommandFacts,
    lite: bool,
    known: &Ancestry,
) -> (r: Vec<RewriteStep>)
    ensures
        ({
            let rebase = cmd.primary() == Some("rebase"@);
            let left = old(pending).rebases@;
            &&& steps_view(r@) == rewrite_steps_of(
                *cmd,
                facts.rebase_control_mode,
                if rebase && left.contains_key(key@) {
                    Some(left[key@])
                } else {
                    None
                },
                lite,
                *known,
            )
            &&& final(pending).rebases@ == if rebase {
                left.remove(key@)
            } else {
                left
            }
        }),
        final(pending).cherry_picks == old(pending).cherry_picks,
        final(pending).no_commits == old(pending).no_commits,
        final(pending).squash_merges == old(pending).squash_merges,
{
    let left = if cmd.is("rebase") {
        pending.take_pending_rebase_original_head_for_worktree(key)
    } else {
        None
    };
    plan_non_ff_rewrites(cmd, facts.rebase_control_mode, &left, lite, known)
}

/// Where a rebase that stopped had started.
pub open spec fn stopped_rebase_start(cmd: NormalizedCommand, facts: CommandFacts) -> Option<
    Seq<char>,
> {
    rebase_start_of(
        cmd.ref_changes@,
        opt_view(facts.rebase_branch_arg),
        match head_start(cmd) {
            Some(change) => change.old@,
            None => Seq::empty(),
        },
    )
}

/// Whether a noted rebase starts and goes where it should.
pub open spec fn notes_rebase(
    noted: PendingRebase,
    original_head: Seq<char>,
    start: Option<RefChange>,
) -> bool {
    &&& noted.original_head@ == original_head
    &&& opt_view(noted.onto) == match start {
        Some(change) => Some(change.new@),
        None => None,
    }
}

/// Whether what is noted of rebases is right once one stopped.
pub open spec fn rebase_noted(
    before: Map<Seq<char>, PendingRebase>,
    after: Map<Seq<char>, PendingRebase>,
    key: Seq<char>,
    cmd: NormalizedCommand,
    facts: CommandFacts,
) -> bool {
    let start = stopped_rebase_start(cmd, facts);
    if has_arg(cmd, "--abort"@) {
        after == before.remove(key)
    } else if facts.rebase_control_mode || start is None {
        after == before
    } else {
        &&& after.contains_key(key)
        &&& after == before.insert(key, after[key])
        &&& notes_rebase(after[key], start->0, head_start(cmd))
    }
}

/// Notes a rebase that stopped: where it had started and what it went onto.
/// One that is given up is forgotten; one that was only steered stays as it is.
/// `key` is the worktree's, where the command has one.
pub fn note_stopped_rebase(
    pending: &mut PendingRewrites,
    key: &Option<String>,
    cmd: &NormalizedCommand,
    facts: &CommandFacts,
) -> (r: Result<(), SideEffectError>)
    ensures
        r is Err <==> *key is None,
        r is Err ==> r->Err_0 == (SideEffectError::RebaseWithoutWorktree { sid: cmd.root_sid })
            && *final(pending) == *old(pending),
        r is Ok ==> rebase_noted(
            old(pending).rebases@,
            final(pending).rebases@,
            (*key)->0@,
            *cmd,
            *facts,
        ),
        final(pending).cherry_picks == old(pending).cherry_picks,
        final(pending).no_commits == old(pending).no_commits,
        final(pending).squash_merges == old(pending).squash_merges,
{
    let key = match key {
        Some(key) => key,
        None => {
            return Err(SideEffectError::RebaseWithoutWorktree { sid: cmd.root_sid.clone() });
        },
    };
    if cmd.has_arg("--abort") {
        pending.clear_pending_rebase_original_head_for_worktree(key.as_str());
        return Ok(());
    }
    if facts.rebase_control_mode {
        return Ok(());
    }
    let start = find_first(&cmd.ref_changes, &RefFilter::between_objects(head()));
    let (seen, onto) = match start {
        Some(change) => (change.old.clone(), Some(change.new.clone())),
        None => (String::new(), None),
    };
    assert(head_start(*cmd) is None ==> seen@ =~= Seq::<char>::empty());
    let found = strict_rebase_original_head_from_command(
        cmd,
        &facts.rebase_branch_arg,
        seen.as_str(),
    );
    if let Some(original_head) = found {
        pending.set_pending_rebase_original_head_for_worktree(key.clone(), original_head, onto);
    }
    Ok(())
}

/// Commits that were picked, and what they became.
#[derive(Debug)]
pub struct CherryPickRewrite {
    pub original_head: String,
    pub sources: Vec<String>,
    pub destinations: Vec<String>,
}

/// What a cherry-pick that stopped comes to: the commits that it did apply are
/// rewritten first, then `remaining` is noted as what it has still to apply.
#[derive(Debug)]
pub struct StoppedCherryPick {
    pub rewrite: Option<CherryPickRewrite>,
    pub remaining: Option<Vec<String>>,
}

/// The sources of a cherry-pick that stopped, and whether they were those left
/// over from before.
pub struct StoppedSources {
    pub sources: Seq<Seq<char>>,
    pub left_over: bool,
}

/// Whether git has to be asked for the sources of a cherry-pick that stopped.
pub open spec fn asks_for_sources(cmd: NormalizedCommand, under_way: bool) -> bool {
    cmd.cherry_pick_source_oids@.len() == 0 && (all_picked(
        cmd.ref_changes@,
        moved_change(head_scope()),
    ).len() > 0 || under_way)
}

/// The sources of a cherry-pick that stopped: those that were seen, else those
/// that it names, else, when it was resumed or skipped a commit, those left over.
pub open spec fn stopped_sources(
    cmd: NormalizedCommand,
    asked: Seq<Seq<char>>,
    under_way: bool,
    resumed: bool,
    left: Seq<Seq<char>>,
) -> StoppedSources {
    let seen = if asks_for_sources(cmd, under_way) {
        asked
    } else {
        views(cmd.cherry_pick_source_oids@)
    };
    if seen.len() == 0 && resumed {
        StoppedSources { sources: left, left_over: left.len() > 0 }
    } else {
        StoppedSources { sources: seen, left_over: false }
    }
}

/// How many sources a cherry-pick that made `made` commits has dealt with.
pub open spec fn sources_done(sources: nat, skipped: nat, made: nat) -> nat {
    let open = if sources >= skipped {
        (sources - skipped) as nat
    } else {
        0
    };
    let done = skipped + if made <= open {
        made
    } else {
        open
    };
    if done <= sources {
        done
    } else {
        sources
    }
}

/// The texts behind the first `n`.
pub open spec fn behind(list: Seq<Seq<char>>, n: nat) -> Seq<Seq<char>> {
    if n <= list.len() {
        list.skip(n as int)
    } else {
        Seq::empty()
    }
}

/// Whether a plan for a cherry-pick that stopped is the right one.
pub open spec fn stopped_plan(
    plan: StoppedCherryPick,
    cmd: NormalizedCommand,
    found: StoppedSources,
    resumed: bool,
    skip: bool,
) -> bool {
    let made = new_oids(all_picked(cmd.ref_changes@, moved_change(head_scope())));
    let skipped: nat = if skip && found.left_over {
        1
    } else {
        0
    };
    let applied = behind(found.sources, skipped);
    &&& plan.rewrite is Some <==> made.len() > 0 && applied.len() > 0
    &&& plan.rewrite is Some ==> {
        &&& Some(plan.rewrite->0.original_head@) == first_head_old(cmd.ref_changes@)
        &&& views(plan.rewrite->0.sources@) == applied
        &&& views(plan.rewrite->0.destinations@) == made
    }
    &&& plan.remaining is Some <==> found.sources.len() > 0 || resumed
    &&& plan.remaining is Some ==> views((plan.remaining->0)@) == found.sources.skip(
        sources_done(found.sources.len(), skipped, made.len()) as int,
    )
}

fn from_place(list: &Vec<String>, n: usize) -> (r: Vec<String>)
    ensures
        views(r@) == behind(views(list@), n as nat),
{
    let mut out: Vec<String> = Vec::new();
    assert(views(out@) =~= Seq::<Seq<char>>::empty());
    if n > list.len() {
        return out;
    }
    let mut i: usize = n;
    while i < list.len()
        invariant
            n <= i <= list.len(),
            views(out@) =~= views(list@).subrange(n as int, i as int),
        decreases list.len() - i,
    {
        let ghost was = views(out@);
        out.push(list[i].clone());
        assert(views(out@) =~= was.push(list@[i as int]@));
        i += 1;
    }
    assert(views(list@).subrange(n as int, list@.len() as int) =~= views(list@).skip(n as int));
    out
}

proof fn lemma_first_of_all(changes: Seq<RefChange>, rule: RefRule)
    ensures
        all_picked(changes, rule).len() > 0 <==> first_picked(changes, rule) is Some,
    decreases changes.len(),
{
    if changes.len() > 0 {
        lemma_first_of_all(changes.drop_last(), rule);
        lemma_first_of_shorter(changes, rule);
    }
}

proof fn lemma_first_of_shorter(changes: Seq<RefChange>, rule: RefRule)
    requires
        changes.len() > 0,
    ensures
        first_picked(changes, rule) is Some <==> first_picked(changes.drop_last(), rule) is Some
            || crate::commands::picks(rule, changes.last()),
    decreases changes.len(),
{
    if changes.len() > 1 {
        assert(changes.skip(1).drop_last() =~= changes.drop_last().skip(1));
        assert(changes.skip(1).last() == changes.last());
        assert(changes.drop_last()[0] == changes[0]);
        lemma_first_of_shorter(changes.skip(1), rule);
    } else {
        assert(changes.skip(1).len() == 0);
        assert(changes.drop_last().len() == 0);
        reveal_with_fuel(first_picked, 2);
    }
}

fn plan_stopped(
    cmd: &NormalizedCommand,
    sources: Vec<String>,
    left_over: bool,
    resumed: bool,
    skip: bool,
) -> (r: StoppedCherryPick)
    ensures
        stopped_plan(
            r,
            *cmd,
            StoppedSources { sources: views(sources@), left_over },
            resumed,
            skip,
        ),
{
    let made = cherry_pick_destination_commits(cmd);
    let made_count: usize = made.len();
    let skipped: usize = if skip && left_over {
        1
    } else {
        0
    };
    let applied = from_place(&sources, skipped);
    assert(views(made@).len() == made@.len());
    assert(views(applied@).len() == applied@.len());
    assert(views(sources@).len() == sources@.len());
    proof {
        lemma_first_of_all(cmd.ref_changes@, moved_change(head_scope()));
    }
    let open: usize = if sources.len() >= skipped {
        sources.len() - skipped
    } else {
        0
    };
    let started = first_head_transition_old(cmd);
    let rewrite = if made_count > 0 && applied.len() > 0 {
        match started {
            Some(original_head) => Some(
                CherryPickRewrite { original_head, sources: applied, destinations: made },
            ),
            None => None,
        }
    } else {
        None
    };
    let remaining = if sources.len() > 0 || resumed {
        let applied_count: usize = if made_count <= open {
            made_count
        } else {
            open
        };
        let consumed: usize = if open == 0 && sources.len() < skipped {
            sources.len()
        } else {
            skipped + applied_count
        };
        Some(from_place(&sources, consumed))
    } else {
        None
    };
    StoppedCherryPick { rewrite, remaining }
}

/// Plans what follows from a cherry-pick that stopped. One that is given up is forgotten.
pub fn note_stopped_cherry_pick(
    pending: &mut PendingRewrites,
    key: &Option<String>,
    cmd: &NormalizedCommand,
    facts: &CommandFacts,
    answers: &CommandAnswers,
    lite: bool,
) -> (r: Result<StoppedCherryPick, SideEffectError>)
    ensures
        final(pending).rebases == old(pending).rebases,
        final(pending).squash_merges == old(pending).squash_merges,
        *key is None ==> r is Err && r->Err_0 == (SideEffectError::CherryPickWithoutWorktree {
            sid: cmd.root_sid,
        }) && *final(pending) == *old(pending),
        *key is Some && has_arg(*cmd, "--abort"@) ==> {
            &&& final(pending).cherry_picks@ == old(pending).cherry_picks@.remove((*key)->0@)
            &&& final(pending).no_commits@ == old(pending).no_commits@.remove((*key)->0@)
            &&& r is Ok && r->Ok_0.rewrite is None && r->Ok_0.remaining is None
        },
        *key is Some && !has_arg(*cmd, "--abort"@) ==> {
            let asks = asks_for_sources(*cmd, answers.cherry_pick_under_way);
            let skip = calls(*cmd, facts.parsed, "cherry-pick"@) && views(
                facts.parsed.command_args@,
            ).contains("--skip"@);
            let resumed = skip || calls(*cmd, facts.parsed, "cherry-pick"@) && views(
                facts.parsed.command_args@,
            ).contains("--continue"@);
            &&& *final(pending) == *old(pending)
            &&& r is Err <==> !lite && asks && answers.explicit_sources is Err
            &&& r is Err ==> r->Err_0 == (SideEffectError::Git {
                reason: answers.explicit_sources->Err_0,
            })
            &&& r is Ok && lite ==> r->Ok_0.rewrite is None && r->Ok_0.remaining is None
            &&& r is Ok && !lite ==> stopped_plan(
                r->Ok_0,
                *cmd,
                stopped_sources(
                    *cmd,
                    views(answers.explicit_sources->Ok_0@),
                    answers.cherry_pick_under_way,
                    resumed,
                    pending_sources(*old(pending), (*key)->0@),
                ),
                resumed,
                skip,
            )
        },
{
    let key = match key {
        Some(key) => key,
        None => {
            return Err(SideEffectError::CherryPickWithoutWorktree { sid: cmd.root_sid.clone() });
        },
    };
    if cmd.has_arg("--abort") {
        pending.clear_pending_cherry_pick_sources_for_worktree(key.as_str());
        pending.clear_pending_cherry_pick_no_commit_for_worktree(key.as_str());
        return Ok(StoppedCherryPick { rewrite: None, remaining: None });
    }
    if lite {
        return Ok(StoppedCherryPick { rewrite: None, remaining: None });
    }
    let made = cherry_pick_destination_commits(cmd);
    let resume = cherry_pick_command_has_flag(cmd, &facts.parsed, "--continue");
    let skip = cherry_pick_command_has_flag(cmd, &facts.parsed, "--skip");
    let mut sources = clone_strings(&cmd.cherry_pick_source_oids);
    assert(views(made@).len() == made@.len());
    if sources.len() == 0 && (made.len() > 0 || answers.cherry_pick_under_way) {
        match &answers.explicit_sources {
            Ok(asked) => {
                sources = clone_strings(asked);
            },
            Err(reason) => {
                return Err(SideEffectError::Git { reason: reason.clone() });
            },
        }
    }
    let ghost seen = views(sources@);
    assert(seen.len() == sources@.len());
    let mut left_over = false;
    if sources.len() == 0 && (resume || skip) {
        sources = pending.pending_cherry_pick_sources_for_worktree(key.as_str());
        left_over = sources.len() > 0;
        assert(views(sources@).len() == sources@.len());
    }
    Ok(plan_stopped(cmd, sources, left_over, resume || skip, skip))
}

} // verus!
