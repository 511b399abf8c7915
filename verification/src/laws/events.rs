//! What the events of a finished command come to.
use crate::commands::{real_oid, RefChange, ResetKind, SemanticEvent, StashOpKind};
use crate::event_effects::{event_effect, event_follow_up, names_sources, EventContext, SideEffect};
use crate::laws::steps::lemma_command_names;
use crate::pending::PendingRewrites;
use crate::side_effects::SideEffectError;
use crate::text::{opt_view, views};
use vstd::prelude::*;

verus! {

/// A cherry-pick that ended rewrites its sources into the commits that it made: all that the
/// event lists, in their order, and the new head alone only where it lists none. The sources
/// are those that were seen, where any were.
pub proof fn law_picks_end_in_the_commits_they_made(
    pending: &mut PendingRewrites,
    handled: &mut bool,
    ctx: EventContext,
    event: SemanticEvent,
    r: Result<Option<SideEffect>, SideEffectError>,
)
    requires
        call_ensures(event_effect, (pending, handled, &ctx, &event), r),
        event is CherryPickComplete,
        !ctx.lite,
        r is Ok && r->Ok_0 is Some,
    ensures
        event matches SemanticEvent::CherryPickComplete {
            original_head: from,
            new_head,
            source_commits,
            new_commits,
        } && r->Ok_0->0 matches SideEffect::CherryPick { original_head, sources, destinations } && {
            &&& original_head@ == from@
            &&& new_commits@.len() > 0 ==> views(destinations@) == views(new_commits@)
            &&& new_commits@.len() == 0 ==> views(destinations@) == seq![new_head@]
            &&& source_commits@.len() > 0 ==> views(sources@) == views(source_commits@)
        },
{
    if let SemanticEvent::CherryPickComplete { new_commits, source_commits, .. } = event {
        assert(views(new_commits@).len() == new_commits@.len());
        assert(views(source_commits@).len() == source_commits@.len());
    }
}

/// A cherry-pick whose sources were seen and that took the head from one commit to another is
/// always rewritten; one that left the head where it was is not, and one without the head
/// that it started from is an error. Nothing is left over of it.
pub proof fn law_seen_picks_are_rewritten(
    pending: &mut PendingRewrites,
    handled: &mut bool,
    ctx: EventContext,
    original_head: String,
    new_head: String,
    source_commits: Vec<String>,
    new_commits: Vec<String>,
    r: Result<Option<SideEffect>, SideEffectError>,
)
    requires
        call_ensures(
            event_effect,
            (
                pending,
                handled,
                &ctx,
                &(SemanticEvent::CherryPickComplete {
                    original_head,
                    new_head,
                    source_commits,
                    new_commits,
                }),
            ),
            r,
        ),
        !ctx.lite,
        new_head@.len() > 0,
        source_commits@.len() > 0,
    ensures
        original_head@.len() > 0 && original_head@ != new_head@ ==> r is Ok && r->Ok_0 is Some,
        original_head@ == new_head@ ==> r is Ok && r->Ok_0 is None,
        original_head@.len() == 0 ==> r is Err && r->Err_0 == (
        SideEffectError::CherryPickWithoutHead { sid: ctx.cmd.root_sid }),
        !final(pending).cherry_picks@.contains_key(ctx.key@),
{
    assert(views(source_commits@).len() == source_commits@.len());
}

/// A cherry-pick that names no sources takes up what was left over in its worktree; `--skip`
/// drops the first of it.
pub proof fn law_resumed_picks_take_up_what_was_left(
    pending: &mut PendingRewrites,
    handled: &mut bool,
    ctx: EventContext,
    original_head: String,
    new_head: String,
    new_commits: Vec<String>,
    none: Vec<String>,
    r: Result<Option<SideEffect>, SideEffectError>,
)
    requires
        none@.len() == 0,
        call_ensures(
            event_effect,
            (
                pending,
                handled,
                &ctx,
                &(SemanticEvent::CherryPickComplete {
                    original_head,
                    new_head,
                    source_commits: none,
                    new_commits,
                }),
            ),
            r,
        ),
        !ctx.lite,
        !names_sources(*ctx.cmd, *ctx.facts),
        original_head@.len() > 0 && new_head@.len() > 0 && original_head@ != new_head@,
        old(pending).cherry_picks@.contains_key(ctx.key@),
    ensures
        r matches Ok(Some(SideEffect::CherryPick { sources, .. })) && {
            let left = views(old(pending).cherry_picks@[ctx.key@]@);
            let skips = ctx.cmd.primary() == Some("cherry-pick"@) && views(
                ctx.facts.parsed.command_args@,
            ).contains("--skip"@);
            &&& skips && left.len() > 0 ==> views(sources@) == left.skip(1)
            &&& !views(ctx.facts.parsed.command_args@).contains("--skip"@) ==> views(sources@)
                == left
        },
        !final(pending).cherry_picks@.contains_key(ctx.key@),
{
    assert(views(none@).len() == 0);
}

/// With only the working logs kept up, a cherry-pick carries the working log from the head
/// that it started from to the one that it ended at, and does nothing else.
pub proof fn law_lite_picks_carry_the_working_log(
    pending: &mut PendingRewrites,
    handled: &mut bool,
    ctx: EventContext,
    original_head: String,
    new_head: String,
    source_commits: Vec<String>,
    new_commits: Vec<String>,
    r: Result<Option<SideEffect>, SideEffectError>,
)
    requires
        call_ensures(
            event_effect,
            (
                pending,
                handled,
                &ctx,
                &(SemanticEvent::CherryPickComplete {
                    original_head,
                    new_head,
                    source_commits,
                    new_commits,
                }),
            ),
            r,
        ),
        ctx.lite,
    ensures
        r is Ok,
        r->Ok_0 is Some <==> original_head@.len() > 0 && new_head@.len() > 0 && original_head@
            != new_head@,
        r->Ok_0 is Some ==> (r->Ok_0->0 matches SideEffect::RenameWorkingLog {
            old_head: from,
            new_head: to,
        } && from@ == original_head@ && to@ == new_head@),
{
}

/// A stash that is put back is taken off the list exactly when it was popped: applying it or
/// making a branch of it leaves it there.
pub proof fn law_only_a_pop_takes_the_stash_away(
    pending: &mut PendingRewrites,
    handled: &mut bool,
    ctx: EventContext,
    kind: StashOpKind,
    head: Option<String>,
    r: Result<Option<SideEffect>, SideEffectError>,
)
    requires
        call_ensures(
            event_effect,
            (pending, handled, &ctx, &(SemanticEvent::StashOperation { kind, head })),
            r,
        ),
    ensures
        r is Ok,
        r->Ok_0 is Some && r->Ok_0->0 is RestoreStash ==> r->Ok_0->0->pop == (kind
            == StashOpKind::Pop),
        r->Ok_0 is Some && r->Ok_0->0 is RestoreStash ==> kind == StashOpKind::Pop || kind
            == StashOpKind::Apply || kind == StashOpKind::Branch,
        r->Ok_0 is Some && r->Ok_0->0 is CreateStash ==> kind == StashOpKind::Push || kind
            == StashOpKind::Unknown,
        r->Ok_0 is Some && r->Ok_0->0 is DropStash ==> kind == StashOpKind::Drop,
        r->Ok_0 is Some ==> r->Ok_0->0 is RestoreStash || r->Ok_0->0 is CreateStash || r->Ok_0->0
            is DropStash,
{
}

/// Where the stash is known by its object, popping, applying, branching off and dropping it
/// are all done with that very stash, and creating one too.
pub proof fn law_stash_effects_name_the_stash(
    pending: &mut PendingRewrites,
    handled: &mut bool,
    ctx: EventContext,
    kind: StashOpKind,
    head: Option<String>,
    r: Result<Option<SideEffect>, SideEffectError>,
)
    requires
        call_ensures(
            event_effect,
            (pending, handled, &ctx, &(SemanticEvent::StashOperation { kind, head })),
            r,
        ),
        ctx.cmd.stash_target_oid is Some,
    ensures
        kind == StashOpKind::Pop || kind == StashOpKind::Apply || kind == StashOpKind::Branch ==> (r matches Ok(Some(SideEffect::RestoreStash { stash, .. }))
            && stash@ == ctx.cmd.stash_target_oid->0@),
        kind == StashOpKind::Drop ==> (r matches Ok(Some(SideEffect::DropStash { stash })) && stash@
            == ctx.cmd.stash_target_oid->0@),
        (kind == StashOpKind::Push || kind == StashOpKind::Unknown) && head is Some ==> (r matches Ok(Some(SideEffect::CreateStash { stash, .. })) && stash@
            == ctx.cmd.stash_target_oid->0@),
{
}

/// Without its object, a stash is read off the first change of `refs/stash`: the one that was
/// made is where the ref went, the one that is used where it came from.
pub proof fn law_stashes_are_read_off_their_ref(
    pending: &mut PendingRewrites,
    handled: &mut bool,
    ctx: EventContext,
    kind: StashOpKind,
    head: Option<String>,
    change: RefChange,
    r: Result<Option<SideEffect>, SideEffectError>,
)
    requires
        call_ensures(
            event_effect,
            (pending, handled, &ctx, &(SemanticEvent::StashOperation { kind, head })),
            r,
        ),
        ctx.cmd.stash_target_oid is None,
        ctx.cmd.ref_changes@.len() > 0,
        ctx.cmd.ref_changes@[0] == change,
        change.reference@ == "refs/stash"@,
        real_oid(change.old@),
        real_oid(change.new@),
        r is Ok && r->Ok_0 is Some,
    ensures
        match r->Ok_0->0 {
            SideEffect::CreateStash { stash, .. } => stash@ == change.new@,
            SideEffect::RestoreStash { stash, .. } => stash@ == change.old@,
            SideEffect::DropStash { stash } => stash@ == change.old@,
            _ => false,
        },
{
}

/// The head that a stash is put back on is the one that the event tells; only making a branch
/// of it, and creating one, go by the commit that it was made on first.
pub proof fn law_stashes_are_put_back_where_the_event_says(
    pending: &mut PendingRewrites,
    handled: &mut bool,
    ctx: EventContext,
    kind: StashOpKind,
    head: String,
    r: Result<Option<SideEffect>, SideEffectError>,
)
    requires
        call_ensures(
            event_effect,
            (
                pending,
                handled,
                &ctx,
                &(SemanticEvent::StashOperation { kind, head: Some(head) }),
            ),
            r,
        ),
        r is Ok && r->Ok_0 is Some,
    ensures
        kind == StashOpKind::Pop || kind == StashOpKind::Apply ==> (
        r->Ok_0->0 matches SideEffect::RestoreStash { head: on, .. } && opt_view(on) == Some(head@)),
        kind == StashOpKind::Branch && ctx.answers.stash_bases@.len() == 0 ==> (
        r->Ok_0->0 matches SideEffect::RestoreStash { head: on, .. } && opt_view(on) == Some(head@)),
        (kind == StashOpKind::Push || kind == StashOpKind::Unknown)
            && ctx.answers.stash_bases@.len() == 0 ==> (
        r->Ok_0->0 matches SideEffect::CreateStash { head: on, .. } && on@ == head@),
{
}

/// A commit that a stash is known to be made on goes before the event's head where a branch is
/// made of the stash or the stash is created, and stands in for it where there is none.
pub proof fn law_known_bases_go_first_for_branches(
    pending: &mut PendingRewrites,
    handled: &mut bool,
    ctx: EventContext,
    kind: StashOpKind,
    head: Option<String>,
    base: String,
    r: Result<Option<SideEffect>, SideEffectError>,
)
    requires
        call_ensures(
            event_effect,
            (pending, handled, &ctx, &(SemanticEvent::StashOperation { kind, head })),
            r,
        ),
        ctx.cmd.stash_target_oid is Some,
        ctx.answers.stash_bases@.len() > 0,
        ctx.answers.stash_bases@[0].0@ == ctx.cmd.stash_target_oid->0@,
        ctx.answers.stash_bases@[0].1 == base,
    ensures
        kind == StashOpKind::Branch ==> (r matches Ok(Some(SideEffect::RestoreStash { head: on, .. })) && opt_view(on) == Some(
            base@,
        )),
        kind == StashOpKind::Push || kind == StashOpKind::Unknown ==> (r matches Ok(Some(SideEffect::CreateStash { head: on, .. })) && on@ == base@),
        (kind == StashOpKind::Pop || kind == StashOpKind::Apply) && head is None ==> (r matches Ok(Some(SideEffect::RestoreStash { head: on, .. }))
            && opt_view(on) == Some(base@)),
{
}

/// A hard reset throws away the working log of the head that was left, and no other: the log
/// of the head that was reset to is never thrown away. No other reset throws a log away.
pub proof fn law_hard_resets_drop_the_log_that_was_left(
    pending: &mut PendingRewrites,
    handled: &mut bool,
    ctx: EventContext,
    kind: ResetKind,
    old_head: String,
    new_head: String,
    r: Result<Option<SideEffect>, SideEffectError>,
)
    requires
        call_ensures(
            event_effect,
            (pending, handled, &ctx, &(SemanticEvent::Reset { kind, old_head, new_head })),
            r,
        ),
    ensures
        r is Ok,
        kind == ResetKind::Hard && old_head@.len() > 0 && new_head@.len() > 0 && old_head@
            != new_head@ ==> r->Ok_0 is Some && r->Ok_0->0 is DeleteWorkingLog,
        r->Ok_0 is Some ==> (r->Ok_0->0 is DeleteWorkingLog <==> kind == ResetKind::Hard),
        r->Ok_0 is Some ==> (r->Ok_0->0 matches SideEffect::DeleteWorkingLog { head } ==> head@
            == old_head@ && head@ != new_head@),
        old_head@.len() == 0 || new_head@.len() == 0 || old_head@ == new_head@ ==> r->Ok_0 is None,
{
}

/// A reset that is not hard goes by which head comes before which: back reconstructs the
/// working log, forward carries it over, and between unrelated heads history is rewritten,
/// which is left out where only the working logs are kept up. Each goes from the old head to
/// the new one.
pub proof fn law_resets_go_by_ancestry(
    pending: &mut PendingRewrites,
    handled: &mut bool,
    ctx: EventContext,
    kind: ResetKind,
    old_head: String,
    new_head: String,
    r: Result<Option<SideEffect>, SideEffectError>,
)
    requires
        call_ensures(
            event_effect,
            (pending, handled, &ctx, &(SemanticEvent::Reset { kind, old_head, new_head })),
            r,
        ),
        kind != ResetKind::Hard,
        old_head@.len() > 0 && new_head@.len() > 0 && old_head@ != new_head@,
    ensures
        ({
            let back = ctx.answers.ancestry.holds(new_head@, old_head@);
            let forward = ctx.answers.ancestry.holds(old_head@, new_head@);
            &&& back ==> (r matches Ok(
                Some(SideEffect::BackwardReset { old_head: from, new_head: to }),
            ) && from@ == old_head@ && to@ == new_head@)
            &&& forward && !back ==> (r matches Ok(
                Some(SideEffect::RenameWorkingLog { old_head: from, new_head: to }),
            ) && from@ == old_head@ && to@ == new_head@)
            &&& !forward && !back && !ctx.lite ==> (r matches Ok(
                Some(SideEffect::NonFastForward { old_head: from, new_head: to }),
            ) && from@ == old_head@ && to@ == new_head@)
            &&& !forward && !back && ctx.lite ==> r is Ok && r->Ok_0 is None
        }),
{
}

/// A commit that was made is looked at for who wrote it, against the commit that it was made
/// on; the first commit is looked at without one. A replayed commit, and one without an
/// object, is not looked at.
pub proof fn law_new_commits_are_looked_at(
    pending: &mut PendingRewrites,
    handled: &mut bool,
    ctx: EventContext,
    base: Option<String>,
    new_head: String,
    r: Result<Option<SideEffect>, SideEffectError>,
)
    requires
        call_ensures(
            event_effect,
            (pending, handled, &ctx, &(SemanticEvent::CommitCreated { base, new_head })),
            r,
        ),
        !old(pending).squash_merges@.contains_key(ctx.key@),
        ctx.cmd.primary() != Some("revert"@),
    ensures
        r is Ok,
        r->Ok_0 is Some <==> !ctx.replaying && new_head@.len() > 0,
        r->Ok_0 is Some ==> (r->Ok_0->0 matches SideEffect::PostCommit { base: on, new_head: it }
            && it@ == new_head@ && (base is None ==> on is None) && (base is Some ==> (on is None
            <==> base->0@.len() == 0 || base->0@ == "initial"@)) && (on is Some ==> on->0@
            == base->0@)),
{
}

/// Of a command that replays commits no commit is looked at for who wrote it, and none is
/// taken for a revert: but for the end of a squashed merge, a new commit comes to nothing.
pub proof fn law_replayed_commits_come_to_nothing(
    pending: &mut PendingRewrites,
    handled: &mut bool,
    ctx: EventContext,
    base: Option<String>,
    new_head: String,
    r: Result<Option<SideEffect>, SideEffectError>,
)
    requires
        call_ensures(
            event_effect,
            (pending, handled, &ctx, &(SemanticEvent::CommitCreated { base, new_head })),
            r,
        ),
        ctx.replaying,
        ctx.cmd.primary() == Some("rebase"@) || ctx.cmd.primary() == Some("pull"@),
    ensures
        r is Ok && r->Ok_0 is None,
        *final(handled) == *old(handled),
        final(pending).squash_merges@ == old(pending).squash_merges@,
{
    reveal_strlit("pull");
    reveal_strlit("commit");
    assert("pull"@.len() == 4 && "commit"@.len() == 6);
    lemma_command_names();
}

/// A squashed merge is noted until the commit on what it went onto ends it: that commit then
/// takes over from the source that the merge named.
pub proof fn law_a_squashed_merge_ends_in_its_commit(
    first: &mut PendingRewrites,
    second: &mut PendingRewrites,
    handled: &mut bool,
    again: &mut bool,
    merge: EventContext,
    commit: EventContext,
    source_head: String,
    onto: String,
    new_head: String,
    merged: Result<Option<SideEffect>, SideEffectError>,
    committed: Result<Option<SideEffect>, SideEffectError>,
)
    requires
        call_ensures(
            event_effect,
            (first, handled, &merge, &(SemanticEvent::MergeSquash { source_head, onto })),
            merged,
        ),
        *final(first) == *old(second),
        call_ensures(
            event_effect,
            (
                second,
                again,
                &commit,
                &(SemanticEvent::CommitCreated { base: Some(onto), new_head }),
            ),
            committed,
        ),
        merge.key@ == commit.key@,
        commit.cmd.primary() == Some("commit"@),
        new_head@.len() > 0,
    ensures
        merged is Ok && merged->Ok_0 is None,
        committed matches Ok(Some(SideEffect::SquashMerge {
            source_head: source,
            squash_commit,
            onto: on,
        })) && source@ == source_head@ && squash_commit@ == new_head@ && on@ == onto@,
        !final(second).squash_merges@.contains_key(commit.key@),
{
}

/// A squashed merge is not ended by a commit elsewhere: on another base, or by another command.
pub proof fn law_a_squashed_merge_waits_for_its_commit(
    pending: &mut PendingRewrites,
    handled: &mut bool,
    ctx: EventContext,
    base: Option<String>,
    new_head: String,
    r: Result<Option<SideEffect>, SideEffectError>,
)
    requires
        call_ensures(
            event_effect,
            (pending, handled, &ctx, &(SemanticEvent::CommitCreated { base, new_head })),
            r,
        ),
        old(pending).squash_merges@.contains_key(ctx.key@),
        opt_view(base) != Some(old(pending).squash_merges@[ctx.key@].onto@) || ctx.cmd.primary()
            != Some("commit"@),
    ensures
        final(pending).squash_merges@ == old(pending).squash_merges@,
        r is Ok && r->Ok_0 is Some ==> r->Ok_0->0 !is SquashMerge,
{
}

/// A cherry-pick that was applied without being committed is noted with the head that it was
/// applied on, and the commit on that head takes it in, once.
pub proof fn law_an_uncommitted_pick_ends_in_its_commit(
    first: &mut PendingRewrites,
    second: &mut PendingRewrites,
    handled: &mut bool,
    pick: EventContext,
    commit: EventContext,
    source_commits: Vec<String>,
    head: String,
    new_head: String,
    picked: Result<Option<SideEffect>, SideEffectError>,
    followed: Option<SideEffect>,
)
    requires
        call_ensures(
            event_effect,
            (
                first,
                handled,
                &pick,
                &(SemanticEvent::CherryPickNoCommit { source_commits, head }),
            ),
            picked,
        ),
        *final(first) == *old(second),
        call_ensures(
            event_follow_up,
            (
                second,
                &commit,
                &(SemanticEvent::CommitCreated { base: Some(head), new_head }),
                true,
            ),
            followed,
        ),
        !pick.lite && !commit.lite,
        pick.key@ == commit.key@,
        commit.cmd.primary() == Some("commit"@),
        source_commits@.len() > 0,
        head@.len() > 0,
    ensures
        picked is Ok && picked->Ok_0 is None,
        followed matches Some(SideEffect::PickWithoutCommit {
            sources,
            parent_head,
            new_head: it,
        }) && views(sources@) == views(source_commits@) && parent_head@ == head@ && it@ == new_head@,
        !final(second).no_commits@.contains_key(commit.key@),
{
    assert(views(source_commits@).len() == source_commits@.len());
}

/// What was picked without being committed is taken in by no other commit: not on another
/// head, not by another command, not where only the working logs are kept up, and not by a
/// commit that was not looked at.
pub proof fn law_an_uncommitted_pick_waits_for_its_commit(
    pending: &mut PendingRewrites,
    ctx: EventContext,
    base: Option<String>,
    new_head: String,
    committed: bool,
    r: Option<SideEffect>,
)
    requires
        call_ensures(
            event_follow_up,
            (pending, &ctx, &(SemanticEvent::CommitCreated { base, new_head }), committed),
            r,
        ),
        old(pending).no_commits@.contains_key(ctx.key@),
        opt_view(base) != Some(old(pending).no_commits@[ctx.key@].head@) || ctx.cmd.primary()
            != Some("commit"@) || ctx.lite || !committed,
    ensures
        r is None,
        final(pending).no_commits@ == old(pending).no_commits@,
{
}

/// A revert whose sources were seen rewrites just these, on its first commit; the other
/// commits of the command come to nothing.
pub proof fn law_a_revert_rewrites_its_sources_once(
    pending: &mut PendingRewrites,
    handled: &mut bool,
    ctx: EventContext,
    base: Option<String>,
    new_head: String,
    r: Result<Option<SideEffect>, SideEffectError>,
)
    requires
        call_ensures(
            event_effect,
            (pending, handled, &ctx, &(SemanticEvent::CommitCreated { base, new_head })),
            r,
        ),
        ctx.cmd.primary() == Some("revert"@),
        !ctx.replaying,
        new_head@.len() > 0,
    ensures
        *final(handled),
        *old(handled) ==> r is Ok && r->Ok_0 is None,
        !*old(handled) && !ctx.lite && ctx.cmd.revert_source_oids@.len() > 0 ==> (r matches Ok(Some(SideEffect::Revert { sources })) && views(sources@)
            == views(ctx.cmd.revert_source_oids@)),
        !*old(handled) && !ctx.lite && ctx.cmd.revert_source_oids@.len() == 0 ==> match
            ctx.answers.revert_sources {
            Ok(asked) => r matches Ok(Some(SideEffect::Revert {
                sources,
            })) && views(sources@) == views(asked@),
            Err(reason) => r is Err && r->Err_0 == (SideEffectError::Git { reason }),
        },
{
    lemma_command_names();
}

/// An amended commit takes over from the one that it replaces: from the old object to the new
/// one, where both are objects and differ. With only the working logs kept up it is the
/// working log that is carried over.
pub proof fn law_amended_commits_take_over(
    pending: &mut PendingRewrites,
    handled: &mut bool,
    ctx: EventContext,
    old_head: String,
    new_head: String,
    r: Result<Option<SideEffect>, SideEffectError>,
)
    requires
        call_ensures(
            event_effect,
            (pending, handled, &ctx, &(SemanticEvent::CommitAmended { old_head, new_head })),
            r,
        ),
    ensures
        r is Ok,
        r->Ok_0 is Some <==> old_head@ != new_head@ && real_oid(old_head@) && real_oid(new_head@),
        r->Ok_0 is Some && !ctx.lite ==> (r->Ok_0->0 matches SideEffect::Amend {
            old_head: from,
            new_head: to,
        } && from@ == old_head@ && to@ == new_head@),
        r->Ok_0 is Some && ctx.lite ==> (r->Ok_0->0 matches SideEffect::RenameWorkingLog {
            old_head: from,
            new_head: to,
        } && from@ == old_head@ && to@ == new_head@),
{
}

/// A clone and a pull bring notes in, a push sends them out; nothing else does.
pub proof fn law_notes_travel_with_clones_pulls_and_pushes(
    pending: &mut PendingRewrites,
    handled: &mut bool,
    ctx: EventContext,
    event: SemanticEvent,
    r: Result<Option<SideEffect>, SideEffectError>,
)
    requires
        call_ensures(event_effect, (pending, handled, &ctx, &event), r),
    ensures
        event is CloneCompleted <==> r is Ok && r->Ok_0 is Some && r->Ok_0->0 is SyncCloneNotes,
        event is PullCompleted <==> r is Ok && r->Ok_0 is Some && r->Ok_0->0 is SyncPullNotes,
        event is PushCompleted <==> r is Ok && r->Ok_0 is Some && r->Ok_0->0 is PushNotes,
        event is RefUpdated || event is Other ==> r is Ok && r->Ok_0 is None,
{
}

/// What an event leaves unfinished is its own worktree's: that of every other stays as it is,
/// and the rebases that stopped are not touched at all.
pub proof fn law_events_leave_other_worktrees_alone(
    pending: &mut PendingRewrites,
    handled: &mut bool,
    ctx: EventContext,
    event: SemanticEvent,
    r: Result<Option<SideEffect>, SideEffectError>,
    other: Seq<char>,
)
    requires
        call_ensures(event_effect, (pending, handled, &ctx, &event), r),
        other != ctx.key@,
    ensures
        final(pending).rebases@ == old(pending).rebases@,
        final(pending).cherry_picks@.contains_key(other) <==> old(
            pending,
        ).cherry_picks@.contains_key(other),
        final(pending).no_commits@.contains_key(other) <==> old(
            pending,
        ).no_commits@.contains_key(other),
        final(pending).squash_merges@.contains_key(other) <==> old(
            pending,
        ).squash_merges@.contains_key(other),
        final(pending).cherry_picks@.contains_key(other) ==> final(pending).cherry_picks@[other]
            == old(pending).cherry_picks@[other],
        final(pending).no_commits@.contains_key(other) ==> final(pending).no_commits@[other] == old(
            pending,
        ).no_commits@[other],
        final(pending).squash_merges@.contains_key(other) ==> final(pending).squash_merges@[other]
            == old(pending).squash_merges@[other],
{
}

} // verus!
