//! What one event of a finished command comes to.
use crate::commands::{
    all_picked, any_change, find_all, find_first, first_old, first_picked, head, head_scope,
    head_scopes, is_real_oid, last_new, moved_change, real_oid, resolve_heads_for_command,
    CommandFacts, NormalizedCommand, RefFilter, RefRule, ResetKind, SemanticEvent, StashOpKind,
};
use crate::pending::{
    pending_sources, PendingCherryPickNoCommit, PendingRewrites, PendingSquashMerge,
};
use crate::rewrite::{
    resolve_stash_sha, stash_of, stash_pathspecs_from_command, stash_paths_from, Ancestry,
};
use crate::side_effects::{
    asks_merge, find_base, find_sources, known_base, sources_read_from, CommandAnswers,
    SideEffectError,
};
use crate::sources::{
    calls, cherry_pick_command_has_flag, cherry_pick_source_args_for_side_effect, named,
};
use crate::text::{
    clone_opt, clone_strings, contains_str, has_prefix, opt_is, opt_view, starts_with, str_eq,
    views,
};
use vstd::prelude::*;

verus! {

/// One thing to do.
#[derive(Debug)]
#[allow(inconsistent_fields)]
pub enum SideEffect {
    SyncCloneNotes,
    SyncPullNotes,
    PushNotes,
    RenameWorkingLog { old_head: String, new_head: String },
    DeleteWorkingLog { head: String },
    CherryPick { original_head: String, sources: Vec<String>, destinations: Vec<String> },
    SquashMerge { source_head: String, squash_commit: String, onto: String },
    Revert { sources: Vec<String> },
    PostCommit { base: Option<String>, new_head: String },
    PickWithoutCommit { sources: Vec<String>, parent_head: String, new_head: String },
    Amend { old_head: String, new_head: String },
    BackwardReset { old_head: String, new_head: String },
    NonFastForward { old_head: String, new_head: String },
    CreateStash { stash: String, head: String, pathspecs: Vec<String> },
    RestoreStash { stash: String, pop: bool, head: Option<String> },
    DropStash { stash: String },
}

/// One thing to do, with its texts.
#[allow(inconsistent_fields)]
pub enum EffectModel {
    SyncCloneNotes,
    SyncPullNotes,
    PushNotes,
    RenameWorkingLog { old_head: Seq<char>, new_head: Seq<char> },
    DeleteWorkingLog { head: Seq<char> },
    CherryPick {
        original_head: Seq<char>,
        sources: Seq<Seq<char>>,
        destinations: Seq<Seq<char>>,
    },
    SquashMerge { source_head: Seq<char>, squash_commit: Seq<char>, onto: Seq<char> },
    Revert { sources: Seq<Seq<char>> },
    PostCommit { base: Option<Seq<char>>, new_head: Seq<char> },
    PickWithoutCommit {
        sources: Seq<Seq<char>>,
        parent_head: Seq<char>,
        new_head: Seq<char>,
    },
    Amend { old_head: Seq<char>, new_head: Seq<char> },
    BackwardReset { old_head: Seq<char>, new_head: Seq<char> },
    NonFastForward { old_head: Seq<char>, new_head: Seq<char> },
    CreateStash { stash: Seq<char>, head: Seq<char>, pathspecs: Seq<Seq<char>> },
    RestoreStash { stash: Seq<char>, pop: bool, head: Option<Seq<char>> },
    DropStash { stash: Seq<char> },
}

impl View for SideEffect {
    type V = EffectModel;

    open spec fn view(&self) -> EffectModel {
        match *self {
            SideEffect::SyncCloneNotes => EffectModel::SyncCloneNotes,
            SideEffect::SyncPullNotes => EffectModel::SyncPullNotes,
            SideEffect::PushNotes => EffectModel::PushNotes,
            SideEffect::RenameWorkingLog { old_head, new_head } => EffectModel::RenameWorkingLog {
                old_head: old_head@,
                new_head: new_head@,
            },
            SideEffect::DeleteWorkingLog { head } => EffectModel::DeleteWorkingLog { head: head@ },
            SideEffect::CherryPick { original_head, sources, destinations } =>
                EffectModel::CherryPick {
                original_head: original_head@,
                sources: views(sources@),
                destinations: views(destinations@),
            },
            SideEffect::SquashMerge { source_head, squash_commit, onto } =>
                EffectModel::SquashMerge {
                source_head: source_head@,
                squash_commit: squash_commit@,
                onto: onto@,
            },
            SideEffect::Revert { sources } => EffectModel::Revert { sources: views(sources@) },
            SideEffect::PostCommit { base, new_head } => EffectModel::PostCommit {
                base: opt_view(base),
                new_head: new_head@,
            },
            SideEffect::PickWithoutCommit { sources, parent_head, new_head } =>
                EffectModel::PickWithoutCommit {
                sources: views(sources@),
                parent_head: parent_head@,
                new_head: new_head@,
            },
            SideEffect::Amend { old_head, new_head } => EffectModel::Amend {
                old_head: old_head@,
                new_head: new_head@,
            },
            SideEffect::BackwardReset { old_head, new_head } => EffectModel::BackwardReset {
                old_head: old_head@,
                new_head: new_head@,
            },
            SideEffect::NonFastForward { old_head, new_head } => EffectModel::NonFastForward {
                old_head: old_head@,
                new_head: new_head@,
            },
            SideEffect::CreateStash { stash, head, pathspecs } => EffectModel::CreateStash {
                stash: stash@,
                head: head@,
                pathspecs: views(pathspecs@),
            },
            SideEffect::RestoreStash { stash, pop, head } => EffectModel::RestoreStash {
                stash: stash@,
                pop,
                head: opt_view(head),
            },
            SideEffect::DropStash { stash } => EffectModel::DropStash { stash: stash@ },
        }
    }
}

/// What an event comes to: at most one thing to do, or why it cannot be done.
pub open spec fn outcome_view(r: Result<Option<SideEffect>, SideEffectError>) -> Result<
    Option<EffectModel>,
    SideEffectError,
> {
    match r {
        Ok(Some(effect)) => Ok(Some(effect@)),
        Ok(None) => Ok(None),
        Err(e) => Err(e),
    }
}

/// What a command is handled under: what it says, what git answered, and what is unfinished.
pub struct EventContext<'a> {
    pub cmd: &'a NormalizedCommand,
    pub facts: &'a CommandFacts,
    pub answers: &'a CommandAnswers,
    /// The name under which the worktree's state is kept.
    pub key: &'a str,
    /// Whether only the working logs are kept up.
    pub lite: bool,
    /// Whether the command replays commits.
    pub replaying: bool,
}

/// Whether a cherry-pick skips a commit.
pub open spec fn skips(cmd: NormalizedCommand, facts: CommandFacts) -> bool {
    calls(cmd, facts.parsed, "cherry-pick"@) && views(facts.parsed.command_args@).contains(
        "--skip"@,
    )
}

/// Whether a cherry-pick names its sources.
pub open spec fn names_sources(cmd: NormalizedCommand, facts: CommandFacts) -> bool {
    calls(cmd, facts.parsed, "cherry-pick"@) && named(views(facts.parsed.command_args@), true).len()
        > 0
}

/// The sources of a cherry-pick that ended: those that were seen, else those that it
/// names, else those left over, without the one that was skipped.
pub open spec fn picked_sources(
    ctx: EventContext,
    original_head: Seq<char>,
    seen: Seq<Seq<char>>,
    left: Seq<Seq<char>>,
) -> Seq<Seq<char>> {
    if seen.len() > 0 {
        seen
    } else if names_sources(*ctx.cmd, *ctx.facts) {
        sources_read_from(ctx.answers.event_sources@, original_head)->Ok_0
    } else if skips(*ctx.cmd, *ctx.facts) && left.len() > 0 {
        left.skip(1)
    } else {
        left
    }
}

/// Whether the sources of a cherry-pick that ended could not be found.
pub open spec fn sources_unknown(
    ctx: EventContext,
    original_head: Seq<char>,
    seen: Seq<Seq<char>>,
) -> bool {
    seen.len() == 0 && names_sources(*ctx.cmd, *ctx.facts) && sources_read_from(
        ctx.answers.event_sources@,
        original_head,
    ) is Err
}

/// What a cherry-pick that ended comes to.
pub open spec fn pick_outcome(
    ctx: EventContext,
    left: Seq<Seq<char>>,
    original_head: Seq<char>,
    new_head: Seq<char>,
    seen: Seq<Seq<char>>,
    new_commits: Seq<Seq<char>>,
) -> Result<Option<EffectModel>, SideEffectError> {
    if ctx.lite {
        if original_head.len() > 0 && new_head.len() > 0 && original_head != new_head {
            Ok(Some(EffectModel::RenameWorkingLog { old_head: original_head, new_head }))
        } else {
            Ok(None)
        }
    } else if new_head.len() == 0 {
        Ok(None)
    } else if sources_unknown(ctx, original_head, seen) {
        Err(
            SideEffectError::Git {
                reason: sources_read_from(ctx.answers.event_sources@, original_head)->Err_0,
            },
        )
    } else if original_head == new_head {
        Ok(None)
    } else if original_head.len() == 0 {
        Err(SideEffectError::CherryPickWithoutHead { sid: ctx.cmd.root_sid })
    } else {
        Ok(
            Some(
                EffectModel::CherryPick {
                    original_head,
                    sources: picked_sources(ctx, original_head, seen, left),
                    destinations: if new_commits.len() == 0 {
                        seq![new_head]
                    } else {
                        new_commits
                    },
                },
            ),
        )
    }
}

/// Whether a cherry-pick that ended leaves nothing over.
pub open spec fn pick_clears(
    ctx: EventContext,
    original_head: Seq<char>,
    new_head: Seq<char>,
    seen: Seq<Seq<char>>,
) -> bool {
    !ctx.lite && new_head.len() > 0 && !sources_unknown(ctx, original_head, seen)
}

fn take_picked_sources(
    pending: &mut PendingRewrites,
    ctx: &EventContext,
    original_head: &str,
    seen: &Vec<String>,
) -> (r: Result<Vec<String>, SideEffectError>)
    ensures
        r is Err <==> sources_unknown(*ctx, original_head@, views(seen@)),
        r is Err ==> r->Err_0 == (SideEffectError::Git {
            reason: sources_read_from(ctx.answers.event_sources@, original_head@)->Err_0,
        }) && *final(pending) == *old(pending),
        r is Ok ==> views(r->Ok_0@) == picked_sources(
            *ctx,
            original_head@,
            views(seen@),
            pending_sources(*old(pending), ctx.key@),
        ) && final(pending).cherry_picks@ == old(pending).cherry_picks@.remove(ctx.key@),
        final(pending).rebases == old(pending).rebases,
        final(pending).no_commits == old(pending).no_commits,
        final(pending).squash_merges == old(pending).squash_merges,
        old(pending).wf() ==> final(pending).wf(),
{
    let skip = cherry_pick_command_has_flag(ctx.cmd, &ctx.facts.parsed, "--skip");
    let explicit = cherry_pick_source_args_for_side_effect(ctx.cmd, &ctx.facts.parsed);
    assert(views(explicit@).len() == explicit@.len());
    assert(views(seen@).len() == seen@.len());
    if seen.len() > 0 {
        pending.clear_pending_cherry_pick_sources_for_worktree(ctx.key);
        return Ok(clone_strings(seen));
    }
    if explicit.len() > 0 {
        match find_sources(&ctx.answers.event_sources, original_head) {
            Ok(asked) => {
                pending.clear_pending_cherry_pick_sources_for_worktree(ctx.key);
                return Ok(asked);
            },
            Err(reason) => {
                return Err(SideEffectError::Git { reason });
            },
        }
    }
    let mut left = pending.take_pending_cherry_pick_sources_for_worktree(ctx.key);
    let ghost all = views(left@);
    assert(all.len() == left@.len());
    if skip && left.len() > 0 {
        left.remove(0);
        assert(views(left@) =~= all.skip(1));
    }
    Ok(left)
}

fn cherry_pick_completed(
    pending: &mut PendingRewrites,
    ctx: &EventContext,
    original_head: &str,
    new_head: &str,
    seen: &Vec<String>,
    new_commits: &Vec<String>,
) -> (r: Result<Option<SideEffect>, SideEffectError>)
    ensures
        outcome_view(r) == pick_outcome(
            *ctx,
            pending_sources(*old(pending), ctx.key@),
            original_head@,
            new_head@,
            views(seen@),
            views(new_commits@),
        ),
        final(pending).cherry_picks@ == if pick_clears(
            *ctx,
            original_head@,
            new_head@,
            views(seen@),
        ) {
            old(pending).cherry_picks@.remove(ctx.key@)
        } else {
            old(pending).cherry_picks@
        },
        final(pending).rebases == old(pending).rebases,
        final(pending).no_commits == old(pending).no_commits,
        final(pending).squash_merges == old(pending).squash_merges,
        old(pending).wf() ==> final(pending).wf(),
{
    if ctx.lite {
        if original_head.unicode_len() > 0 && new_head.unicode_len() > 0 && !str_eq(
            original_head,
            new_head,
        ) {
            return Ok(
                Some(
                    SideEffect::RenameWorkingLog {
                        old_head: original_head.to_owned(),
                        new_head: new_head.to_owned(),
                    },
                ),
            );
        }
        return Ok(None);
    }
    if new_head.unicode_len() == 0 {
        return Ok(None);
    }
    let sources = match take_picked_sources(pending, ctx, original_head, seen) {
        Ok(sources) => sources,
        Err(e) => {
            return Err(e);
        },
    };
    if str_eq(original_head, new_head) {
        return Ok(None);
    }
    if original_head.unicode_len() == 0 {
        return Err(SideEffectError::CherryPickWithoutHead { sid: ctx.cmd.root_sid.clone() });
    }
    assert(views(new_commits@).len() == new_commits@.len());
    let destinations = if new_commits.len() == 0 {
        let mut only: Vec<String> = Vec::new();
        only.push(new_head.to_owned());
        assert(views(only@) =~= seq![new_head@]);
        only
    } else {
        clone_strings(new_commits)
    };
    Ok(
        Some(
            SideEffect::CherryPick {
                original_head: original_head.to_owned(),
                sources,
                destinations,
            },
        ),
    )
}

/// The sources of a cherry-pick that was applied but not committed.
pub open spec fn uncommitted_sources(ctx: EventContext, seen: Seq<Seq<char>>) -> Seq<Seq<char>> {
    if seen.len() > 0 {
        seen
    } else {
        views(ctx.answers.explicit_sources->Ok_0@)
    }
}

/// Whether the sources of an uncommitted cherry-pick could not be found.
pub open spec fn uncommitted_unknown(ctx: EventContext, seen: Seq<Seq<char>>) -> bool {
    !ctx.lite && seen.len() == 0 && ctx.answers.explicit_sources is Err
}

/// What is noted of uncommitted cherry-picks once this one was seen.
pub open spec fn uncommitted_noted(
    ctx: EventContext,
    before: Map<Seq<char>, PendingCherryPickNoCommit>,
    after: Map<Seq<char>, PendingCherryPickNoCommit>,
    seen: Seq<Seq<char>>,
    head: Seq<char>,
) -> bool {
    let sources = uncommitted_sources(ctx, seen);
    if ctx.lite || uncommitted_unknown(ctx, seen) || head.len() == 0 || sources.len() == 0 {
        after == before
    } else {
        &&& after.contains_key(ctx.key@)
        &&& after == before.insert(ctx.key@, after[ctx.key@])
        &&& views(after[ctx.key@].source_commits@) == sources
        &&& after[ctx.key@].head@ == head
    }
}

fn cherry_pick_not_committed(
    pending: &mut PendingRewrites,
    ctx: &EventContext,
    seen: &Vec<String>,
    head: &str,
) -> (r: Result<Option<SideEffect>, SideEffectError>)
    ensures
        outcome_view(r) == (if uncommitted_unknown(*ctx, views(seen@)) {
            Err::<Option<EffectModel>, SideEffectError>(
                SideEffectError::Git { reason: ctx.answers.explicit_sources->Err_0 },
            )
        } else {
            Ok(None)
        }),
        uncommitted_noted(
            *ctx,
            old(pending).no_commits@,
            final(pending).no_commits@,
            views(seen@),
            head@,
        ),
        final(pending).rebases == old(pending).rebases,
        final(pending).cherry_picks == old(pending).cherry_picks,
        final(pending).squash_merges == old(pending).squash_merges,
        old(pending).wf() ==> final(pending).wf(),
{
    if ctx.lite {
        return Ok(None);
    }
    assert(views(seen@).len() == seen@.len());
    let sources = if seen.len() > 0 {
        clone_strings(seen)
    } else {
        match &ctx.answers.explicit_sources {
            Ok(asked) => clone_strings(asked),
            Err(reason) => {
                return Err(SideEffectError::Git { reason: reason.clone() });
            },
        }
    };
    assert(views(sources@).len() == sources@.len());
    if head.unicode_len() > 0 && sources.len() > 0 {
        pending.set_pending_cherry_pick_no_commit_for_worktree(
            ctx.key.to_owned(),
            sources,
            head.to_owned(),
        );
    }
    Ok(None)
}

/// The first that is known of two.
pub open spec fn first_of(a: Option<Seq<char>>, b: Option<Seq<char>>) -> Option<Seq<char>> {
    if a is Some {
        a
    } else {
        b
    }
}

/// What a stash command comes to.
pub open spec fn stash_outcome(ctx: EventContext, kind: StashOpKind, head: Option<Seq<char>>) -> Option<
    EffectModel,
> {
    let made = stash_of(*ctx.cmd, true);
    let used = stash_of(*ctx.cmd, false);
    let bases = ctx.answers.stash_bases@;
    match kind {
        StashOpKind::Push | StashOpKind::Unknown => if made is Some && first_of(
            known_base(bases, made->0),
            head,
        ) is Some {
            Some(
                EffectModel::CreateStash {
                    stash: made->0,
                    head: first_of(known_base(bases, made->0), head)->0,
                    pathspecs: if opt_view(ctx.facts.parsed.command) == Some("stash"@) {
                        stash_paths_from(views(ctx.facts.parsed.command_args@), 0)
                    } else {
                        Seq::empty()
                    },
                },
            )
        } else {
            None
        },
        StashOpKind::Pop => if used is Some {
            Some(
                EffectModel::RestoreStash {
                    stash: used->0,
                    pop: true,
                    head: first_of(head, known_base(bases, used->0)),
                },
            )
        } else {
            None
        },
        StashOpKind::Apply => if used is Some {
            Some(
                EffectModel::RestoreStash {
                    stash: used->0,
                    pop: false,
                    head: first_of(head, known_base(bases, used->0)),
                },
            )
        } else {
            None
        },
        StashOpKind::Branch => if used is Some {
            Some(
                EffectModel::RestoreStash {
                    stash: used->0,
                    pop: false,
                    head: first_of(known_base(bases, used->0), head),
                },
            )
        } else {
            None
        },
        StashOpKind::Drop => if used is Some {
            Some(EffectModel::DropStash { stash: used->0 })
        } else {
            None
        },
        _ => None,
    }
}

fn first_known(a: &Option<String>, b: &Option<String>) -> (r: Option<String>)
    ensures
        opt_view(r) == first_of(opt_view(*a), opt_view(*b)),
{
    if a.is_some() {
        clone_opt(a)
    } else {
        clone_opt(b)
    }
}

/// The thing to do, with its texts, if there is one.
pub open spec fn effect_view(r: Option<SideEffect>) -> Option<EffectModel> {
    match r {
        Some(effect) => Some(effect@),
        None => None,
    }
}

fn stashed(ctx: &EventContext, kind: StashOpKind, head: &Option<String>) -> (r: Option<SideEffect>)
    ensures
        effect_view(r) == stash_outcome(*ctx, kind, opt_view(*head)),
{
    let bases = &ctx.answers.stash_bases;
    match kind {
        StashOpKind::Push | StashOpKind::Unknown => match resolve_stash_sha(ctx.cmd, true) {
            Some(stash) => match first_known(&find_base(bases, stash.as_str()), head) {
                Some(head) => Some(
                    SideEffect::CreateStash {
                        stash,
                        head,
                        pathspecs: stash_pathspecs_from_command(&ctx.facts.parsed),
                    },
                ),
                None => None,
            },
            None => None,
        },
        StashOpKind::Pop => match resolve_stash_sha(ctx.cmd, false) {
            Some(stash) => {
                let head = first_known(head, &find_base(bases, stash.as_str()));
                Some(SideEffect::RestoreStash { stash, pop: true, head })
            },
            None => None,
        },
        StashOpKind::Apply => match resolve_stash_sha(ctx.cmd, false) {
            Some(stash) => {
                let head = first_known(head, &find_base(bases, stash.as_str()));
                Some(SideEffect::RestoreStash { stash, pop: false, head })
            },
            None => None,
        },
        StashOpKind::Branch => match resolve_stash_sha(ctx.cmd, false) {
            Some(stash) => {
                let head = first_known(&find_base(bases, stash.as_str()), head);
                Some(SideEffect::RestoreStash { stash, pop: false, head })
            },
            None => None,
        },
        StashOpKind::Drop => match resolve_stash_sha(ctx.cmd, false) {
            Some(stash) => Some(SideEffect::DropStash { stash }),
            None => None,
        },
        _ => None,
    }
}

/// Whether a commit is the one that a squashed merge was waiting for.
pub open spec fn ends_squash(
    ctx: EventContext,
    squashes: Map<Seq<char>, PendingSquashMerge>,
    base: Option<Seq<char>>,
    new_head: Seq<char>,
) -> bool {
    &&& new_head.len() > 0
    &&& ctx.cmd.primary() == Some("commit"@)
    &&& squashes.contains_key(ctx.key@)
    &&& base == Some(squashes[ctx.key@].onto@)
}

/// The commit that a new one is compared with; the first commit has none.
pub open spec fn base_of(base: Option<Seq<char>>) -> Option<Seq<char>> {
    match base {
        Some(b) => if b.len() == 0 || b == "initial"@ {
            None
        } else {
            Some(b)
        },
        None => None,
    }
}

/// Whether a commit is taken for what a revert made.
pub open spec fn is_reverting(
    ctx: EventContext,
    squashes: Map<Seq<char>, PendingSquashMerge>,
    base: Option<Seq<char>>,
    new_head: Seq<char>,
) -> bool {
    !ends_squash(ctx, squashes, base, new_head) && !ctx.replaying && new_head.len() > 0
        && ctx.cmd.primary() == Some("revert"@)
}

/// What a revert comes to: each of its commits is rewritten, once for the command.
pub open spec fn revert_outcome(ctx: EventContext, base: Option<Seq<char>>) -> Result<
    Option<EffectModel>,
    SideEffectError,
> {
    let made = all_picked(ctx.cmd.ref_changes@, moved_change(head_scope()));
    if ctx.lite {
        if base is Some && made.len() > 0 && base->0 != made.last().new@ {
            Ok(
                Some(
                    EffectModel::RenameWorkingLog { old_head: base->0, new_head: made.last().new@ },
                ),
            )
        } else {
            Ok(None)
        }
    } else if ctx.cmd.revert_source_oids@.len() > 0 {
        Ok(Some(EffectModel::Revert { sources: views(ctx.cmd.revert_source_oids@) }))
    } else {
        match ctx.answers.revert_sources {
            Ok(asked) => Ok(Some(EffectModel::Revert { sources: views(asked@) })),
            Err(reason) => Err(SideEffectError::Git { reason }),
        }
    }
}

/// What a new commit comes to: it ends a squashed merge, or is replayed, or
/// reverts, or is looked at for who wrote it.
pub open spec fn commit_outcome(
    ctx: EventContext,
    squashes: Map<Seq<char>, PendingSquashMerge>,
    revert_handled: bool,
    base: Option<Seq<char>>,
    new_head: Seq<char>,
) -> Result<Option<EffectModel>, SideEffectError> {
    if ends_squash(ctx, squashes, base, new_head) {
        Ok(
            Some(
                EffectModel::SquashMerge {
                    source_head: squashes[ctx.key@].source_head@,
                    squash_commit: new_head,
                    onto: squashes[ctx.key@].onto@,
                },
            ),
        )
    } else if ctx.replaying || new_head.len() == 0 {
        Ok(None)
    } else if is_reverting(ctx, squashes, base, new_head) {
        if revert_handled {
            Ok(None)
        } else {
            revert_outcome(ctx, base)
        }
    } else {
        Ok(Some(EffectModel::PostCommit { base: base_of(base), new_head }))
    }
}

fn reverted(ctx: &EventContext, base: &Option<String>) -> (r: Result<
    Option<SideEffect>,
    SideEffectError,
>)
    ensures
        outcome_view(r) == revert_outcome(*ctx, opt_view(*base)),
{
    if ctx.lite {
        let made = find_all(&ctx.cmd.ref_changes, &RefFilter::moved(head()));
        if let Some(base) = base {
            if made.len() > 0 && !str_eq(base.as_str(), made[made.len() - 1].new.as_str()) {
                return Ok(
                    Some(
                        SideEffect::RenameWorkingLog {
                            old_head: base.clone(),
                            new_head: made[made.len() - 1].new.clone(),
                        },
                    ),
                );
            }
        }
        return Ok(None);
    }
    if ctx.cmd.revert_source_oids.len() > 0 {
        return Ok(Some(SideEffect::Revert { sources: clone_strings(&ctx.cmd.revert_source_oids) }));
    }
    match &ctx.answers.revert_sources {
        Ok(asked) => Ok(Some(SideEffect::Revert { sources: clone_strings(asked) })),
        Err(reason) => Err(SideEffectError::Git { reason: reason.clone() }),
    }
}

fn commit_created(
    pending: &mut PendingRewrites,
    revert_handled: &mut bool,
    ctx: &EventContext,
    base: &Option<String>,
    new_head: &str,
) -> (r: Result<Option<SideEffect>, SideEffectError>)
    ensures
        outcome_view(r) == commit_outcome(
            *ctx,
            old(pending).squash_merges@,
            *old(revert_handled),
            opt_view(*base),
            new_head@,
        ),
        final(pending).squash_merges@ == if ends_squash(
            *ctx,
            old(pending).squash_merges@,
            opt_view(*base),
            new_head@,
        ) {
            old(pending).squash_merges@.remove(ctx.key@)
        } else {
            old(pending).squash_merges@
        },
        *final(revert_handled) == (*old(revert_handled) || is_reverting(
            *ctx,
            old(pending).squash_merges@,
            opt_view(*base),
            new_head@,
        )),
        final(pending).rebases == old(pending).rebases,
        final(pending).cherry_picks == old(pending).cherry_picks,
        final(pending).no_commits == old(pending).no_commits,
        old(pending).wf() ==> final(pending).wf(),
{
    if new_head.unicode_len() > 0 && ctx.cmd.is("commit") {
        let ends = match pending.squash_merges.get(ctx.key) {
            Some(squash) => opt_is(base, squash.onto.as_str()),
            None => false,
        };
        if ends {
            if let Some(squash) = pending.take_pending_squash_merge_for_worktree(ctx.key) {
                return Ok(
                    Some(
                        SideEffect::SquashMerge {
                            source_head: squash.source_head,
                            squash_commit: new_head.to_owned(),
                            onto: squash.onto,
                        },
                    ),
                );
            }
        }
    }
    if ctx.replaying || new_head.unicode_len() == 0 {
        return Ok(None);
    }
    if ctx.cmd.is("revert") {
        if *revert_handled {
            return Ok(None);
        }
        *revert_handled = true;
        return reverted(ctx, base);
    }
    let base = match base {
        Some(b) => if b.as_str().unicode_len() == 0 || str_eq(b.as_str(), "initial") {
            None
        } else {
            Some(b.clone())
        },
        None => None,
    };
    Ok(Some(SideEffect::PostCommit { base, new_head: new_head.to_owned() }))
}

/// What an amended commit comes to.
pub open spec fn amend_outcome(lite: bool, old_head: Seq<char>, new_head: Seq<char>) -> Option<
    EffectModel,
> {
    if old_head == new_head || !real_oid(old_head) || !real_oid(new_head) {
        None
    } else if lite {
        Some(EffectModel::RenameWorkingLog { old_head, new_head })
    } else {
        Some(EffectModel::Amend { old_head, new_head })
    }
}

/// What a reset comes to: a hard one throws the working log away, one back
/// reconstructs it, one forward carries it over, another rewrites history.
pub open spec fn reset_outcome(
    known: Ancestry,
    lite: bool,
    kind: ResetKind,
    old_head: Seq<char>,
    new_head: Seq<char>,
) -> Option<EffectModel> {
    if old_head.len() == 0 || new_head.len() == 0 || old_head == new_head {
        None
    } else if kind == ResetKind::Hard {
        Some(EffectModel::DeleteWorkingLog { head: old_head })
    } else if known.holds(new_head, old_head) {
        Some(EffectModel::BackwardReset { old_head, new_head })
    } else if known.holds(old_head, new_head) {
        Some(EffectModel::RenameWorkingLog { old_head, new_head })
    } else if lite {
        None
    } else {
        Some(EffectModel::NonFastForward { old_head, new_head })
    }
}

fn amended(lite: bool, old_head: &str, new_head: &str) -> (r: Option<SideEffect>)
    ensures
        effect_view(r) == amend_outcome(lite, old_head@, new_head@),
{
    if str_eq(old_head, new_head) || !is_real_oid(old_head) || !is_real_oid(new_head) {
        return None;
    }
    let old_head = old_head.to_owned();
    let new_head = new_head.to_owned();
    if lite {
        Some(SideEffect::RenameWorkingLog { old_head, new_head })
    } else {
        Some(SideEffect::Amend { old_head, new_head })
    }
}

fn was_reset(known: &Ancestry, lite: bool, kind: ResetKind, old_head: &str, new_head: &str) -> (r:
    Option<SideEffect>)
    ensures
        effect_view(r) == reset_outcome(*known, lite, kind, old_head@, new_head@),
{
    if old_head.unicode_len() == 0 || new_head.unicode_len() == 0 || str_eq(old_head, new_head) {
        return None;
    }
    if kind == ResetKind::Hard {
        return Some(SideEffect::DeleteWorkingLog { head: old_head.to_owned() });
    }
    let back = known.is_ancestor(new_head, old_head);
    let forward = known.is_ancestor(old_head, new_head);
    let old_head = old_head.to_owned();
    let new_head = new_head.to_owned();
    if back {
        Some(SideEffect::BackwardReset { old_head, new_head })
    } else if forward {
        Some(SideEffect::RenameWorkingLog { old_head, new_head })
    } else if lite {
        None
    } else {
        Some(SideEffect::NonFastForward { old_head, new_head })
    }
}

/// What an event comes to.
pub open spec fn event_outcome(
    pending: PendingRewrites,
    revert_handled: bool,
    ctx: EventContext,
    event: SemanticEvent,
) -> Result<Option<EffectModel>, SideEffectError> {
    match event {
        SemanticEvent::CloneCompleted => Ok(Some(EffectModel::SyncCloneNotes)),
        SemanticEvent::PullCompleted { .. } => Ok(Some(EffectModel::SyncPullNotes)),
        SemanticEvent::PushCompleted { .. } => Ok(Some(EffectModel::PushNotes)),
        SemanticEvent::CherryPickComplete { original_head, new_head, source_commits, new_commits } =>
            pick_outcome(
            ctx,
            pending_sources(pending, ctx.key@),
            original_head@,
            new_head@,
            views(source_commits@),
            views(new_commits@),
        ),
        SemanticEvent::CherryPickNoCommit { source_commits, .. } => if uncommitted_unknown(
            ctx,
            views(source_commits@),
        ) {
            Err(SideEffectError::Git { reason: ctx.answers.explicit_sources->Err_0 })
        } else {
            Ok(None)
        },
        SemanticEvent::MergeSquash { .. } => Ok(None),
        SemanticEvent::StashOperation { kind, head } => Ok(
            stash_outcome(ctx, kind, opt_view(head)),
        ),
        SemanticEvent::CommitCreated { base, new_head } => commit_outcome(
            ctx,
            pending.squash_merges@,
            revert_handled,
            opt_view(base),
            new_head@,
        ),
        SemanticEvent::CommitAmended { old_head, new_head } => Ok(
            amend_outcome(ctx.lite, old_head@, new_head@),
        ),
        SemanticEvent::Reset { kind, old_head, new_head } => Ok(
            reset_outcome(ctx.answers.ancestry, ctx.lite, kind, old_head@, new_head@),
        ),
        SemanticEvent::RefUpdated { .. } => Ok(None),
        SemanticEvent::Other => Ok(None),
    }
}

/// What is unfinished once an event was seen.
pub open spec fn pending_after(
    before: PendingRewrites,
    after: PendingRewrites,
    ctx: EventContext,
    event: SemanticEvent,
) -> bool {
    &&& after.rebases == before.rebases
    &&& after.cherry_picks@ == match event {
        SemanticEvent::CherryPickComplete { original_head, new_head, source_commits, .. } => if pick_clears(
            ctx,
            original_head@,
            new_head@,
            views(source_commits@),
        ) {
            before.cherry_picks@.remove(ctx.key@)
        } else {
            before.cherry_picks@
        },
        _ => before.cherry_picks@,
    }
    &&& match event {
        SemanticEvent::CherryPickNoCommit { source_commits, head } => uncommitted_noted(
            ctx,
            before.no_commits@,
            after.no_commits@,
            views(source_commits@),
            head@,
        ),
        _ => after.no_commits == before.no_commits,
    }
    &&& after.squash_merges@ == match event {
        SemanticEvent::MergeSquash { source_head, onto } => before.squash_merges@.insert(
            ctx.key@,
            PendingSquashMerge { source_head, onto },
        ),
        SemanticEvent::CommitCreated { base, new_head } => if ends_squash(
            ctx,
            before.squash_merges@,
            opt_view(base),
            new_head@,
        ) {
            before.squash_merges@.remove(ctx.key@)
        } else {
            before.squash_merges@
        },
        _ => before.squash_merges@,
    }
}

/// Whether the commits of a revert are handled once an event was seen.
pub open spec fn revert_handled_after(
    handled: bool,
    pending: PendingRewrites,
    ctx: EventContext,
    event: SemanticEvent,
) -> bool {
    handled || match event {
        SemanticEvent::CommitCreated { base, new_head } => is_reverting(
            ctx,
            pending.squash_merges@,
            opt_view(base),
            new_head@,
        ),
        _ => false,
    }
}

/// Takes an event up: notes what it leaves unfinished and says what is to be done.
pub fn event_effect(
    pending: &mut PendingRewrites,
    revert_handled: &mut bool,
    ctx: &EventContext,
    event: &SemanticEvent,
) -> (r: Result<Option<SideEffect>, SideEffectError>)
    ensures
        outcome_view(r) == event_outcome(*old(pending), *old(revert_handled), *ctx, *event),
        pending_after(*old(pending), *final(pending), *ctx, *event),
        *final(revert_handled) == revert_handled_after(
            *old(revert_handled),
            *old(pending),
            *ctx,
            *event,
        ),
        old(pending).wf() ==> final(pending).wf(),
{
    match event {
        SemanticEvent::CloneCompleted => Ok(Some(SideEffect::SyncCloneNotes)),
        SemanticEvent::PullCompleted { .. } => Ok(Some(SideEffect::SyncPullNotes)),
        SemanticEvent::PushCompleted { .. } => Ok(Some(SideEffect::PushNotes)),
        SemanticEvent::CherryPickComplete { original_head, new_head, source_commits, new_commits } =>
            cherry_pick_completed(
            pending,
            ctx,
            original_head.as_str(),
            new_head.as_str(),
            source_commits,
            new_commits,
        ),
        SemanticEvent::CherryPickNoCommit { source_commits, head } => cherry_pick_not_committed(
            pending,
            ctx,
            source_commits,
            head.as_str(),
        ),
        SemanticEvent::MergeSquash { source_head, onto } => {
            pending.set_pending_squash_merge_for_worktree(
                ctx.key.to_owned(),
                source_head.clone(),
                onto.clone(),
            );
            Ok(None)
        },
        SemanticEvent::StashOperation { kind, head } => Ok(stashed(ctx, *kind, head)),
        SemanticEvent::CommitCreated { base, new_head } => commit_created(
            pending,
            revert_handled,
            ctx,
            base,
            new_head.as_str(),
        ),
        SemanticEvent::CommitAmended { old_head, new_head } => Ok(
            amended(ctx.lite, old_head.as_str(), new_head.as_str()),
        ),
        SemanticEvent::Reset { kind, old_head, new_head } => Ok(
            was_reset(
                &ctx.answers.ancestry,
                ctx.lite,
                *kind,
                old_head.as_str(),
                new_head.as_str(),
            ),
        ),
        SemanticEvent::RefUpdated { .. } => Ok(None),
        SemanticEvent::Other => Ok(None),
    }
}

/// Whether a commit takes in what was picked without being committed.
pub open spec fn takes_pick_in(
    ctx: EventContext,
    picks: Map<Seq<char>, PendingCherryPickNoCommit>,
    base: Option<Seq<char>>,
) -> bool {
    &&& !ctx.lite
    &&& ctx.cmd.primary() == Some("commit"@)
    &&& picks.contains_key(ctx.key@)
    &&& base == Some(picks[ctx.key@].head@)
}

/// What is still to be done once what an event came to is done: a commit that was
/// looked at for who wrote it (`committed`) may take in what was picked before it.
pub open spec fn follow_up_of(
    pending: PendingRewrites,
    ctx: EventContext,
    event: SemanticEvent,
    committed: bool,
) -> Option<EffectModel> {
    match event {
        SemanticEvent::CommitCreated { base, new_head } => if committed && takes_pick_in(ctx, pending.no_commits@, opt_view(base)) {
            Some(
                EffectModel::PickWithoutCommit {
                    sources: views(pending.no_commits@[ctx.key@].source_commits@),
                    parent_head: pending.no_commits@[ctx.key@].head@,
                    new_head: new_head@,
                },
            )
        } else {
            None
        },
        _ => None,
    }
}

/// What is unfinished once what an event came to is done.
pub open spec fn pending_after_done(
    before: PendingRewrites,
    after: PendingRewrites,
    ctx: EventContext,
    event: SemanticEvent,
    committed: bool,
) -> bool {
    &&& after.rebases == before.rebases
    &&& after.squash_merges == before.squash_merges
    &&& after.cherry_picks@ == if event is CherryPickComplete && ctx.lite {
        before.cherry_picks@.remove(ctx.key@)
    } else {
        before.cherry_picks@
    }
    &&& after.no_commits@ == if follow_up_of(before, ctx, event, committed) is Some {
        before.no_commits@.remove(ctx.key@)
    } else {
        before.no_commits@
    }
}

/// Takes up what is left once what an event came to is done; `committed` says whether
/// that was to look at a commit for who wrote it.
pub fn event_follow_up(
    pending: &mut PendingRewrites,
    ctx: &EventContext,
    event: &SemanticEvent,
    committed: bool,
) -> (r: Option<SideEffect>)
    ensures
        effect_view(r) == follow_up_of(*old(pending), *ctx, *event, committed),
        pending_after_done(*old(pending), *final(pending), *ctx, *event, committed),
        old(pending).wf() ==> final(pending).wf(),
{
    match event {
        SemanticEvent::CherryPickComplete { .. } => {
            if ctx.lite {
                pending.clear_pending_cherry_pick_sources_for_worktree(ctx.key);
            }
            None
        },
        SemanticEvent::CommitCreated { base, new_head } => {
            if !committed || ctx.lite || !ctx.cmd.is("commit") {
                return None;
            }
            let takes_in = match pending.no_commits.get(ctx.key) {
                Some(pick) => opt_is(base, pick.head.as_str()),
                None => false,
            };
            if !takes_in {
                return None;
            }
            match pending.take_pending_cherry_pick_no_commit_for_worktree(ctx.key) {
                Some(pick) => Some(
                    SideEffect::PickWithoutCommit {
                        sources: pick.source_commits,
                        parent_head: pick.head,
                        new_head: new_head.clone(),
                    },
                ),
                None => None,
            }
        },
        _ => None,
    }
}

/// While commits are replayed none of them is looked at for who wrote it,
/// unless one ends a squashed merge; their notes follow the rewritten history.
pub proof fn law_replayed_commits_keep_their_notes(
    pending: PendingRewrites,
    revert_handled: bool,
    ctx: EventContext,
    base: Option<String>,
    new_head: String,
)
    requires
        ctx.replaying,
        !ends_squash(ctx, pending.squash_merges@, opt_view(base), new_head@),
    ensures
        event_outcome(
            pending,
            revert_handled,
            ctx,
            (SemanticEvent::CommitCreated { base, new_head }),
        ) == Ok::<Option<EffectModel>, SideEffectError>(None),
{
}

/// A squashed merge is used up by the commit that ends it and by no other.
pub proof fn law_a_squash_ends_once(
    before: PendingRewrites,
    after: PendingRewrites,
    ctx: EventContext,
    base: Option<String>,
    new_head: String,
)
    requires
        pending_after(before, after, ctx, (SemanticEvent::CommitCreated { base, new_head })),
        before.squash_merges@.contains_key(ctx.key@),
    ensures
        after.squash_merges@.contains_key(ctx.key@) <==> !ends_squash(
            ctx,
            before.squash_merges@,
            opt_view(base),
            new_head@,
        ),
        !ends_squash(ctx, after.squash_merges@, opt_view(base), new_head@),
{
}

/// The commits of one revert are rewritten once: the second commit event of
/// the command comes to nothing.
pub proof fn law_a_revert_is_rewritten_once(
    pending: PendingRewrites,
    ctx: EventContext,
    base: Option<String>,
    new_head: String,
)
    requires
        ctx.cmd.primary() == Some("revert"@),
    ensures
        event_outcome(
            pending,
            true,
            ctx,
            (SemanticEvent::CommitCreated { base, new_head }),
        ) == Ok::<Option<EffectModel>, SideEffectError>(None),
{
    reveal_strlit("revert");
    reveal_strlit("commit");
    assert("revert"@[0] != "commit"@[0]);
}

/// What a branch switch does to the working log.
#[derive(Debug)]
#[allow(inconsistent_fields)]
pub enum CheckoutEffect {
    /// Forget what was attributed in these paths.
    ForgetPaths { head: String, pathspecs: Vec<String> },
    /// Throw the working log away.
    Delete { head: String },
    /// Carry what was merged over, and throw the rest away.
    CarryMerged { old_head: String, new_head: String },
    /// Carry the working log over.
    Rename { old_head: String, new_head: String },
}

/// A working log that went from one commit to another with a branch switch.
#[derive(Debug)]
pub enum RecentReplayPrerequisite {
    CheckoutSwitchRename { target_head: String, old_head: String },
}

/// Whether a branch switch throws local changes away.
pub open spec fn forces(cmd: NormalizedCommand, facts: CommandFacts) -> bool {
    let args = views(facts.parsed.command_args@);
    ||| cmd.primary() == Some("checkout"@) && (args.contains("--force"@) || args.contains("-f"@))
    ||| cmd.primary() == Some("switch"@) && (args.contains("--discard-changes"@) || args.contains(
        "--force"@,
    ) || args.contains("-f"@))
}

fn is_forcing(cmd: &NormalizedCommand, facts: &CommandFacts) -> (r: bool)
    ensures
        r == forces(*cmd, *facts),
{
    (cmd.is("checkout") && (facts.has_command_flag("--force") || facts.has_command_flag("-f"))) || (
    cmd.is("switch") && (facts.has_command_flag("--discard-changes") || facts.has_command_flag(
        "--force",
    ) || facts.has_command_flag("-f")))
}

/// Whether a checkout is limited to paths.
pub open spec fn checks_out_paths(cmd: NormalizedCommand, facts: CommandFacts) -> bool {
    cmd.primary() == Some("checkout"@) && facts.pathspecs@.len() > 0
}

/// The head before a command.
pub open spec fn old_head_of(cmd: NormalizedCommand) -> Seq<char> {
    first_old(cmd.ref_changes@, head_scopes())
}

/// The head after a command.
pub open spec fn new_head_of(cmd: NormalizedCommand) -> Seq<char> {
    last_new(cmd.ref_changes@, head_scopes())
}

/// Whether a command took the head from one commit to another.
pub open spec fn moves_head(cmd: NormalizedCommand) -> bool {
    old_head_of(cmd).len() > 0 && new_head_of(cmd).len() > 0 && old_head_of(cmd) != new_head_of(
        cmd,
    )
}

/// What a branch switch does to the working log, if it does anything.
pub fn checkout_effect(cmd: &NormalizedCommand, facts: &CommandFacts) -> (r: Option<CheckoutEffect>)
    ensures
        match r {
            None => cmd.worktree is None || checks_out_paths(*cmd, *facts) && old_head_of(*cmd).len()
                == 0 || !checks_out_paths(*cmd, *facts) && !moves_head(*cmd),
            Some(CheckoutEffect::ForgetPaths { head, pathspecs }) => cmd.worktree is Some
                && checks_out_paths(*cmd, *facts) && head@.len() > 0 && head@ == old_head_of(*cmd)
                && pathspecs@ == facts.pathspecs@,
            Some(CheckoutEffect::Delete { head }) => cmd.worktree is Some && !checks_out_paths(
                *cmd,
                *facts,
            ) && moves_head(*cmd) && forces(*cmd, *facts) && head@ == old_head_of(*cmd),
            Some(CheckoutEffect::CarryMerged { old_head, new_head }) => cmd.worktree is Some
                && !checks_out_paths(*cmd, *facts) && moves_head(*cmd) && !forces(*cmd, *facts)
                && asks_merge(*facts) && old_head@ == old_head_of(*cmd) && new_head@ == new_head_of(
                *cmd,
            ),
            Some(CheckoutEffect::Rename { old_head, new_head }) => cmd.worktree is Some
                && !checks_out_paths(*cmd, *facts) && moves_head(*cmd) && !forces(*cmd, *facts)
                && !asks_merge(*facts) && old_head@ == old_head_of(*cmd) && new_head@
                == new_head_of(*cmd),
        },
{
    if cmd.worktree.is_none() {
        return None;
    }
    let (old_head, new_head) = resolve_heads_for_command(cmd);
    if cmd.is("checkout") && facts.pathspecs.len() > 0 {
        if old_head.as_str().unicode_len() > 0 {
            return Some(
                CheckoutEffect::ForgetPaths {
                    head: old_head,
                    pathspecs: clone_strings(&facts.pathspecs),
                },
            );
        }
        return None;
    }
    if old_head.as_str().unicode_len() == 0 || new_head.as_str().unicode_len() == 0 || str_eq(
        old_head.as_str(),
        new_head.as_str(),
    ) {
        return None;
    }
    if is_forcing(cmd, facts) {
        return Some(CheckoutEffect::Delete { head: old_head });
    }
    if facts.has_command_flag("--merge") || facts.has_command_flag("-m") {
        return Some(CheckoutEffect::CarryMerged { old_head, new_head });
    }
    Some(CheckoutEffect::Rename { old_head, new_head })
}

/// Whether a branch switch only carries the working log over.
pub open spec fn only_carries(cmd: NormalizedCommand, facts: CommandFacts) -> bool {
    moves_head(cmd) && !checks_out_paths(cmd, facts) && !forces(cmd, facts) && !asks_merge(facts)
}

/// What is remembered of a branch switch that only carries the working log over.
pub fn recent_checkout_switch_prerequisite_from_command(
    cmd: &NormalizedCommand,
    facts: &CommandFacts,
) -> (r: Option<RecentReplayPrerequisite>)
    ensures
        match r {
            Some(RecentReplayPrerequisite::CheckoutSwitchRename { target_head, old_head }) =>
                only_carries(*cmd, *facts) && target_head@ == new_head_of(*cmd) && old_head@
                    == old_head_of(*cmd),
            None => !only_carries(*cmd, *facts),
        },
{
    let (old_head, new_head) = resolve_heads_for_command(cmd);
    if old_head.as_str().unicode_len() == 0 || new_head.as_str().unicode_len() == 0 || str_eq(
        old_head.as_str(),
        new_head.as_str(),
    ) {
        return None;
    }
    if cmd.is("checkout") && facts.pathspecs.len() > 0 {
        return None;
    }
    if is_forcing(cmd, facts) {
        return None;
    }
    if facts.has_command_flag("--merge") || facts.has_command_flag("-m") {
        return None;
    }
    Some(RecentReplayPrerequisite::CheckoutSwitchRename { target_head: new_head, old_head })
}

/// The heads that a pull went forward between, when it did.
pub fn pull_fast_forward(cmd: &NormalizedCommand, known: &Ancestry) -> (r: Option<(String, String)>)
    ensures
        match r {
            Some(heads) => moves_head(*cmd) && known.holds(old_head_of(*cmd), new_head_of(*cmd))
                && heads.0@ == old_head_of(*cmd) && heads.1@ == new_head_of(*cmd),
            None => !(moves_head(*cmd) && known.holds(old_head_of(*cmd), new_head_of(*cmd))),
        },
{
    let (old_head, new_head) = resolve_heads_for_command(cmd);
    if old_head.as_str().unicode_len() == 0 || new_head.as_str().unicode_len() == 0 || str_eq(
        old_head.as_str(),
        new_head.as_str(),
    ) {
        return None;
    }
    if known.is_ancestor(old_head.as_str(), new_head.as_str()) {
        Some((old_head, new_head))
    } else {
        None
    }
}

/// What a ref that was set comes to.
#[derive(Debug)]
pub enum RefUpdateEffect {
    /// Carry the working log over; `post_commit` asks to look first at who wrote it.
    Carry { post_commit: bool },
    /// Rewrite history.
    NonFastForward,
}

/// Whether a ref that was set is looked at.
pub open spec fn counts_ref_update(
    lite: bool,
    reference: Seq<char>,
    old: Seq<char>,
    new: Seq<char>,
) -> bool {
    !lite && (reference == "HEAD"@ || has_prefix(reference, "refs/heads/"@)) && real_oid(old)
        && real_oid(new) && old != new
}

/// Whether a ref that was set is looked at.
pub fn is_counted_ref_update(lite: bool, reference: &str, old: &str, new: &str) -> (r: bool)
    ensures
        r == counts_ref_update(lite, reference@, old@, new@),
{
    !lite && (str_eq(reference, "HEAD") || starts_with(reference, "refs/heads/")) && is_real_oid(old)
        && is_real_oid(new) && !str_eq(old, new)
}

/// Whether setting a ref moved what is checked out.
pub open spec fn moves_what_is_checked_out(
    cmd: NormalizedCommand,
    reference: Seq<char>,
    old: Seq<char>,
    new: Seq<char>,
) -> bool {
    reference == "HEAD"@ || first_picked(
        cmd.ref_changes@,
        RefRule { old_is: Some(old), new_is: Some(new), ..any_change(head_scope()) },
    ) is Some
}

/// What a ref that was set comes to; `has_log` says whether there is a working
/// log for where it stood.
pub fn ref_update_effect(
    cmd: &NormalizedCommand,
    known: &Ancestry,
    lite: bool,
    has_log: bool,
    reference: &str,
    old: &str,
    new: &str,
) -> (r: Option<RefUpdateEffect>)
    ensures
        ({
            let counts = counts_ref_update(lite, reference@, old@, new@);
            let checked_out = moves_what_is_checked_out(*cmd, reference@, old@, new@);
            match r {
                Some(RefUpdateEffect::Carry { post_commit }) => counts && known.holds(old@, new@)
                    && checked_out && post_commit == has_log,
                Some(RefUpdateEffect::NonFastForward) => counts && !known.holds(old@, new@),
                None => !counts || known.holds(old@, new@) && !checked_out,
            }
        }),
{
    if !is_counted_ref_update(lite, reference, old, new) {
        return None;
    }
    if !known.is_ancestor(old, new) {
        return Some(RefUpdateEffect::NonFastForward);
    }
    let mut filter = RefFilter::any(head());
    filter.old_is = Some(old.to_owned());
    filter.new_is = Some(new.to_owned());
    if str_eq(reference, "HEAD") || find_first(&cmd.ref_changes, &filter).is_some() {
        Some(RefUpdateEffect::Carry { post_commit: has_log })
    } else {
        None
    }
}

/// Whether a push takes no notes along: one that only pretends, deletes or mirrors,
/// or where the notes live behind a server.
pub fn push_skips_notes(args: &Vec<String>, dry_run: bool, notes_on_server: bool) -> (r: bool)
    ensures
        r == (notes_on_server || dry_run || views(args@).contains("-d"@) || views(args@).contains(
            "--delete"@,
        ) || views(args@).contains("--mirror"@)),
{
    notes_on_server || dry_run || contains_str(args, "-d") || contains_str(args, "--delete")
        || contains_str(args, "--mirror")
}

/// The commit whose file times are kept when a command ends: the new head of a
/// commit that succeeded, but with only the working logs kept up none that amends.
pub fn timestamp_snapshot_commit(cmd: &NormalizedCommand, lite: bool) -> (r: Option<String>)
    ensures
        opt_view(r) == (if cmd.worktree is Some && cmd.exit_code == 0 && cmd.primary() == Some(
            "commit"@,
        ) && !(lite && views(cmd.invoked_args@).contains("--amend"@)) && real_oid(
            new_head_of(*cmd),
        ) {
            Some(new_head_of(*cmd))
        } else {
            None
        }),
{
    if cmd.worktree.is_none() || cmd.exit_code != 0 || !cmd.is("commit") {
        return None;
    }
    if lite && cmd.has_arg("--amend") {
        return None;
    }
    let (_, new_head) = resolve_heads_for_command(cmd);
    if is_real_oid(new_head.as_str()) {
        Some(new_head)
    } else {
        None
    }
}

} // verus!
