//! Branch switches, pulls and refs that are set, and what they do to the working log.
use crate::commands::{
    any_change, head_scope, is_real_oid, picks, resolve_heads_for_command, CommandFacts,
    NormalizedCommand, RefRule,
};
use crate::event_effects::{
    checkout_effect, pull_fast_forward, push_skips_notes,
    recent_checkout_switch_prerequisite_from_command, ref_update_effect, timestamp_snapshot_commit,
    CheckoutEffect, RecentReplayPrerequisite, RefUpdateEffect,
};
use crate::laws::refs::{lemma_first, lemma_first_exists};
use crate::rewrite::Ancestry;
use crate::text::{has_prefix, views};
use vstd::prelude::*;

verus! {

/// A switch from one commit to another without further ado takes the working log along, from
/// the commit that it left to the one that it came to, and that is remembered.
pub proof fn law_a_plain_switch_takes_the_working_log_along(
    cmd: NormalizedCommand,
    facts: CommandFacts,
    heads: (String, String),
    r: Option<CheckoutEffect>,
    noted: Option<RecentReplayPrerequisite>,
)
    requires
        call_ensures(checkout_effect, (&cmd, &facts), r),
        call_ensures(recent_checkout_switch_prerequisite_from_command, (&cmd, &facts), noted),
        call_ensures(resolve_heads_for_command, (&cmd,), heads),
        cmd.worktree is Some,
        heads.0@.len() > 0 && heads.1@.len() > 0 && heads.0@ != heads.1@,
        cmd.primary() == Some("switch"@) || facts.pathspecs@.len() == 0,
        forall|i: int|
            0 <= i < facts.parsed.command_args@.len() ==> {
                let arg = (#[trigger] facts.parsed.command_args@[i])@;
                arg != "--force"@ && arg != "-f"@ && arg != "--discard-changes"@ && arg
                    != "--merge"@ && arg != "-m"@
            },
    ensures
        r matches Some(CheckoutEffect::Rename { old_head, new_head }) && old_head@ == heads.0@
            && new_head@ == heads.1@,
        noted matches Some(
            RecentReplayPrerequisite::CheckoutSwitchRename { target_head, old_head },
        ) && target_head@ == heads.1@ && old_head@ == heads.0@,
{
    reveal_strlit("checkout");
    reveal_strlit("switch");
    assert("checkout"@[0] != "switch"@[0]);
    let args = facts.parsed.command_args@;
    assert forall|w: Seq<char>|
        #[trigger] views(args).contains(w) implies w != "--force"@ && w != "-f"@ && w
        != "--discard-changes"@ && w != "--merge"@ && w != "-m"@ by {
        let i = views(args).index_of(w);
        assert(args[i]@ == w);
    }
}

/// A switch that throws local changes away throws away the working log of the commit that it
/// left; one that merges them carries what was merged. Neither is remembered as a mere switch.
pub proof fn law_forced_and_merged_switches(
    cmd: NormalizedCommand,
    facts: CommandFacts,
    heads: (String, String),
    r: Option<CheckoutEffect>,
    noted: Option<RecentReplayPrerequisite>,
)
    requires
        call_ensures(checkout_effect, (&cmd, &facts), r),
        call_ensures(recent_checkout_switch_prerequisite_from_command, (&cmd, &facts), noted),
        call_ensures(resolve_heads_for_command, (&cmd,), heads),
        cmd.worktree is Some,
        heads.0@.len() > 0 && heads.1@.len() > 0 && heads.0@ != heads.1@,
        cmd.primary() == Some("switch"@) || cmd.primary() == Some("checkout"@)
            && facts.pathspecs@.len() == 0,
    ensures
        ({
            let args = views(facts.parsed.command_args@);
            let forced = args.contains("--force"@) || args.contains("-f"@) || cmd.primary() == Some(
                "switch"@,
            ) && args.contains("--discard-changes"@);
            let merged = args.contains("--merge"@) || args.contains("-m"@);
            &&& forced ==> (r matches Some(CheckoutEffect::Delete { head }) && head@ == heads.0@)
            &&& !forced && merged ==> (r matches Some(
                CheckoutEffect::CarryMerged { old_head, new_head },
            ) && old_head@ == heads.0@ && new_head@ == heads.1@)
            &&& forced || merged ==> noted is None
        }),
{
    reveal_strlit("checkout");
    reveal_strlit("switch");
    assert("checkout"@[0] != "switch"@[0]);
}

/// A checkout of paths forgets what was attributed in these paths, at the commit that it was
/// run at, whether or not it is forced, and carries nothing anywhere.
pub proof fn law_a_checkout_of_paths_forgets_the_paths(
    cmd: NormalizedCommand,
    facts: CommandFacts,
    heads: (String, String),
    r: Option<CheckoutEffect>,
    noted: Option<RecentReplayPrerequisite>,
)
    requires
        call_ensures(checkout_effect, (&cmd, &facts), r),
        call_ensures(recent_checkout_switch_prerequisite_from_command, (&cmd, &facts), noted),
        call_ensures(resolve_heads_for_command, (&cmd,), heads),
        cmd.primary() == Some("checkout"@),
        facts.pathspecs@.len() > 0,
    ensures
        cmd.worktree is Some && heads.0@.len() > 0 ==> (r matches Some(
            CheckoutEffect::ForgetPaths { head, pathspecs },
        ) && head@ == heads.0@ && pathspecs@ == facts.pathspecs@),
        heads.0@.len() == 0 ==> r is None,
        noted is None,
{
}

/// A switch that stays where it was, or that no worktree is known of, does nothing.
pub proof fn law_a_switch_that_stays_does_nothing(
    cmd: NormalizedCommand,
    facts: CommandFacts,
    heads: (String, String),
    r: Option<CheckoutEffect>,
    noted: Option<RecentReplayPrerequisite>,
)
    requires
        call_ensures(checkout_effect, (&cmd, &facts), r),
        call_ensures(recent_checkout_switch_prerequisite_from_command, (&cmd, &facts), noted),
        call_ensures(resolve_heads_for_command, (&cmd,), heads),
    ensures
        cmd.worktree is None ==> r is None,
        facts.pathspecs@.len() == 0 && (heads.0@ == heads.1@ || heads.0@.len() == 0
            || heads.1@.len() == 0) ==> r is None,
        heads.0@ == heads.1@ || heads.0@.len() == 0 || heads.1@.len() == 0 ==> noted is None,
{
}

/// A pull went forward exactly when what it left is an ancestor of what it came to.
pub proof fn law_a_pull_goes_forward_along_ancestry(
    cmd: NormalizedCommand,
    known: Ancestry,
    heads: (String, String),
    left: &str,
    reached: &str,
    descends: bool,
    r: Option<(String, String)>,
)
    requires
        call_ensures(pull_fast_forward, (&cmd, &known), r),
        call_ensures(resolve_heads_for_command, (&cmd,), heads),
        left@ == heads.0@ && reached@ == heads.1@,
        call_ensures(Ancestry::is_ancestor, (&known, left, reached), descends),
    ensures
        r is Some ==> (r->0).0@ == heads.0@ && (r->0).1@ == heads.1@ && heads.0@ != heads.1@ && descends,
        descends && heads.0@ != heads.1@ && heads.0@.len() > 0 && heads.1@.len() > 0 ==> r is Some,
{
}

/// A branch or the head that is set to another commit rewrites history unless the new commit
/// descends from the old one.
pub proof fn law_refs_that_go_back_rewrite_history(
    cmd: NormalizedCommand,
    known: Ancestry,
    has_log: bool,
    reference: &str,
    old_oid: &str,
    new_oid: &str,
    real_old: bool,
    real_new: bool,
    descends: bool,
    r: Option<RefUpdateEffect>,
)
    requires
        call_ensures(
            ref_update_effect,
            (&cmd, &known, false, has_log, reference, old_oid, new_oid),
            r,
        ),
        call_ensures(is_real_oid, (old_oid,), real_old),
        call_ensures(is_real_oid, (new_oid,), real_new),
        call_ensures(Ancestry::is_ancestor, (&known, old_oid, new_oid), descends),
        reference@ == "HEAD"@ || has_prefix(reference@, "refs/heads/"@),
    ensures
        real_old && real_new && old_oid@ != new_oid@ && !descends ==> r matches Some(
            RefUpdateEffect::NonFastForward,
        ),
        descends ==> !(r matches Some(RefUpdateEffect::NonFastForward)),
        !real_old || !real_new || old_oid@ == new_oid@ ==> r is None,
{
}

/// The head that is set forward takes the working log along, looking first at who wrote the
/// commit where there is a log; so does a branch that is checked out, which is one whose move
/// the head made too. Another branch that goes forward leaves the working log alone.
pub proof fn law_what_is_checked_out_takes_the_working_log_along(
    cmd: NormalizedCommand,
    known: Ancestry,
    has_log: bool,
    reference: &str,
    old_oid: &str,
    new_oid: &str,
    real_old: bool,
    real_new: bool,
    descends: bool,
    r: Option<RefUpdateEffect>,
    k: int,
)
    requires
        call_ensures(
            ref_update_effect,
            (&cmd, &known, false, has_log, reference, old_oid, new_oid),
            r,
        ),
        call_ensures(is_real_oid, (old_oid,), real_old),
        call_ensures(is_real_oid, (new_oid,), real_new),
        call_ensures(Ancestry::is_ancestor, (&known, old_oid, new_oid), descends),
        reference@ == "HEAD"@ || has_prefix(reference@, "refs/heads/"@),
        real_old && real_new && old_oid@ != new_oid@ && descends,
    ensures
        reference@ == "HEAD"@ || 0 <= k < cmd.ref_changes@.len()
            && cmd.ref_changes@[k].reference@ == "HEAD"@ && cmd.ref_changes@[k].old@ == old_oid@
            && cmd.ref_changes@[k].new@ == new_oid@ ==> (r matches Some(
            RefUpdateEffect::Carry { post_commit },
        ) && post_commit == has_log),
        reference@ != "HEAD"@ && (forall|i: int|
            0 <= i < cmd.ref_changes@.len() ==> !((
            #[trigger] cmd.ref_changes@[i]).reference@ == "HEAD"@ && cmd.ref_changes@[i].old@
                == old_oid@ && cmd.ref_changes@[i].new@ == new_oid@)) ==> r is None,
{
    let rule = RefRule {
        old_is: Some(old_oid@),
        new_is: Some(new_oid@),
        ..any_change(head_scope())
    };
    let changes = cmd.ref_changes@;
    if 0 <= k < changes.len() && changes[k].reference@ == "HEAD"@ && changes[k].old@ == old_oid@
        && changes[k].new@ == new_oid@ {
        assert(picks(rule, changes[k]));
        lemma_first_exists(changes, rule, k);
    }
    if crate::commands::first_picked(changes, rule) is Some {
        let at = lemma_first(changes, rule);
        assert(changes[at].reference@ == "HEAD"@);
    }
}

/// Refs that are set come to nothing where only the working logs are kept up, and so do refs
/// that are neither the head nor a branch.
pub proof fn law_other_refs_come_to_nothing(
    cmd: NormalizedCommand,
    known: Ancestry,
    lite: bool,
    has_log: bool,
    reference: &str,
    old_oid: &str,
    new_oid: &str,
    r: Option<RefUpdateEffect>,
)
    requires
        call_ensures(
            ref_update_effect,
            (&cmd, &known, lite, has_log, reference, old_oid, new_oid),
            r,
        ),
        lite || reference@ != "HEAD"@ && !has_prefix(reference@, "refs/heads/"@),
    ensures
        r is None,
{
}

/// A push takes no notes along when it only pretends, deletes or mirrors, or when the notes
/// live behind a server; any other push takes them.
pub proof fn law_pushes_take_notes_along(
    args: Vec<String>,
    dry_run: bool,
    on_server: bool,
    r: bool,
)
    requires
        call_ensures(push_skips_notes, (&args, dry_run, on_server), r),
    ensures
        dry_run || on_server ==> r,
        forall|i: int|
            0 <= i < args@.len() && ((#[trigger] args@[i])@ == "--delete"@ || args@[i]@ == "-d"@
                || args@[i]@ == "--mirror"@) ==> r,
        !dry_run && !on_server && (forall|i: int|
            0 <= i < args@.len() ==> (#[trigger] args@[i])@ != "--delete"@ && args@[i]@ != "-d"@
                && args@[i]@ != "--mirror"@) ==> !r,
{
    assert forall|i: int|
        0 <= i < args@.len() && ((#[trigger] args@[i])@ == "--delete"@ || args@[i]@ == "-d"@
            || args@[i]@ == "--mirror"@) implies r by {
        assert(views(args@)[i] == args@[i]@);
    }
    if r && !dry_run && !on_server {
        let words = views(args@);
        let i = if words.contains("-d"@) {
            words.index_of("-d"@)
        } else if words.contains("--delete"@) {
            words.index_of("--delete"@)
        } else {
            words.index_of("--mirror"@)
        };
        assert(words[i] == args@[i]@);
    }
}

/// The file times that are kept are those of the commit that was just made: by a commit that
/// succeeded, and no other command.
pub proof fn law_file_times_are_kept_of_the_commit_made(
    cmd: NormalizedCommand,
    lite: bool,
    heads: (String, String),
    made: &str,
    real_new: bool,
    r: Option<String>,
)
    requires
        call_ensures(timestamp_snapshot_commit, (&cmd, lite), r),
        call_ensures(resolve_heads_for_command, (&cmd,), heads),
        made@ == heads.1@,
        call_ensures(is_real_oid, (made,), real_new),
    ensures
        r is Some ==> r->0@ == heads.1@ && real_new && cmd.primary() == Some("commit"@)
            && cmd.exit_code == 0 && cmd.worktree is Some,
        real_new && cmd.primary() == Some("commit"@) && cmd.exit_code == 0 && cmd.worktree is Some
            && !lite ==> r is Some,
        real_new && cmd.primary() == Some("commit"@) && cmd.exit_code == 0 && cmd.worktree is Some
            && lite ==> (r is Some <==> !views(cmd.invoked_args@).contains("--amend"@)),
{
}

} // verus!
