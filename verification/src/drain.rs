//! What is noted once something was worked off.
use crate::effects::{newest, with_error, SideEffectErrors, MAX_SIDE_EFFECT_ERRORS_PER_FAMILY};
use crate::sequencer::EntryKind;
use crate::text::concat;
use vstd::prelude::*;

verus! {

/// How the work on a command ended.
#[derive(Debug)]
pub enum CommandPass {
    /// It was applied to its family; what followed from it went well or not.
    Applied(Result<(), String>),
    /// It could not be applied.
    NotApplied(String),
    /// The work broke off.
    Panicked(String),
}

/// The error that is noted, if there is one.
pub open spec fn pass_error(pass: CommandPass) -> Option<Seq<char>> {
    match pass {
        CommandPass::Applied(Ok(_)) => None,
        CommandPass::Applied(Err(e)) => Some(e@),
        CommandPass::NotApplied(e) => Some(e@),
        CommandPass::Panicked(why) => Some("daemon command side effect panic: "@ + why@),
    }
}

/// Whether the outcome is reported: a command that was not applied has none, and one
/// that broke off only where it was applied before.
pub open spec fn pass_reported(pass: CommandPass, kind: EntryKind) -> bool {
    match pass {
        CommandPass::Applied(_) => true,
        CommandPass::NotApplied(_) => false,
        CommandPass::Panicked(_) => kind == EntryKind::AppliedSideEffects,
    }
}

/// Notes how the work on a command ended; returns the outcome to report.
pub fn finish_command(
    errors: &mut SideEffectErrors,
    family: &str,
    order: u64,
    kind: EntryKind,
    pass: CommandPass,
) -> (r: Option<Result<(), String>>)
    requires
        old(errors).wf(),
    ensures
        final(errors).wf(),
        pass_error(pass) is None ==> *final(errors) == *old(errors),
        pass_error(pass) is Some ==> final(errors).errors(family@) == newest(
            with_error(old(errors).errors(family@), order, pass_error(pass)->0),
            MAX_SIDE_EFFECT_ERRORS_PER_FAMILY as nat,
        ),
        forall|other: Seq<char>|
            other != family@ ==> final(errors).errors(other) == old(errors).errors(other),
        r is Some <==> pass_reported(pass, kind),
        r is Some ==> (match r->0 {
            Ok(_) => pass_error(pass) is None,
            Err(e) => pass_error(pass) == Some(e@),
        }),
{
    match pass {
        CommandPass::Applied(result) => {
            if let Err(e) = &result {
                errors.record_side_effect_error(family, order, e.clone());
            }
            Some(result)
        },
        CommandPass::NotApplied(e) => {
            errors.record_side_effect_error(family, order, e);
            None
        },
        CommandPass::Panicked(why) => {
            let e = concat("daemon command side effect panic: ", why.as_str());
            errors.record_side_effect_error(family, order, e.clone());
            if kind == EntryKind::AppliedSideEffects {
                Some(Err(e))
            } else {
                None
            }
        },
    }
}

/// The outcome of a checkpoint, with one that broke off as an error.
pub fn checkpoint_outcome(outcome: Result<Result<u64, String>, String>) -> (r: Result<u64, String>)
    ensures
        match outcome {
            Ok(inner) => r == inner,
            Err(why) => r is Err && r->Err_0@ == "daemon checkpoint panic: "@ + why@,
        },
{
    match outcome {
        Ok(inner) => inner,
        Err(why) => Err(concat("daemon checkpoint panic: ", why.as_str())),
    }
}

} // verus!
