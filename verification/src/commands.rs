//! Finished git commands and what they did to refs.
use crate::repo_state::{git_oid, is_valid_git_oid};
use crate::text::{
    chars_of, clone_opt, clone_strings, contains_str, has_prefix, opt_is, opt_view, starts_with,
    str_eq, views,
};
use crate::trace::ParsedGitInvocation;
use vstd::prelude::*;

verus! {

/// One ref that a command moved.
#[derive(Debug)]
pub struct RefChange {
    pub reference: String,
    pub old: String,
    pub new: String,
}

/// A finished command.
#[derive(Debug)]
pub struct NormalizedCommand {
    pub family_key: Option<String>,
    pub worktree: Option<String>,
    pub root_sid: String,
    pub raw_argv: Vec<String>,
    pub primary_command: Option<String>,
    pub invoked_command: Option<String>,
    pub invoked_args: Vec<String>,
    pub exit_code: i32,
    pub started_at_ns: u128,
    pub finished_at_ns: u128,
    pub stash_target_oid: Option<String>,
    pub cherry_pick_source_oids: Vec<String>,
    pub revert_source_oids: Vec<String>,
    pub ref_changes: Vec<RefChange>,
}

/// What a command line says that only the command line's own grammar can tell.
#[derive(Debug)]
pub struct CommandFacts {
    /// The command line, taken apart.
    pub parsed: ParsedGitInvocation,
    /// The paths that it is limited to.
    pub pathspecs: Vec<String>,
    /// Whether it steers a rebase that is under way.
    pub rebase_control_mode: bool,
    /// The branch that it asks to rebase.
    pub rebase_branch_arg: Option<String>,
    /// Whether it only pretends.
    pub dry_run: bool,
}

/// The kind of a stash command.
#[derive(Debug, Clone, Copy, PartialEq, Eq, Structural)]
pub enum StashOpKind {
    Push,
    Pop,
    Apply,
    Branch,
    Drop,
    List,
    Clear,
    Show,
    Unknown,
}

/// The kind of a reset.
#[derive(Debug, Clone, Copy, PartialEq, Eq, Structural)]
pub enum ResetKind {
    Soft,
    Mixed,
    Hard,
    Merge,
    Keep,
}

/// How a pull brings the branch up to date.
#[derive(Debug, Clone, Copy, PartialEq, Eq, Structural)]
pub enum PullStrategy {
    Merge,
    Rebase,
    RebaseMerges,
    FastForwardOnly,
}

/// What a command came to.
#[derive(Debug)]
#[allow(inconsistent_fields)]
pub enum SemanticEvent {
    CommitCreated { base: Option<String>, new_head: String },
    CommitAmended { old_head: String, new_head: String },
    Reset { kind: ResetKind, old_head: String, new_head: String },
    CherryPickComplete {
        original_head: String,
        new_head: String,
        source_commits: Vec<String>,
        new_commits: Vec<String>,
    },
    CherryPickNoCommit { source_commits: Vec<String>, head: String },
    MergeSquash { source_head: String, onto: String },
    StashOperation { kind: StashOpKind, head: Option<String> },
    RefUpdated { reference: String, old: String, new: String },
    PullCompleted { strategy: PullStrategy },
    PushCompleted { remote: Option<String> },
    CloneCompleted,
    Other,
}

/// A command whose effect on its family is known.
#[derive(Debug)]
pub struct AppliedCommand {
    pub command: NormalizedCommand,
    pub seq: u64,
    pub events: Vec<SemanticEvent>,
}

/// Whether an object id is all zeros.
pub open spec fn zero_oid(s: Seq<char>) -> bool {
    git_oid(s) && forall|i: int| 0 <= i < s.len() ==> s[i] == '0'
}

/// Whether an object id names an object.
pub open spec fn real_oid(s: Seq<char>) -> bool {
    git_oid(s) && !zero_oid(s)
}

/// Whether `oid` is an object id.
pub fn is_valid_oid(oid: &str) -> (r: bool)
    ensures
        r == git_oid(oid@),
{
    is_valid_git_oid(oid)
}

/// Whether `oid` is the object id of nothing.
pub fn is_zero_oid(oid: &str) -> (r: bool)
    ensures
        r == zero_oid(oid@),
{
    if !is_valid_oid(oid) {
        return false;
    }
    let cs = chars_of(oid);
    let mut i: usize = 0;
    while i < cs.len()
        invariant
            i <= cs.len(),
            cs@ == oid@,
            forall|j: int| 0 <= j < i ==> cs@[j] == '0',
        decreases cs.len() - i,
    {
        if cs[i] != '0' {
            assert(oid@[i as int] != '0');
            return false;
        }
        i += 1;
    }
    true
}

/// Whether `oid` names an object.
pub fn is_real_oid(oid: &str) -> (r: bool)
    ensures
        r == real_oid(oid@),
{
    is_valid_oid(oid) && !is_zero_oid(oid)
}

/// Whether a ref is one that history lives in, and not a note, a tag or a replacement.
pub open spec fn non_auxiliary(reference: Seq<char>) -> bool {
    !(has_prefix(reference, "refs/notes/"@) || has_prefix(reference, "refs/tags/"@) || has_prefix(
        reference,
        "refs/replace/"@,
    ))
}

/// Whether a ref is one that history lives in.
pub fn is_non_auxiliary_ref(reference: &str) -> (r: bool)
    ensures
        r == non_auxiliary(reference@),
{
    !(starts_with(reference, "refs/notes/") || starts_with(reference, "refs/tags/") || starts_with(
        reference,
        "refs/replace/",
    ))
}

/// Which refs a rule speaks of.
pub enum RefScopeModel {
    Branches,
    NonAuxiliary,
    Named(Seq<char>),
}

/// A rule that picks ref changes.
pub struct RefRule {
    pub scope: RefScopeModel,
    pub old_real: bool,
    pub new_real: bool,
    pub moved: bool,
    pub old_is: Option<Seq<char>>,
    pub new_is: Option<Seq<char>>,
}

/// Every change of the refs in `scope`.
pub open spec fn any_change(scope: RefScopeModel) -> RefRule {
    RefRule {
        scope,
        old_real: false,
        new_real: false,
        moved: false,
        old_is: None,
        new_is: None,
    }
}

/// The changes between two objects.
pub open spec fn real_change(scope: RefScopeModel) -> RefRule {
    RefRule { old_real: true, new_real: true, ..any_change(scope) }
}

/// The changes from one object to another.
pub open spec fn moved_change(scope: RefScopeModel) -> RefRule {
    RefRule { moved: true, ..real_change(scope) }
}

/// The changes away from an object.
pub open spec fn left_object(scope: RefScopeModel) -> RefRule {
    RefRule { old_real: true, ..any_change(scope) }
}

/// `HEAD` alone.
pub open spec fn head_scope() -> RefScopeModel {
    RefScopeModel::Named("HEAD"@)
}

/// Whether a rule picks a change.
pub open spec fn picks(rule: RefRule, change: RefChange) -> bool {
    &&& match rule.scope {
        RefScopeModel::Branches => has_prefix(change.reference@, "refs/heads/"@),
        RefScopeModel::NonAuxiliary => non_auxiliary(change.reference@),
        RefScopeModel::Named(name) => change.reference@ == name,
    }
    &&& rule.old_real ==> real_oid(change.old@)
    &&& rule.new_real ==> real_oid(change.new@)
    &&& rule.moved ==> change.old@ != change.new@
    &&& rule.old_is is Some ==> change.old@ == rule.old_is->0
    &&& rule.new_is is Some ==> change.new@ == rule.new_is->0
}

/// The first change that a rule picks.
pub open spec fn first_picked(changes: Seq<RefChange>, rule: RefRule) -> Option<RefChange>
    decreases changes.len(),
{
    if changes.len() == 0 {
        None
    } else if picks(rule, changes[0]) {
        Some(changes[0])
    } else {
        first_picked(changes.skip(1), rule)
    }
}

/// The last change that a rule picks.
pub open spec fn last_picked(changes: Seq<RefChange>, rule: RefRule) -> Option<RefChange>
    decreases changes.len(),
{
    if changes.len() == 0 {
        None
    } else if picks(rule, changes.last()) {
        Some(changes.last())
    } else {
        last_picked(changes.drop_last(), rule)
    }
}

/// All changes that a rule picks, in order.
pub open spec fn all_picked(changes: Seq<RefChange>, rule: RefRule) -> Seq<RefChange>
    decreases changes.len(),
{
    if changes.len() == 0 {
        Seq::empty()
    } else {
        let before = all_picked(changes.drop_last(), rule);
        if picks(rule, changes.last()) {
            before.push(changes.last())
        } else {
            before
        }
    }
}

/// Which refs a filter speaks of.
#[derive(Debug)]
pub enum RefScope {
    Branches,
    NonAuxiliary,
    Named(String),
}

/// A filter for ref changes.
#[derive(Debug)]
pub struct RefFilter {
    pub scope: RefScope,
    pub old_real: bool,
    pub new_real: bool,
    pub moved: bool,
    pub old_is: Option<String>,
    pub new_is: Option<String>,
}

impl View for RefScope {
    type V = RefScopeModel;

    open spec fn view(&self) -> RefScopeModel {
        match *self {
            RefScope::Branches => RefScopeModel::Branches,
            RefScope::NonAuxiliary => RefScopeModel::NonAuxiliary,
            RefScope::Named(name) => RefScopeModel::Named(name@),
        }
    }
}

impl View for RefFilter {
    type V = RefRule;

    open spec fn view(&self) -> RefRule {
        RefRule {
            scope: self.scope@,
            old_real: self.old_real,
            new_real: self.new_real,
            moved: self.moved,
            old_is: opt_view(self.old_is),
            new_is: opt_view(self.new_is),
        }
    }
}

impl RefFilter {
    /// Every change of the refs in `scope`.
    pub fn any(scope: RefScope) -> (r: RefFilter)
        ensures
            r@ == any_change(scope@),
    {
        RefFilter {
            scope,
            old_real: false,
            new_real: false,
            moved: false,
            old_is: None,
            new_is: None,
        }
    }

    /// The changes between two objects.
    pub fn between_objects(scope: RefScope) -> (r: RefFilter)
        ensures
            r@ == real_change(scope@),
    {
        RefFilter {
            scope,
            old_real: true,
            new_real: true,
            moved: false,
            old_is: None,
            new_is: None,
        }
    }

    /// The changes from one object to another.
    pub fn moved(scope: RefScope) -> (r: RefFilter)
        ensures
            r@ == moved_change(scope@),
    {
        RefFilter {
            scope,
            old_real: true,
            new_real: true,
            moved: true,
            old_is: None,
            new_is: None,
        }
    }

    /// The changes away from an object.
    pub fn left_object(scope: RefScope) -> (r: RefFilter)
        ensures
            r@ == left_object(scope@),
    {
        RefFilter {
            scope,
            old_real: true,
            new_real: false,
            moved: false,
            old_is: None,
            new_is: None,
        }
    }

    /// Whether the filter lets a change through.
    pub fn passes(&self, change: &RefChange) -> (r: bool)
        ensures
            r == picks(self@, *change),
    {
        let in_scope = match &self.scope {
            RefScope::Branches => starts_with(change.reference.as_str(), "refs/heads/"),
            RefScope::NonAuxiliary => is_non_auxiliary_ref(change.reference.as_str()),
            RefScope::Named(name) => str_eq(change.reference.as_str(), name.as_str()),
        };
        let old_matches = match &self.old_is {
            Some(old) => str_eq(change.old.as_str(), old.as_str()),
            None => true,
        };
        let new_matches = match &self.new_is {
            Some(new) => str_eq(change.new.as_str(), new.as_str()),
            None => true,
        };
        in_scope && old_matches && new_matches && (!self.old_real || is_real_oid(
            change.old.as_str(),
        )) && (!self.new_real || is_real_oid(change.new.as_str())) && (!self.moved || !str_eq(
            change.old.as_str(),
            change.new.as_str(),
        ))
    }
}

/// `HEAD` alone.
pub fn head() -> (r: RefScope)
    ensures
        r@ == head_scope(),
{
    RefScope::Named("HEAD".to_owned())
}

/// The first change that the filter lets through.
pub fn find_first<'a>(changes: &'a Vec<RefChange>, filter: &RefFilter) -> (r: Option<&'a RefChange>)
    ensures
        r is Some <==> first_picked(changes@, filter@) is Some,
        r is Some ==> *r->0 == first_picked(changes@, filter@)->0,
{
    let mut i: usize = 0;
    assert(changes@.skip(0) =~= changes@);
    while i < changes.len()
        invariant
            i <= changes.len(),
            first_picked(changes@, filter@) == first_picked(changes@.skip(i as int), filter@),
        decreases changes.len() - i,
    {
        assert(changes@.skip(i as int).skip(1) =~= changes@.skip(i + 1));
        if filter.passes(&changes[i]) {
            return Some(&changes[i]);
        }
        i += 1;
    }
    None
}

/// The last change that the filter lets through.
pub fn find_last<'a>(changes: &'a Vec<RefChange>, filter: &RefFilter) -> (r: Option<&'a RefChange>)
    ensures
        r is Some <==> last_picked(changes@, filter@) is Some,
        r is Some ==> *r->0 == last_picked(changes@, filter@)->0,
{
    let mut i: usize = changes.len();
    assert(changes@.take(i as int) =~= changes@);
    while i > 0
        invariant
            i <= changes.len(),
            last_picked(changes@, filter@) == last_picked(changes@.take(i as int), filter@),
        decreases i,
    {
        assert(changes@.take(i as int).drop_last() =~= changes@.take(i - 1));
        if filter.passes(&changes[i - 1]) {
            return Some(&changes[i - 1]);
        }
        i -= 1;
    }
    None
}

fn clone_change(change: &RefChange) -> (r: RefChange)
    ensures
        r == *change,
{
    RefChange {
        reference: change.reference.clone(),
        old: change.old.clone(),
        new: change.new.clone(),
    }
}

/// All changes that the filter lets through, in order.
pub fn find_all(changes: &Vec<RefChange>, filter: &RefFilter) -> (r: Vec<RefChange>)
    ensures
        r@ == all_picked(changes@, filter@),
{
    let mut out: Vec<RefChange> = Vec::new();
    let mut i: usize = 0;
    assert(changes@.take(0) =~= Seq::<RefChange>::empty());
    while i < changes.len()
        invariant
            i <= changes.len(),
            out@ == all_picked(changes@.take(i as int), filter@),
        decreases changes.len() - i,
    {
        assert(changes@.take(i + 1).drop_last() =~= changes@.take(i as int));
        if filter.passes(&changes[i]) {
            out.push(clone_change(&changes[i]));
        }
        i += 1;
    }
    assert(changes@.take(changes@.len() as int) =~= changes@);
    out
}

/// The object ids that a list of changes led to.
pub open spec fn new_oids(changes: Seq<RefChange>) -> Seq<Seq<char>> {
    changes.map_values(|c: RefChange| c.new@)
}

/// The old object id of the first change that the rules pick, tried in turn.
pub open spec fn first_old(changes: Seq<RefChange>, scopes: Seq<RefScopeModel>) -> Seq<char>
    decreases scopes.len(),
{
    if scopes.len() == 0 {
        Seq::empty()
    } else {
        match first_picked(changes, any_change(scopes[0])) {
            Some(change) => change.old@,
            None => first_old(changes, scopes.skip(1)),
        }
    }
}

/// The new object id of the last change that the rules pick, tried in turn.
pub open spec fn last_new(changes: Seq<RefChange>, scopes: Seq<RefScopeModel>) -> Seq<char>
    decreases scopes.len(),
{
    if scopes.len() == 0 {
        Seq::empty()
    } else {
        match last_picked(changes, any_change(scopes[0])) {
            Some(change) => change.new@,
            None => last_new(changes, scopes.skip(1)),
        }
    }
}

/// Where the head of a command's history is looked for: `HEAD`, else a branch, else any such ref.
pub open spec fn head_scopes() -> Seq<RefScopeModel> {
    seq![head_scope(), RefScopeModel::Branches, RefScopeModel::NonAuxiliary]
}

/// The head before a command, and the head after it; nothing where it moved none.
pub fn resolve_heads_for_command(cmd: &NormalizedCommand) -> (r: (String, String))
    ensures
        r.0@ == first_old(cmd.ref_changes@, head_scopes()),
        r.1@ == last_new(cmd.ref_changes@, head_scopes()),
{
    let ghost scopes = head_scopes();
    proof {
        reveal_with_fuel(first_old, 4);
        reveal_with_fuel(last_new, 4);
        assert(scopes.skip(1)[0] == RefScopeModel::Branches);
        assert(scopes.skip(1).skip(1)[0] == RefScopeModel::NonAuxiliary);
        assert(scopes.skip(1).skip(1).skip(1).len() == 0);
    }
    let on_head = RefFilter::any(head());
    let on_branch = RefFilter::any(RefScope::Branches);
    let on_any = RefFilter::any(RefScope::NonAuxiliary);
    let old = match find_first(&cmd.ref_changes, &on_head) {
        Some(change) => change.old.clone(),
        None => match find_first(&cmd.ref_changes, &on_branch) {
            Some(change) => change.old.clone(),
            None => match find_first(&cmd.ref_changes, &on_any) {
                Some(change) => change.old.clone(),
                None => String::new(),
            },
        },
    };
    let new = match find_last(&cmd.ref_changes, &on_head) {
        Some(change) => change.new.clone(),
        None => match find_last(&cmd.ref_changes, &on_branch) {
            Some(change) => change.new.clone(),
            None => match find_last(&cmd.ref_changes, &on_any) {
                Some(change) => change.new.clone(),
                None => String::new(),
            },
        },
    };
    (old, new)
}

/// The command line of a command as it is taken to have been: from its words
/// when they are known (`from_argv`), and otherwise from what the trace said.
pub open spec fn invocation_for(
    cmd: NormalizedCommand,
    from_argv: ParsedGitInvocation,
) -> (Seq<Seq<char>>, Option<Seq<char>>, Seq<Seq<char>>) {
    if cmd.raw_argv@.len() > 0 {
        (
            views(from_argv.global_args@),
            opt_view(from_argv.command),
            views(from_argv.command_args@),
        )
    } else {
        (Seq::empty(), opt_view(cmd.primary_command), views(cmd.invoked_args@))
    }
}

/// The command line of a command as it is taken to have been.
pub fn parsed_invocation_for_normalized_command(
    cmd: &NormalizedCommand,
    from_argv: ParsedGitInvocation,
) -> (r: ParsedGitInvocation)
    ensures
        (views(r.global_args@), opt_view(r.command), views(r.command_args@)) == invocation_for(
            *cmd,
            from_argv,
        ),
{
    if cmd.raw_argv.len() > 0 {
        return from_argv;
    }
    let global_args: Vec<String> = Vec::new();
    assert(views(global_args@) =~= Seq::<Seq<char>>::empty());
    ParsedGitInvocation {
        global_args,
        command: clone_opt(&cmd.primary_command),
        command_args: clone_strings(&cmd.invoked_args),
    }
}

impl CommandFacts {
    /// Whether the command's arguments hold this flag.
    pub fn has_command_flag(&self, flag: &str) -> (r: bool)
        ensures
            r == views(self.parsed.command_args@).contains(flag@),
    {
        contains_str(&self.parsed.command_args, flag)
    }
}

impl NormalizedCommand {
    /// The command's name.
    pub open spec fn primary(self) -> Option<Seq<char>> {
        opt_view(self.primary_command)
    }

    /// Whether this is the command.
    pub fn is(&self, name: &str) -> (r: bool)
        ensures
            r == (self.primary() == Some(name@)),
    {
        opt_is(&self.primary_command, name)
    }

    /// Whether the command was given this argument.
    pub fn has_arg(&self, arg: &str) -> (r: bool)
        ensures
            r == views(self.invoked_args@).contains(arg@),
    {
        contains_str(&self.invoked_args, arg)
    }
}

} // verus!
