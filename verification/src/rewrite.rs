//! What a command did to history, read from the refs that it moved.
use crate::commands::{
    all_picked, any_change, find_all, find_first, find_last, first_picked, head, head_scope,
    is_real_oid, is_valid_oid, last_picked, left_object, moved_change, new_oids, real_change,
    real_oid, NormalizedCommand, RefChange, RefFilter, RefRule, RefScope, RefScopeModel,
};
use crate::paths::{path_child, RepoPath};
use crate::repo_state::{git_dir_for_worktree, git_dir_of, git_oid, FileSnapshot};
use crate::text::{
    clone_opt, concat, has_prefix, opt_is, opt_view, split, split_on, starts_with, str_eq, views,
    words, words_of,
};
use crate::trace::{any_pathspec_covers, matches_any_pathspec, ParsedGitInvocation};
use vstd::prelude::*;

verus! {

/// What is known of which commit comes before which.
#[derive(Debug)]
pub struct Ancestry {
    pub pairs: Vec<(String, String)>,
}

impl Ancestry {
    /// Whether `ancestor` is known to come before `descendant`.
    pub open spec fn holds(self, ancestor: Seq<char>, descendant: Seq<char>) -> bool {
        exists|i: int| 0 <= i < self.pairs@.len() && pair_is(self.pairs@[i], ancestor, descendant)
    }

    /// Whether `ancestor` is known to come before `descendant`.
    pub fn is_ancestor(&self, ancestor: &str, descendant: &str) -> (r: bool)
        ensures
            r == self.holds(ancestor@, descendant@),
    {
        let mut i: usize = 0;
        while i < self.pairs.len()
            invariant
                i <= self.pairs.len(),
                forall|j: int|
                    0 <= j < i ==> !pair_is(#[trigger] self.pairs@[j], ancestor@, descendant@),
            decreases self.pairs.len() - i,
        {
            if str_eq(self.pairs[i].0.as_str(), ancestor) && str_eq(
                self.pairs[i].1.as_str(),
                descendant,
            ) {
                assert(pair_is(self.pairs@[i as int], ancestor@, descendant@));
                return true;
            }
            i += 1;
        }
        false
    }
}

/// Whether a pair holds these two texts.
pub open spec fn pair_is(pair: (String, String), a: Seq<char>, b: Seq<char>) -> bool {
    pair.0@ == a && pair.1@ == b
}

/// A rebase that stopped half way.
#[derive(Debug)]
pub struct PendingRebase {
    pub original_head: String,
    pub onto: Option<String>,
}

/// The object id of the commit that `HEAD` first left for another.
pub open spec fn first_head_old(changes: Seq<RefChange>) -> Option<Seq<char>> {
    match first_picked(changes, moved_change(head_scope())) {
        Some(change) => Some(change.old@),
        None => None,
    }
}

/// The commit that `HEAD` first left for another.
pub fn first_head_transition_old(cmd: &NormalizedCommand) -> (r: Option<String>)
    ensures
        opt_view(r) == first_head_old(cmd.ref_changes@),
{
    match find_first(&cmd.ref_changes, &RefFilter::moved(head())) {
        Some(change) => Some(change.old.clone()),
        None => None,
    }
}

/// The commits that a cherry-pick made.
pub fn cherry_pick_destination_commits(cmd: &NormalizedCommand) -> (r: Vec<String>)
    ensures
        views(r@) == new_oids(all_picked(cmd.ref_changes@, moved_change(head_scope()))),
{
    let changes = find_all(&cmd.ref_changes, &RefFilter::moved(head()));
    let mut out: Vec<String> = Vec::new();
    let mut i: usize = 0;
    while i < changes.len()
        invariant
            i <= changes.len(),
            views(out@) =~= new_oids(changes@).take(i as int),
        decreases changes.len() - i,
    {
        let ghost was = views(out@);
        out.push(changes[i].new.clone());
        assert(views(out@) =~= was.push(changes@[i as int].new@));
        assert(new_oids(changes@)[i as int] == changes@[i as int].new@);
        i += 1;
    }
    assert(new_oids(changes@).take(changes@.len() as int) =~= new_oids(changes@));
    out
}

/// A commit that undoes another.
#[derive(Debug)]
pub struct RevertSpec {
    pub revert_commit: String,
    pub parent: Option<String>,
    pub reverted_commit: Option<String>,
}

/// The commits that a revert made, each with its parent and, as far as they
/// are known, with the commit that it undoes.
pub fn revert_specs(cmd: &NormalizedCommand, sources: &Vec<String>) -> (r: Vec<RevertSpec>)
    ensures
        r@.len() == all_picked(cmd.ref_changes@, moved_change(head_scope())).len(),
        forall|i: int|
            #![trigger r@[i]]
            0 <= i < r@.len() ==> {
                let change = all_picked(cmd.ref_changes@, moved_change(head_scope()))[i];
                &&& r@[i].revert_commit@ == change.new@
                &&& opt_view(r@[i].parent) == Some(change.old@)
                &&& opt_view(r@[i].reverted_commit) == if i < sources@.len() {
                    Some(sources@[i]@)
                } else {
                    None
                }
            },
{
    let changes = find_all(&cmd.ref_changes, &RefFilter::moved(head()));
    let mut out: Vec<RevertSpec> = Vec::new();
    let mut i: usize = 0;
    while i < changes.len()
        invariant
            i <= changes.len(),
            out@.len() == i,
            forall|j: int|
                #![trigger out@[j]]
                0 <= j < i ==> {
                    &&& out@[j].revert_commit@ == changes@[j].new@
                    &&& opt_view(out@[j].parent) == Some(changes@[j].old@)
                    &&& opt_view(out@[j].reverted_commit) == if j < sources@.len() {
                        Some(sources@[j]@)
                    } else {
                        None
                    }
                },
        decreases changes.len() - i,
    {
        let reverted_commit = if i < sources.len() {
            Some(sources[i].clone())
        } else {
            None
        };
        out.push(
            RevertSpec {
                revert_commit: changes[i].new.clone(),
                parent: Some(changes[i].old.clone()),
                reverted_commit,
            },
        );
        i += 1;
    }
    out
}

/// Each commit of a chain with the commit that it follows.
pub fn commit_parent_pairs(original_head: &str, commits: &Vec<String>) -> (r: Vec<(String, String)>)
    ensures
        r@.len() == commits@.len(),
        forall|i: int|
            #![trigger r@[i]]
            0 <= i < r@.len() ==> r@[i].0@ == commits@[i]@ && r@[i].1@ == if i == 0 {
                original_head@
            } else {
                commits@[i - 1]@
            },
{
    let mut out: Vec<(String, String)> = Vec::new();
    let mut i: usize = 0;
    while i < commits.len()
        invariant
            i <= commits.len(),
            out@.len() == i,
            forall|j: int|
                #![trigger out@[j]]
                0 <= j < i ==> out@[j].0@ == commits@[j]@ && out@[j].1@ == if j == 0 {
                    original_head@
                } else {
                    commits@[j - 1]@
                },
        decreases commits.len() - i,
    {
        let parent = if i == 0 {
            original_head.to_owned()
        } else {
            commits[i - 1].clone()
        };
        out.push((commits[i].clone(), parent));
        i += 1;
    }
    out
}

/// Each source mapped to the commit that took it in; nothing where there is no such commit.
pub fn no_commit_mappings(sources: &Vec<String>, new_head: &str) -> (r: Vec<(String, String)>)
    ensures
        r@.len() == if new_head@.len() == 0 {
            0
        } else {
            sources@.len()
        },
        forall|i: int|
            #![trigger r@[i]]
            0 <= i < r@.len() ==> r@[i].0@ == sources@[i]@ && r@[i].1@ == new_head@,
{
    let mut out: Vec<(String, String)> = Vec::new();
    if new_head.unicode_len() == 0 {
        return out;
    }
    let mut i: usize = 0;
    while i < sources.len()
        invariant
            i <= sources.len(),
            out@.len() == i,
            forall|j: int|
                #![trigger out@[j]]
                0 <= j < i ==> out@[j].0@ == sources@[j]@ && out@[j].1@ == new_head@,
        decreases sources.len() - i,
    {
        out.push((sources[i].clone(), new_head.to_owned()));
        i += 1;
    }
    out
}

/// The ref that a rebase names as its branch.
pub open spec fn branch_ref_of(branch_spec: Seq<char>) -> Option<Seq<char>> {
    if has_prefix(branch_spec, "refs/"@) {
        Some(branch_spec)
    } else if git_oid(branch_spec) || branch_spec == "HEAD"@ || has_prefix(branch_spec, "@{"@) {
        None
    } else {
        Some("refs/heads/"@ + branch_spec)
    }
}

/// The ref that a rebase names as its branch; a commit is none.
pub fn explicit_rebase_branch_ref_name(branch_spec: &str) -> (r: Option<String>)
    ensures
        opt_view(r) == branch_ref_of(branch_spec@),
{
    if starts_with(branch_spec, "refs/") {
        return Some(branch_spec.to_owned());
    }
    if is_valid_oid(branch_spec) || str_eq(branch_spec, "HEAD") || starts_with(branch_spec, "@{") {
        return None;
    }
    Some(concat("refs/heads/", branch_spec))
}

/// Where a ref stood before the first change that took it from an object.
pub open spec fn first_left(changes: Seq<RefChange>, scope: RefScopeModel) -> Option<Seq<char>> {
    match first_picked(changes, left_object(scope)) {
        Some(change) => Some(change.old@),
        None => None,
    }
}

/// The head that a rebase started from: that of the branch it names, else the
/// head that it was seen to leave, else that of the first branch, else `HEAD`.
pub open spec fn rebase_start_of(
    changes: Seq<RefChange>,
    branch_arg: Option<Seq<char>>,
    seen: Seq<char>,
) -> Option<Seq<char>> {
    let named = match branch_arg {
        Some(spec) => match branch_ref_of(spec) {
            Some(reference) => first_left(changes, RefScopeModel::Named(reference)),
            None => None,
        },
        None => None,
    };
    if named is Some {
        named
    } else if real_oid(seen) {
        Some(seen)
    } else if first_left(changes, RefScopeModel::Branches) is Some {
        first_left(changes, RefScopeModel::Branches)
    } else {
        first_left(changes, head_scope())
    }
}

fn old_before(changes: &Vec<RefChange>, scope: RefScope) -> (r: Option<String>)
    ensures
        opt_view(r) == first_left(changes@, scope@),
{
    match find_first(changes, &RefFilter::left_object(scope)) {
        Some(change) => Some(change.old.clone()),
        None => None,
    }
}

/// The head that a rebase started from.
pub fn strict_rebase_original_head_from_command(
    cmd: &NormalizedCommand,
    branch_arg: &Option<String>,
    semantic_old_head: &str,
) -> (r: Option<String>)
    ensures
        opt_view(r) == rebase_start_of(
            cmd.ref_changes@,
            opt_view(*branch_arg),
            semantic_old_head@,
        ),
{
    if let Some(branch_spec) = branch_arg {
        if let Some(branch_ref) = explicit_rebase_branch_ref_name(branch_spec.as_str()) {
            let found = old_before(&cmd.ref_changes, RefScope::Named(branch_ref));
            if found.is_some() {
                return found;
            }
        }
    }
    if is_real_oid(semantic_old_head) {
        return Some(semantic_old_head.to_owned());
    }
    let on_branch = old_before(&cmd.ref_changes, RefScope::Branches);
    if on_branch.is_some() {
        return on_branch;
    }
    old_before(&cmd.ref_changes, head())
}

/// The moves of branches away from a given head.
pub open spec fn branch_from(original_head: Seq<char>) -> RefRule {
    RefRule { old_is: Some(original_head), ..moved_change(RefScopeModel::Branches) }
}

/// Whether the changes are all of one ref, and there is one.
pub open spec fn one_reference(changes: Seq<RefChange>) -> bool {
    changes.len() > 0 && forall|i: int|
        0 <= i < changes.len() ==> (#[trigger] changes[i]).reference@ == changes[0].reference@
}

/// The head that a rebase ended at: where the branch with the original head
/// went; else, when the command steered a rebase under way, where the only
/// branch that moved went, or `HEAD`.
pub open spec fn rebase_tip_of(
    changes: Seq<RefChange>,
    control_mode: bool,
    original_head: Seq<char>,
) -> Option<Seq<char>> {
    let branches = all_picked(changes, moved_change(RefScopeModel::Branches));
    match last_picked(changes, branch_from(original_head)) {
        Some(change) => Some(change.new@),
        None => if !control_mode {
            None
        } else if one_reference(branches) {
            Some(branches.last().new@)
        } else {
            match last_picked(changes, moved_change(head_scope())) {
                Some(change) => Some(change.new@),
                None => None,
            }
        },
    }
}

fn is_one_reference(changes: &Vec<RefChange>) -> (r: bool)
    ensures
        r == one_reference(changes@),
{
    if changes.len() == 0 {
        return false;
    }
    let mut i: usize = 1;
    while i < changes.len()
        invariant
            1 <= i <= changes.len(),
            forall|j: int|
                0 <= j < i ==> (#[trigger] changes@[j]).reference@ == changes@[0].reference@,
        decreases changes.len() - i,
    {
        if !str_eq(changes[i].reference.as_str(), changes[0].reference.as_str()) {
            assert(changes@[i as int].reference@ != changes@[0].reference@);
            return false;
        }
        i += 1;
    }
    true
}

/// The head that a rebase ended at.
pub fn rebase_new_tip_from_command(
    cmd: &NormalizedCommand,
    control_mode: bool,
    original_head: &str,
) -> (r: Option<String>)
    ensures
        opt_view(r) == rebase_tip_of(cmd.ref_changes@, control_mode, original_head@),
{
    let mut from_head = RefFilter::moved(RefScope::Branches);
    from_head.old_is = Some(original_head.to_owned());
    if let Some(change) = find_last(&cmd.ref_changes, &from_head) {
        return Some(change.new.clone());
    }
    if !control_mode {
        return None;
    }
    let branches = find_all(&cmd.ref_changes, &RefFilter::moved(RefScope::Branches));
    if is_one_reference(&branches) {
        return Some(branches[branches.len() - 1].new.clone());
    }
    match find_last(&cmd.ref_changes, &RefFilter::moved(head())) {
        Some(change) => Some(change.new.clone()),
        None => None,
    }
}

/// The first commit in the changes that a rebase can have gone onto: one that
/// comes before the new head and is neither head. `from_start` asks for where
/// `HEAD` went from the original head, otherwise for where it left from elsewhere.
pub open spec fn onto_in(
    changes: Seq<RefChange>,
    original_head: Seq<char>,
    new_tip: Seq<char>,
    known: Ancestry,
    from_start: bool,
) -> Option<Seq<char>>
    decreases changes.len(),
{
    if changes.len() == 0 {
        None
    } else {
        let candidate = if from_start {
            changes[0].new@
        } else {
            changes[0].old@
        };
        if (changes[0].old@ == original_head) == from_start && candidate != original_head
            && candidate != new_tip && known.holds(candidate, new_tip) {
            Some(candidate)
        } else {
            onto_in(changes.skip(1), original_head, new_tip, known, from_start)
        }
    }
}

/// The commit that a rebase went onto, as far as the moves of `HEAD` show it.
pub open spec fn rebase_onto_of(
    changes: Seq<RefChange>,
    original_head: Seq<char>,
    new_tip: Seq<char>,
    known: Ancestry,
) -> Option<Seq<char>> {
    let heads = all_picked(changes, moved_change(head_scope()));
    match onto_in(heads, original_head, new_tip, known, true) {
        Some(onto) => Some(onto),
        None => onto_in(heads, original_head, new_tip, known, false),
    }
}

fn find_onto(
    changes: &Vec<RefChange>,
    original_head: &str,
    new_tip: &str,
    known: &Ancestry,
    from_start: bool,
) -> (r: Option<String>)
    ensures
        opt_view(r) == onto_in(changes@, original_head@, new_tip@, *known, from_start),
{
    let mut i: usize = 0;
    assert(changes@.skip(0) =~= changes@);
    while i < changes.len()
        invariant
            i <= changes.len(),
            onto_in(changes@, original_head@, new_tip@, *known, from_start) == onto_in(
                changes@.skip(i as int),
                original_head@,
                new_tip@,
                *known,
                from_start,
            ),
        decreases changes.len() - i,
    {
        assert(changes@.skip(i as int).skip(1) =~= changes@.skip(i + 1));
        let change = &changes[i];
        let candidate = if from_start {
            change.new.as_str()
        } else {
            change.old.as_str()
        };
        if str_eq(change.old.as_str(), original_head) == from_start && !str_eq(
            candidate,
            original_head,
        ) && !str_eq(candidate, new_tip) && known.is_ancestor(candidate, new_tip) {
            return Some(candidate.to_owned());
        }
        i += 1;
    }
    None
}

/// The commit that a rebase went onto, as far as the moves of `HEAD` show it.
pub fn rebase_onto_from_command(
    cmd: &NormalizedCommand,
    known: &Ancestry,
    original_head: &str,
    new_tip: &str,
) -> (r: Option<String>)
    ensures
        opt_view(r) == rebase_onto_of(cmd.ref_changes@, original_head@, new_tip@, *known),
{
    let heads = find_all(&cmd.ref_changes, &RefFilter::moved(head()));
    let found = find_onto(&heads, original_head, new_tip, known, true);
    if found.is_some() {
        return found;
    }
    find_onto(&heads, original_head, new_tip, known, false)
}

/// Where the branch of a rewritten history is to be read from.
pub open spec fn metric_reference_of(
    changes: Seq<RefChange>,
    old_tip: Seq<char>,
    new_tip: Seq<char>,
) -> Option<Seq<char>> {
    let rule = RefRule {
        old_is: Some(old_tip),
        new_is: Some(new_tip),
        ..any_change(RefScopeModel::Branches)
    };
    match last_picked(changes, rule) {
        Some(change) => Some(change.reference@),
        None => None,
    }
}

/// The branch of a rewritten history: the one hinted at (`hinted` is its name,
/// when the hint is a branch), else the ref that moved between just these commits.
#[derive(Debug)]
pub enum MetricBranch {
    Named(String),
    OfReference(String),
    Unknown,
}

/// The branch that a rewrite is counted under.
pub fn rewrite_metric_branch_for_transition(
    cmd: &NormalizedCommand,
    old_tip: &str,
    new_tip: &str,
    hinted: &Option<String>,
) -> (r: MetricBranch)
    ensures
        match r {
            MetricBranch::Named(name) => opt_view(*hinted) == Some(name@),
            MetricBranch::OfReference(reference) => *hinted is None && metric_reference_of(
                cmd.ref_changes@,
                old_tip@,
                new_tip@,
            ) == Some(reference@),
            MetricBranch::Unknown => *hinted is None && metric_reference_of(
                cmd.ref_changes@,
                old_tip@,
                new_tip@,
            ) is None,
        },
{
    if let Some(name) = hinted {
        return MetricBranch::Named(name.clone());
    }
    let mut filter = RefFilter::any(RefScope::Branches);
    filter.old_is = Some(old_tip.to_owned());
    filter.new_is = Some(new_tip.to_owned());
    match find_last(&cmd.ref_changes, &filter) {
        Some(change) => MetricBranch::OfReference(change.reference.clone()),
        None => MetricBranch::Unknown,
    }
}

/// The changes of branches between objects or, where there are none, those of `HEAD`.
pub open spec fn history_moves(changes: Seq<RefChange>) -> Seq<RefChange> {
    let branches = all_picked(changes, real_change(RefScopeModel::Branches));
    if branches.len() > 0 {
        branches
    } else {
        all_picked(changes, real_change(head_scope()))
    }
}

/// A ref with where it came from and where it ended.
pub struct Move {
    pub reference: Seq<char>,
    pub old: Seq<char>,
    pub new: Seq<char>,
}

/// Whether the moves hold this ref.
pub open spec fn has_move(moves: Seq<Move>, reference: Seq<char>) -> bool {
    exists|i: int| 0 <= i < moves.len() && (#[trigger] moves[i]).reference == reference
}

/// The moves, with the one of this ref ended at `new`.
pub open spec fn ended_at(moves: Seq<Move>, reference: Seq<char>, new: Seq<char>) -> Seq<Move> {
    moves.map_values(
        |m: Move|
            if m.reference == reference {
                Move { new, ..m }
            } else {
                m
            },
    )
}

/// The changes with those of one ref taken together: its first old and its last new object.
pub open spec fn taken_together(changes: Seq<RefChange>) -> Seq<Move>
    decreases changes.len(),
{
    if changes.len() == 0 {
        Seq::empty()
    } else {
        let before = taken_together(changes.drop_last());
        let last = changes.last();
        if has_move(before, last.reference@) {
            ended_at(before, last.reference@, last.new@)
        } else {
            before.push(Move { reference: last.reference@, old: last.old@, new: last.new@ })
        }
    }
}

/// The moves that a list of changes stands for.
pub open spec fn moves_of(changes: Seq<RefChange>) -> Seq<Move> {
    changes.map_values(|c: RefChange| Move { reference: c.reference@, old: c.old@, new: c.new@ })
}

/// Takes the changes of each ref together.
pub fn collapse_changes(changes: &Vec<RefChange>) -> (r: Vec<RefChange>)
    ensures
        moves_of(r@) == taken_together(changes@),
{
    let mut out: Vec<RefChange> = Vec::new();
    let mut i: usize = 0;
    assert(changes@.take(0) =~= Seq::<RefChange>::empty());
    assert(moves_of(out@) =~= Seq::<Move>::empty());
    while i < changes.len()
        invariant
            i <= changes.len(),
            moves_of(out@) == taken_together(changes@.take(i as int)),
        decreases changes.len() - i,
    {
        assert(changes@.take(i + 1).drop_last() =~= changes@.take(i as int));
        let ghost before = moves_of(out@);
        let change = &changes[i];
        let mut seen = false;
        let mut next: Vec<RefChange> = Vec::new();
        let mut j: usize = 0;
        while j < out.len()
            invariant
                j <= out.len(),
                before == moves_of(out@),
                next@.len() == j,
                moves_of(next@) =~= ended_at(before, change.reference@, change.new@).take(j as int),
                seen == exists|k: int|
                    0 <= k < j && (#[trigger] before[k]).reference == change.reference@,
            decreases out.len() - j,
        {
            assert(before[j as int].reference == out@[j as int].reference@);
            let same = str_eq(out[j].reference.as_str(), change.reference.as_str());
            let new = if same {
                change.new.clone()
            } else {
                out[j].new.clone()
            };
            let ghost was = moves_of(next@);
            next.push(RefChange { reference: out[j].reference.clone(), old: out[j].old.clone(), new });
            assert(moves_of(next@) =~= was.push(
                ended_at(before, change.reference@, change.new@)[j as int],
            ));
            seen = seen || same;
            j += 1;
        }
        assert(ended_at(before, change.reference@, change.new@).take(out@.len() as int)
            =~= ended_at(before, change.reference@, change.new@));
        if seen {
            assert(has_move(before, change.reference@));
            out = next;
        } else {
            assert(!has_move(before, change.reference@));
            let ghost was = moves_of(out@);
            out.push(
                RefChange {
                    reference: change.reference.clone(),
                    old: change.old.clone(),
                    new: change.new.clone(),
                },
            );
            assert(moves_of(out@) =~= was.push(
                Move { reference: change.reference@, old: change.old@, new: change.new@ },
            ));
        }
        i += 1;
    }
    assert(changes@.take(changes@.len() as int) =~= changes@);
    out
}

/// No ref is taken twice, and none that changed is left out.
pub proof fn law_moves_are_one_per_ref(changes: Seq<RefChange>)
    ensures
        forall|i: int, j: int|
            0 <= i < j < taken_together(changes).len() ==> (#[trigger] taken_together(
                changes,
            )[i]).reference != (#[trigger] taken_together(changes)[j]).reference,
        forall|k: int|
            0 <= k < changes.len() ==> has_move(
                taken_together(changes),
                (#[trigger] changes[k]).reference@,
            ),
    decreases changes.len(),
{
    if changes.len() > 0 {
        let rest = changes.drop_last();
        let last = changes.last();
        let before = taken_together(rest);
        let after = taken_together(changes);
        law_moves_are_one_per_ref(rest);
        assert forall|i: int| 0 <= i < before.len() implies after[i].reference
            == before[i].reference by {}
        assert forall|k: int| 0 <= k < changes.len() implies has_move(
            after,
            (#[trigger] changes[k]).reference@,
        ) by {
            if k < rest.len() {
                assert(rest[k] == changes[k]);
                let i = choose|i: int|
                    0 <= i < before.len() && (#[trigger] before[i]).reference
                        == rest[k].reference@;
                assert(after[i].reference == changes[k].reference@);
            } else if has_move(before, last.reference@) {
                let i = choose|i: int|
                    0 <= i < before.len() && (#[trigger] before[i]).reference == last.reference@;
                assert(after[i].reference == last.reference@);
            } else {
                assert(after[before.len() as int].reference == last.reference@);
            }
        }
    }
}

/// How a rewrite is counted.
#[derive(Debug, Clone, Copy, PartialEq, Eq, Structural)]
pub enum RewriteOperation {
    Rebase,
    UpdateRef,
    NonFastForward,
}

/// One thing to do about a rewritten history.
#[derive(Debug)]
#[allow(inconsistent_fields)]
pub enum RewriteStep {
    /// Carry the working log over.
    Rename { old_tip: String, new_tip: String },
    /// Carry the notes over, then the working log; of a rebase, also what
    /// was done in its conflicts since `onto`.
    Rewrite {
        old_tip: String,
        new_tip: String,
        onto: Option<String>,
        operation: RewriteOperation,
        reference: Option<String>,
    },
}

/// One thing to do, with its texts.
#[allow(inconsistent_fields)]
pub enum StepModel {
    Rename { old_tip: Seq<char>, new_tip: Seq<char> },
    Rewrite {
        old_tip: Seq<char>,
        new_tip: Seq<char>,
        onto: Option<Seq<char>>,
        operation: RewriteOperation,
        reference: Option<Seq<char>>,
    },
}

impl View for RewriteStep {
    type V = StepModel;

    open spec fn view(&self) -> StepModel {
        match *self {
            RewriteStep::Rename { old_tip, new_tip } => StepModel::Rename {
                old_tip: old_tip@,
                new_tip: new_tip@,
            },
            RewriteStep::Rewrite { old_tip, new_tip, onto, operation, reference } =>
                StepModel::Rewrite {
                old_tip: old_tip@,
                new_tip: new_tip@,
                onto: opt_view(onto),
                operation,
                reference: opt_view(reference),
            },
        }
    }
}

/// The steps, with their texts.
pub open spec fn steps_view(steps: Seq<RewriteStep>) -> Seq<StepModel> {
    steps.map_values(|s: RewriteStep| s@)
}

/// The commit that `HEAD` first went to.
pub open spec fn onto_hint_of(changes: Seq<RefChange>) -> Option<Seq<char>> {
    match first_picked(changes, RefRule { new_real: true, ..any_change(head_scope()) }) {
        Some(change) => Some(change.new@),
        None => None,
    }
}

/// How the rewrites of a command are counted.
pub open spec fn operation_of(primary: Option<Seq<char>>) -> RewriteOperation {
    if primary == Some("rebase"@) {
        RewriteOperation::Rebase
    } else if primary == Some("update-ref"@) {
        RewriteOperation::UpdateRef
    } else {
        RewriteOperation::NonFastForward
    }
}

/// Whether a command moves the history that is checked out.
pub open spec fn moves_checked_out(primary: Option<Seq<char>>) -> bool {
    primary == Some("rebase"@) || primary == Some("pull"@)
}

/// Whether `HEAD` itself went from one commit to the other.
pub open spec fn head_went(changes: Seq<RefChange>, old: Seq<char>, new: Seq<char>) -> bool {
    let heads = all_picked(changes, real_change(head_scope()));
    heads.len() > 0 && heads[0].old@ == old && heads.last().new@ == new
}

/// What is done about one move.
pub open spec fn step_for(cmd: NormalizedCommand, lite: bool, known: Ancestry, m: Move) -> Option<
    StepModel,
> {
    let changes = cmd.ref_changes@;
    let hint = onto_hint_of(changes);
    if m.old == m.new {
        None
    } else if lite {
        if moves_checked_out(cmd.primary()) || head_went(changes, m.old, m.new) {
            Some(StepModel::Rename { old_tip: m.old, new_tip: m.new })
        } else {
            None
        }
    } else if known.holds(m.old, m.new) {
        None
    } else {
        let found = rebase_onto_of(changes, m.old, m.new, known);
        Some(
            StepModel::Rewrite {
                old_tip: m.old,
                new_tip: m.new,
                onto: if cmd.primary() == Some("rebase"@) && found is Some {
                    found
                } else {
                    hint
                },
                operation: operation_of(cmd.primary()),
                reference: Some(m.reference),
            },
        )
    }
}

/// What is done about the moves, in order.
pub open spec fn steps_for(
    cmd: NormalizedCommand,
    lite: bool,
    known: Ancestry,
    moves: Seq<Move>,
) -> Seq<StepModel>
    decreases moves.len(),
{
    if moves.len() == 0 {
        Seq::empty()
    } else {
        let before = steps_for(cmd, lite, known, moves.drop_last());
        match step_for(cmd, lite, known, moves.last()) {
            Some(step) => before.push(step),
            None => before,
        }
    }
}

/// What a finished rebase went onto: what was noted when it stopped, where
/// that can be, else what the moves of `HEAD` show.
pub open spec fn finished_onto(
    cmd: NormalizedCommand,
    pending: PendingRebase,
    new_tip: Seq<char>,
    known: Ancestry,
) -> Option<Seq<char>> {
    let original = pending.original_head@;
    match opt_view(pending.onto) {
        Some(onto) => if onto != original && onto != new_tip && known.holds(onto, new_tip) {
            Some(onto)
        } else {
            rebase_onto_of(cmd.ref_changes@, original, new_tip, known)
        },
        None => rebase_onto_of(cmd.ref_changes@, original, new_tip, known),
    }
}

/// What is done about a command that rewrote history. A rebase that had stopped
/// and now ended is taken as one rewrite from its original head.
pub open spec fn rewrite_steps_of(
    cmd: NormalizedCommand,
    control_mode: bool,
    pending: Option<PendingRebase>,
    lite: bool,
    known: Ancestry,
) -> Seq<StepModel> {
    let finished = match pending {
        Some(p) => rebase_tip_of(cmd.ref_changes@, control_mode, p.original_head@),
        None => None,
    };
    if finished is Some {
        let original = pending->0.original_head@;
        let new_tip = finished->0;
        if original == new_tip {
            Seq::empty()
        } else if lite {
            seq![StepModel::Rename { old_tip: original, new_tip }]
        } else if known.holds(original, new_tip) {
            Seq::empty()
        } else {
            seq![
                StepModel::Rewrite {
                    old_tip: original,
                    new_tip,
                    onto: finished_onto(cmd, pending->0, new_tip, known),
                    operation: RewriteOperation::Rebase,
                    reference: None,
                },
            ]
        }
    } else if lite && !moves_checked_out(cmd.primary()) && cmd.primary() != Some("update-ref"@) {
        Seq::empty()
    } else {
        steps_for(cmd, lite, known, taken_together(history_moves(cmd.ref_changes@)))
    }
}

fn head_moved_between(cmd: &NormalizedCommand, old: &str, new: &str) -> (r: bool)
    ensures
        r == head_went(cmd.ref_changes@, old@, new@),
{
    let heads = find_all(&cmd.ref_changes, &RefFilter::between_objects(head()));
    heads.len() > 0 && str_eq(heads[0].old.as_str(), old) && str_eq(
        heads[heads.len() - 1].new.as_str(),
        new,
    )
}

fn onto_hint(cmd: &NormalizedCommand) -> (r: Option<String>)
    ensures
        opt_view(r) == onto_hint_of(cmd.ref_changes@),
{
    let mut filter = RefFilter::any(head());
    filter.new_real = true;
    match find_first(&cmd.ref_changes, &filter) {
        Some(change) => Some(change.new.clone()),
        None => None,
    }
}

fn plan_move(cmd: &NormalizedCommand, lite: bool, known: &Ancestry, change: &RefChange) -> (r: Option<
    RewriteStep,
>)
    ensures
        match r {
            Some(step) => step_for(
                *cmd,
                lite,
                *known,
                Move { reference: change.reference@, old: change.old@, new: change.new@ },
            ) == Some(step@),
            None => step_for(
                *cmd,
                lite,
                *known,
                Move { reference: change.reference@, old: change.old@, new: change.new@ },
            ) is None,
        },
{
    let old = change.old.as_str();
    let new = change.new.as_str();
    if str_eq(old, new) {
        return None;
    }
    if lite {
        if cmd.is("rebase") || cmd.is("pull") || head_moved_between(cmd, old, new) {
            return Some(RewriteStep::Rename { old_tip: old.to_owned(), new_tip: new.to_owned() });
        }
        return None;
    }
    if known.is_ancestor(old, new) {
        return None;
    }
    let mut onto = onto_hint(cmd);
    if cmd.is("rebase") {
        let found = rebase_onto_from_command(cmd, known, old, new);
        if found.is_some() {
            onto = found;
        }
    }
    let operation = if cmd.is("rebase") {
        RewriteOperation::Rebase
    } else if cmd.is("update-ref") {
        RewriteOperation::UpdateRef
    } else {
        RewriteOperation::NonFastForward
    };
    Some(
        RewriteStep::Rewrite {
            old_tip: old.to_owned(),
            new_tip: new.to_owned(),
            onto,
            operation,
            reference: Some(change.reference.clone()),
        },
    )
}

fn plan_finished_rebase(
    cmd: &NormalizedCommand,
    pending: &PendingRebase,
    new_tip: String,
    known: &Ancestry,
) -> (r: RewriteStep)
    ensures
        r@ == (StepModel::Rewrite {
            old_tip: pending.original_head@,
            new_tip: new_tip@,
            onto: finished_onto(*cmd, *pending, new_tip@, *known),
            operation: RewriteOperation::Rebase,
            reference: None,
        }),
{
    let original = pending.original_head.as_str();
    let noted = match &pending.onto {
        Some(onto) => !str_eq(onto.as_str(), original) && !str_eq(onto.as_str(), new_tip.as_str())
            && known.is_ancestor(onto.as_str(), new_tip.as_str()),
        None => false,
    };
    let onto = if noted {
        clone_opt(&pending.onto)
    } else {
        rebase_onto_from_command(cmd, known, original, new_tip.as_str())
    };
    RewriteStep::Rewrite {
        old_tip: original.to_owned(),
        new_tip,
        onto,
        operation: RewriteOperation::Rebase,
        reference: None,
    }
}

/// What is to be done about a command that may have rewritten history.
/// `pending` is the rebase that had stopped before it, `known` what git says
/// of the commits that the command's ref changes name.
pub fn plan_non_ff_rewrites(
    cmd: &NormalizedCommand,
    control_mode: bool,
    pending: &Option<PendingRebase>,
    lite: bool,
    known: &Ancestry,
) -> (r: Vec<RewriteStep>)
    ensures
        steps_view(r@) == rewrite_steps_of(*cmd, control_mode, *pending, lite, *known),
{
    let mut steps: Vec<RewriteStep> = Vec::new();
    assert(steps_view(steps@) =~= Seq::<StepModel>::empty());
    if let Some(p) = pending {
        if let Some(new_tip) = rebase_new_tip_from_command(
            cmd,
            control_mode,
            p.original_head.as_str(),
        ) {
            if str_eq(p.original_head.as_str(), new_tip.as_str()) {
                return steps;
            }
            if lite {
                let ghost tip = new_tip@;
                steps.push(RewriteStep::Rename { old_tip: p.original_head.clone(), new_tip });
                assert(steps_view(steps@) =~= seq![
                    StepModel::Rename { old_tip: p.original_head@, new_tip: tip },
                ]);
                return steps;
            }
            if known.is_ancestor(p.original_head.as_str(), new_tip.as_str()) {
                return steps;
            }
            let step = plan_finished_rebase(cmd, p, new_tip, known);
            let ghost it = step@;
            steps.push(step);
            assert(steps_view(steps@) =~= seq![it]);
            return steps;
        }
    }
    if lite && !cmd.is("rebase") && !cmd.is("pull") && !cmd.is("update-ref") {
        return steps;
    }
    let mut changes = find_all(
        &cmd.ref_changes,
        &RefFilter::between_objects(RefScope::Branches),
    );
    if changes.len() == 0 {
        changes = find_all(&cmd.ref_changes, &RefFilter::between_objects(head()));
    }
    let moves = collapse_changes(&changes);
    let ghost all = moves_of(moves@);
    let mut i: usize = 0;
    assert(all.take(0) =~= Seq::<Move>::empty());
    while i < moves.len()
        invariant
            i <= moves.len(),
            all == moves_of(moves@),
            steps_view(steps@) == steps_for(*cmd, lite, *known, all.take(i as int)),
        decreases moves.len() - i,
    {
        assert(all.take(i + 1).drop_last() =~= all.take(i as int));
        assert(all.take(i + 1).last() == all[i as int]);
        if let Some(step) = plan_move(cmd, lite, known, &moves[i]) {
            let ghost was = steps_view(steps@);
            let ghost it = step@;
            steps.push(step);
            assert(steps_view(steps@) =~= was.push(it));
        }
        i += 1;
    }
    assert(all.take(all.len() as int) =~= all);
    steps
}

/// A command that only went forward rewrites nothing: with every move known to
/// lead from an ancestor to a descendant, and no rebase left over, nothing is done.
pub proof fn law_fast_forwards_rewrite_nothing(
    cmd: NormalizedCommand,
    control_mode: bool,
    known: Ancestry,
)
    requires
        forall|i: int|
            0 <= i < taken_together(history_moves(cmd.ref_changes@)).len() ==> {
                let m = #[trigger] taken_together(history_moves(cmd.ref_changes@))[i];
                m.old == m.new || known.holds(m.old, m.new)
            },
    ensures
        rewrite_steps_of(cmd, control_mode, None, false, known).len() == 0,
{
    lemma_no_steps(cmd, known, taken_together(history_moves(cmd.ref_changes@)));
}

proof fn lemma_no_steps(cmd: NormalizedCommand, known: Ancestry, moves: Seq<Move>)
    requires
        forall|i: int|
            0 <= i < moves.len() ==> {
                let m = #[trigger] moves[i];
                m.old == m.new || known.holds(m.old, m.new)
            },
    ensures
        steps_for(cmd, false, known, moves).len() == 0,
    decreases moves.len(),
{
    if moves.len() > 0 {
        assert forall|i: int| 0 <= i < moves.drop_last().len() implies {
            let m = #[trigger] moves.drop_last()[i];
            m.old == m.new || known.holds(m.old, m.new)
        } by {
            assert(moves.drop_last()[i] == moves[i]);
        }
        lemma_no_steps(cmd, known, moves.drop_last());
        assert(moves.last() == moves[moves.len() - 1]);
    }
}

/// The stash that a command speaks of; `made` asks for the one that it made.
pub open spec fn stash_of(cmd: NormalizedCommand, made: bool) -> Option<Seq<char>> {
    match opt_view(cmd.stash_target_oid) {
        Some(oid) => Some(oid),
        None => match first_picked(cmd.ref_changes@, any_change(RefScopeModel::Named("refs/stash"@))) {
            Some(change) => {
                let oid = if made {
                    change.new@
                } else {
                    change.old@
                };
                if oid.len() == 0 || oid == "0000000000000000000000000000000000000000"@ {
                    None
                } else {
                    Some(oid)
                }
            },
            None => None,
        },
    }
}

/// The stash that a command takes up, or the one that it made.
pub fn resolve_stash_sha(cmd: &NormalizedCommand, made: bool) -> (r: Option<String>)
    ensures
        opt_view(r) == stash_of(*cmd, made),
{
    if let Some(oid) = &cmd.stash_target_oid {
        return Some(oid.clone());
    }
    match find_first(
        &cmd.ref_changes,
        &RefFilter::any(RefScope::Named("refs/stash".to_owned())),
    ) {
        Some(change) => {
            let oid = if made {
                change.new.as_str()
            } else {
                change.old.as_str()
            };
            if oid.unicode_len() == 0 || str_eq(oid, "0000000000000000000000000000000000000000") {
                None
            } else {
                Some(oid.to_owned())
            }
        },
        None => None,
    }
}

/// Whether an option of stash takes the argument behind it.
pub open spec fn stash_takes_next(arg: Seq<char>) -> bool {
    arg == "-m"@ || arg == "--message"@ || arg == "--pathspec-from-file"@ || arg
        == "--pathspec-file-nul"@
}

/// Whether an argument of stash names no path: the subcommand, or the stash behind it.
pub open spec fn stash_word(arg: Seq<char>, i: nat) -> bool {
    ||| i == 0 && (arg == "push"@ || arg == "save"@ || arg == "pop"@ || arg == "apply"@)
    ||| i == 1 && has_prefix(arg, "stash@"@)
}

/// The arguments from `i` on, without `--`.
pub open spec fn without_separators(args: Seq<Seq<char>>, i: nat) -> Seq<Seq<char>>
    decreases args.len() - i,
{
    if i >= args.len() {
        Seq::empty()
    } else if args[i as int] == "--"@ {
        without_separators(args, i + 1)
    } else {
        seq![args[i as int]] + without_separators(args, i + 1)
    }
}

/// The paths that the arguments of stash name from `i` on.
pub open spec fn stash_paths_from(args: Seq<Seq<char>>, i: nat) -> Seq<Seq<char>>
    decreases
            if i < args.len() {
                args.len() - i
            } else {
                0
            },
{
    if i >= args.len() {
        Seq::empty()
    } else if args[i as int] == "--"@ {
        without_separators(args, i + 1)
    } else if has_prefix(args[i as int], "-"@) {
        if stash_takes_next(args[i as int]) {
            stash_paths_from(args, i + 2)
        } else {
            stash_paths_from(args, i + 1)
        }
    } else if stash_word(args[i as int], i) {
        stash_paths_from(args, i + 1)
    } else {
        seq![args[i as int]] + stash_paths_from(args, i + 1)
    }
}

fn is_stash_word(arg: &str, i: usize) -> (r: bool)
    ensures
        r == stash_word(arg@, i as nat),
{
    (i == 0 && (str_eq(arg, "push") || str_eq(arg, "save") || str_eq(arg, "pop") || str_eq(
        arg,
        "apply",
    ))) || (i == 1 && starts_with(arg, "stash@"))
}

fn is_stash_taking_next(arg: &str) -> (r: bool)
    ensures
        r == stash_takes_next(arg@),
{
    str_eq(arg, "-m") || str_eq(arg, "--message") || str_eq(arg, "--pathspec-from-file") || str_eq(
        arg,
        "--pathspec-file-nul",
    )
}

/// The paths that a stash command is limited to; none for another command.
pub fn stash_pathspecs_from_command(parsed: &ParsedGitInvocation) -> (r: Vec<String>)
    ensures
        views(r@) == if opt_view(parsed.command) == Some("stash"@) {
            stash_paths_from(views(parsed.command_args@), 0)
        } else {
            Seq::empty()
        },
{
    let mut out: Vec<String> = Vec::new();
    assert(views(out@) =~= Seq::<Seq<char>>::empty());
    if !opt_is(&parsed.command, "stash") {
        return out;
    }
    let args = &parsed.command_args;
    let ghost all = views(args@);
    let mut separated = false;
    let mut i: usize = 0;
    assert(views(out@) + stash_paths_from(all, 0) =~= stash_paths_from(all, 0));
    while i < args.len()
        invariant
            all == views(parsed.command_args@),
            *args == parsed.command_args,
            opt_view(parsed.command) == Some("stash"@),
            stash_paths_from(all, 0) == views(out@) + if separated {
                without_separators(all, i as nat)
            } else {
                stash_paths_from(all, i as nat)
            },
        decreases args.len() - i,
    {
        let arg = args[i].as_str();
        assert(all[i as int] == arg@);
        let ghost was = views(out@);
        if str_eq(arg, "--") {
            separated = true;
        } else if separated || (!starts_with(arg, "-") && !is_stash_word(arg, i)) {
            out.push(args[i].clone());
            proof {
                assert(views(out@) =~= was.push(arg@));
                let rest = if separated {
                    without_separators(all, (i + 1) as nat)
                } else {
                    stash_paths_from(all, (i + 1) as nat)
                };
                assert(was + (seq![arg@] + rest) =~= views(out@) + rest);
            }
        } else if starts_with(arg, "-") && is_stash_taking_next(arg) {
            if args.len() - i <= 2 {
                assert(stash_paths_from(all, (i + 2) as nat) =~= Seq::<Seq<char>>::empty());
                assert(views(out@) + Seq::<Seq<char>>::empty() =~= views(out@));
                return out;
            }
            i += 1;
        }
        i += 1;
    }
    assert(views(out@) + Seq::<Seq<char>>::empty() =~= views(out@));
    out
}

/// Whether a cherry-pick is under way in a worktree.
pub open spec fn cherry_pick_under_way(
    files: FileSnapshot,
    worktree: crate::paths::PathModel,
) -> bool {
    match git_dir_of(files, worktree) {
        Some(git_dir) => {
            let marker = path_child(git_dir, "CHERRY_PICK_HEAD"@);
            let todo = path_child(path_child(git_dir, "sequencer"@), "todo"@);
            files.is_file_at(marker) || files.is_dir_at(marker) || files.is_file_at(todo)
                || files.is_dir_at(todo)
        },
        None => false,
    }
}

/// Whether a cherry-pick is under way in a worktree.
pub fn cherry_pick_state_exists_for_worktree(worktree: &RepoPath, files: &FileSnapshot) -> (r: bool)
    ensures
        r == cherry_pick_under_way(*files, worktree@),
{
    match git_dir_for_worktree(worktree, files) {
        Some(git_dir) => {
            let marker = git_dir.child("CHERRY_PICK_HEAD");
            let todo = git_dir.child("sequencer").child("todo");
            files.is_file(&marker) || files.is_dir(&marker) || files.is_file(&todo) || files.is_dir(
                &todo,
            )
        },
        None => false,
    }
}

/// The commit and its first parent that a line of a log names.
pub open spec fn parent_in_line(line: Seq<char>) -> Option<(Seq<char>, Seq<char>)> {
    let parts = words_of(line);
    if parts.len() >= 2 {
        Some((parts[0], parts[1]))
    } else {
        None
    }
}

/// The commits and their first parents that the lines of a log name.
pub open spec fn parents_in(lines: Seq<Seq<char>>) -> Seq<(Seq<char>, Seq<char>)>
    decreases lines.len(),
{
    if lines.len() == 0 {
        Seq::empty()
    } else {
        let before = parents_in(lines.drop_last());
        match parent_in_line(lines.last()) {
            Some(pair) => before.push(pair),
            None => before,
        }
    }
}

/// Pairs of texts.
pub open spec fn pair_views(pairs: Seq<(String, String)>) -> Seq<(Seq<char>, Seq<char>)> {
    pairs.map_values(|p: (String, String)| (p.0@, p.1@))
}

/// The commits of a rebased history with their first parents, as git's log names them.
pub fn parents_in_log(output: &str) -> (r: Vec<(String, String)>)
    ensures
        pair_views(r@) == parents_in(split_on(output@, '\n')),
{
    let lines = split(output, '\n');
    let ghost all = views(lines@);
    let mut out: Vec<(String, String)> = Vec::new();
    let mut i: usize = 0;
    assert(pair_views(out@) =~= Seq::<(Seq<char>, Seq<char>)>::empty());
    assert(all.take(0) =~= Seq::<Seq<char>>::empty());
    while i < lines.len()
        invariant
            i <= lines.len(),
            all == views(lines@),
            pair_views(out@) == parents_in(all.take(i as int)),
        decreases lines.len() - i,
    {
        assert(all.take(i + 1).drop_last() =~= all.take(i as int));
        assert(all.take(i + 1).last() == lines@[i as int]@);
        let parts = words(lines[i].as_str());
        if parts.len() >= 2 {
            assert(views(parts@)[0] == parts@[0]@ && views(parts@)[1] == parts@[1]@);
            let ghost was = pair_views(out@);
            out.push((parts[0].clone(), parts[1].clone()));
            assert(pair_views(out@) =~= was.push((parts@[0]@, parts@[1]@)));
        }
        i += 1;
    }
    assert(all.take(all.len() as int) =~= all);
    out
}

/// The range of commits that a rebase made, as git's log is asked for it; nothing
/// where it is not known what it went onto.
pub fn conflict_log_range(onto: &Option<String>, new_tip: &str) -> (r: Option<String>)
    ensures
        opt_view(r) == (match opt_view(*onto) {
            Some(base) => if base.len() == 0 {
                None
            } else {
                Some(base + ".."@ + new_tip@)
            },
            None => None,
        }),
{
    match onto {
        Some(base) => if base.as_str().unicode_len() == 0 {
            None
        } else {
            Some(concat(concat(base.as_str(), "..").as_str(), new_tip))
        },
        None => None,
    }
}

/// The commits whose parents have a working log, as pairs of parent and commit, for which
/// git is asked what they changed. `has_log` says of each commit whether its parent has one.
pub fn qualifying_diff_pairs(pairs: &Vec<(String, String)>, has_log: &Vec<bool>) -> (r: Vec<
    (String, String),
>)
    requires
        pairs@.len() == has_log@.len(),
    ensures
        pair_views(r@) == diff_pairs_of(pair_views(pairs@), has_log@),
{
    let ghost all = pair_views(pairs@);
    let mut out: Vec<(String, String)> = Vec::new();
    let mut i: usize = 0;
    assert(pair_views(out@) =~= Seq::<(Seq<char>, Seq<char>)>::empty());
    assert(all.take(0) =~= Seq::<(Seq<char>, Seq<char>)>::empty());
    assert(has_log@.take(0) =~= Seq::<bool>::empty());
    while i < pairs.len()
        invariant
            i <= pairs.len(),
            pairs@.len() == has_log@.len(),
            all == pair_views(pairs@),
            pair_views(out@) == diff_pairs_of(all.take(i as int), has_log@.take(i as int)),
        decreases pairs.len() - i,
    {
        assert(all.take(i + 1).drop_last() =~= all.take(i as int));
        assert(has_log@.take(i + 1).drop_last() =~= has_log@.take(i as int));
        assert(all.take(i + 1).last() == (pairs@[i as int].0@, pairs@[i as int].1@));
        if has_log[i] {
            let ghost was = pair_views(out@);
            out.push((pairs[i].1.clone(), pairs[i].0.clone()));
            assert(pair_views(out@) =~= was.push((pairs@[i as int].1@, pairs@[i as int].0@)));
        }
        i += 1;
    }
    assert(all.take(all.len() as int) =~= all);
    assert(has_log@.take(has_log@.len() as int) =~= has_log@);
    out
}

/// The marked pairs, turned round.
pub open spec fn diff_pairs_of(pairs: Seq<(Seq<char>, Seq<char>)>, marked: Seq<bool>) -> Seq<
    (Seq<char>, Seq<char>),
>
    decreases pairs.len(),
{
    if pairs.len() == 0 {
        Seq::empty()
    } else {
        let before = diff_pairs_of(pairs.drop_last(), marked.drop_last());
        if marked.last() {
            before.push((pairs.last().1, pairs.last().0))
        } else {
            before
        }
    }
}

/// Which of some files lie outside the paths: their attributions are kept when those paths
/// are checked out.
pub fn files_outside_pathspecs(files: &Vec<String>, pathspecs: &Vec<String>) -> (r: Vec<bool>)
    ensures
        r@.len() == files@.len(),
        forall|i: int|
            0 <= i < r@.len() ==> #[trigger] r@[i] == !any_pathspec_covers(
                views(pathspecs@),
                files@[i]@,
            ),
{
    let mut out: Vec<bool> = Vec::new();
    let mut i: usize = 0;
    while i < files.len()
        invariant
            i <= files.len(),
            out@.len() == i,
            forall|j: int|
                0 <= j < i ==> #[trigger] out@[j] == !any_pathspec_covers(
                    views(pathspecs@),
                    files@[j]@,
                ),
        decreases files.len() - i,
    {
        out.push(!matches_any_pathspec(files[i].as_str(), pathspecs));
        i += 1;
    }
    out
}

} // verus!
