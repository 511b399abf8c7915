//! How the changes of refs are read.
use crate::commands::{
    all_picked, any_change, find_all, find_first, find_last, first_old, first_picked, head_scope,
    head_scopes, is_non_auxiliary_ref, is_real_oid, is_valid_oid, is_zero_oid, last_new,
    last_picked, moved_change, parsed_invocation_for_normalized_command, picks,
    resolve_heads_for_command, NormalizedCommand, RefChange, RefFilter, RefRule, RefScope,
    RefScopeModel,
};
use crate::rewrite::{
    cherry_pick_destination_commits, collapse_changes, first_head_transition_old, moves_of,
    taken_together,
};
use crate::text::{has_prefix, opt_view, views};
use crate::trace::ParsedGitInvocation;
use vstd::prelude::*;

verus! {

/// Where a change is picked, a first one is.
pub proof fn lemma_first_exists(changes: Seq<RefChange>, rule: RefRule, i: int)
    requires
        0 <= i < changes.len(),
        picks(rule, changes[i]),
    ensures
        first_picked(changes, rule) is Some,
    decreases changes.len(),
{
    if !picks(rule, changes[0]) {
        assert(changes.skip(1)[i - 1] == changes[i]);
        lemma_first_exists(changes.skip(1), rule, i - 1);
    }
}

/// The first change that is picked is picked, and none before it is.
pub proof fn lemma_first(changes: Seq<RefChange>, rule: RefRule) -> (at: int)
    requires
        first_picked(changes, rule) is Some,
    ensures
        0 <= at < changes.len(),
        changes[at] == first_picked(changes, rule)->0,
        picks(rule, changes[at]),
        forall|k: int| 0 <= k < at ==> !picks(rule, #[trigger] changes[k]),
    decreases changes.len(),
{
    if picks(rule, changes[0]) {
        0
    } else {
        let at = lemma_first(changes.skip(1), rule);
        assert(changes.skip(1)[at] == changes[at + 1]);
        assert forall|k: int| 0 <= k < at + 1 implies !picks(rule, #[trigger] changes[k]) by {
            if k > 0 {
                assert(changes.skip(1)[k - 1] == changes[k]);
            }
        }
        at + 1
    }
}

/// The last change that is picked is picked, and none behind it is.
pub proof fn lemma_last(changes: Seq<RefChange>, rule: RefRule) -> (at: int)
    requires
        last_picked(changes, rule) is Some,
    ensures
        0 <= at < changes.len(),
        changes[at] == last_picked(changes, rule)->0,
        picks(rule, changes[at]),
        forall|k: int| at < k < changes.len() ==> !picks(rule, #[trigger] changes[k]),
    decreases changes.len(),
{
    if picks(rule, changes.last()) {
        changes.len() - 1
    } else {
        let at = lemma_last(changes.drop_last(), rule);
        assert forall|k: int| at < k < changes.len() implies !picks(rule, #[trigger] changes[k]) by {
            if k < changes.len() - 1 {
                assert(changes.drop_last()[k] == changes[k]);
            }
        }
        at
    }
}

/// Where a change is picked, a last one is.
pub proof fn lemma_last_exists(changes: Seq<RefChange>, rule: RefRule, i: int)
    requires
        0 <= i < changes.len(),
        picks(rule, changes[i]),
    ensures
        last_picked(changes, rule) is Some,
    decreases changes.len(),
{
    if !picks(rule, changes.last()) {
        assert(changes.drop_last()[i] == changes[i]);
        lemma_last_exists(changes.drop_last(), rule, i);
    }
}

/// All that is picked is what passes, in order.
pub proof fn lemma_all_is_filter(changes: Seq<RefChange>, rule: RefRule)
    ensures
        all_picked(changes, rule) == changes.filter(|c: RefChange| picks(rule, c)),
    decreases changes.len(),
{
    reveal(Seq::filter);
    if changes.len() > 0 {
        lemma_all_is_filter(changes.drop_last(), rule);
    }
}

/// An object id is 40 or 64 hexadecimal digits; one of zeros alone names nothing, any other
/// names an object.
pub proof fn law_object_ids(oid: &str, valid: bool, zero: bool, object: bool)
    requires
        call_ensures(is_valid_oid, (oid,), valid),
        call_ensures(is_zero_oid, (oid,), zero),
        call_ensures(is_real_oid, (oid,), object),
    ensures
        valid ==> oid@.len() == 40 || oid@.len() == 64,
        zero ==> valid && !object,
        object ==> valid && !zero,
        valid ==> zero || object,
        zero ==> forall|i: int| 0 <= i < oid@.len() ==> oid@[i] == '0',
        valid && !zero ==> exists|i: int| 0 <= i < oid@.len() && oid@[i] != '0',
        valid ==> forall|i: int|
            0 <= i < oid@.len() ==> {
                let c = #[trigger] oid@[i];
                '0' <= c && c <= '9' || 'a' <= c && c <= 'f' || 'A' <= c && c <= 'F'
            },
{
    if valid {
        assert forall|i: int| 0 <= i < oid@.len() implies {
            let c = #[trigger] oid@[i];
            '0' <= c && c <= '9' || 'a' <= c && c <= 'f' || 'A' <= c && c <= 'F'
        } by {
            assert(crate::text::hex_value(oid@[i]) is Some);
        }
    }
}

/// Notes, tags and replacements are no history; branches, `HEAD` and the stash are.
pub proof fn law_notes_and_tags_are_auxiliary(reference: &str, r: bool)
    requires
        call_ensures(is_non_auxiliary_ref, (reference,), r),
    ensures
        has_prefix(reference@, "refs/notes/"@) ==> !r,
        has_prefix(reference@, "refs/tags/"@) ==> !r,
        has_prefix(reference@, "refs/replace/"@) ==> !r,
        has_prefix(reference@, "refs/heads/"@) ==> r,
        has_prefix(reference@, "refs/remotes/"@) ==> r,
        reference@ == "HEAD"@ || reference@ == "refs/stash"@ ==> r,
{
    lemma_namespaces(reference@);
}

/// A text lies in one namespace of refs at most.
pub proof fn lemma_namespaces(s: Seq<char>)
    ensures
        has_prefix(s, "refs/heads/"@) ==> !has_prefix(s, "refs/notes/"@) && !has_prefix(
            s,
            "refs/tags/"@,
        ) && !has_prefix(s, "refs/replace/"@) && s != "HEAD"@ && s != "refs/stash"@,
        has_prefix(s, "refs/remotes/"@) || s == "HEAD"@ || s == "refs/stash"@ ==> !has_prefix(
            s,
            "refs/notes/"@,
        ) && !has_prefix(s, "refs/tags/"@) && !has_prefix(s, "refs/replace/"@),
        s == "HEAD"@ ==> !has_prefix(s, "refs/heads/"@),
{
    reveal_strlit("refs/heads/");
    reveal_strlit("refs/notes/");
    reveal_strlit("refs/tags/");
    reveal_strlit("refs/replace/");
    reveal_strlit("refs/remotes/");
    reveal_strlit("HEAD");
    reveal_strlit("refs/stash");
    assert("refs/heads/"@.len() == 11 && "refs/notes/"@.len() == 11 && "refs/tags/"@.len() == 10);
    assert("refs/replace/"@.len() == 13 && "refs/remotes/"@.len() == 13 && "HEAD"@.len() == 4);
    assert("refs/stash"@.len() == 10);
    assert("refs/heads/"@[5] == 'h' && "refs/notes/"@[5] == 'n' && "refs/tags/"@[5] == 't');
    assert("refs/replace/"@[5] == 'r' && "refs/replace/"@[7] == 'p');
    assert("refs/remotes/"@[5] == 'r' && "refs/remotes/"@[7] == 'm' && "refs/stash"@[5] == 's');
    if has_prefix(s, "refs/heads/"@) {
        assert(s.subrange(0, 11)[5] == s[5]);
    }
    if has_prefix(s, "refs/notes/"@) {
        assert(s.subrange(0, 11)[5] == s[5]);
    }
    if has_prefix(s, "refs/tags/"@) {
        assert(s.subrange(0, 10)[5] == s[5]);
    }
    if has_prefix(s, "refs/replace/"@) {
        assert(s.subrange(0, 13)[5] == s[5] && s.subrange(0, 13)[7] == s[7]);
    }
    if has_prefix(s, "refs/remotes/"@) {
        assert(s.subrange(0, 13)[5] == s[5] && s.subrange(0, 13)[7] == s[7]);
    }
}

/// The first change of `HEAD` that a search finds is one of `HEAD`, and no earlier one is;
/// the last is found likewise, and a search finds something exactly where there is a change
/// of `HEAD` at all.
pub proof fn law_searches_find_the_outermost_changes(
    changes: Vec<RefChange>,
    filter: RefFilter,
    first: Option<&RefChange>,
    last: Option<&RefChange>,
    all: Vec<RefChange>,
)
    requires
        filter.scope is Named && filter.scope->Named_0@ == "HEAD"@,
        !filter.old_real && !filter.new_real && !filter.moved && filter.old_is is None
            && filter.new_is is None,
        call_ensures(find_first, (&changes, &filter), first),
        call_ensures(find_last, (&changes, &filter), last),
        call_ensures(find_all, (&changes, &filter), all),
    ensures
        all@ == changes@.filter(|c: RefChange| c.reference@ == "HEAD"@),
        first is Some <==> exists|i: int|
            0 <= i < changes@.len() && (#[trigger] changes@[i]).reference@ == "HEAD"@,
        first is Some ==> exists|i: int|
            {
                &&& 0 <= i < changes@.len()
                &&& #[trigger] changes@[i] == *first->0
                &&& changes@[i].reference@ == "HEAD"@
                &&& forall|k: int|
                    0 <= k < i ==> (#[trigger] changes@[k]).reference@ != "HEAD"@
            },
        last is Some ==> exists|i: int|
            {
                &&& 0 <= i < changes@.len()
                &&& #[trigger] changes@[i] == *last->0
                &&& changes@[i].reference@ == "HEAD"@
                &&& forall|k: int|
                    i < k < changes@.len() ==> (#[trigger] changes@[k]).reference@ != "HEAD"@
            },
{
    let rule = filter@;
    lemma_all_is_filter(changes@, rule);
    assert((|c: RefChange| picks(rule, c)) =~= (|c: RefChange| c.reference@ == "HEAD"@));
    if first is Some {
        let i = lemma_first(changes@, rule);
        assert forall|k: int| 0 <= k < i implies (#[trigger] changes@[k]).reference@ != "HEAD"@ by {
            assert(!picks(rule, changes@[k]));
        }
    }
    if last is Some {
        let i = lemma_last(changes@, rule);
        assert forall|k: int| i < k < changes@.len() implies (#[trigger] changes@[k]).reference@
            != "HEAD"@ by {
            assert(!picks(rule, changes@[k]));
        }
    }
    if exists|i: int| 0 <= i < changes@.len() && (#[trigger] changes@[i]).reference@ == "HEAD"@ {
        let i = choose|i: int|
            0 <= i < changes@.len() && (#[trigger] changes@[i]).reference@ == "HEAD"@;
        assert(picks(rule, changes@[i]));
        lemma_first_exists(changes@, rule, i);
    }
}

/// A filter that asks for a move passes no change that stays where it is, one that asks for
/// objects none that names nothing, one that asks for an end none with another; and one for
/// branches passes branches alone.
pub proof fn law_filters_keep_to_what_they_ask(filter: RefFilter, change: RefChange, r: bool)
    requires
        call_ensures(RefFilter::passes, (&filter, &change), r),
        r,
    ensures
        filter.moved ==> change.old@ != change.new@,
        filter.old_real ==> crate::commands::real_oid(change.old@),
        filter.new_real ==> crate::commands::real_oid(change.new@),
        filter.old_is is Some ==> change.old@ == filter.old_is->0@,
        filter.new_is is Some ==> change.new@ == filter.new_is->0@,
        filter.scope is Branches ==> has_prefix(change.reference@, "refs/heads/"@),
        filter.scope is Named ==> change.reference@ == filter.scope->Named_0@,
        filter.scope is NonAuxiliary ==> !has_prefix(change.reference@, "refs/notes/"@)
            && !has_prefix(change.reference@, "refs/tags/"@),
{
}

/// A filter that asks for nothing but its refs passes every change of them.
pub proof fn law_plain_filters_pass_all_of_their_refs(
    filter: RefFilter,
    scope: RefScope,
    change: RefChange,
    r: bool,
)
    requires
        call_ensures(RefFilter::any, (scope,), filter),
        call_ensures(RefFilter::passes, (&filter, &change), r),
    ensures
        scope is Branches ==> r == has_prefix(change.reference@, "refs/heads/"@),
        scope is Named ==> r == (change.reference@ == scope->Named_0@),
{
}

/// The heads of a command are where `HEAD` first came from and where it last went to, whatever
/// else it moved; without a change of `HEAD` they are read off the branches.
pub proof fn law_heads_are_the_outer_ends(
    cmd: NormalizedCommand,
    i: int,
    j: int,
    r: (String, String),
)
    requires
        call_ensures(resolve_heads_for_command, (&cmd,), r),
        0 <= i <= j < cmd.ref_changes@.len(),
        ({
            let head = cmd.ref_changes@[i].reference@;
            let changes = cmd.ref_changes@;
            &&& changes[j].reference@ == head
            &&& forall|k: int|
                0 <= k < i || j < k < changes.len() ==> (#[trigger] changes[k]).reference@ != head
            &&& head == "HEAD"@ || has_prefix(head, "refs/heads/"@) && forall|k: int|
                0 <= k < changes.len() ==> (#[trigger] changes[k]).reference@ == head
        }),
    ensures
        r.0@ == cmd.ref_changes@[i].old@,
        r.1@ == cmd.ref_changes@[j].new@,
{
    let changes = cmd.ref_changes@;
    let scopes = head_scopes();
    let on_head = any_change(head_scope());
    let on_branch = any_change(RefScopeModel::Branches);
    reveal_with_fuel(first_old, 3);
    reveal_with_fuel(last_new, 3);
    assert(scopes[0] == head_scope());
    assert(scopes.skip(1)[0] == RefScopeModel::Branches);
    if changes[i].reference@ == "HEAD"@ {
        lemma_first_exists(changes, on_head, i);
        let a = lemma_first(changes, on_head);
        assert(a == i) by {
            if a < i {
                assert(changes[a].reference@ != "HEAD"@);
            } else if a > i {
                assert(!picks(on_head, changes[i]));
            }
        }
        lemma_last_exists(changes, on_head, j);
        let b = lemma_last(changes, on_head);
        assert(b == j) by {
            if b > j {
                assert(changes[b].reference@ != "HEAD"@);
            } else if b < j {
                assert(!picks(on_head, changes[j]));
            }
        }
    } else {
        lemma_namespaces(changes[i].reference@);
        if first_picked(changes, on_head) is Some {
            let a = lemma_first(changes, on_head);
        }
        if last_picked(changes, on_head) is Some {
            let a = lemma_last(changes, on_head);
        }
        lemma_first_exists(changes, on_branch, i);
        let a = lemma_first(changes, on_branch);
        assert(a == i) by {
            if a > i {
                assert(!picks(on_branch, changes[i]));
            }
        }
        lemma_last_exists(changes, on_branch, j);
        let b = lemma_last(changes, on_branch);
        assert(b == j) by {
            if b < j {
                assert(!picks(on_branch, changes[j]));
            }
        }
    }
}

/// The commits that a cherry-pick made are where `HEAD` went, move by move, and the one that it
/// started from is where the first of these moves came from.
pub proof fn law_picks_are_read_off_head(
    cmd: NormalizedCommand,
    made: Vec<String>,
    started: Option<String>,
)
    requires
        call_ensures(cherry_pick_destination_commits, (&cmd,), made),
        call_ensures(first_head_transition_old, (&cmd,), started),
    ensures
        ({
            let moves = cmd.ref_changes@.filter(|c: RefChange| moves_head(c));
            &&& views(made@) == moves.map_values(|c: RefChange| c.new@)
            &&& started is Some <==> moves.len() > 0
            &&& started is Some ==> started->0@ == moves[0].old@
        }),
{
    let rule = moved_change(head_scope());
    let changes = cmd.ref_changes@;
    lemma_all_is_filter(changes, rule);
    assert((|c: RefChange| picks(rule, c)) =~= (|c: RefChange| moves_head(c)));
    lemma_first_of_filter(changes, rule);
}

/// Whether a change takes `HEAD` from one object to another.
pub open spec fn moves_head(c: RefChange) -> bool {
    c.reference@ == "HEAD"@ && crate::commands::real_oid(c.old@) && crate::commands::real_oid(
        c.new@,
    ) && c.old@ != c.new@
}

/// The first of all that is picked is the first that is picked.
pub proof fn lemma_first_of_filter(changes: Seq<RefChange>, rule: RefRule)
    ensures
        first_picked(changes, rule) is Some <==> all_picked(changes, rule).len() > 0,
        first_picked(changes, rule) is Some ==> first_picked(changes, rule)->0 == all_picked(
            changes,
            rule,
        )[0],
    decreases changes.len(),
{
    if changes.len() > 0 {
        let first = changes[0];
        let rest = changes.skip(1);
        lemma_first_of_filter(rest, rule);
        assert(changes =~= seq![first] + rest);
        lemma_all_is_filter(changes, rule);
        lemma_all_is_filter(rest, rule);
        lemma_all_is_filter(seq![first], rule);
        let pred = |c: RefChange| picks(rule, c);
        Seq::filter_distributes_over_add(seq![first], rest, pred);
        assert(seq![first].drop_last() =~= Seq::empty());
        assert(all_picked(seq![first].drop_last(), rule) =~= Seq::empty());
        assert(all_picked(seq![first], rule) =~= if picks(rule, first) {
            seq![first]
        } else {
            Seq::empty()
        });
    }
}

/// Whether a ref goes from `old` to `new` over the changes: from where its first change came
/// to where its last one went.
pub open spec fn goes(
    changes: Seq<RefChange>,
    reference: Seq<char>,
    old: Seq<char>,
    new: Seq<char>,
) -> bool {
    exists|i: int, j: int|
        {
            &&& 0 <= i < changes.len() && 0 <= j < changes.len()
            &&& (#[trigger] changes[i]).reference@ == reference && changes[i].old@ == old
            &&& (#[trigger] changes[j]).reference@ == reference && changes[j].new@ == new
            &&& forall|k: int| 0 <= k < i ==> (#[trigger] changes[k]).reference@ != reference
            &&& forall|k: int|
                j < k < changes.len() ==> (#[trigger] changes[k]).reference@ != reference
        }
}

/// Each move goes from the first to the last change of its ref.
pub proof fn lemma_moves_go(changes: Seq<RefChange>, at: int)
    requires
        0 <= at < taken_together(changes).len(),
    ensures
        goes(
            changes,
            taken_together(changes)[at].reference,
            taken_together(changes)[at].old,
            taken_together(changes)[at].new,
        ),
    decreases changes.len(),
{
    let rest = changes.drop_last();
    let last = changes.last();
    let n = rest.len() as int;
    let before = taken_together(rest);
    let m = taken_together(changes)[at];
    if at < before.len() {
        lemma_moves_go(rest, at);
        let b = before[at];
        let (i, j) = choose|i: int, j: int|
            {
                &&& 0 <= i < rest.len() && 0 <= j < rest.len()
                &&& (#[trigger] rest[i]).reference@ == b.reference && rest[i].old@ == b.old
                &&& (#[trigger] rest[j]).reference@ == b.reference && rest[j].new@ == b.new
                &&& forall|k: int| 0 <= k < i ==> (#[trigger] rest[k]).reference@ != b.reference
                &&& forall|k: int|
                    j < k < rest.len() ==> (#[trigger] rest[k]).reference@ != b.reference
            };
        assert(changes[i] == rest[i] && changes[j] == rest[j]);
        assert forall|k: int| 0 <= k < i implies (#[trigger] changes[k]).reference@
            != b.reference by {
            assert(rest[k] == changes[k]);
        }
        if m.reference == last.reference@ {
            assert(crate::rewrite::has_move(before, last.reference@)) by {
                assert(before[at].reference == last.reference@);
            }
            assert(changes[n].new@ == m.new);
            assert(goes(changes, m.reference, m.old, m.new)) by {
                assert(changes[i].reference@ == m.reference && changes[n].reference@
                    == m.reference);
            }
        } else {
            assert forall|k: int| j < k < changes.len() implies (#[trigger] changes[k]).reference@
                != m.reference by {
                if k < n {
                    assert(rest[k] == changes[k]);
                }
            }
        }
    } else {
        assert(changes[n] == last);
        crate::rewrite::law_moves_are_one_per_ref(rest);
        assert forall|k: int| 0 <= k < n implies (#[trigger] changes[k]).reference@
            != m.reference by {
            assert(rest[k] == changes[k]);
        }
    }
}

/// Changes that are taken together stand for one move for each ref: from where its first
/// change came to where its last one went. None that changed is left out.
pub proof fn law_moves_join_first_and_last(changes: Vec<RefChange>, r: Vec<RefChange>)
    requires
        call_ensures(collapse_changes, (&changes,), r),
    ensures
        forall|i: int|
            #![trigger r@[i]]
            0 <= i < r@.len() ==> goes(
                changes@,
                r@[i].reference@,
                r@[i].old@,
                r@[i].new@,
            ),
        forall|k: int|
            0 <= k < changes@.len() ==> exists|i: int|
                0 <= i < r@.len() && (#[trigger] r@[i]).reference@ == (
                #[trigger] changes@[k]).reference@,
        forall|i: int, j: int|
            0 <= i < j < r@.len() ==> (#[trigger] r@[i]).reference@ != (
            #[trigger] r@[j]).reference@,
{
    let moves = moves_of(r@);
    crate::rewrite::law_moves_are_one_per_ref(changes@);
    assert forall|i: int| #![trigger r@[i]] 0 <= i < r@.len() implies goes(
        changes@,
        r@[i].reference@,
        r@[i].old@,
        r@[i].new@,
    ) by {
        assert(moves[i].reference == r@[i].reference@);
        lemma_moves_go(changes@, i);
    }
    assert forall|k: int| 0 <= k < changes@.len() implies exists|i: int|
        0 <= i < r@.len() && (#[trigger] r@[i]).reference@ == (
        #[trigger] changes@[k]).reference@ by {
        assert(crate::rewrite::has_move(moves, changes@[k].reference@));
        let i = choose|i: int|
            0 <= i < moves.len() && (#[trigger] moves[i]).reference == changes@[k].reference@;
        assert(r@[i].reference@ == changes@[k].reference@);
    }
    assert forall|i: int, j: int| 0 <= i < j < r@.len() implies (#[trigger] r@[i]).reference@ != (
    #[trigger] r@[j]).reference@ by {
        assert(moves[i].reference != moves[j].reference);
    }
}

/// A command that came with its words is what they were taken apart into; one without them is
/// what is known of it.
pub proof fn law_words_go_before_what_is_known(
    cmd: NormalizedCommand,
    from_argv: ParsedGitInvocation,
    r: ParsedGitInvocation,
)
    requires
        call_ensures(parsed_invocation_for_normalized_command, (&cmd, from_argv), r),
    ensures
        cmd.raw_argv@.len() > 0 ==> opt_view(r.command) == opt_view(from_argv.command) && views(
            r.command_args@,
        ) == views(from_argv.command_args@) && views(r.global_args@) == views(
            from_argv.global_args@,
        ),
        cmd.raw_argv@.len() == 0 ==> opt_view(r.command) == opt_view(cmd.primary_command) && views(
            r.command_args@,
        ) == views(cmd.invoked_args@) && r.global_args@.len() == 0,
{
    assert(views(r.global_args@).len() == r.global_args@.len());
}

} // verus!
