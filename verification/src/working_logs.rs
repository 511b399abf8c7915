//! What stays in a working log, and what rewritten commits are compared with.
use crate::text::{opt_view, str_eq, views};
use crate::trace::{any_pathspec_covers, matches_any_pathspec};
use vstd::prelude::*;

verus! {

/// The places, among the first `n`, of the files that no pathspec covers.
pub open spec fn places_outside(files: Seq<Seq<char>>, pathspecs: Seq<Seq<char>>, n: nat) -> Seq<
    usize,
>
    decreases n,
{
    if n == 0 {
        Seq::empty()
    } else {
        let before = places_outside(files, pathspecs, (n - 1) as nat);
        if any_pathspec_covers(pathspecs, files[n - 1]) {
            before
        } else {
            before.push((n - 1) as usize)
        }
    }
}

/// The checkpoints, among the first `n`, of which an entry is left, each with the places of
/// those entries.
pub open spec fn checkpoints_outside(
    checkpoints: Seq<Vec<String>>,
    pathspecs: Seq<Seq<char>>,
    n: nat,
) -> Seq<(usize, Seq<usize>)>
    decreases n,
{
    if n == 0 {
        Seq::empty()
    } else {
        let before = checkpoints_outside(checkpoints, pathspecs, (n - 1) as nat);
        let entries = views(checkpoints[n - 1]@);
        let left = places_outside(entries, pathspecs, entries.len());
        if left.len() == 0 {
            before
        } else {
            before.push(((n - 1) as usize, left))
        }
    }
}

/// The checkpoints that are left, with their entries.
pub open spec fn left_view(left: Seq<(usize, Vec<usize>)>) -> Seq<(usize, Seq<usize>)> {
    left.map_values(|c: (usize, Vec<usize>)| (c.0, c.1@))
}

/// An entry stays if and only if no pathspec covers its file, and entries keep their order.
pub proof fn law_only_covered_entries_leave(
    files: Seq<Seq<char>>,
    pathspecs: Seq<Seq<char>>,
    n: nat,
)
    requires
        n <= files.len() <= usize::MAX,
    ensures
        forall|i: usize|
            #[trigger] places_outside(files, pathspecs, n).contains(i) <==> i < n
                && !any_pathspec_covers(pathspecs, files[i as int]),
        forall|a: int, b: int|
            0 <= a < b < places_outside(files, pathspecs, n).len() ==> places_outside(
                files,
                pathspecs,
                n,
            )[a] < places_outside(files, pathspecs, n)[b],
    decreases n,
{
    let all = places_outside(files, pathspecs, n);
    if n > 0 {
        law_only_covered_entries_leave(files, pathspecs, (n - 1) as nat);
        let before = places_outside(files, pathspecs, (n - 1) as nat);
        let last = (n - 1) as usize;
        assert forall|k: int| 0 <= k < before.len() implies before[k] < last by {
            assert(before.contains(before[k]));
        }
        assert forall|i: usize|
            #[trigger] all.contains(i) <==> i < n && !any_pathspec_covers(
                pathspecs,
                files[i as int],
            ) by {
            if !any_pathspec_covers(pathspecs, files[n - 1]) {
                assert(all[before.len() as int] == last);
                if before.contains(i) {
                    let k = choose|k: int| 0 <= k < before.len() && before[k] == i;
                    assert(all[k] == i);
                }
                if all.contains(i) && i != last {
                    let k = choose|k: int| 0 <= k < all.len() && all[k] == i;
                    assert(before[k] == i);
                    assert(before.contains(i));
                }
            }
        }
    }
}

fn entries_left(files: &Vec<String>, pathspecs: &Vec<String>) -> (r: Vec<usize>)
    ensures
        r@ == places_outside(views(files@), views(pathspecs@), files@.len()),
{
    let mut out: Vec<usize> = Vec::new();
    let mut i: usize = 0;
    while i < files.len()
        invariant
            i <= files.len(),
            out@ == places_outside(views(files@), views(pathspecs@), i as nat),
        decreases files.len() - i,
    {
        assert(views(files@)[i as int] == files@[i as int]@);
        if !matches_any_pathspec(files[i].as_str(), pathspecs) {
            out.push(i);
        }
        i += 1;
    }
    out
}

/// What a checkout of these paths leaves of the checkpoints of a working log; each is given
/// by the files of its entries. One of which nothing is left is dropped.
pub fn checkpoints_outside_pathspecs(
    checkpoints: &Vec<Vec<String>>,
    pathspecs: &Vec<String>,
) -> (r: Vec<(usize, Vec<usize>)>)
    ensures
        left_view(r@) == checkpoints_outside(
            checkpoints@,
            views(pathspecs@),
            checkpoints@.len(),
        ),
{
    let mut out: Vec<(usize, Vec<usize>)> = Vec::new();
    let mut i: usize = 0;
    assert(left_view(out@) =~= Seq::<(usize, Seq<usize>)>::empty());
    while i < checkpoints.len()
        invariant
            i <= checkpoints.len(),
            left_view(out@) == checkpoints_outside(checkpoints@, views(pathspecs@), i as nat),
        decreases checkpoints.len() - i,
    {
        let left = entries_left(&checkpoints[i], pathspecs);
        assert(views(checkpoints@[i as int]@).len() == checkpoints@[i as int]@.len());
        if left.len() > 0 {
            let ghost was = left_view(out@);
            let ghost it = (i, left@);
            out.push((i, left));
            assert(left_view(out@) =~= was.push(it));
        }
        i += 1;
    }
    out
}

/// What the numbers on a rewritten commit are taken against: its parent, and whether the
/// two were compared already.
#[derive(Debug, PartialEq, Eq)]
pub struct MetricContext {
    pub parent: Option<String>,
    pub compared: bool,
}

/// The parent of a commit by the last pair that names it.
pub open spec fn parent_in(pairs: Seq<(String, String)>, commit: Seq<char>) -> Option<Seq<char>>
    decreases pairs.len(),
{
    if pairs.len() == 0 {
        None
    } else if pairs.last().0@ == commit {
        Some(pairs.last().1@)
    } else {
        parent_in(pairs.drop_last(), commit)
    }
}

/// Whether a commit was compared with its parent.
pub open spec fn compared_in(
    pairs: Seq<(String, String)>,
    has_log: Seq<bool>,
    commit: Seq<char>,
) -> bool {
    exists|i: int|
        0 <= i < pairs.len() && i < has_log.len() && (#[trigger] pairs[i]).0@ == commit && has_log[i]
}

fn metric_context(pairs: &Vec<(String, String)>, has_log: &Vec<bool>, commit: &str) -> (r:
    MetricContext)
    ensures
        opt_view(r.parent) == parent_in(pairs@, commit@),
        r.compared == compared_in(pairs@, has_log@, commit@),
{
    let mut parent: Option<String> = None;
    let mut compared = false;
    let mut i: usize = 0;
    assert(pairs@.take(0) =~= Seq::<(String, String)>::empty());
    while i < pairs.len()
        invariant
            i <= pairs.len(),
            opt_view(parent) == parent_in(pairs@.take(i as int), commit@),
            compared == exists|k: int|
                0 <= k < i && k < has_log@.len() && (#[trigger] pairs@[k]).0@ == commit@
                    && has_log@[k],
        decreases pairs.len() - i,
    {
        assert(pairs@.take(i + 1).drop_last() =~= pairs@.take(i as int));
        assert(pairs@.take(i + 1).last() == pairs@[i as int]);
        if str_eq(pairs[i].0.as_str(), commit) {
            parent = Some(pairs[i].1.clone());
            if i < has_log.len() && has_log[i] {
                compared = true;
            }
        }
        i += 1;
    }
    assert(pairs@.take(pairs@.len() as int) =~= pairs@);
    MetricContext { parent, compared }
}

/// What the numbers on each rewritten commit are taken against. `pairs` are commits with
/// their parents; `has_log` says of which of them the parent had a working log.
pub fn metric_contexts(
    commits: &Vec<String>,
    pairs: &Vec<(String, String)>,
    has_log: &Vec<bool>,
) -> (r: Vec<MetricContext>)
    ensures
        r@.len() == commits@.len(),
        forall|i: int|
            0 <= i < r@.len() ==> opt_view((#[trigger] r@[i]).parent) == parent_in(
                pairs@,
                commits@[i]@,
            ) && r@[i].compared == compared_in(pairs@, has_log@, commits@[i]@),
{
    let mut out: Vec<MetricContext> = Vec::new();
    let mut i: usize = 0;
    while i < commits.len()
        invariant
            i <= commits.len(),
            out@.len() == i,
            forall|k: int|
                0 <= k < out@.len() ==> opt_view((#[trigger] out@[k]).parent) == parent_in(
                    pairs@,
                    commits@[k]@,
                ) && out@[k].compared == compared_in(pairs@, has_log@, commits@[k]@),
        decreases commits.len() - i,
    {
        out.push(metric_context(pairs, has_log, commits[i].as_str()));
        i += 1;
    }
    out
}

} // verus!
