//! What commands left unfinished in each worktree.
use crate::keyed::{retained, KeyMap};
use crate::paths::{PathModel, RepoPath};
use crate::repo_state::{
    worktree_root_for_path, worktree_root_of, worktree_root_text, FileSnapshot,
};
use crate::rewrite::PendingRebase;
use crate::text::{clone_strings, trim, trim_of, views};
use vstd::prelude::*;

verus! {

/// A cherry-pick that was applied but not committed.
#[derive(Debug)]
pub struct PendingCherryPickNoCommit {
    pub source_commits: Vec<String>,
    pub head: String,
}

/// A squashed merge that was applied but not committed.
#[derive(Debug)]
pub struct PendingSquashMerge {
    pub source_head: String,
    pub onto: String,
}

/// What is unfinished, by worktree.
pub struct PendingRewrites {
    pub rebases: KeyMap<PendingRebase>,
    pub cherry_picks: KeyMap<Vec<String>>,
    pub no_commits: KeyMap<PendingCherryPickNoCommit>,
    pub squash_merges: KeyMap<PendingSquashMerge>,
}

/// The name under which the state of a worktree is kept; `text` is how the worktree is
/// spelled.
pub open spec fn state_key_of(
    files: FileSnapshot,
    worktree: PathModel,
    text: Seq<char>,
) -> Seq<char> {
    match worktree_root_of(files, worktree) {
        Some(root) => files.canonical_text_at(root, worktree_root_text(files, worktree, text)),
        None => files.canonical_text_at(worktree, text),
    }
}

/// The name under which the state of a worktree is kept.
pub fn worktree_state_key(worktree: &RepoPath, files: &FileSnapshot) -> (r: String)
    ensures
        r@ == state_key_of(*files, worktree@, worktree.text@),
{
    let root = match worktree_root_for_path(worktree, files) {
        Some(root) => root,
        None => worktree.copy(),
    };
    files.canonicalize(&root).to_text()
}

/// The test for a squashed merge that names both its heads.
pub open spec fn names_both_heads() -> spec_fn(PendingSquashMerge) -> bool {
    |p: PendingSquashMerge| trim_of(p.source_head@).len() > 0 && trim_of(p.onto@).len() > 0
}

/// The test for a list that holds something.
pub open spec fn is_filled() -> spec_fn(Vec<String>) -> bool {
    |list: Vec<String>| list@.len() > 0
}

impl PendingRewrites {
    /// No list of cherry-picked commits is empty, and no uncommitted pick lacks its
    /// sources or its head.
    pub open spec fn wf(self) -> bool {
        &&& forall|k: Seq<char>|
            #[trigger] self.cherry_picks@.contains_key(k) ==> self.cherry_picks@[k]@.len() > 0
        &&& forall|k: Seq<char>| #[trigger]
            self.no_commits@.contains_key(k) ==> self.no_commits@[k].source_commits@.len() > 0
                && self.no_commits@[k].head@.len() > 0
    }

    /// Nothing is unfinished.
    pub fn new() -> (r: PendingRewrites)
        ensures
            r.wf(),
            r.rebases@ == Map::<Seq<char>, PendingRebase>::empty(),
            r.cherry_picks@ == Map::<Seq<char>, Vec<String>>::empty(),
            r.no_commits@ == Map::<Seq<char>, PendingCherryPickNoCommit>::empty(),
            r.squash_merges@ == Map::<Seq<char>, PendingSquashMerge>::empty(),
    {
        PendingRewrites {
            rebases: KeyMap::new(),
            cherry_picks: KeyMap::new(),
            no_commits: KeyMap::new(),
            squash_merges: KeyMap::new(),
        }
    }

    /// Notes where a rebase that stopped had started.
    pub fn set_pending_rebase_original_head_for_worktree(
        &mut self,
        key: String,
        original_head: String,
        onto: Option<String>,
    )
        ensures
            final(self).rebases@ == old(self).rebases@.insert(
                key@,
                (PendingRebase { original_head, onto }),
            ),
            final(self).cherry_picks == old(self).cherry_picks,
            final(self).no_commits == old(self).no_commits,
            final(self).squash_merges == old(self).squash_merges,
    {
        self.rebases.insert(key, PendingRebase { original_head, onto });
    }

    /// Forgets a rebase.
    pub fn clear_pending_rebase_original_head_for_worktree(&mut self, key: &str)
        ensures
            final(self).rebases@ == old(self).rebases@.remove(key@),
            final(self).cherry_picks == old(self).cherry_picks,
            final(self).no_commits == old(self).no_commits,
            final(self).squash_merges == old(self).squash_merges,
    {
        self.rebases.remove(key);
    }

    /// Takes up a rebase.
    pub fn take_pending_rebase_original_head_for_worktree(&mut self, key: &str) -> (r: Option<
        PendingRebase,
    >)
        ensures
            r is Some <==> old(self).rebases@.contains_key(key@),
            r is Some ==> r->0 == old(self).rebases@[key@],
            final(self).rebases@ == old(self).rebases@.remove(key@),
            final(self).cherry_picks == old(self).cherry_picks,
            final(self).no_commits == old(self).no_commits,
            final(self).squash_merges == old(self).squash_merges,
    {
        self.rebases.remove(key)
    }

    /// Notes the commits that a cherry-pick has still to apply.
    pub fn set_pending_cherry_pick_sources_for_worktree(
        &mut self,
        key: String,
        sources: Vec<String>,
    )
        ensures
            final(self).cherry_picks@ == if sources@.len() == 0 {
                old(self).cherry_picks@.remove(key@)
            } else {
                old(self).cherry_picks@.insert(key@, sources)
            },
            old(self).wf() ==> final(self).wf(),
            final(self).rebases == old(self).rebases,
            final(self).no_commits == old(self).no_commits,
            final(self).squash_merges == old(self).squash_merges,
    {
        if sources.len() == 0 {
            self.cherry_picks.remove(key.as_str());
        } else {
            self.cherry_picks.insert(key, sources);
        }
    }

    /// Forgets a cherry-pick.
    pub fn clear_pending_cherry_pick_sources_for_worktree(&mut self, key: &str)
        ensures
            final(self).cherry_picks@ == old(self).cherry_picks@.remove(key@),
            old(self).wf() ==> final(self).wf(),
            final(self).rebases == old(self).rebases,
            final(self).no_commits == old(self).no_commits,
            final(self).squash_merges == old(self).squash_merges,
    {
        self.cherry_picks.remove(key);
    }

    /// Takes up the commits that a cherry-pick had still to apply.
    pub fn take_pending_cherry_pick_sources_for_worktree(&mut self, key: &str) -> (r: Vec<String>)
        ensures
            views(r@) == pending_sources(*old(self), key@),
            final(self).cherry_picks@ == old(self).cherry_picks@.remove(key@),
            old(self).wf() ==> final(self).wf(),
            final(self).rebases == old(self).rebases,
            final(self).no_commits == old(self).no_commits,
            final(self).squash_merges == old(self).squash_merges,
    {
        match self.cherry_picks.remove(key) {
            Some(sources) => sources,
            None => {
                let none: Vec<String> = Vec::new();
                assert(views(none@) =~= Seq::<Seq<char>>::empty());
                none
            },
        }
    }

    /// The commits that a cherry-pick has still to apply.
    pub fn pending_cherry_pick_sources_for_worktree(&self, key: &str) -> (r: Vec<String>)
        ensures
            views(r@) == pending_sources(*self, key@),
    {
        match self.cherry_picks.get(key) {
            Some(sources) => clone_strings(sources),
            None => {
                let none: Vec<String> = Vec::new();
                assert(views(none@) =~= Seq::<Seq<char>>::empty());
                none
            },
        }
    }

    /// Notes a cherry-pick that was applied but not committed.
    pub fn set_pending_cherry_pick_no_commit_for_worktree(
        &mut self,
        key: String,
        source_commits: Vec<String>,
        head: String,
    )
        ensures
            final(self).no_commits@ == if source_commits@.len() == 0 || head@.len() == 0 {
                old(self).no_commits@.remove(key@)
            } else {
                old(self).no_commits@.insert(
                    key@,
                    PendingCherryPickNoCommit { source_commits, head },
                )
            },
            old(self).wf() ==> final(self).wf(),
            final(self).rebases == old(self).rebases,
            final(self).cherry_picks == old(self).cherry_picks,
            final(self).squash_merges == old(self).squash_merges,
    {
        if source_commits.len() == 0 || head.as_str().unicode_len() == 0 {
            self.no_commits.remove(key.as_str());
        } else {
            self.no_commits.insert(key, PendingCherryPickNoCommit { source_commits, head });
        }
    }

    /// Forgets an uncommitted cherry-pick.
    pub fn clear_pending_cherry_pick_no_commit_for_worktree(&mut self, key: &str)
        ensures
            final(self).no_commits@ == old(self).no_commits@.remove(key@),
            old(self).wf() ==> final(self).wf(),
            final(self).rebases == old(self).rebases,
            final(self).cherry_picks == old(self).cherry_picks,
            final(self).squash_merges == old(self).squash_merges,
    {
        self.no_commits.remove(key);
    }

    /// Takes up an uncommitted cherry-pick.
    pub fn take_pending_cherry_pick_no_commit_for_worktree(&mut self, key: &str) -> (r: Option<
        PendingCherryPickNoCommit,
    >)
        ensures
            r is Some <==> old(self).no_commits@.contains_key(key@),
            r is Some ==> r->0 == old(self).no_commits@[key@],
            final(self).no_commits@ == old(self).no_commits@.remove(key@),
            old(self).wf() ==> final(self).wf(),
            final(self).rebases == old(self).rebases,
            final(self).cherry_picks == old(self).cherry_picks,
            final(self).squash_merges == old(self).squash_merges,
    {
        self.no_commits.remove(key)
    }

    /// Notes a squashed merge that was applied but not committed.
    pub fn set_pending_squash_merge_for_worktree(
        &mut self,
        key: String,
        source_head: String,
        onto: String,
    )
        ensures
            final(self).squash_merges@ == old(self).squash_merges@.insert(
                key@,
                (PendingSquashMerge { source_head, onto }),
            ),
            final(self).rebases == old(self).rebases,
            final(self).cherry_picks == old(self).cherry_picks,
            final(self).no_commits == old(self).no_commits,
    {
        self.squash_merges.insert(key, PendingSquashMerge { source_head, onto });
    }

    /// Takes up a squashed merge.
    pub fn take_pending_squash_merge_for_worktree(&mut self, key: &str) -> (r: Option<
        PendingSquashMerge,
    >)
        ensures
            r is Some <==> old(self).squash_merges@.contains_key(key@),
            r is Some ==> r->0 == old(self).squash_merges@[key@],
            final(self).squash_merges@ == old(self).squash_merges@.remove(key@),
            final(self).rebases == old(self).rebases,
            final(self).cherry_picks == old(self).cherry_picks,
            final(self).no_commits == old(self).no_commits,
    {
        self.squash_merges.remove(key)
    }

    /// Drops what holds nothing: empty lists of commits and squashed merges
    /// that lack a head.
    pub fn drop_stale(&mut self)
        ensures
            final(self).cherry_picks@ == retained(old(self).cherry_picks@, is_filled()),
            final(self).squash_merges@ == retained(old(self).squash_merges@, names_both_heads()),
            final(self).rebases == old(self).rebases,
            final(self).no_commits == old(self).no_commits,
    {
        let n: usize = self.cherry_picks.len();
        let mut keep: Vec<bool> = Vec::new();
        let mut i: usize = 0;
        while i < n
            invariant
                i <= n,
                n == self.cherry_picks.keys().len(),
                keep@.len() == i,
                forall|j: int|
                    0 <= j < i ==> #[trigger] keep@[j] == is_filled()(
                        self.cherry_picks@[self.cherry_picks.keys()[j]],
                    ),
            decreases n - i,
        {
            let sources = self.cherry_picks.value_at(i);
            keep.push(sources.len() > 0);
            i += 1;
        }
        self.cherry_picks.retain(&keep, Ghost(is_filled()));
        let m: usize = self.squash_merges.len();
        let mut live: Vec<bool> = Vec::new();
        let mut j: usize = 0;
        while j < m
            invariant
                j <= m,
                m == self.squash_merges.keys().len(),
                live@.len() == j,
                forall|k: int|
                    0 <= k < j ==> #[trigger] live@[k] == names_both_heads()(
                        self.squash_merges@[self.squash_merges.keys()[k]],
                    ),
            decreases m - j,
        {
            let pending = self.squash_merges.value_at(j);
            let source = trim(pending.source_head.as_str());
            let onto = trim(pending.onto.as_str());
            live.push(source.as_str().unicode_len() > 0 && onto.as_str().unicode_len() > 0);
            j += 1;
        }
        self.squash_merges.retain(&live, Ghost(names_both_heads()));
    }
}

/// The commits that a cherry-pick in this worktree has still to apply.
pub open spec fn pending_sources(pending: PendingRewrites, key: Seq<char>) -> Seq<Seq<char>> {
    if pending.cherry_picks@.contains_key(key) {
        views(pending.cherry_picks@[key]@)
    } else {
        Seq::empty()
    }
}

/// Where no list is empty, dropping what is stale changes no cherry-pick.
pub proof fn law_live_cherry_picks_survive(pending: PendingRewrites)
    requires
        pending.wf(),
    ensures
        retained(pending.cherry_picks@, is_filled()) == pending.cherry_picks@,
{
    assert(retained(pending.cherry_picks@, is_filled()) =~= pending.cherry_picks@);
}

} // verus!
