//! The families that the daemon remembers.
use git_ai_daemon::repo_family_store::{
    pending_migrations, CursorRow, FamilyRow, ReflogAnchor, RepoFamilyStore, StoreError,
    UntracedReflogCursor, MAX_FAMILIES, MISSING_RETENTION_SECS, SCHEMA_VERSION,
    UNSEEN_RETENTION_SECS,
};

const A: &str = "1111111111111111111111111111111111111111";
const B: &str = "2222222222222222222222222222222222222222";
const NOW: u64 = 1_800_000_000;

fn strings(list: &[&str]) -> Vec<String> {
    list.iter().map(|s| s.to_string()).collect()
}

fn cursor_with_anchor(offset: u64) -> UntracedReflogCursor {
    UntracedReflogCursor {
        offset,
        anchor: Some(ReflogAnchor {
            old: A.to_string(),
            new: B.to_string(),
            message: "commit: anchored".to_string(),
            end_offset: offset,
        }),
    }
}

#[test]
fn open_migrates_once_and_reopens_idempotently() {
    assert_eq!(pending_migrations(None), Ok(1));
    let left = pending_migrations(Some(SCHEMA_VERSION)).unwrap();
    assert!(left > SCHEMA_VERSION, "nothing is left to migrate");
    assert_eq!(RepoFamilyStore::new().family_count(), 0);
}

#[test]
fn a_v1_store_is_migrated_in_place_and_keeps_its_rows() {
    assert_eq!(pending_migrations(Some(1)), Ok(2));
    let mut store = RepoFamilyStore::new();
    store.families.insert(
        "/repos/old/.git".to_string(),
        FamilyRow { first_seen_at: NOW as i64, last_seen_at: NOW as i64, missing_since: None },
    );
    store.cursors.insert(
        "/repos/old/.git".to_string(),
        CursorRow {
            common_dir: "/repos/old/.git".to_string(),
            worktree: String::new(),
            reflog_offset: 42,
            anchor_old: None,
            anchor_new: None,
            anchor_message: None,
            updated_at: NOW as i64,
        },
    );
    assert_eq!(store.known_families(true), strings(&["/repos/old/.git"]));
    assert_eq!(store.cursor("/repos/old/.git").map(|c| c.offset), Some(42));
    assert_eq!(
        store.known_worktrees("/repos/old/.git"),
        vec![("/repos/old/.git".to_string(), String::new())]
    );
}

#[test]
fn newer_schema_fails_closed() {
    let error = pending_migrations(Some(99)).expect_err("newer schema must fail");
    assert_eq!(error, StoreError::NewerSchema { found: 99, supported: 2 });
    assert!(error.message().contains("newer than this binary"), "{}", error.message());
    assert_eq!(
        error.message(),
        "repo-families database schema v99 is newer than this binary (supports up to v2); \
         upgrade git-ai or delete the database"
    );
}

#[test]
fn refresh_family_seen_only_touches_remembered_families() {
    let mut store = RepoFamilyStore::new();
    store.record_family_seen("/repos/a/.git", NOW);
    store.record_family_missing("/repos/a/.git", NOW + 10);
    store.refresh_family_seen("/repos/a/.git", NOW + 20);
    store.refresh_family_seen("/repos/never-scanned/.git", NOW + 20);
    assert_eq!(store.family_count(), 1);
    let row = store.families.get("/repos/a/.git").unwrap();
    assert_eq!((row.last_seen_at, row.missing_since), ((NOW + 20) as i64, None));
}

#[test]
fn record_family_seen_keeps_first_seen_and_clears_missing() {
    let mut store = RepoFamilyStore::new();
    store.record_family_seen("/repos/a/.git", NOW);
    store.record_family_missing("/repos/a/.git", NOW + 10);
    store.record_family_seen("/repos/a/.git", NOW + 20);
    store.record_family_seen("/repos/b/.git", NOW + 5);
    let row = store.families.get("/repos/a/.git").unwrap();
    assert_eq!(
        (row.first_seen_at, row.last_seen_at, row.missing_since),
        (NOW as i64, (NOW + 20) as i64, None)
    );
    assert_eq!(store.known_families(true), strings(&["/repos/a/.git", "/repos/b/.git"]));
    assert_eq!(store.family_count(), 2);
}

#[test]
fn record_family_missing_keeps_the_first_missing_timestamp() {
    let mut store = RepoFamilyStore::new();
    store.record_family_seen("/repos/a/.git", NOW);
    store.record_family_missing("/repos/a/.git", NOW + 10);
    store.record_family_missing("/repos/a/.git", NOW + 20);
    let row = store.families.get("/repos/a/.git").unwrap();
    assert_eq!(row.missing_since, Some((NOW + 10) as i64));
    assert_eq!(store.known_families(false), Vec::<String>::new());
    assert_eq!(store.known_families(true), strings(&["/repos/a/.git"]));
}

#[test]
fn cursor_roundtrips_with_and_without_anchor() {
    let mut store = RepoFamilyStore::new();
    store.record_family_seen("/repos/a/.git", NOW);
    assert_eq!(store.cursor("/repos/a/.git"), None);

    let anchored = cursor_with_anchor(4_096);
    store.save_cursor("/repos/a/.git", "/repos/a/.git", "/repos/a", &anchored, NOW);
    assert_eq!(store.cursor("/repos/a/.git"), Some(anchored));

    let bare = UntracedReflogCursor { offset: 0, anchor: None };
    store.save_cursor("/repos/a/.git", "/repos/a/.git", "/repos/a", &bare, NOW + 1);
    assert_eq!(store.cursor("/repos/a/.git"), Some(bare));
}

#[test]
fn record_pass_completed_writes_family_and_cursor_together() {
    let mut store = RepoFamilyStore::new();
    let cursor = cursor_with_anchor(2_048);
    store.record_pass_completed("/repos/a/.git", "/repos/a/.git", "/repos/a", &cursor, NOW);
    store.record_pass_completed(
        "/repos/a/.git",
        "/repos/a/.git/worktrees/wt",
        "/repos/a-wt",
        &cursor,
        NOW,
    );
    assert_eq!(store.known_families(false), strings(&["/repos/a/.git"]));
    assert_eq!(store.cursor("/repos/a/.git"), Some(cursor));
    assert_eq!(
        store.known_worktrees("/repos/a/.git"),
        vec![
            ("/repos/a/.git".to_string(), "/repos/a".to_string()),
            ("/repos/a/.git/worktrees/wt".to_string(), "/repos/a-wt".to_string()),
        ]
    );
}

#[test]
fn forget_families_removes_them_and_their_cursors_only() {
    let mut store = RepoFamilyStore::new();
    for (family, git_dir, worktree) in [
        ("/tmp/scratch/.git", "/tmp/scratch/.git", "/tmp/scratch"),
        ("/home/me/real/.git", "/home/me/real/.git", "/home/me/real"),
    ] {
        store.record_pass_completed(family, git_dir, worktree, &cursor_with_anchor(64), NOW);
    }
    let removed = store.forget_families(&strings(&["/tmp/scratch/.git", "/nope/.git"]));
    assert_eq!(removed, 1);
    assert_eq!(store.known_families(true), strings(&["/home/me/real/.git"]));
    assert_eq!(store.cursor("/tmp/scratch/.git"), None);
    assert!(store.cursor("/home/me/real/.git").is_some());
    assert_eq!(store.forget_families(&vec![]), 0);
}

#[test]
fn prune_forgets_missing_and_unseen_families_with_their_cursors() {
    let mut store = RepoFamilyStore::new();
    store.record_family_seen("/repos/gone/.git", NOW);
    store.save_cursor(
        "/repos/gone/.git",
        "/repos/gone/.git",
        "/repos/gone",
        &cursor_with_anchor(1),
        NOW,
    );
    store.record_family_missing("/repos/gone/.git", NOW);
    store.record_family_seen("/repos/stale/.git", NOW - UNSEEN_RETENTION_SECS - 1);
    store.record_family_seen("/repos/fresh/.git", NOW);
    store.record_family_seen("/repos/recently-missing/.git", NOW);
    store.record_family_missing("/repos/recently-missing/.git", NOW + 3600);

    let removed = store.prune(NOW + MISSING_RETENTION_SECS + 1);

    assert_eq!(removed, 2);
    assert_eq!(
        store.known_families(true),
        strings(&["/repos/fresh/.git", "/repos/recently-missing/.git"])
    );
    assert_eq!(store.cursor("/repos/gone/.git"), None);
}

#[test]
fn families_of_one_time_are_listed_in_the_order_in_which_they_came() {
    let mut store = RepoFamilyStore::new();
    for family in ["/z", "/m", "/a", "/k"] {
        store.record_family_seen(family, NOW);
    }
    store.record_family_seen("/z", NOW);
    assert_eq!(store.known_families(true), strings(&["/z", "/m", "/a", "/k"]));
    assert_eq!(store.forget_families(&strings(&["/m"])), 1);
    assert_eq!(store.known_families(true), strings(&["/z", "/a", "/k"]));
    store.record_family_seen("/m", NOW);
    store.record_family_seen("/k", NOW + 1);
    assert_eq!(store.known_families(true), strings(&["/k", "/z", "/a", "/m"]));
}

#[test]
fn prune_caps_the_number_of_families_by_recency() {
    let mut store = RepoFamilyStore::new();
    for index in 0..(MAX_FAMILIES + 5) {
        store.record_family_seen(&format!("/repos/{index}/.git"), NOW + index as u64);
    }
    let removed = store.prune(NOW + MAX_FAMILIES as u64 + 10);
    assert_eq!(removed, 5);
    assert_eq!(store.family_count(), MAX_FAMILIES);
    let families = store.known_families(true);
    assert!(!families.contains(&"/repos/0/.git".to_string()));
    assert!(!families.contains(&"/repos/4/.git".to_string()));
    assert!(families.contains(&"/repos/5/.git".to_string()));
}

#[test]
fn families_seen_at_once_are_kept_by_name() {
    let mut store = RepoFamilyStore::new();
    for index in 0..(MAX_FAMILIES + 1) {
        store.record_family_seen(&format!("/repos/{index:04}/.git"), NOW);
    }
    assert_eq!(store.prune(NOW), 1);
    assert!(store.families.get("/repos/1000/.git").is_none());
    assert!(store.families.get("/repos/0999/.git").is_some());
    assert_eq!(store.known_families(true)[0], "/repos/0000/.git");
}

#[test]
fn offsets_beyond_the_signed_range_come_back() {
    let mut store = RepoFamilyStore::new();
    let cursor = UntracedReflogCursor { offset: u64::MAX, anchor: None };
    store.save_cursor("/c", "/g", "/w", &cursor, NOW);
    assert_eq!(store.cursors.get("/g").unwrap().reflog_offset, -1);
    assert_eq!(store.cursor("/g"), Some(cursor));
}
