//! Paths, repositories on disk, configuration, and repositories that are passed over.
use git_ai_daemon::config::{
    short_digest_of, to_lower_hex, ConfigError, DaemonConfig, DaemonEnv, Machine,
    MAX_SOCKET_PATH_BYTES,
};
use git_ai_daemon::paths::RepoPath;
use git_ai_daemon::pending::worktree_state_key;
use git_ai_daemon::repo_state::{
    common_dir_for_git_dir, common_dir_for_repo_path, common_dir_for_worktree,
    git_dir_for_worktree, is_valid_git_dir, is_valid_git_oid, main_worktree_for_common_dir,
    read_head_state_for_worktree, worktree_belongs_to_git_dir, worktree_root_for_path,
    worktrees_for_common_dir, CoreConfig, FileSnapshot, HeadKind, HeadReading, HeadState,
};
use git_ai_daemon::untraced_fixup_ignore::{
    default_temp_roots, normalize_to_posix, TempLocations, UntracedFixupIgnore,
};

fn path(text: &str) -> RepoPath {
    RepoPath::parse(text)
}

fn write(files: &mut FileSnapshot, at: &str, contents: &str) {
    files.add_file(path(at), Some(contents.to_string()));
    let mut dir = path(at);
    while let Some(parent) = dir.parent() {
        files.add_dir(parent.copy());
        dir = parent;
    }
}

fn no_config() -> CoreConfig {
    CoreConfig { bare: None, worktree: None }
}

#[test]
fn ignores_families_under_a_temp_root_but_not_siblings_or_lookalikes() {
    let ignore = UntracedFixupIgnore::new(vec![Some(path("/t/tmp"))], vec![]);
    assert!(ignore.ignores("/t/tmp/scratch-repo/.git"));
    assert!(!ignore.ignores("/t/tmpfoo/repo/.git"));
    assert!(!ignore.ignores("/t/projects/real/.git"));
}

#[test]
fn temp_roots_are_canonicalized_deduplicated_and_pruned_of_missing_ones() {
    let root = || Some(path("/t/tmp"));
    let ignore = UntracedFixupIgnore::new(vec![root(), root(), None, root()], vec![]);
    assert_eq!(ignore.temp_roots(), &vec![path("/t/tmp")]);
}

#[test]
fn configured_globs_match_the_posix_form_of_the_common_dir() {
    let ignore = UntracedFixupIgnore::new(vec![], vec!["*/agent-scratch-*/.git".to_string()]);
    assert!(ignore.ignores("/t/work/agent-scratch-42/.git"));
    assert!(ignore.ignores("C:\\work\\agent-scratch-42\\.git"));
    assert!(!ignore.ignores("/t/work/real/.git"));
    assert_eq!(normalize_to_posix("a\\b\\c"), "a/b/c");
}

#[test]
fn without_temp_roots_only_globs_apply() {
    let ignore = UntracedFixupIgnore::new(vec![], vec![]);
    assert!(!ignore.ignores("/t/tmp/repo/.git"));
}

#[test]
fn default_temp_roots_include_the_process_temp_dir() {
    let places = TempLocations {
        process_temp_dir: path("/somewhere/tmp"),
        unix: true,
        macos: false,
        windows_temp_dirs: vec![],
        windows_local_app_data: None,
    };
    let roots = default_temp_roots(&places);
    assert!(roots.contains(&path("/somewhere/tmp")));
    assert!(roots.contains(&path("/tmp")));
    let known = roots.into_iter().map(Some).collect();
    let ignore = UntracedFixupIgnore::new(known, vec![]);
    assert!(ignore.ignores("/somewhere/tmp/repo/.git"));
}

#[test]
fn temp_roots_count_only_when_they_are_asked_for() {
    let roots = || vec![Some(path("/tmp"))];
    let ignoring = UntracedFixupIgnore::from_config(true, roots(), vec![]);
    let keeping = UntracedFixupIgnore::from_config(false, roots(), vec![]);
    assert!(ignoring.ignores("/tmp/repo/.git"));
    assert!(!keeping.ignores("/tmp/repo/.git"));
}

#[test]
fn a_pattern_that_is_none_matches_nothing() {
    let ignore = UntracedFixupIgnore::new(vec![], vec!["a***b".to_string()]);
    assert!(!ignore.ignores("a***b"));
}

#[test]
fn worktree_root_for_path_walks_parent_directories() {
    let mut files = FileSnapshot::new();
    files.add_dir(path("/wt/src/lib"));
    write(&mut files, "/wt/.git/HEAD", "ref: refs/heads/main\n");
    assert_eq!(worktree_root_for_path(&path("/wt/src/lib"), &files), Some(path("/wt")));
    assert_eq!(worktree_root_for_path(&path("/elsewhere"), &files), None);
}

#[test]
fn read_head_state_for_nested_path_uses_worktree_root() {
    let oid = "aaaaaaaaaaaaaaaaaaaaaaaaaaaaaaaaaaaaaaaa";
    let mut files = FileSnapshot::new();
    files.add_dir(path("/wt/src/lib"));
    write(&mut files, "/wt/.git/HEAD", "ref: refs/heads/main\n");
    write(&mut files, "/wt/.git/refs/heads/main", &format!("{oid}\n"));
    let reading = HeadReading {
        head: Some(HeadKind::Symbolic("refs/heads/main".to_string())),
        resolved: Some(oid.to_string()),
    };
    assert_eq!(
        read_head_state_for_worktree(&path("/wt/src/lib"), &files, &reading),
        Some(HeadState {
            head: Some(oid.to_string()),
            branch: Some("main".to_string()),
            detached: false,
        })
    );
    let detached = HeadReading { head: Some(HeadKind::Detached(oid.to_string())), resolved: None };
    assert_eq!(
        read_head_state_for_worktree(&path("/wt"), &files, &detached),
        Some(HeadState { head: Some(oid.to_string()), branch: None, detached: true })
    );
    assert_eq!(read_head_state_for_worktree(&path("/none"), &files, &detached), None);
}

#[test]
fn worktrees_for_common_dir_lists_main_and_linked_worktrees() {
    let mut files = FileSnapshot::new();
    write(&mut files, "/t/repo/.git/HEAD", "ref: refs/heads/main\n");
    files.add_dir(path("/t/feature"));
    write(&mut files, "/t/repo/.git/worktrees/feature/gitdir", "/t/feature/.git\n");
    write(&mut files, "/t/repo/.git/worktrees/gone/gitdir", "/t/gone/.git\n");
    let registered = Some(vec!["gone".to_string(), "feature".to_string()]);
    assert_eq!(
        worktrees_for_common_dir(&path("/t/repo/.git"), &files, &no_config(), &registered),
        vec![
            (path("/t/repo/.git"), path("/t/repo")),
            (path("/t/repo/.git/worktrees/feature"), path("/t/feature")),
        ]
    );
}

#[test]
fn worktree_belongs_to_git_dir_rejects_reused_paths() {
    let mut files = FileSnapshot::new();
    write(&mut files, "/t/repo/.git/HEAD", "ref: refs/heads/main\n");
    let common_dir = path("/t/repo/.git");
    assert!(worktree_belongs_to_git_dir(&path("/t/repo"), &common_dir, &files));

    let linked_git_dir = path("/t/repo/.git/worktrees/feature");
    write(&mut files, "/t/repo/.git/worktrees/feature/HEAD", "ref: refs/heads/feature\n");
    let mut reused = FileSnapshot::new();
    write(&mut reused, "/t/repo/.git/HEAD", "ref: refs/heads/main\n");
    write(&mut files, "/t/feature/.git", "gitdir: /t/repo/.git/worktrees/feature\n");
    assert!(worktree_belongs_to_git_dir(&path("/t/feature"), &linked_git_dir, &files));

    write(&mut reused, "/t/repo/.git/worktrees/feature/HEAD", "ref: refs/heads/feature\n");
    write(&mut reused, "/t/other/.git/HEAD", "ref: refs/heads/main\n");
    write(&mut reused, "/t/feature/.git", "gitdir: /t/other/.git\n");
    assert!(!worktree_belongs_to_git_dir(&path("/t/feature"), &linked_git_dir, &reused));
    assert!(!worktree_belongs_to_git_dir(&path("/t/missing"), &common_dir, &files));
}

#[test]
fn worktrees_for_common_dir_skips_bare_repositories() {
    let mut files = FileSnapshot::new();
    write(&mut files, "/t/repo.git/HEAD", "ref: refs/heads/main\n");
    write(&mut files, "/t/repo.git/config", "[core]\n\tbare = true\n");
    let config = CoreConfig { bare: Some("true".to_string()), worktree: None };
    assert!(worktrees_for_common_dir(&path("/t/repo.git"), &files, &config, &None).is_empty());
}

#[test]
fn a_bare_repository_named_like_a_git_dir_has_no_main_worktree() {
    let mut files = FileSnapshot::new();
    write(&mut files, "/p/.git/HEAD", "ref: refs/heads/main\n");
    let bare = |value: &str| CoreConfig { bare: Some(value.to_string()), worktree: None };
    let common_dir = path("/p/.git");
    assert!(worktrees_for_common_dir(&common_dir, &files, &bare("true"), &None).is_empty());
    assert!(worktrees_for_common_dir(&common_dir, &files, &bare("TRUE"), &None).is_empty());
    let plain = worktrees_for_common_dir(&common_dir, &files, &bare("false"), &None);
    assert_eq!(plain, vec![(path("/p/.git"), path("/p"))]);

    write(&mut files, "/p/.git/worktrees/feature/gitdir", "/t/feature/.git\n");
    files.add_dir(path("/t/feature"));
    let registered = Some(vec!["feature".to_string()]);
    let linked = worktrees_for_common_dir(&common_dir, &files, &bare("true"), &registered);
    assert_eq!(linked, vec![(path("/p/.git/worktrees/feature"), path("/t/feature"))]);
}

#[test]
fn worktrees_for_common_dir_follows_core_worktree_and_relative_pointers() {
    let mut files = FileSnapshot::new();
    let common_dir = path("/t/super/.git/modules/sub");
    files.add_dir(path("/t/super/.git/modules/sub/../../../sub"));
    write(&mut files, "/t/super/.git/modules/sub/HEAD", "ref: refs/heads/main\n");
    let config = CoreConfig {
        bare: Some("false".to_string()),
        worktree: Some("../../../sub".to_string()),
    };
    let pointer = "../../../../../../sub-feature/.git";
    let linked_git_dir = path("/t/super/.git/modules/sub/worktrees/feature");
    write(
        &mut files,
        "/t/super/.git/modules/sub/worktrees/feature/gitdir",
        &format!("{pointer}\n"),
    );
    let linked = linked_git_dir.join(&path("../../../../../../sub-feature"));
    files.add_dir(linked.copy());

    let registered = Some(vec!["feature".to_string()]);
    let worktrees = worktrees_for_common_dir(&common_dir, &files, &config, &registered);
    assert_eq!(
        worktrees,
        vec![
            (common_dir.copy(), common_dir.join(&path("../../../sub"))),
            (linked_git_dir, linked),
        ]
    );
}

#[test]
fn linked_worktrees_share_the_common_dir() {
    assert_eq!(
        common_dir_for_git_dir(&path("/t/repo/.git/worktrees/feature")),
        Some(path("/t/repo/.git"))
    );
    let mut files = FileSnapshot::new();
    write(&mut files, "/t/repo/.git/HEAD", "ref: refs/heads/main\n");
    assert!(is_valid_git_dir(&path("/t/repo/.git"), &files));
    assert!(!is_valid_git_dir(&path("/t/repo"), &files));
    assert_eq!(git_dir_for_worktree(&path("/t/repo"), &files), Some(path("/t/repo/.git")));
    assert_eq!(common_dir_for_worktree(&path("/t/repo"), &files), Some(path("/t/repo/.git")));
    assert_eq!(common_dir_for_repo_path(&path("/t/repo"), &files), Some(path("/t/repo/.git")));
    assert_eq!(
        main_worktree_for_common_dir(&path("/t/repo/.git"), &files, &no_config()),
        Some(path("/t/repo"))
    );
}

#[test]
fn object_ids_have_forty_or_sixty_four_hex_digits() {
    assert!(is_valid_git_oid(&"a".repeat(40)));
    assert!(is_valid_git_oid(&"0F".repeat(32)));
    assert!(!is_valid_git_oid(&"a".repeat(41)));
    assert!(!is_valid_git_oid(&"g".repeat(40)));
    assert!(!is_valid_git_oid(""));
}

#[test]
fn paths_are_taken_apart_and_put_together() {
    let p = path("/a//b/./c/");
    assert_eq!(p.to_text(), "/a//b/./c/");
    assert_eq!(p.parts, vec!["a", "b", "c"]);
    assert_eq!(p.file_name().as_deref(), Some("c"));
    assert!(p.parent().unwrap().same(&path("/a/b")));
    assert!(p.is_under(&path("/a")));
    assert!(!p.is_under(&path("/ab")));
    assert!(p.below(&path("/a")).unwrap().same(&path("b/c")));
    assert_eq!(path("/x").join(&path("/y")), path("/y"));
    assert_eq!(path("/x").join(&path("y")), path("/x/y"));
    assert!(p.same(&path("/a/b/c")));
}

#[test]
fn paths_keep_their_spelling() {
    let texts = [
        "", "/", "//", ".", "./", "..", "a", "a/", "/a", "/a/", "/a//", "a//b", "./a", "./a/./b",
        "/a/./b/.", "/./a", "//a//b//", "a/..", "../a/", "a/./.", "/.", "/./",
    ];
    for text in texts {
        let p = path(text);
        let std = std::path::Path::new(text);
        assert_eq!(p.to_text(), text);
        assert_eq!(p.is_absolute(), std.is_absolute(), "{text}");
        let parent = p.parent();
        assert!(parent.iter().all(|parent| parent.same(&path(&parent.to_text()))), "{text}");
        let parent = parent.map(|parent| parent.to_text());
        assert_eq!(parent.as_deref(), std.parent().map(|q| q.to_str().unwrap()), "{text}");
        for rel in ["b", "b/", "./b", "/b", "", "..", "b//c"] {
            let joined = p.join(&path(rel));
            assert_eq!(joined.to_text(), std.join(rel).to_str().unwrap(), "{text} {rel}");
            assert!(joined.same(&path(&joined.to_text())), "{text} {rel}");
        }
        for base in texts {
            assert_eq!(p.is_under(&path(base)), std.starts_with(base), "{text} under {base}");
            assert_eq!(p.same(&path(base)), std == std::path::Path::new(base), "{text} {base}");
            let below = p.below(&path(base));
            assert!(below.iter().all(|below| below.same(&path(&below.to_text()))));
            let below = below.map(|below| below.to_text());
            let expected = std.strip_prefix(base).ok().map(|q| q.to_str().unwrap().to_string());
            assert_eq!(below, expected, "{text} below {base}");
        }
        assert_eq!(p.child("x").to_text(), std.join("x").to_str().unwrap());
        assert!(p.child("x").same(&path(&p.child("x").to_text())));
    }
}

#[test]
fn the_empty_path_is_no_directory() {
    let mut files = FileSnapshot::new();
    write(&mut files, ".git/HEAD", "ref: refs/heads/main\n");
    assert!(files.is_dir(&path(".git")));
    assert!(!files.is_dir(&path("")));
    let config = CoreConfig { bare: None, worktree: None };
    assert!(main_worktree_for_common_dir(&path(".git"), &files, &config).is_none());
}

#[test]
fn state_keys_keep_the_spelling_of_what_has_no_canonical_form() {
    let mut files = FileSnapshot::new();
    assert_eq!(worktree_state_key(&path("/gone//repo/"), &files), "/gone//repo/");
    write(&mut files, "/t/repo/.git/HEAD", "ref: refs/heads/main\n");
    assert_eq!(worktree_state_key(&path("/t//repo/./src//lib"), &files), "/t//repo");
    files.add_canonical(path("/t/repo"), path("/real/repo"));
    assert_eq!(worktree_state_key(&path("/t//repo/src"), &files), "/real/repo");
}

fn machine() -> Machine {
    Machine { temp_dir: path("/tmp"), unix: true }
}

fn config() -> DaemonConfig {
    DaemonConfig::from_home(&path("/home/me"), &machine())
}

#[test]
fn socket_paths_keep_their_spelling() {
    let config = DaemonConfig::from_internal_dir(path("/home//me"), &machine());
    assert_eq!(config.trace_socket_path.to_text(), "/home//me/daemon/trace2.sock");
    let target = DaemonConfig::trace2_event_target_for_path(&path("/a//b"), true);
    assert_eq!(target, "af_unix:stream:/a//b");
    let long = format!("/{}", "h".repeat(MAX_SOCKET_PATH_BYTES));
    let one = DaemonConfig::from_internal_dir(path(&long), &machine());
    let other = DaemonConfig::from_internal_dir(path(&format!("{long}/")), &machine());
    assert_ne!(one.trace_socket_path, other.trace_socket_path);
    let named = format!("/tmp/git-ai-d-{}/trace.sock", short_digest_of(&long));
    assert_eq!(one.trace_socket_path.to_text(), named);
}

#[test]
fn sockets_are_pipes_where_they_are_no_files() {
    let elsewhere = Machine { temp_dir: path("/tmp"), unix: false };
    let config = DaemonConfig::from_internal_dir(path("/i"), &elsewhere);
    let digest = short_digest_of("/i");
    assert_eq!(config.lock_path.to_text(), "/i/daemon/daemon.lock");
    let trace = format!(r"\\.\pipe\git-ai-{digest}-trace2");
    assert_eq!(config.trace_socket_path.to_text(), trace);
    let control = format!(r"\\.\pipe\git-ai-{digest}-control");
    assert_eq!(config.control_socket_path.to_text(), control);
    assert_eq!(config.trace2_event_target(elsewhere.unix), trace);
}

#[test]
fn the_lock_and_the_sockets_share_a_directory() {
    let config = config();
    assert_eq!(config.lock_path.parent(), config.trace_socket_path.parent());
    assert_eq!(config.lock_path.parent(), config.control_socket_path.parent());
    assert!(config.lock_path.is_under(&path("/home/me")));
    assert_eq!(
        config.trace2_event_target(true),
        format!("af_unix:stream:{}", config.trace_socket_path.to_text())
    );
}

#[test]
fn long_homes_put_the_sockets_under_the_temp_dir() {
    let home = path(&format!("/{}", "h".repeat(MAX_SOCKET_PATH_BYTES)));
    let config = DaemonConfig::from_home(&home, &machine());
    assert!(config.lock_path.is_under(&home) || config.lock_path.is_under(&path("/tmp")));
    assert!(config.trace_socket_path.is_under(&path("/tmp")));
    assert!(config.control_socket_path.is_under(&path("/tmp")));
    assert!(config.trace_socket_path.to_text().len() <= MAX_SOCKET_PATH_BYTES);
}

#[test]
fn digests_are_the_first_of_the_hash() {
    assert_eq!(to_lower_hex(&vec![0x00, 0x1f, 0xa0]), "001fa0");
    let digest = short_digest_of("abc");
    assert!("ba7816bf8f01cfea414140de5dae2223b00361a396177a9cb410ff61f20015ad"
        .starts_with(digest.as_str()));
    assert!(!digest.is_empty());
    assert_ne!(digest, short_digest_of("abd"));
}

#[test]
fn family_logs_are_named_by_digest() {
    let config = config();
    let one = config.test_completion_log_path_for_family("/a/.git");
    let other = config.test_completion_log_path_for_family("/b/.git");
    assert_eq!(one.parent(), Some(config.test_completion_log_dir()));
    assert!(!one.same(&other));
}

#[test]
fn the_environment_overrides_the_default_paths() {
    let none = || DaemonEnv { daemon_home: None, control_socket: None, trace_socket: None };
    let from = |env: &DaemonEnv, internal: Option<RepoPath>| {
        DaemonConfig::from_env_or_default_paths(env, internal, &machine())
    };
    let error = from(&none(), None).err().unwrap();
    assert_eq!(error, ConfigError::NoInternalDir);
    assert!(!error.message().is_empty());
    let plain = from(&none(), Some(path("/internal"))).ok().unwrap();
    assert_eq!(plain.internal_dir, path("/internal"));
    let env = DaemonEnv {
        daemon_home: Some("/dh".to_string()),
        control_socket: Some("/s/control.sock".to_string()),
        trace_socket: Some("/s/trace.sock".to_string()),
    };
    let set = from(&env, None).ok().unwrap();
    assert_eq!(set.control_socket_path, path("/s/control.sock"));
    assert_eq!(set.trace_socket_path, path("/s/trace.sock"));
    assert!(set.internal_dir.is_under(&path("/dh")));
    assert!(DaemonConfig::from_default_paths(None, &machine()).is_err());
}
