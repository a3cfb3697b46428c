use lulu::worktree::{
    parse_worktree_list, str_starts_with, worktree_removal_paths, WorktreeEntry, WorktreeService,
};

#[test]
fn managed_root_and_session_paths_are_derived_from_the_repo() {
    let service = WorktreeService::new("/repo");
    assert_eq!(service.repo_root(), "/repo");
    assert_eq!(service.worktrees_root(), "/repo/.lulu/worktrees");
    assert_eq!(
        service.worktree_path_for_session("session-a"),
        "/repo/.lulu/worktrees/session-a"
    );
}

#[test]
fn spawn_uses_session_specific_worktree_path() {
    let service = WorktreeService::new("/repo");
    let first = service.worktree_path_for_session("session-a");
    let second = service.worktree_path_for_session("session-b");
    assert_ne!(first, second, "session worktree paths must be unique");
    assert!(first.ends_with("session-a"));
    assert!(second.ends_with("session-b"));
}

#[test]
fn porcelain_listing_parses_paths_and_prunable_marks() {
    let porcelain = "worktree /repo\nHEAD 1111111111111111111111111111111111111111\nbranch refs/heads/main\n\nworktree /repo/.lulu/worktrees/session-a\nHEAD 2222222222222222222222222222222222222222\ndetached\n\nworktree /repo/.lulu/worktrees/session-b\nHEAD 3333333333333333333333333333333333333333\ndetached\nprunable gitdir file points to non-existent location\n";
    let entries = parse_worktree_list(porcelain);
    assert_eq!(entries.len(), 3);
    assert_eq!(entries[0].path, "/repo");
    assert!(!entries[0].prunable);
    assert_eq!(entries[1].path, "/repo/.lulu/worktrees/session-a");
    assert!(!entries[1].prunable);
    assert_eq!(entries[2].path, "/repo/.lulu/worktrees/session-b");
    assert!(entries[2].prunable);
}

#[test]
fn empty_porcelain_listing_parses_to_nothing() {
    assert!(parse_worktree_list("").is_empty());
    assert!(parse_worktree_list("\n\n").is_empty());
}

#[test]
fn reconcile_removes_only_stale_managed_worktrees() {
    let root = "/repo/.lulu/worktrees";
    let expected = vec!["/repo/.lulu/worktrees/keep".to_string()];
    let entries = vec![
        // The repository checkout itself is outside the managed root.
        (WorktreeEntry { path: "/repo".to_string(), prunable: false }, true),
        // Expected, healthy, and present: kept.
        (WorktreeEntry { path: "/repo/.lulu/worktrees/keep".to_string(), prunable: false }, true),
        // Unexpected and present: removed.
        (WorktreeEntry { path: "/repo/.lulu/worktrees/stray".to_string(), prunable: false }, true),
        // Expected but prunable: removed.
        (WorktreeEntry { path: "/repo/.lulu/worktrees/keep2".to_string(), prunable: true }, true),
        // Unexpected but already gone from disk: nothing to remove.
        (WorktreeEntry { path: "/repo/.lulu/worktrees/gone".to_string(), prunable: false }, false),
    ];
    let expected2 = {
        let mut e = expected.clone();
        e.push("/repo/.lulu/worktrees/keep2".to_string());
        e
    };
    let removals = worktree_removal_paths(&entries, root, &expected2);
    assert_eq!(
        removals,
        vec!["/repo/.lulu/worktrees/stray".to_string(), "/repo/.lulu/worktrees/keep2".to_string()]
    );
}

#[test]
fn prefix_test_matches_string_starts() {
    assert!(str_starts_with("worktree /x", "worktree "));
    assert!(!str_starts_with("prunable", "worktree "));
    assert!(str_starts_with("anything", ""));
    assert!(!str_starts_with("ab", "abc"));
}
