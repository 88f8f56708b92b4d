use clutch::git::{
    branch_name, branch_names, branch_pattern, branches_ending_with, branches_to_delete,
    current_branch, folder_name, git_root, named_branch, placement_failure, worktree_add_args,
    worktree_created, worktree_placement, worktree_removed, PlacementBase, WorktreePlacement,
    WorktreeRemoveResult,
};

#[test]
fn root_is_what_git_printed_without_white_space() {
    assert_eq!(git_root(true, "/home/u/repo\n"), Some("/home/u/repo".to_string()));
    assert_eq!(git_root(true, ""), Some(String::new()));
    assert_eq!(git_root(false, "/home/u/repo\n"), None);
}

#[test]
fn branch_is_what_git_printed_if_it_printed_a_name() {
    assert_eq!(current_branch(true, "main\n"), Some("main".to_string()));
    assert_eq!(current_branch(true, " \n"), None);
    assert_eq!(current_branch(true, ""), None);
    assert_eq!(current_branch(false, "main\n"), None);
    assert_eq!(named_branch("HEAD"), Some("HEAD".to_string()));
    assert_eq!(named_branch(""), None);
}

#[test]
fn branch_is_prefix_and_session() {
    assert_eq!(branch_name("clutch/", "s1"), "clutch/s1");
    assert_eq!(branch_name("", "s1"), "s1");
    assert_eq!(branch_name("p", ""), "p");
}

#[test]
fn folder_has_no_slash() {
    assert_eq!(folder_name("clutch/s1"), "clutch-s1");
    assert_eq!(folder_name("a/b//c/"), "a-b--c-");
    assert_eq!(folder_name("plain"), "plain");
    assert_eq!(folder_name(""), "");
}

#[test]
fn sibling_lies_beside_the_repository() {
    assert_eq!(
        worktree_placement("sibling", Some("repo1".to_string()), "f".to_string()),
        WorktreePlacement {
            base: PlacementBase::RepoParent,
            steps: vec!["f".to_string()],
            create_parent: false,
        }
    );
}

#[test]
fn home_worktrees_lie_below_the_base_directory() {
    assert_eq!(
        worktree_placement("home", Some("repo1".to_string()), "f".to_string()),
        WorktreePlacement {
            base: PlacementBase::Home,
            steps: vec![
                ".clutch".to_string(),
                "worktrees".to_string(),
                "repo1".to_string(),
                "f".to_string()
            ],
            create_parent: true,
        }
    );
}

#[test]
fn custom_worktrees_lie_below_the_directory_named() {
    assert_eq!(
        worktree_placement("/data/trees", None, "f".to_string()),
        WorktreePlacement {
            base: PlacementBase::Custom("/data/trees".to_string()),
            steps: vec!["repo".to_string(), "f".to_string()],
            create_parent: true,
        }
    );
    assert_eq!(
        worktree_placement("Home", Some("r".to_string()), "f".to_string()).base,
        PlacementBase::Custom("Home".to_string())
    );
}

#[test]
fn missing_base_is_reported() {
    assert_eq!(placement_failure(&PlacementBase::Home), "Cannot determine home directory");
    assert_eq!(
        placement_failure(&PlacementBase::RepoParent),
        "Cannot determine parent directory of repo"
    );
}

#[test]
fn worktree_is_added_on_a_new_branch() {
    assert_eq!(
        worktree_add_args("clutch/s1", "/r-clutch-s1"),
        vec!["worktree", "add", "-b", "clutch/s1", "/r-clutch-s1"]
    );
}

#[test]
fn creation_hands_on_what_git_complained_of() {
    assert_eq!(worktree_created(true, "/w".to_string(), "noise"), Ok("/w".to_string()));
    assert_eq!(
        worktree_created(false, "/w".to_string(), "fatal: exists\n"),
        Err("git worktree add failed: fatal: exists".to_string())
    );
}

#[test]
fn removal_tells_success_or_why_not() {
    assert_eq!(
        worktree_removed(Ok((true, "warning".to_string()))),
        WorktreeRemoveResult { success: true, error: None }
    );
    assert_eq!(
        worktree_removed(Ok((false, " fatal: dirty\n".to_string()))),
        WorktreeRemoveResult { success: false, error: Some("fatal: dirty".to_string()) }
    );
    assert_eq!(
        worktree_removed(Err("No such file or directory".to_string())),
        WorktreeRemoveResult {
            success: false,
            error: Some("Failed to run git worktree remove: No such file or directory".to_string()),
        }
    );
}

#[test]
fn branches_are_listed_by_their_ending() {
    assert_eq!(branch_pattern("s1"), "*s1");
}

#[test]
fn branch_names_lose_white_space_and_the_current_mark() {
    assert_eq!(
        branch_names("  clutch/s1\n* main-s1\r\n* * odd\n\n  x  \n"),
        vec!["clutch/s1", "main-s1", "odd", "", "x"]
    );
    assert!(branch_names("").is_empty());
}

#[test]
fn only_branches_of_the_session_are_deleted() {
    let names = vec!["clutch/s1".to_string(), "s10".to_string(), "s1".to_string(), "".to_string()];
    assert_eq!(branches_ending_with(&names, "s1"), vec!["clutch/s1", "s1"]);
    assert_eq!(
        branches_to_delete("  clutch/s1\n* wip-s1\n  other\n  s1x\n", "s1"),
        vec!["clutch/s1", "wip-s1"]
    );
    assert!(branches_to_delete("", "s1").is_empty());
}
