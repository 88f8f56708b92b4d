use clutch::config::{base_dir_name, CLEANUP_STALE_SESSIONS_ON_STARTUP};
use clutch::error::{PtyStep, SessionError};
use clutch::git::{setup_worktree_for_session, WorktreeRemoveResult, WorktreeSetupResult};
use clutch::pty::{pty_size, PtyDataPayload, PtyExitPayload, TerminalSize};
use clutch::table::Table;
use clutch::text::str_eq;

#[test]
fn base_directory_depends_on_the_build() {
    assert_eq!(base_dir_name(true), ".clutch-dev");
    assert_eq!(base_dir_name(false), ".clutch");
    assert!(CLEANUP_STALE_SESSIONS_ON_STARTUP);
}

#[test]
fn worktree_is_used_where_it_was_created() {
    let result = setup_worktree_for_session(
        "/repo/sub",
        Some("/repo".to_string()),
        Some(Ok("/repo-s1".to_string())),
    );
    assert_eq!(
        result,
        WorktreeSetupResult {
            effective_dir: "/repo-s1".to_string(),
            worktree_path: Some("/repo-s1".to_string()),
            git_repo_path: Some("/repo".to_string()),
        }
    );
}

#[test]
fn working_directory_is_used_where_no_worktree_was_created() {
    let fallback = WorktreeSetupResult {
        effective_dir: "/plain".to_string(),
        worktree_path: None,
        git_repo_path: None,
    };
    assert_eq!(setup_worktree_for_session("/plain", None, None), fallback);
    assert_eq!(
        setup_worktree_for_session(
            "/plain",
            Some("/repo".to_string()),
            Some(Err("git worktree add failed: exists".to_string()))
        ),
        fallback
    );
    assert_eq!(setup_worktree_for_session("/plain", Some("/repo".to_string()), None), fallback);
    assert_eq!(setup_worktree_for_session("/plain", None, Some(Ok("/x".to_string()))), fallback);
}

#[test]
fn remove_result_holds_its_fields() {
    let ok = WorktreeRemoveResult { success: true, error: None };
    let failed = WorktreeRemoveResult { success: false, error: Some("locked".to_string()) };
    assert_ne!(ok, failed);
    assert_eq!(failed.error.as_deref(), Some("locked"));
}

#[test]
fn every_step_has_its_error_and_message() {
    let cases = [
        (PtyStep::OpenPty, SessionError::PtyOpenFailed("Failed to open PTY: x".to_string())),
        (PtyStep::TakeWriter, SessionError::PtyOpenFailed("Failed to get PTY writer: x".to_string())),
        (PtyStep::SpawnCommand, SessionError::SpawnFailed("Failed to spawn command: x".to_string())),
        (PtyStep::SpawnShell, SessionError::SpawnFailed("Failed to spawn shell: x".to_string())),
        (PtyStep::CloneReader, SessionError::ReaderSetupFailed("Failed to get PTY reader: x".to_string())),
        (PtyStep::Write, SessionError::WriteFailed("Failed to write to PTY: x".to_string())),
        (PtyStep::Flush, SessionError::WriteFailed("Failed to flush PTY: x".to_string())),
        (PtyStep::Resize, SessionError::ResizeFailed("Failed to resize PTY: x".to_string())),
        (
            PtyStep::CreateSessionsDir,
            SessionError::FilesystemError("Failed to create sessions dir: x".to_string()),
        ),
    ];
    for (step, expected) in cases {
        assert_eq!(SessionError::failure(step, "x"), expected);
    }
}

#[test]
fn messages_are_what_the_caller_is_shown() {
    assert_eq!(SessionError::not_found("s1"), SessionError::SessionNotFound("s1".to_string()));
    assert_eq!(SessionError::not_found("s1").message(), "Session 's1' not found");
    assert_eq!(SessionError::failure(PtyStep::Write, "broken pipe").message(), "Failed to write to PTY: broken pipe");
    assert_eq!(SessionError::FilesystemError("disk full".to_string()).message(), "disk full");
}

#[test]
fn size_needs_columns_and_rows() {
    assert_eq!(
        pty_size(PtyStep::OpenPty, 80, 24),
        Ok(TerminalSize { rows: 24, cols: 80, pixel_width: 0, pixel_height: 0 })
    );
    assert_eq!(
        pty_size(PtyStep::OpenPty, 1, 1),
        Ok(TerminalSize { rows: 1, cols: 1, pixel_width: 0, pixel_height: 0 })
    );
    assert_eq!(
        pty_size(PtyStep::OpenPty, 0, 24),
        Err(SessionError::PtyOpenFailed(
            "Failed to open PTY: columns and rows must be greater than zero".to_string()
        ))
    );
    assert_eq!(
        pty_size(PtyStep::Resize, 65535, 0),
        Err(SessionError::ResizeFailed(
            "Failed to resize PTY: columns and rows must be greater than zero".to_string()
        ))
    );
}

#[test]
fn payloads_hold_their_fields() {
    let data = PtyDataPayload { session_id: "s1".to_string(), data: "hi".to_string() };
    assert_eq!(data.clone(), data);
    let exit = PtyExitPayload { session_id: "s1".to_string() };
    assert_eq!(exit.session_id, data.session_id);
}

#[test]
fn text_is_compared_by_content() {
    assert!(str_eq("", ""));
    assert!(str_eq("Stop", "Stop"));
    assert!(!str_eq("Stop", "Stop "));
    assert!(!str_eq("Stop", "Stap"));
    assert!(str_eq("\u{e9}\u{20ac}", "\u{e9}\u{20ac}"));
    assert!(!str_eq("\u{e9}", "e"));
}

#[test]
fn table_keeps_keys_in_the_order_of_first_insertion() {
    let mut table: Table<u32> = Table::new();
    assert_eq!(table.len(), 0);
    assert_eq!(table.insert("b".to_string(), 1), None);
    assert_eq!(table.insert("a".to_string(), 2), None);
    assert_eq!(table.insert("b".to_string(), 3), Some(1));
    assert_eq!(table.key_list(), vec!["b".to_string(), "a".to_string()]);
    assert_eq!(table.get("b"), Some(&3));
    assert_eq!(table.get("c"), None);
    assert!(table.contains_key("a"));
    assert_eq!(table.remove("b"), Some(3));
    assert_eq!(table.remove("b"), None);
    assert_eq!(table.len(), 1);
    assert_eq!(table.insert("b".to_string(), 4), None);
    assert_eq!(table.key_list(), vec!["a".to_string(), "b".to_string()]);
    assert_eq!(table.clear(), vec!["a".to_string(), "b".to_string()]);
    assert_eq!(table.len(), 0);
    assert!(table.clear().is_empty());
}
