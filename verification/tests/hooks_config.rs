use clutch::hooks_config::{
    ensure_hook_entry, entry_has_command, entry_mentions, HookEntry, HookUpdate,
    HOOK_MARKER, LEGACY_HOOK_COMMAND, NOTIFICATION_EVENT, NOTIFY_HOOK_COMMAND, STOP_EVENT,
    STOP_HOOK_COMMAND,
};
use clutch::text::{has_ending, is_part_of};

fn hooks(commands: &[&str]) -> HookEntry {
    HookEntry { commands: commands.iter().map(|c| c.to_string()).collect() }
}

#[test]
fn commands_touch_a_file_named_after_the_session() {
    assert_eq!(
        NOTIFY_HOOK_COMMAND,
        r#"test -n "$CLUTCH_NOTIFY_DIR" && test -n "$CLUTCH_SESSION_ID" && touch "$CLUTCH_NOTIFY_DIR/notify_$CLUTCH_SESSION_ID""#
    );
    assert_eq!(
        STOP_HOOK_COMMAND,
        r#"test -n "$CLUTCH_NOTIFY_DIR" && test -n "$CLUTCH_SESSION_ID" && touch "$CLUTCH_NOTIFY_DIR/stop_$CLUTCH_SESSION_ID""#
    );
    assert_eq!(
        LEGACY_HOOK_COMMAND,
        r#"test -n "$CLUTCH_NOTIFY_DIR" && test -n "$CLUTCH_SESSION_ID" && touch "$CLUTCH_NOTIFY_DIR/$CLUTCH_SESSION_ID""#
    );
    assert_eq!(HOOK_MARKER, "CLUTCH_NOTIFY_DIR");
    assert_eq!(NOTIFICATION_EVENT, "Notification");
    assert_eq!(STOP_EVENT, "Stop");
}

#[test]
fn entry_is_searched_for_a_command() {
    let e = hooks(&["echo a", STOP_HOOK_COMMAND]);
    assert!(entry_has_command(&e, STOP_HOOK_COMMAND));
    assert!(entry_has_command(&e, "echo a"));
    assert!(!entry_has_command(&e, "echo"));
    assert!(!entry_has_command(&hooks(&[]), STOP_HOOK_COMMAND));
    assert!(entry_mentions(&e, HOOK_MARKER));
    assert!(!entry_mentions(&hooks(&["echo a", "CLUTCH_NOTIFY"]), HOOK_MARKER));
}

#[test]
fn list_with_the_command_stays_as_it_is() {
    let entries = vec![hooks(&[LEGACY_HOOK_COMMAND]), hooks(&["x", STOP_HOOK_COMMAND])];
    assert_eq!(ensure_hook_entry(&entries, STOP_HOOK_COMMAND), HookUpdate::Unchanged);
}

#[test]
fn first_entry_with_the_command_installed_before_is_replaced() {
    let entries = vec![
        hooks(&["echo other"]),
        hooks(&["touch \"$CLUTCH_NOTIFY_DIR/old\""]),
        hooks(&[LEGACY_HOOK_COMMAND]),
        hooks(&[LEGACY_HOOK_COMMAND]),
    ];
    assert_eq!(ensure_hook_entry(&entries, NOTIFY_HOOK_COMMAND), HookUpdate::Replace(2));
}

#[test]
fn first_entry_that_mentions_the_library_is_replaced() {
    let entries = vec![
        hooks(&["echo other"]),
        hooks(&[]),
        hooks(&["true", "touch \"$CLUTCH_NOTIFY_DIR/old\""]),
        hooks(&[STOP_HOOK_COMMAND]),
    ];
    assert_eq!(ensure_hook_entry(&entries, NOTIFY_HOOK_COMMAND), HookUpdate::Replace(2));
}

#[test]
fn entry_is_added_where_none_is_of_the_library() {
    assert_eq!(ensure_hook_entry(&Vec::new(), STOP_HOOK_COMMAND), HookUpdate::Append);
    let entries = vec![hooks(&["echo other"]), hooks(&[])];
    assert_eq!(ensure_hook_entry(&entries, STOP_HOOK_COMMAND), HookUpdate::Append);
}

#[test]
fn text_is_searched_by_its_characters() {
    assert!(is_part_of("", ""));
    assert!(is_part_of("", "abc"));
    assert!(is_part_of("abc", "abc"));
    assert!(is_part_of("bc", "abcd"));
    assert!(is_part_of("cd", "abcd"));
    assert!(!is_part_of("abcd", "abc"));
    assert!(!is_part_of("ac", "abc"));
    assert!(is_part_of("\u{20ac}", "a\u{20ac}b"));
    assert!(!is_part_of("\u{e9}", "a\u{20ac}b"));
    assert!(has_ending("abc", ""));
    assert!(has_ending("abc", "bc"));
    assert!(has_ending("abc", "abc"));
    assert!(!has_ending("abc", "ab"));
    assert!(!has_ending("bc", "abc"));
    assert!(has_ending("x\u{20ac}", "\u{20ac}"));
    assert!(!has_ending("x\u{20ac}", "\u{e9}"));
}
