use clutch::activity::{classify, Activity, Reading};
use clutch::notifications::{
    read_tokens, start_session_activity_poller, ActivityPoller, SessionActivityPayload, SessionsDir,
    StatusEntry,
};
use clutch::error::SessionError;

fn entry(id: &str, content: &str) -> StatusEntry {
    StatusEntry { session_id: id.to_string(), content: Some(content.to_string()) }
}

fn unreadable(id: &str) -> StatusEntry {
    StatusEntry { session_id: id.to_string(), content: None }
}

fn event(id: &str, activity: &str) -> SessionActivityPayload {
    SessionActivityPayload { session_id: id.to_string(), activity: activity.to_string() }
}

fn fresh() -> ActivityPoller {
    start_session_activity_poller(&Vec::new())
}

#[test]
fn tokens_are_classified() {
    assert_eq!(classify("UserPromptSubmit"), Some(Activity::Running));
    assert_eq!(classify("Stop"), Some(Activity::Finished));
    assert_eq!(classify("Notification"), Some(Activity::NeedsInput));
    assert_eq!(classify("stop"), None);
    assert_eq!(classify("Stop "), None);
    assert_eq!(classify(""), None);
    assert_eq!(classify("SubagentStop"), None);
}

#[test]
fn activities_are_named() {
    assert_eq!(Activity::Running.as_str(), "running");
    assert_eq!(Activity::Finished.as_str(), "finished");
    assert_eq!(Activity::NeedsInput.as_str(), "needs_input");
}

#[test]
fn poller_reports_each_known_token() {
    let mut poller = fresh();
    assert_eq!(poller.poll(&vec![entry("s1", "UserPromptSubmit")]), vec![event("s1", "running")]);
    assert_eq!(poller.poll(&vec![entry("s1", "Stop")]), vec![event("s1", "finished")]);
    assert_eq!(poller.poll(&vec![entry("s1", "Notification")]), vec![event("s1", "needs_input")]);
}

#[test]
fn poller_trims_the_content() {
    let mut poller = fresh();
    assert_eq!(poller.poll(&vec![entry("s1", "  Stop\n")]), vec![event("s1", "finished")]);
    assert_eq!(poller.last_seen("s1"), Some(&"Stop".to_string()));
    assert_eq!(poller.poll(&vec![entry("s1", "\tStop \r\n")]), vec![]);
}

#[test]
fn poller_passes_over_an_unknown_token_and_goes_on() {
    let mut poller = fresh();
    let events = poller.poll(&vec![entry("s1", "Garbage"), entry("s2", "Stop")]);
    assert_eq!(events, vec![event("s2", "finished")]);
    assert_eq!(poller.last_seen("s1"), None);
    // the unknown token is not remembered, so a known one is reported after it
    assert_eq!(poller.poll(&vec![entry("s1", "Stop"), entry("s2", "Stop")]), vec![event("s1", "finished")]);
}

#[test]
fn poller_reports_an_unchanged_token_once() {
    let mut poller = fresh();
    let reading = vec![entry("s1", "Stop"), entry("s2", "UserPromptSubmit")];
    assert_eq!(poller.poll(&reading), vec![event("s1", "finished"), event("s2", "running")]);
    assert_eq!(poller.poll(&reading), vec![]);
    assert_eq!(poller.poll(&reading), vec![]);
}

#[test]
fn poller_notes_an_empty_file_without_a_report() {
    let mut poller = fresh();
    assert_eq!(poller.poll(&vec![entry("s1", "")]), vec![]);
    assert_eq!(poller.last_seen("s1"), Some(&String::new()));
    assert_eq!(poller.poll(&vec![entry("s1", " \n")]), vec![]);
    assert_eq!(poller.poll(&vec![entry("s1", "Stop")]), vec![event("s1", "finished")]);
    // a file made empty again does not take the token last seen away
    assert_eq!(poller.poll(&vec![entry("s1", "")]), vec![]);
    assert_eq!(poller.last_seen("s1"), Some(&"Stop".to_string()));
    assert_eq!(poller.poll(&vec![entry("s1", "Stop")]), vec![]);
}

#[test]
fn poller_skips_a_file_that_cannot_be_read_for_one_cycle() {
    let mut poller = fresh();
    assert_eq!(poller.poll(&vec![entry("s1", "Stop")]), vec![event("s1", "finished")]);
    assert_eq!(poller.poll(&vec![unreadable("s1"), entry("s2", "Stop")]), vec![event("s2", "finished")]);
    assert_eq!(poller.last_seen("s1"), Some(&"Stop".to_string()));
    assert_eq!(poller.poll(&vec![entry("s1", "Stop"), entry("s2", "Stop")]), vec![]);
    let mut other = fresh();
    assert_eq!(other.poll(&vec![unreadable("s9")]), vec![]);
    assert_eq!(other.last_seen("s9"), None);
    assert_eq!(other.len(), 0);
}

#[test]
fn poller_forgets_sessions_that_are_gone() {
    let mut poller = fresh();
    poller.poll(&vec![entry("s1", "Stop"), entry("s2", "Stop")]);
    assert_eq!(poller.len(), 2);
    assert_eq!(poller.poll(&vec![entry("s2", "Stop")]), vec![]);
    assert_eq!(poller.len(), 1);
    assert_eq!(poller.last_seen("s1"), None);
    // a session that comes back is new
    assert_eq!(poller.poll(&vec![entry("s1", "Stop"), entry("s2", "Stop")]), vec![event("s1", "finished")]);
}

#[test]
fn seeded_poller_does_not_report_the_state_it_started_from() {
    let reading = vec![entry("s1", "Stop\n"), entry("s2", ""), unreadable("s3"), entry("s4", "Odd")];
    let mut poller = start_session_activity_poller(&reading);
    assert_eq!(poller.len(), 3);
    assert_eq!(poller.last_seen("s1"), Some(&"Stop".to_string()));
    assert_eq!(poller.last_seen("s2"), Some(&String::new()));
    assert_eq!(poller.last_seen("s3"), None);
    assert_eq!(poller.last_seen("s4"), Some(&"Odd".to_string()));
    assert_eq!(poller.poll(&reading), vec![]);
    let next = vec![entry("s1", "UserPromptSubmit"), entry("s2", "Notification"), entry("s3", "Stop")];
    assert_eq!(
        poller.poll(&next),
        vec![event("s1", "running"), event("s2", "needs_input"), event("s3", "finished")]
    );
}

#[test]
fn tokens_are_the_contents_without_white_space() {
    let readings = read_tokens(&vec![entry("s1", " Stop \n"), unreadable("s2"), entry("s3", "\n")]);
    assert_eq!(
        readings,
        vec![
            Reading { session_id: "s1".to_string(), token: Some("Stop".to_string()) },
            Reading { session_id: "s2".to_string(), token: None },
            Reading { session_id: "s3".to_string(), token: Some(String::new()) },
        ]
    );
}

#[test]
fn observed_tokens_are_not_trimmed_again() {
    let mut poller = ActivityPoller::from_readings(&vec![Reading {
        session_id: "s1".to_string(),
        token: Some("Stop".to_string()),
    }]);
    let padded = Reading { session_id: "s1".to_string(), token: Some("Stop ".to_string()) };
    assert_eq!(poller.observe(&vec![padded]), vec![]);
    assert_eq!(poller.last_seen("s1"), Some(&"Stop".to_string()));
    let changed = Reading { session_id: "s1".to_string(), token: Some("Notification".to_string()) };
    assert_eq!(poller.observe(&vec![changed]), vec![event("s1", "needs_input")]);
}

#[test]
fn a_session_named_twice_is_taken_twice() {
    let mut poller = fresh();
    let reading = vec![entry("s1", "Stop"), entry("s1", "Notification")];
    assert_eq!(poller.poll(&reading), vec![event("s1", "finished"), event("s1", "needs_input")]);
    assert_eq!(poller.last_seen("s1"), Some(&"Notification".to_string()));
    assert_eq!(poller.len(), 1);
}

#[test]
fn store_lies_below_the_home_directory() {
    let store = SessionsDir::new(Some("/home/u".to_string())).unwrap();
    assert_eq!(store.path, "/home/u/.clutch/sessions");
    assert_eq!(
        SessionsDir::new(None),
        Err(SessionError::FilesystemError("HOME environment variable not set".to_string()))
    );
}

#[test]
fn session_directory_holds_one_status_file() {
    let store = SessionsDir { path: "/var/run/clutch".to_string() };
    let plan = store.create_session_dir("abc-123");
    assert_eq!(plan.dir, "/var/run/clutch/abc-123");
    assert_eq!(plan.status_file, "/var/run/clutch/abc-123/status");
    assert_eq!(store.remove_session_dir("abc-123"), "/var/run/clutch/abc-123");
}

#[test]
fn stale_directories_are_removed_or_kept_as_told() {
    let store = SessionsDir { path: "/r".to_string() };
    let found = vec!["a".to_string(), "b".to_string()];
    assert_eq!(store.stale_session_dirs(true, &found), vec!["/r/a", "/r/b"]);
    assert!(store.stale_session_dirs(false, &found).is_empty());
    assert!(store.stale_session_dirs(true, &Vec::new()).is_empty());
}
