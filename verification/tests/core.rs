use deck::log_store::LogStore;
use deck::needs_input::NeedsInputDetector;
use deck::session::{log_header, normalize_loaded, status_counts, Session, SessionStatus};

fn make_session() -> Session {
    Session::new("test".to_string(), "/tmp".to_string(), "/tmp/logs")
}

#[test]
fn valid_transitions() {
    let mut s = make_session();
    assert_eq!(s.status, SessionStatus::Queued);

    assert!(s.transition_to(SessionStatus::Running, 1).is_ok());
    assert_eq!(s.status, SessionStatus::Running);

    assert!(s.transition_to(SessionStatus::Done, 2).is_ok());
    assert_eq!(s.status, SessionStatus::Done);

    assert!(s.transition_to(SessionStatus::Queued, 3).is_ok());
    assert_eq!(s.status, SessionStatus::Queued);
}

#[test]
fn running_to_needs_input() {
    let mut s = make_session();
    s.transition_to(SessionStatus::Running, 1).unwrap();
    assert!(s.transition_to(SessionStatus::NeedsInput, 2).is_ok());
    assert!(s.transition_to(SessionStatus::Running, 3).is_ok());
}

#[test]
fn running_to_failed_and_retry() {
    let mut s = make_session();
    s.transition_to(SessionStatus::Running, 1).unwrap();
    s.transition_to(SessionStatus::Failed, 2).unwrap();
    assert!(s.transition_to(SessionStatus::Running, 3).is_ok());
}

#[test]
fn prohibited_queued_to_done() {
    let s = make_session();
    assert!(s.can_transition_to(&SessionStatus::Done).is_err());
}

#[test]
fn prohibited_queued_to_needs_input() {
    let s = make_session();
    assert!(s.can_transition_to(&SessionStatus::NeedsInput).is_err());
}

#[test]
fn prohibited_done_to_running() {
    let mut s = make_session();
    s.transition_to(SessionStatus::Running, 1).unwrap();
    s.transition_to(SessionStatus::Done, 2).unwrap();
    assert!(s.can_transition_to(&SessionStatus::Running).is_err());
}

#[test]
fn prohibited_done_to_failed() {
    let mut s = make_session();
    s.transition_to(SessionStatus::Running, 1).unwrap();
    s.transition_to(SessionStatus::Done, 2).unwrap();
    assert!(s.can_transition_to(&SessionStatus::Failed).is_err());
}

#[test]
fn prohibited_failed_to_done() {
    let mut s = make_session();
    s.transition_to(SessionStatus::Running, 1).unwrap();
    s.transition_to(SessionStatus::Failed, 2).unwrap();
    assert!(s.can_transition_to(&SessionStatus::Done).is_err());
}

#[test]
fn icons() {
    assert_eq!(SessionStatus::Queued.icon(), "○");
    assert_eq!(SessionStatus::Running.icon(), "●");
    assert_eq!(SessionStatus::NeedsInput.icon(), "◆");
    assert_eq!(SessionStatus::Done.icon(), "✓");
    assert_eq!(SessionStatus::Failed.icon(), "✗");
}

#[test]
fn fresh_session_is_queued_without_outcome() {
    let s = make_session();
    assert_eq!(s.status, SessionStatus::Queued);
    assert!(s.exit_code.is_none());
    assert!(s.pty_pid.is_none());
    assert!(s.instruction.is_none());
    assert_eq!(s.created_at, s.updated_at);
    assert!(s.log_path.starts_with("/tmp/logs/"));
    assert!(s.log_path.ends_with(".log"));
}

#[test]
fn rejected_transition_reports_reason_and_keeps_state() {
    let mut s = make_session();
    let before = s.updated_at;
    let r = s.transition_to(SessionStatus::Done, 99);
    assert_eq!(r, Err("Cannot complete without running"));
    assert_eq!(s.status, SessionStatus::Queued);
    assert_eq!(s.updated_at, before);
}

#[test]
fn reload_resets_live_statuses() {
    let mut a = make_session();
    a.transition_to(SessionStatus::Running, 1).unwrap();
    a.pty_pid = Some(42);
    let mut b = make_session();
    b.transition_to(SessionStatus::Running, 1).unwrap();
    b.transition_to(SessionStatus::NeedsInput, 2).unwrap();
    let mut c = make_session();
    c.transition_to(SessionStatus::Running, 1).unwrap();
    c.transition_to(SessionStatus::Done, 2).unwrap();
    let d = make_session();

    let mut sessions = vec![a, b, c, d];
    normalize_loaded(&mut sessions);
    assert_eq!(sessions[0].status, SessionStatus::Queued);
    assert!(sessions[0].pty_pid.is_none());
    assert_eq!(sessions[1].status, SessionStatus::Queued);
    assert!(sessions[1].pty_pid.is_none());
    assert_eq!(sessions[2].status, SessionStatus::Done);
    assert_eq!(sessions[3].status, SessionStatus::Queued);
}

#[test]
fn counts_by_status() {
    let mut a = make_session();
    a.transition_to(SessionStatus::Running, 1).unwrap();
    let b = make_session();
    let mut c = make_session();
    c.transition_to(SessionStatus::Running, 1).unwrap();
    c.transition_to(SessionStatus::Failed, 2).unwrap();
    let sessions = vec![a, b, c];
    let counts = status_counts(&sessions);
    assert_eq!(counts.running, 1);
    assert_eq!(counts.queued, 1);
    assert_eq!(counts.failed, 1);
    assert_eq!(counts.done, 0);
    assert_eq!(counts.needs_input, 0);
}

#[test]
fn log_header_layout() {
    let h = log_header("alpha", "/work/alpha", "2024-01-01 00:00:00 UTC");
    assert_eq!(
        h,
        "# Session: alpha\n# Directory: /work/alpha\n# Started: 2024-01-01 00:00:00 UTC\n---\n"
    );
}

#[test]
fn append_single_line() {
    let mut store = LogStore::new();
    let id = 1u128;
    store.append(id, b"hello world\n");
    let lines = store.lines(id);
    assert_eq!(lines, vec!["hello world".to_string(), "".to_string()]);
}

#[test]
fn append_partial_lines() {
    let mut store = LogStore::new();
    let id = 2u128;
    store.append(id, b"hello ");
    store.append(id, b"world\n");
    let lines = store.lines(id);
    assert_eq!(lines, vec!["hello world".to_string(), "".to_string()]);
}

#[test]
fn append_multiple_lines() {
    let mut store = LogStore::new();
    let id = 3u128;
    store.append(id, b"line1\nline2\nline3\n");
    let lines = store.lines(id);
    assert_eq!(
        lines,
        vec![
            "line1".to_string(),
            "line2".to_string(),
            "line3".to_string(),
            "".to_string()
        ]
    );
}

#[test]
fn empty_session() {
    let store = LogStore::new();
    let id = 4u128;
    assert!(store.lines(id).is_empty());
}

#[test]
fn handles_crlf() {
    let mut store = LogStore::new();
    let id = 5u128;
    store.append(id, b"hello\r\nworld\r\n");
    let lines = store.lines(id);
    assert_eq!(
        lines,
        vec!["hello".to_string(), "world".to_string(), "".to_string()]
    );
}

#[test]
fn last_non_empty_line_skips_blanks() {
    let mut store = LogStore::new();
    let id = 6u128;
    assert!(store.last_non_empty_line(id).is_none());
    store.append(id, b"alpha\nbeta\n\n\n");
    assert_eq!(store.last_non_empty_line(id), Some("beta".to_string()));
    store.append(id, b"Continue? (y/n)");
    assert_eq!(
        store.last_non_empty_line(id),
        Some("Continue? (y/n)".to_string())
    );
}

#[test]
fn eviction_keeps_newest_lines() {
    let mut store = LogStore::new();
    let id = 7u128;
    for i in 0..10_500u32 {
        store.append(id, format!("line {}\n", i).as_bytes());
    }
    let lines = store.lines(id);
    assert_eq!(lines.len(), 10_000);
    assert_eq!(lines[lines.len() - 2], "line 10499");
    assert_eq!(lines[lines.len() - 1], "");
}

#[test]
fn detects_yn() {
    let d = NeedsInputDetector::new();
    assert!(d.check("Continue? (y/n)"));
    assert!(d.check("Overwrite file? (Y/n)"));
    assert!(d.check("Are you sure? (yes/no)"));
}

#[test]
fn detects_question_patterns() {
    let d = NeedsInputDetector::new();
    assert!(d.check("Do you want to proceed?"));
    assert!(d.check("do you want to install this package?"));
    assert!(d.check("Would you like to continue?"));
    assert!(d.check("Shall we proceed?"));
}

#[test]
fn detects_confirm_allow() {
    let d = NeedsInputDetector::new();
    assert!(d.check("Please confirm?"));
    assert!(d.check("Allow access to filesystem?"));
}

#[test]
fn ignores_normal_output() {
    let d = NeedsInputDetector::new();
    assert!(!d.check("Building project..."));
    assert!(!d.check("Test passed"));
    assert!(!d.check("Compiling main.rs"));
    assert!(!d.check(""));
}

#[test]
fn ignores_partial_matches() {
    let d = NeedsInputDetector::new();
    assert!(!d.check("Sending confirmation email"));
    assert!(!d.check("This will allow faster builds"));
}
