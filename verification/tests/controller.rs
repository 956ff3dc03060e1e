use deck::config::AppConfig;
use deck::control::{
    Action, BridgeReport, Controller, ExitReport, KeyInput, KeyPress, LogMode, Panel,
};
use deck::session::{Session, SessionStatus};

fn config() -> AppConfig {
    AppConfig::from_base("/home/user/.config", "vim".to_string())
}

fn key(code: KeyPress) -> KeyInput {
    KeyInput { code, ctrl: false }
}

fn ctrl(c: char) -> KeyInput {
    KeyInput {
        code: KeyPress::Char(c),
        ctrl: true,
    }
}

fn controller_with_one_session() -> (Controller, u128) {
    let s = Session::new("alpha".to_string(), "/work/alpha".to_string(), "/logs");
    let id = s.id;
    (Controller::new(config(), vec![s]), id)
}

#[test]
fn fresh_controller_defaults() {
    let (c, id) = controller_with_one_session();
    assert_eq!(c.active_session, 0);
    assert_eq!(c.active_panel, Panel::SessionList);
    assert_eq!(c.log_mode, LogMode::Individual);
    assert!(c.input_text.is_empty());
    assert!(!c.has_bridge(id));
    assert!(!c.creating_session);
    assert!(!c.renaming);
}

#[test]
fn config_paths() {
    let c = config();
    assert_eq!(c.sessions_file_path, "/home/user/.config/deck/sessions.json");
    assert_eq!(c.logs_root_path, "/home/user/.config/deck/logs");
    assert_eq!(c.needs_input_timeout_sec, 30);
    assert_eq!(c.br_poll_interval_sec, 3);
    assert_eq!(c.editor, "vim");
}

#[test]
fn tab_cycles_panels() {
    let (mut c, _) = controller_with_one_session();
    let order = [
        Panel::DirTree,
        Panel::FilePreview,
        Panel::Log,
        Panel::Input,
        Panel::SessionList,
    ];
    for p in order {
        c.handle_key(key(KeyPress::Tab), 0);
        assert_eq!(c.active_panel, p);
    }
}

#[test]
fn quit_saves_and_quits() {
    let (mut c, _) = controller_with_one_session();
    let actions = c.handle_key(key(KeyPress::Char('q')), 0);
    assert_eq!(actions, vec![Action::SaveSessions, Action::Quit]);
}

#[test]
fn interrupt_without_bridge_quits() {
    let (mut c, _) = controller_with_one_session();
    let actions = c.handle_key(ctrl('c'), 0);
    assert_eq!(actions, vec![Action::Quit]);
}

#[test]
fn submitting_input_requests_spawn() {
    let (mut c, id) = controller_with_one_session();
    c.active_panel = Panel::Input;
    for ch in "run tests".chars() {
        c.handle_key(key(KeyPress::Char(ch)), 0);
    }
    let actions = c.handle_key(key(KeyPress::Enter), 0);
    assert_eq!(
        actions,
        vec![Action::SpawnRequest {
            session_id: id,
            root_path: "/work/alpha".to_string(),
            instruction: "run tests".to_string(),
        }]
    );
    assert!(c.input_text.is_empty());
}

#[test]
fn spawn_success_starts_session() {
    let (mut c, id) = controller_with_one_session();
    let actions = c.spawn_succeeded(id, Some(4242), "run tests".to_string(), 1000);
    assert_eq!(c.sessions[0].status, SessionStatus::Running);
    assert_eq!(c.sessions[0].pty_pid, Some(4242));
    assert_eq!(c.sessions[0].instruction, Some("run tests".to_string()));
    assert!(c.has_bridge(id));
    assert_eq!(
        actions,
        vec![
            Action::WriteLogHeader { session_id: id },
            Action::SaveSessions,
            Action::SendText {
                session_id: id,
                text: "run tests\n".to_string(),
            },
        ]
    );
}

#[test]
fn spawn_failure_forces_failed_through_running() {
    let (mut c, id) = controller_with_one_session();
    let actions = c.spawn_failed(id, "Failed to spawn PTY: no such file\n".to_string(), 1000);
    assert_eq!(c.sessions[0].status, SessionStatus::Failed);
    assert_eq!(actions, vec![Action::SaveSessions]);
    assert_eq!(
        c.log_store.last_non_empty_line(id),
        Some("Failed to spawn PTY: no such file".to_string())
    );
}

#[test]
fn clean_exit_on_next_tick_completes_session() {
    let (mut c, id) = controller_with_one_session();
    c.spawn_succeeded(id, Some(7), "true".to_string(), 0);
    assert_eq!(c.sessions[0].status, SessionStatus::Running);

    let reports = vec![BridgeReport {
        session_id: id,
        chunks: vec![],
        exit: Some(ExitReport {
            success: true,
            exit_code: 0,
        }),
    }];
    let actions = c.tick(&reports, 50);

    assert_eq!(c.sessions[0].status, SessionStatus::Done);
    assert_eq!(c.sessions[0].exit_code, Some(0));
    assert!(c.sessions[0].pty_pid.is_none());
    assert!(!c.has_bridge(id));
    assert!(actions.contains(&Action::RemoveBridge { session_id: id }));
    assert!(actions.contains(&Action::SaveSessions));
}

#[test]
fn failed_exit_records_code() {
    let (mut c, id) = controller_with_one_session();
    c.spawn_succeeded(id, Some(7), "work".to_string(), 0);
    let reports = vec![BridgeReport {
        session_id: id,
        chunks: vec![],
        exit: Some(ExitReport {
            success: false,
            exit_code: 3,
        }),
    }];
    c.tick(&reports, 50);
    assert_eq!(c.sessions[0].status, SessionStatus::Failed);
    assert_eq!(c.sessions[0].exit_code, Some(3));
}

#[test]
fn silence_past_timeout_flags_needs_input() {
    let (mut c, id) = controller_with_one_session();
    c.spawn_succeeded(id, Some(7), "work".to_string(), 0);
    assert_eq!(c.sessions[0].status, SessionStatus::Running);

    // 30s timeout: quiet for 30_001 ms with no output and no prompt.
    let actions = c.tick(&vec![], 30_001);
    assert_eq!(c.sessions[0].status, SessionStatus::NeedsInput);
    assert!(actions.contains(&Action::SaveSessions));
}

#[test]
fn silence_within_timeout_keeps_running() {
    let (mut c, id) = controller_with_one_session();
    c.spawn_succeeded(id, Some(7), "work".to_string(), 0);
    c.tick(&vec![], 30_000);
    assert_eq!(c.sessions[0].status, SessionStatus::Running);
    let _ = id;
}

#[test]
fn prompt_in_output_flags_needs_input() {
    let (mut c, id) = controller_with_one_session();
    c.spawn_succeeded(id, Some(7), "work".to_string(), 0);
    let reports = vec![BridgeReport {
        session_id: id,
        chunks: vec![b"working...\nDo you want to proceed?".to_vec()],
        exit: None,
    }];
    let actions = c.tick(&reports, 100);
    assert_eq!(c.sessions[0].status, SessionStatus::NeedsInput);
    assert!(actions.iter().any(|a| matches!(
        a,
        Action::AppendLogFile { .. }
    )));
}

#[test]
fn ordinary_output_keeps_running_and_resets_timeout() {
    let (mut c, id) = controller_with_one_session();
    c.spawn_succeeded(id, Some(7), "work".to_string(), 0);
    let reports = vec![BridgeReport {
        session_id: id,
        chunks: vec![b"building\n".to_vec()],
        exit: None,
    }];
    // Output arrives just past the timeout: the refresh wins this tick.
    c.tick(&reports, 31_000);
    assert_eq!(c.sessions[0].status, SessionStatus::Running);
    assert_eq!(c.log_store.last_non_empty_line(id), Some("building".to_string()));
}

#[test]
fn input_resumes_waiting_session() {
    let (mut c, id) = controller_with_one_session();
    c.spawn_succeeded(id, Some(7), "work".to_string(), 0);
    let reports = vec![BridgeReport {
        session_id: id,
        chunks: vec![b"Continue? (y/n)\n".to_vec()],
        exit: None,
    }];
    c.tick(&reports, 100);
    assert_eq!(c.sessions[0].status, SessionStatus::NeedsInput);

    c.active_panel = Panel::Input;
    c.handle_key(key(KeyPress::Char('y')), 200);
    let actions = c.handle_key(key(KeyPress::Enter), 200);
    assert_eq!(c.sessions[0].status, SessionStatus::Running);
    assert!(actions.contains(&Action::SaveSessions));
    assert!(actions.contains(&Action::SendText {
        session_id: id,
        text: "y\n".to_string(),
    }));
}

#[test]
fn interrupt_goes_to_live_session() {
    let (mut c, id) = controller_with_one_session();
    c.spawn_succeeded(id, Some(7), "work".to_string(), 0);
    let actions = c.handle_key(ctrl('c'), 10);
    assert_eq!(actions, vec![Action::SendInterrupt { session_id: id }]);
}

#[test]
fn create_dialog_flow() {
    let (mut c, _) = controller_with_one_session();
    c.handle_key(key(KeyPress::Char('n')), 0);
    assert!(c.creating_session);
    for ch in "beta".chars() {
        c.handle_key(key(KeyPress::Char(ch)), 0);
    }
    c.handle_key(key(KeyPress::Enter), 0);
    for ch in "/work/beta".chars() {
        c.handle_key(key(KeyPress::Char(ch)), 0);
    }
    let actions = c.handle_key(key(KeyPress::Enter), 0);
    assert!(!c.creating_session);
    assert_eq!(
        actions,
        vec![Action::CreateSessionRequest {
            name: "beta".to_string(),
            path_text: "/work/beta".to_string(),
        }]
    );

    let actions = c.create_session("beta".to_string(), "/work/beta".to_string());
    assert_eq!(c.sessions.len(), 2);
    assert_eq!(c.sessions[1].name, "beta");
    assert_eq!(c.sessions[1].status, SessionStatus::Queued);
    assert_eq!(c.active_session, 1);
    assert_eq!(actions, vec![Action::SaveSessions]);
}

#[test]
fn rename_dialog_flow() {
    let (mut c, _) = controller_with_one_session();
    c.handle_key(key(KeyPress::Char('r')), 0);
    assert!(c.renaming);
    assert_eq!(c.rename_text, "alpha");
    c.handle_key(key(KeyPress::Backspace), 0);
    c.handle_key(key(KeyPress::Char('!')), 0);
    let actions = c.handle_key(key(KeyPress::Enter), 0);
    assert!(!c.renaming);
    assert_eq!(c.sessions[0].name, "alph!");
    assert_eq!(actions, vec![Action::SaveSessions]);
}

#[test]
fn delete_session() {
    let (mut c, id) = controller_with_one_session();
    let actions = c.handle_key(key(KeyPress::Char('d')), 0);
    assert!(c.sessions.is_empty());
    assert_eq!(
        actions,
        vec![Action::RemoveBridge { session_id: id }, Action::SaveSessions]
    );
}

#[test]
fn manual_needs_input_toggle() {
    let (mut c, _) = controller_with_one_session();
    let id = c.sessions[0].id;
    c.spawn_succeeded(id, Some(7), "work".to_string(), 0);
    c.handle_key(key(KeyPress::Char('m')), 10);
    assert_eq!(c.sessions[0].status, SessionStatus::NeedsInput);
    c.handle_key(key(KeyPress::Char('m')), 20);
    assert_eq!(c.sessions[0].status, SessionStatus::Running);
}

#[test]
fn log_mode_toggle() {
    let (mut c, _) = controller_with_one_session();
    c.active_panel = Panel::Log;
    c.handle_key(key(KeyPress::Char('t')), 0);
    assert_eq!(c.log_mode, LogMode::Unified);
    c.handle_key(key(KeyPress::Char('t')), 0);
    assert_eq!(c.log_mode, LogMode::Individual);
}

#[test]
fn has_active_session_tracks_lifecycle() {
    let (mut c, id) = controller_with_one_session();
    assert!(!c.has_active_session());
    c.spawn_succeeded(id, Some(7), "work".to_string(), 0);
    assert!(c.has_active_session());
    let reports = vec![BridgeReport {
        session_id: id,
        chunks: vec![],
        exit: Some(ExitReport {
            success: true,
            exit_code: 0,
        }),
    }];
    c.tick(&reports, 10);
    assert!(!c.has_active_session());
}
