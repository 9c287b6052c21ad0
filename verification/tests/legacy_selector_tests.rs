use codex_session_selector::legacy::{filter_sessions_by_scope, LegacyScope};
use codex_session_selector::legacy_selector::{LegacyAction, LegacyApp};
use codex_session_selector::selector::{Mode, PaneFocus};
use codex_session_selector::session::{filter_sessions, SessionRow};
use codex_session_selector::ui_state::{Key, KeyPress};

fn press(key: Key) -> KeyPress {
    KeyPress { key, ctrl: false, no_modifiers: true }
}

fn rows() -> Vec<SessionRow> {
    vec![
        SessionRow {
            path: "/tmp/a.jsonl".to_string(),
            id: Some("019e6ce6-08f8-77e0-ba64-f303967970e0".to_string()),
            timestamp: Some("2026-05-27T01:00:00Z".to_string()),
            cwd: Some("/repo/alpha".to_string()),
            repository_url: Some("https://git.example/alpha.git".to_string()),
            branch: Some("main".to_string()),
            first_message: "fix docker compose".to_string(),
            is_subsession: false,
        },
        SessionRow {
            path: "/tmp/b.jsonl".to_string(),
            id: None,
            timestamp: Some("2026-05-28T01:00:00Z".to_string()),
            cwd: Some("/repo/beta".to_string()),
            repository_url: Some("https://git.example/beta.git".to_string()),
            branch: Some("feature/search".to_string()),
            first_message: "add selector".to_string(),
            is_subsession: false,
        },
    ]
}

#[test]
fn legacy_search_filters_by_scope_as_typed() {
    let mut app = LegacyApp::new(rows());
    assert_eq!(app.filtered.len(), 2);
    assert_eq!(app.handle_key(press(Key::Char('/'))), None);
    assert_eq!(app.mode, Mode::Search);
    for c in "beta".chars() {
        assert_eq!(app.handle_key(press(Key::Char(c))), None);
    }
    assert_eq!(app.query, "beta");
    assert_eq!(app.filtered.len(), 1);
    assert_eq!(app.filtered[0].path, "/tmp/b.jsonl");
    assert_eq!(app.selected, Some(0));

    app.handle_key(press(Key::Tab));
    assert_eq!(app.search_scope, LegacyScope::FirstMessage);
    assert!(app.filtered.is_empty());
    assert_eq!(app.selected, None);

    app.handle_key(press(Key::Backspace));
    assert_eq!(app.query, "bet");
    app.handle_key(press(Key::Enter));
    assert_eq!(app.mode, Mode::Normal);
}

#[test]
fn legacy_keys_move_copy_and_replay() {
    let mut app = LegacyApp::new(rows());
    assert_eq!(app.handle_key(press(Key::Char('j'))), None);
    assert_eq!(app.selected, Some(1));
    assert_eq!(app.handle_key(press(Key::Char('j'))), None);
    assert_eq!(app.selected, Some(0));
    assert_eq!(
        app.handle_key(press(Key::Char('y'))),
        Some(LegacyAction::CopyResume("codex resume 019e6ce6-08f8-77e0-ba64-f303967970e0".to_string()))
    );
    app.copy_finished("codex resume x", Err("no display".to_string()));
    assert_eq!(app.status.as_deref(), Some("clipboard copy failed: no display"));
    app.handle_key(press(Key::Char('G')));
    assert_eq!(app.selected, Some(1));
    assert_eq!(app.handle_key(press(Key::Char('y'))), None);
    assert_eq!(app.status.as_deref(), Some("selected session has no id"));
    assert_eq!(app.handle_key(press(Key::Enter)), Some(LegacyAction::Replay("/tmp/b.jsonl".to_string())));
    app.handle_key(press(Key::Tab));
    assert_eq!(app.focus, PaneFocus::Message);
    app.handle_key(press(Key::Char('d')));
    assert_eq!(app.message_scroll, 10);
    assert_eq!(app.selected, Some(1));
    app.handle_key(press(Key::Char('?')));
    assert!(app.show_help);
    app.handle_key(press(Key::Char('?')));
    assert!(!app.show_help);
}

#[test]
fn legacy_control_c_quits_while_searching() {
    let mut app = LegacyApp::new(rows());
    app.handle_key(press(Key::Char('/')));
    let ctrl_c = KeyPress { key: Key::Char('c'), ctrl: true, no_modifiers: false };
    assert_eq!(app.handle_key(ctrl_c), Some(LegacyAction::Quit));
    assert_eq!(app.query, "");
    app.handle_key(press(Key::Esc));
    assert_eq!(app.handle_key(press(Key::Char('q'))), Some(LegacyAction::Quit));
}

#[test]
fn all_scope_finds_what_the_full_search_finds() {
    for query in ["", "docker", "REPO", "2026-05-28", "main beta", "feature/search"] {
        assert_eq!(filter_sessions_by_scope(&rows(), query, LegacyScope::All), filter_sessions(&rows(), query));
    }
    assert_eq!(filter_sessions_by_scope(&rows(), "beta", LegacyScope::Cwd).len(), 1);
    assert_eq!(filter_sessions_by_scope(&rows(), "beta", LegacyScope::FirstMessage).len(), 0);
}
