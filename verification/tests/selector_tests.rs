use codex_session_selector::search::{QueryError, SearchScope};
use codex_session_selector::selector::{
    format_search_error, Mode, PaneFocus, SearchFailure, SelectorAction, SelectorApp,
};
use codex_session_selector::session::SessionRow;
use codex_session_selector::ui::{bottom_scroll_offset, half_page_height};
use codex_session_selector::ui_state::{ExecVisibility, Key, KeyPress};

fn key(code: Key) -> KeyPress {
    KeyPress { key: code, ctrl: false, no_modifiers: true }
}

fn rows() -> Vec<SessionRow> {
    vec![
        SessionRow {
            path: "/s/a.jsonl".to_string(),
            id: Some("id-a".to_string()),
            timestamp: Some("2026-05-27T01:00:00Z".to_string()),
            cwd: Some("/repo/alpha".to_string()),
            repository_url: None,
            branch: None,
            first_message: "Fix README parser".to_string(),
            is_subsession: false,
        },
        SessionRow {
            path: "/s/b.jsonl".to_string(),
            id: None,
            timestamp: Some("2026-05-28T01:00:00Z".to_string()),
            cwd: Some("/repo/beta".to_string()),
            repository_url: None,
            branch: None,
            first_message: "add selector".to_string(),
            is_subsession: false,
        },
    ]
}

#[test]
fn visibility_maps_cli_bool_and_toggles() {
    let mut hidden = ExecVisibility::from_include_exec(false);
    assert_eq!(hidden, ExecVisibility::Hidden);
    assert!(!hidden.is_shown());
    assert_eq!(hidden.label(), "hidden");

    hidden.toggle();
    assert_eq!(hidden, ExecVisibility::Shown);
    assert!(hidden.is_shown());
    assert_eq!(hidden.label(), "shown");

    hidden.toggle();
    assert_eq!(hidden, ExecVisibility::Hidden);
}

#[test]
fn selector_initial_visibility_matches_cli_state() {
    let hidden = SelectorApp::new(rows(), ExecVisibility::Hidden);
    let shown = SelectorApp::new(rows(), ExecVisibility::Shown);
    assert_eq!(hidden.exec_visibility, ExecVisibility::Hidden);
    assert_eq!(shown.exec_visibility, ExecVisibility::Shown);
    assert_eq!(hidden.filtered.len(), 2);
    assert_eq!(shown.filtered.len(), 2);
    assert_eq!(hidden.selected, Some(0));
}

#[test]
fn selector_e_toggles_only_in_normal_mode() {
    let mut app = SelectorApp::new(rows(), ExecVisibility::Hidden);
    assert_eq!(app.handle_key(key(Key::Char('e'))), None);
    assert_eq!(app.exec_visibility, ExecVisibility::Shown);

    app.handle_key(key(Key::Char('/')));
    assert_eq!(app.handle_key(key(Key::Char('e'))), Some(SelectorAction::Search));
    assert_eq!(app.exec_visibility, ExecVisibility::Shown);
    assert_eq!(app.query, "e");

    app.handle_key(key(Key::Enter));
    app.handle_key(KeyPress { key: Key::Char('e'), ctrl: true, no_modifiers: false });
    assert_eq!(app.exec_visibility, ExecVisibility::Shown);
}

#[test]
fn selector_help_is_modal_for_exec_toggle() {
    let mut app = SelectorApp::new(rows(), ExecVisibility::Hidden);
    let selected = app.selected;
    let focus = app.focus;

    app.handle_key(key(Key::Char('?')));
    assert!(app.show_help);
    for code in [Key::Char('e'), Key::Char('j'), Key::Tab] {
        assert_eq!(app.handle_key(key(code)), None);
    }
    assert_eq!(app.exec_visibility, ExecVisibility::Hidden);
    assert_eq!(app.selected, selected);
    assert_eq!(app.focus, focus);

    assert_eq!(app.handle_key(key(Key::Esc)), None);
    assert!(!app.show_help);
}

#[test]
fn selector_toggle_preserves_existing_state() {
    let mut app = SelectorApp::new(rows(), ExecVisibility::Hidden);
    app.selected = Some(1);
    app.query = "selector".to_string();
    app.search_scope = SearchScope::Branch;
    app.focus = PaneFocus::Message;
    app.metadata_scroll = 8;
    app.message_scroll = 5;
    app.status = Some("transient error".to_string());
    let total_rows = app.total_rows;
    let filtered = app.filtered.clone();

    app.handle_key(key(Key::Char('e')));

    assert_eq!(app.exec_visibility, ExecVisibility::Shown);
    assert_eq!(app.total_rows, total_rows);
    assert_eq!(app.filtered, filtered);
    assert_eq!(app.selected, Some(1));
    assert_eq!(app.query, "selector");
    assert_eq!(app.search_scope, SearchScope::Branch);
    assert_eq!(app.focus, PaneFocus::Message);
    assert_eq!(app.metadata_scroll, 8);
    assert_eq!(app.message_scroll, 5);
    assert_eq!(app.status, None);
}

#[test]
fn selector_toggle_is_safe_with_empty_search_result() {
    let mut app = SelectorApp::new(rows(), ExecVisibility::Hidden);
    app.query = "definitely-not-present".to_string();
    app.apply_search(Ok(Vec::new()));
    app.mode = Mode::Normal;

    app.handle_key(key(Key::Char('e')));

    assert!(app.filtered.is_empty());
    assert_eq!(app.selected, None);
    assert_eq!(app.exec_visibility, ExecVisibility::Shown);
}

#[test]
fn query_error_preserves_previous_results_and_selection() {
    let mut app = SelectorApp::new(rows(), ExecVisibility::Hidden);
    app.apply_search(Ok(vec![rows().remove(0)]));
    let filtered = app.filtered.clone();
    let selected = app.selected;
    app.message_scroll = 7;

    app.apply_search(Err(format_search_error(&SearchFailure::Query(QueryError::NoSearchableToken))));

    assert_eq!(app.filtered, filtered);
    assert_eq!(app.selected, selected);
    assert_eq!(app.message_scroll, 7);
    assert_eq!(app.status.as_deref(), Some("search query error: query contains no searchable token"));
}

#[test]
fn database_error_preserves_previous_results_and_selection() {
    let mut app = SelectorApp::new(rows(), ExecVisibility::Hidden);
    let filtered = app.filtered.clone();
    let selected = app.selected;
    app.message_scroll = 4;

    app.apply_search(Err(format_search_error(&SearchFailure::Other(
        "FTS index is dirty; refresh or rebuild the index".to_string(),
    ))));

    assert_eq!(app.filtered, filtered);
    assert_eq!(app.selected, selected);
    assert_eq!(app.message_scroll, 4);
    assert!(app.status.as_deref().unwrap().starts_with("search failed: FTS index is dirty"));
    assert_eq!(
        format_search_error(&SearchFailure::Corrupt("disk image is malformed".to_string())),
        "search failed: disk image is malformed; run `select-codex-session index --rebuild`"
    );
}

#[test]
fn selector_keys_move_search_copy_and_open() {
    let mut app = SelectorApp::new(rows(), ExecVisibility::Hidden);
    assert_eq!(app.handle_key(key(Key::Up)), None);
    assert_eq!(app.selected, Some(1));
    assert_eq!(app.handle_key(key(Key::Down)), None);
    assert_eq!(app.selected, Some(0));
    assert_eq!(app.handle_key(key(Key::Char('y'))), Some(SelectorAction::CopyResume("codex resume id-a".to_string())));
    app.copy_finished("codex resume id-a", Ok(()));
    assert_eq!(app.status.as_deref(), Some("copied: codex resume id-a"));
    app.handle_key(key(Key::Char('j')));
    assert_eq!(app.handle_key(key(Key::Char('y'))), None);
    assert_eq!(app.status.as_deref(), Some("selected session has no id"));
    assert_eq!(app.handle_key(key(Key::Enter)), Some(SelectorAction::OpenReplay("/s/b.jsonl".to_string())));
    app.handle_key(key(Key::Char('d')));
    assert_eq!(app.selected, Some(1));
    app.handle_key(key(Key::Char('l')));
    app.handle_key(key(Key::Char('l')));
    app.handle_key(key(Key::Char('h')));
    assert_eq!(app.metadata_scroll, 4);
    app.handle_key(key(Key::Char('/')));
    assert_eq!(app.handle_key(key(Key::Tab)), Some(SelectorAction::Search));
    assert_eq!(app.search_scope, SearchScope::FirstMessage);
    app.handle_key(key(Key::Char('a')));
    app.handle_key(key(Key::Char('b')));
    assert_eq!(app.handle_key(key(Key::Backspace)), Some(SelectorAction::Search));
    assert_eq!(app.query, "a");
    app.handle_key(key(Key::Esc));
    assert_eq!(app.mode, Mode::Normal);
    app.handle_key(key(Key::Tab));
    assert_eq!(app.focus.label(), "message");
    app.handle_key(key(Key::End));
    assert_eq!(app.message_scroll, u16::MAX);
    assert_eq!(app.handle_key(key(Key::Char('q'))), Some(SelectorAction::Quit));
}

#[test]
fn pane_arithmetic() {
    assert_eq!(half_page_height(1), 1);
    assert_eq!(half_page_height(21), 10);
    assert_eq!(bottom_scroll_offset(5, 10), 0);
    assert_eq!(bottom_scroll_offset(25, 10), 15);
    assert_eq!(bottom_scroll_offset(usize::MAX, 0), u16::MAX);
}
