use codex_session_selector::application::{external_record_args, external_replay_args};
use codex_session_selector::legacy::{
    filter_sessions_by_scope, parse_recorder_args, parse_selector_args, record_command_args,
    LegacyScope, RecorderArgsAction, SelectorArgsAction,
};
use codex_session_selector::listing::{
    dash_empty, metadata_plain, metadata_segments, resume_command, scrolled_segments,
};
use codex_session_selector::session::SessionRow;
use codex_session_selector::ui_state::ExecVisibility;

fn sample_rows(first: &str, second: &str) -> Vec<SessionRow> {
    vec![
        SessionRow {
            path: "/tmp/a.jsonl".to_string(),
            id: None,
            timestamp: Some("2026-05-27T01:00:00Z".to_string()),
            cwd: Some("/repo/alpha".to_string()),
            repository_url: Some("https://git.example/alpha.git".to_string()),
            branch: Some("main".to_string()),
            first_message: first.to_string(),
            is_subsession: false,
        },
        SessionRow {
            path: "/tmp/b.jsonl".to_string(),
            id: None,
            timestamp: Some("2026-05-28T01:00:00Z".to_string()),
            cwd: Some("/repo/beta".to_string()),
            repository_url: Some("https://git.example/beta.git".to_string()),
            branch: Some("feature/search".to_string()),
            first_message: second.to_string(),
            is_subsession: false,
        },
    ]
}

fn scrolled_text(row: &SessionRow, scroll: usize) -> String {
    scrolled_segments(&metadata_segments(row), scroll)
        .into_iter()
        .map(|(_, text)| text)
        .collect::<Vec<_>>()
        .join("")
}

#[test]
fn metadata_plain_uses_requested_column_order() {
    let rows = sample_rows("fix docker compose", "add selector");
    assert_eq!(
        metadata_plain(&rows[1]),
        "2026-05-28 | /repo/beta | feature/search | https://git.example/beta.git"
    );
}

#[test]
fn mod_metadata_plain_uses_requested_column_order() {
    let rows = sample_rows("Fix README parser", "add selector");
    assert_eq!(
        metadata_plain(&rows[1]),
        "2026-05-28 | /repo/beta | feature/search | https://git.example/beta.git"
    );
}

#[test]
fn scrolled_segments_preserve_text_after_horizontal_offset() {
    let rows = sample_rows("fix docker compose", "add selector");
    assert!(scrolled_text(&rows[1], 13).starts_with("/repo/beta"));
}

#[test]
fn mod_scrolled_segments_preserve_text_after_horizontal_offset() {
    let rows = sample_rows("Fix README parser", "add selector");
    assert!(scrolled_text(&rows[1], 13).starts_with("/repo/beta"));
}

#[test]
fn scrolling_drops_exactly_the_scrolled_characters() {
    let rows = sample_rows("x", "y");
    let plain = metadata_plain(&rows[0]);
    for scroll in [0, 1, 10, 11, 12, 13, 40, plain.chars().count(), plain.chars().count() + 5] {
        let expected: String = plain.chars().skip(scroll).collect();
        assert_eq!(scrolled_text(&rows[0], scroll), expected);
    }
    let parts = scrolled_segments(&metadata_segments(&rows[0]), 13);
    assert_eq!(parts[0], (2, "/repo/alpha".to_string()));
}

#[test]
fn blank_metadata_shows_a_dash() {
    let mut row = sample_rows("x", "y").remove(0);
    row.cwd = None;
    row.branch = Some("  ".to_string());
    row.timestamp = None;
    assert_eq!(metadata_plain(&row), "- | - | - | https://git.example/alpha.git");
    assert_eq!(dash_empty(" \t"), "-");
    assert_eq!(dash_empty("x"), "x");
}

#[test]
fn resume_command_uses_session_id() {
    let mut rows = sample_rows("fix docker compose", "add selector");
    rows[0].id = Some("019e6ce6-08f8-77e0-ba64-f303967970e0".to_string());
    assert_eq!(
        resume_command(&rows[0]).as_deref(),
        Some("codex resume 019e6ce6-08f8-77e0-ba64-f303967970e0")
    );
    rows[0].id = None;
    assert_eq!(resume_command(&rows[0]), None);
}

#[test]
fn mod_resume_command_uses_session_id() {
    let mut rows = sample_rows("Fix README parser", "add selector");
    rows[0].id = Some("019e6ce6-08f8-77e0-ba64-f303967970e0".to_string());
    assert_eq!(
        resume_command(&rows[0]).as_deref(),
        Some("codex resume 019e6ce6-08f8-77e0-ba64-f303967970e0")
    );
    rows[0].id = None;
    assert_eq!(resume_command(&rows[0]), None);
    rows[0].id = Some("   ".to_string());
    assert_eq!(resume_command(&rows[0]), None);
}

#[test]
fn search_scope_filters_only_selected_field() {
    let rows = sample_rows("fix docker compose", "add selector");
    assert_eq!(filter_sessions_by_scope(&rows, "docker", LegacyScope::FirstMessage)[0].path, "/tmp/a.jsonl");
    assert!(filter_sessions_by_scope(&rows, "docker", LegacyScope::Cwd).is_empty());
    assert_eq!(filter_sessions_by_scope(&rows, "beta", LegacyScope::Cwd)[0].path, "/tmp/b.jsonl");
    assert_eq!(filter_sessions_by_scope(&rows, "feature", LegacyScope::Branch)[0].path, "/tmp/b.jsonl");
    assert_eq!(
        filter_sessions_by_scope(&rows, "alpha.git", LegacyScope::Repository)[0].path,
        "/tmp/a.jsonl"
    );
    assert_eq!(filter_sessions_by_scope(&rows, "2026-05-28", LegacyScope::Date)[0].path, "/tmp/b.jsonl");
    assert_eq!(filter_sessions_by_scope(&rows, "", LegacyScope::Date).len(), 2);
}

#[test]
fn search_scope_cycles_through_all_fields() {
    let scopes = [
        LegacyScope::All,
        LegacyScope::FirstMessage,
        LegacyScope::Cwd,
        LegacyScope::Branch,
        LegacyScope::Repository,
        LegacyScope::Date,
        LegacyScope::All,
    ];
    for pair in scopes.windows(2) {
        assert_eq!(pair[0].next(), pair[1]);
    }
    assert_eq!(LegacyScope::Repository.label(), "repo");
}

#[test]
fn record_command_args_write_to_selected_db() {
    assert_eq!(
        record_command_args("/tmp/session.sqlite3", false),
        vec!["--output".to_string(), "/tmp/session.sqlite3".to_string()]
    );
    assert_eq!(
        record_command_args("/tmp/session.sqlite3", true),
        vec!["--output".to_string(), "/tmp/session.sqlite3".to_string(), "--include-exec".to_string()]
    );
}

#[test]
fn external_record_args_match_legacy_contract() {
    assert_eq!(
        external_record_args("/tmp/index.sqlite3", false, false, false),
        vec!["--output".to_string(), "/tmp/index.sqlite3".to_string()]
    );
    assert_eq!(
        external_record_args("/tmp/index.sqlite3", true, true, true),
        vec![
            "--output".to_string(),
            "/tmp/index.sqlite3".to_string(),
            "--include-subsessions".to_string(),
            "--include-empty-messages".to_string(),
            "--include-exec".to_string(),
        ]
    );
}

#[test]
fn external_replay_args_use_current_visibility() {
    assert_eq!(
        external_replay_args("/tmp/session.jsonl", ExecVisibility::Hidden),
        vec!["/tmp/session.jsonl".to_string()]
    );
    assert_eq!(
        external_replay_args("/tmp/session.jsonl", ExecVisibility::Shown),
        vec!["--include-exec".to_string(), "/tmp/session.jsonl".to_string()]
    );
}

#[test]
fn args_refresh_by_default_and_can_disable_it() {
    let home = Some("/home/me".to_string());
    let recorder = "/opt/bin/record-codex-session-info";
    let SelectorArgsAction::Run(args) = parse_selector_args(&[], &home, recorder).unwrap() else {
        panic!("expected run");
    };
    assert!(args.refresh);
    assert!(args.record_command.ends_with("record-codex-session-info"));
    assert!(!args.include_exec);
    assert_eq!(args.replay_command, "codex-replay-tui");
    assert_eq!(args.db, "/home/me/codex-session-info.sqlite3");

    let SelectorArgsAction::Run(args) = parse_selector_args(&["--no-refresh".to_string()], &home, recorder).unwrap() else {
        panic!("expected run");
    };
    assert!(!args.refresh);

    let SelectorArgsAction::Run(args) = parse_selector_args(&["--include-exec".to_string()], &home, recorder).unwrap() else {
        panic!("expected run");
    };
    assert!(args.include_exec);
    assert_eq!(parse_selector_args(&["-h".to_string()], &home, recorder).unwrap(), SelectorArgsAction::Help);
    assert!(parse_selector_args(&[], &None, recorder).is_err());
}

#[test]
fn recorder_args_default_under_home() {
    let home = Some("/home/me".to_string());
    let RecorderArgsAction::Run(args) = parse_recorder_args(&["--include-exec".to_string()], &home).unwrap() else {
        panic!("expected run");
    };
    assert_eq!(args.output, "/home/me/codex-session-info.sqlite3");
    assert_eq!(args.sessions_root, "/home/me/.codex/sessions");
    assert!(args.include_exec);
    assert_eq!(parse_recorder_args(&["-V".to_string()], &home).unwrap(), RecorderArgsAction::Version);
    assert_eq!(
        parse_recorder_args(&["--nope".to_string()], &home).unwrap_err().message(),
        "unknown argument: --nope"
    );
}
