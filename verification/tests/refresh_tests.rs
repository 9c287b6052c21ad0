use codex_session_selector::exec_events::ExecEvent;
use codex_session_selector::indexer::{
    classify_source, deleted_paths, documents_to_rewrite, first_repeated_path, fts_start,
    migration_check, must_reparse_all, normalize_sql, ParseStatus, preflight_mode, read_was_stable,
    search_document, FileFingerprint, FtsStart, FtsSyncMode, IndexDelta, IndexMode, SchemaState,
    SourceAction,
};
use codex_session_selector::legacy::recorder_report;
use codex_session_selector::session::SessionRow;
use codex_session_selector::store::{
    plan_exec_diff, row_change, verify_invariants, ExecChange, RowChange, StoreHealth, StoredExec,
};

fn event(index: usize, command: &str, output: &str) -> ExecEvent {
    ExecEvent {
        session_path: "/tmp/session.jsonl".to_string(),
        session_id: Some("id".to_string()),
        event_index: index,
        call_id: None,
        kind: "exec_command_end".to_string(),
        name: None,
        command: command.to_string(),
        output: output.to_string(),
    }
}

fn row(first_message: &str) -> SessionRow {
    SessionRow {
        path: "/tmp/session.jsonl".to_string(),
        id: Some("id".to_string()),
        timestamp: Some("2026-05-28T00:00:00Z".to_string()),
        cwd: Some("/repo".to_string()),
        repository_url: None,
        branch: Some("main".to_string()),
        first_message: first_message.to_string(),
        is_subsession: false,
    }
}

fn healthy() -> StoreHealth {
    StoreHealth {
        foreign_key_violation: false,
        quick_check: "ok".to_string(),
        metadata_rows: 1,
        indexed_sources: 3,
        sessions: 3,
        skipped_with_session: 0,
    }
}

#[test]
fn exec_diff_updates_inserts_then_deletes() {
    let stored = vec![
        StoredExec { key: 10, event: event(1, "ls", "a") },
        StoredExec { key: 11, event: event(2, "pwd", "/") },
        StoredExec { key: 12, event: event(4, "date", "now") },
    ];
    let parsed = vec![event(3, "echo", "hi"), event(2, "pwd", "/repo"), event(4, "date", "now")];
    assert_eq!(
        plan_exec_diff(&stored, &parsed),
        Ok(vec![
            ExecChange::Update(11, event(2, "pwd", "/repo")),
            ExecChange::Insert(event(3, "echo", "hi")),
            ExecChange::Delete(10),
        ])
    );
}

#[test]
fn exec_diff_of_unchanged_events_is_empty() {
    let stored = vec![
        StoredExec { key: 10, event: event(1, "ls", "a") },
        StoredExec { key: 11, event: event(2, "pwd", "/") },
    ];
    let parsed = vec![event(1, "ls", "a"), event(2, "pwd", "/")];
    assert_eq!(plan_exec_diff(&stored, &parsed), Ok(vec![]));
}

#[test]
fn exec_diff_refuses_a_repeated_index() {
    let parsed = vec![event(1, "ls", ""), event(5, "pwd", ""), event(1, "date", "")];
    assert_eq!(plan_exec_diff(&[], &parsed), Err(1));
}

#[test]
fn session_rows_are_inserted_updated_or_kept() {
    let stored = row("real user request");
    assert_eq!(row_change(None, &stored), RowChange::Insert);
    assert_eq!(row_change(Some(&stored), &row("real user request")), RowChange::Keep);
    assert_eq!(row_change(Some(&stored), &row("updated user request")), RowChange::Update);
}

#[test]
fn store_check_reports_the_first_failure() {
    assert_eq!(verify_invariants(&healthy()), Ok(()));
    let mut h = healthy();
    h.quick_check = "row 3 missing".to_string();
    h.sessions = 2;
    assert_eq!(verify_invariants(&h), Err("SQLite quick check failed: row 3 missing".to_string()));
    let mut h = healthy();
    h.foreign_key_violation = true;
    assert_eq!(verify_invariants(&h), Err("foreign key check failed".to_string()));
    let mut h = healthy();
    h.metadata_rows = 0;
    assert_eq!(verify_invariants(&h), Err("index_metadata must contain exactly one row".to_string()));
    let mut h = healthy();
    h.sessions = 2;
    assert_eq!(verify_invariants(&h), Err("indexed source and session counts differ".to_string()));
    let mut h = healthy();
    h.skipped_with_session = 1;
    assert_eq!(verify_invariants(&h), Err("skipped sources must not have sessions".to_string()));
}

#[test]
fn sources_are_parsed_unless_their_fingerprint_is_unchanged() {
    let old = FileFingerprint { size: 10, modified_secs: 100, modified_nanos: 5 };
    let touched = FileFingerprint { size: 10, modified_secs: 100, modified_nanos: 6 };
    assert_eq!(classify_source(Some(old), old, false), SourceAction::Unchanged);
    assert_eq!(classify_source(Some(old), old, true), SourceAction::Parse { known: true });
    assert_eq!(classify_source(Some(old), touched, false), SourceAction::Parse { known: true });
    assert_eq!(classify_source(None, old, false), SourceAction::Parse { known: false });
    assert!(read_was_stable(old, old));
    assert!(!read_was_stable(old, touched));
}

#[test]
fn deleted_and_repeated_paths_are_found() {
    let stored = vec!["/s/a.jsonl".to_string(), "/s/b.jsonl".to_string(), "/s/c.jsonl".to_string()];
    let current = vec!["/s/b.jsonl".to_string(), "/s/d.jsonl".to_string()];
    assert_eq!(deleted_paths(&stored, &current), vec!["/s/a.jsonl".to_string(), "/s/c.jsonl".to_string()]);
    assert_eq!(first_repeated_path(&current), None);
    let repeated = vec!["/a".to_string(), "/b".to_string(), "/a".to_string(), "/b".to_string()];
    assert_eq!(first_repeated_path(&repeated), Some(2));
}

#[test]
fn full_text_refresh_follows_state_and_mode() {
    let v1 = SchemaState::CanonicalV1 { sessions_root: "/s".to_string() };
    let current = SchemaState::Current { sessions_root: "/s".to_string() };
    assert!(must_reparse_all(&v1));
    assert!(!must_reparse_all(&current));
    assert_eq!(fts_start(&v1, IndexMode::Incremental), FtsStart::Create);
    assert_eq!(fts_start(&current, IndexMode::Incremental), FtsStart::Check);
    assert_eq!(fts_start(&current, IndexMode::Rebuild), FtsStart::Fill);
    assert_eq!(fts_start(&SchemaState::Legacy, IndexMode::Rebuild), FtsStart::Fill);
    assert_eq!(preflight_mode(Some(0), false), FtsSyncMode::Delta);
    assert_eq!(preflight_mode(Some(1), false), FtsSyncMode::Rebuild);
    assert_eq!(preflight_mode(None, false), FtsSyncMode::Rebuild);
    assert_eq!(preflight_mode(Some(0), true), FtsSyncMode::Rebuild);
}

#[test]
fn migration_waits_for_changing_sources() {
    let v1 = SchemaState::CanonicalV1 { sessions_root: "/s".to_string() };
    assert_eq!(migration_check(&v1, 0), Ok(()));
    assert_eq!(migration_check(&SchemaState::Empty, 4), Ok(()));
    assert_eq!(
        migration_check(&v1, 2),
        Err("cannot migrate index schema to 2 while 2 source files are changing; retry the index refresh".to_string())
    );
}

#[test]
fn touched_documents_skip_deleted_sessions() {
    let delta = IndexDelta {
        touched_session_keys: vec![7, 3, 7, 5, 9],
        deleted_session_keys: vec![5, 5],
        ..IndexDelta::default()
    };
    assert_eq!(documents_to_rewrite(&delta), vec![3, 7, 9]);
}

#[test]
fn search_document_holds_metadata_and_exec_lines() {
    let commands = vec!["ls".to_string(), "pwd".to_string()];
    let outputs = vec!["a".to_string(), "/repo".to_string()];
    let document = search_document(4, &row("hello"), &commands, &outputs);
    assert_eq!(document.session_key, 4);
    assert_eq!(document.first_message, "hello");
    assert_eq!(document.cwd, "/repo");
    assert_eq!(document.repository_url, "");
    assert_eq!(document.date, "2026-05-28");
    assert_eq!(document.exec_command, "ls\npwd");
    assert_eq!(document.exec_output, "a\n/repo");
}

#[test]
fn stored_sql_compares_up_to_whitespace_and_final_semicolon() {
    assert_eq!(normalize_sql("  CREATE   TABLE\n\tt (x);;"), "CREATE TABLE t (x)");
    assert_eq!(normalize_sql(""), "");
}

#[test]
fn recorder_report_names_counts_and_exec_state() {
    assert_eq!(
        recorder_report(3, 5, "/tmp/db.sqlite3", 4, 1, true),
        "wrote 3 session rows and 5 exec rows to /tmp/db.sqlite3 from 4 jsonl files; skipped 1 filtered or invalid sessions"
    );
    assert_eq!(
        recorder_report(3, 0, "/tmp/db.sqlite3", 4, 1, false),
        "wrote 3 session rows to /tmp/db.sqlite3 from 4 jsonl files; skipped 1 filtered or invalid sessions; exec indexing disabled"
    );
}

#[test]
fn parse_status_names_read_back() {
    assert_eq!(ParseStatus::of_parse(true).as_str(), "indexed");
    assert_eq!(ParseStatus::of_parse(false).as_str(), "skipped");
    assert_eq!(ParseStatus::from_name("indexed"), Some(ParseStatus::Indexed));
    assert_eq!(ParseStatus::from_name("skipped"), Some(ParseStatus::Skipped));
    assert_eq!(ParseStatus::from_name("pending"), None);
}
