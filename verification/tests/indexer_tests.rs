use codex_session_selector::indexer::{
    absolute_lexical_path, check_runtime, choose_mode, format_summary, normalize_delta,
    parse_sqlite_version, sorted_unique, summary_from, IndexDelta, IndexMode, IndexSummary,
    ScanCounts, SchemaState, StoredCounts,
};
use codex_session_selector::session_event::{normalize_message_record, MessageRole};
use codex_session_selector::json::json_from_text;
use codex_session_selector::text::{decimal_text, parse_u32, signed_decimal_text};

#[test]
fn format_summary_matches_canonical_contract() {
    let summary = IndexSummary {
        mode: IndexMode::Incremental,
        scanned_files: 8,
        parsed_files: 3,
        new_files: 2,
        changed_files: 1,
        unchanged_files: 4,
        deleted_files: 1,
        unstable_files: 1,
        skipped_files: 2,
        session_rows: 6,
        exec_rows: 9,
        message_rows: 12,
        output: "/tmp/index.sqlite3".to_string(),
    };
    assert_eq!(
        format_summary(&summary),
        "updated canonical index at /tmp/index.sqlite3: scanned 8 jsonl files; parsed 3 (2 new, 1 changed), kept 4 unchanged, removed 1 deleted, deferred 1 unstable, skipped 2; stored 6 sessions, 12 messages and 9 exec events"
    );
}

#[test]
fn summary_counts_new_and_changed_as_parsed() {
    let plan = ScanCounts { scanned_files: 5, new_files: 2, changed_files: 1, unchanged_files: 2, deleted_files: 0, unstable_files: 0 };
    let counts = StoredCounts { skipped_files: 0, session_rows: 5, exec_rows: 0, message_rows: 7 };
    let summary = summary_from(IndexMode::Rebuild, &plan, &counts, "/db".to_string());
    assert_eq!(summary.parsed_files, 3);
    assert!(format_summary(&summary).starts_with("rebuilt canonical index at /db: scanned 5 jsonl files; parsed 3 (2 new"));
}

#[test]
fn sqlite_version_parser_is_numeric() {
    assert_eq!(parse_sqlite_version("3.53.2"), Some((3, 53, 2)));
    assert_eq!(parse_sqlite_version("3.9.0"), Some((3, 9, 0)));
    assert_eq!(parse_sqlite_version("invalid"), None);
}

#[test]
fn runtime_needs_a_recent_sqlite_with_fts5() {
    assert_eq!(check_runtime("3.43.0", 1), Ok(()));
    assert_eq!(check_runtime("3.50.4.1", 1), Ok(()));
    assert_eq!(
        check_runtime("3.42.9", 1),
        Err("SQLite 3.43.0 or newer with FTS5 is required; found 3.42.9".to_string())
    );
    assert!(check_runtime("3.45.0", 0).is_err());
    assert!(check_runtime("three", 1).is_err());
    assert_eq!(parse_sqlite_version("3.x.1"), None);
    assert_eq!(parse_sqlite_version("3.1"), None);
}

#[test]
fn numbers_read_and_write_like_std() {
    let digits = |s: &str| s.chars().collect::<Vec<char>>();
    assert_eq!(parse_u32(&digits("4294967295")), Some(u32::MAX));
    assert_eq!(parse_u32(&digits("4294967296")), None);
    assert_eq!(parse_u32(&digits("+7")), Some(7));
    assert_eq!(parse_u32(&digits("")), None);
    assert_eq!(parse_u32(&digits("-1")), None);
    assert_eq!(decimal_text(0), "0");
    assert_eq!(decimal_text(1234567890123), "1234567890123");
    assert_eq!(signed_decimal_text(-42), "-42");
    assert_eq!(signed_decimal_text(i64::MIN), i64::MIN.to_string());
}

#[test]
fn lexical_paths_remove_dot_and_parent_components() {
    let path = absolute_lexical_path("a/./b/../c", "/work/dir");
    assert!(path.starts_with('/'));
    assert!(path.ends_with("a/c"));
    assert_eq!(path, "/work/dir/a/c");
    assert_eq!(absolute_lexical_path("/../../tmp/sessions", "/work"), "/tmp/sessions");
    assert_eq!(absolute_lexical_path("//x//y/", "/work"), "/x/y");
    assert_eq!(absolute_lexical_path("..", "/"), "/");
}

#[test]
fn mode_follows_schema_state() {
    assert_eq!(choose_mode(&SchemaState::Empty, "/r", false), Ok(IndexMode::Rebuild));
    assert_eq!(choose_mode(&SchemaState::Legacy, "/r", false), Ok(IndexMode::Rebuild));
    let current = SchemaState::Current { sessions_root: "/r".to_string() };
    assert_eq!(choose_mode(&current, "/r", false), Ok(IndexMode::Incremental));
    assert_eq!(choose_mode(&current, "/r", true), Ok(IndexMode::Rebuild));
    assert_eq!(choose_mode(&current, "/other", false), Ok(IndexMode::Rebuild));
    let v1 = SchemaState::CanonicalV1 { sessions_root: "/r".to_string() };
    assert_eq!(choose_mode(&v1, "/r", false), Ok(IndexMode::Incremental));
    let future = SchemaState::Future { version: 9 };
    assert_eq!(
        choose_mode(&future, "/r", true),
        Err("index schema version 9 is newer than supported version 2; refusing to overwrite it".to_string())
    );
    let unknown = SchemaState::Unknown { version: 1, reason: "bad".to_string() };
    assert_eq!(
        choose_mode(&unknown, "/r", false),
        Err("unrecognized index schema version 1: bad; run index --rebuild to replace it".to_string())
    );
    assert_eq!(choose_mode(&unknown, "/r", true), Ok(IndexMode::Rebuild));
}

#[test]
fn delta_lists_are_sorted_once_each() {
    assert_eq!(sorted_unique(&vec![5, 1, 5, 3, 1]), vec![1, 3, 5]);
    let mut delta = IndexDelta {
        inserted_session_keys: vec![3, 1, 3],
        touched_session_keys: vec![9, 2, 9, 2],
        inserted_message_keys: vec![4, 4, 1],
        ..IndexDelta::default()
    };
    normalize_delta(&mut delta);
    assert_eq!(delta.inserted_session_keys, vec![1, 3]);
    assert_eq!(delta.touched_session_keys, vec![2, 9]);
    assert_eq!(delta.inserted_message_keys, vec![4, 4, 1]);
    let again = delta.clone();
    normalize_delta(&mut delta);
    assert_eq!(delta, again);
}

#[test]
fn message_records_normalise_to_roles() {
    let user = json_from_text(r#"{"type":"event_msg","payload":{"type":"user_message","message":"hi","phase":"p"}}"#).unwrap();
    let message = normalize_message_record(&user).unwrap();
    assert_eq!(message.role, MessageRole::User);
    assert_eq!(message.phase.as_deref(), Some("p"));
    assert_eq!(message.content, "hi");
    let item = json_from_text(r#"{"type":"response_item","payload":{"type":"message","role":"assistant","content":[{"text":"a"},{"text":"b"}]}}"#).unwrap();
    let message = normalize_message_record(&item).unwrap();
    assert_eq!(message.role, MessageRole::Agent);
    assert_eq!(message.content, "a\nb");
    let bad_phase = json_from_text(r#"{"type":"agent_message","message":"x","phase":3}"#).unwrap();
    assert_eq!(normalize_message_record(&bad_phase), None);
    let bare = json_from_text(r#"{"type":"agent_message","message":"x"}"#).unwrap();
    assert_eq!(normalize_message_record(&bare).unwrap().role, MessageRole::Agent);
    assert_eq!(MessageRole::from_str(MessageRole::User.as_str()), Ok(MessageRole::User));
    assert_eq!(MessageRole::from_str("agent"), Ok(MessageRole::Agent));
    assert_eq!(MessageRole::from_str("bot"), Err("invalid canonical message role bot".to_string()));
}
