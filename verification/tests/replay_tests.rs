use codex_session_selector::json::{json_from_text, JsonValue};
use codex_session_selector::replay::{
    entries_from_values, extract_exec_command, json_object_at, kind_label, load_entries_from_str, truncate, EntryKind,
    Fullscreen, ReplayAction, ReplayApp, ReplayError, ReplayFocus,
};
use codex_session_selector::ui_state::{Key, KeyPress};

fn key(k: Key) -> KeyPress {
    KeyPress { key: k, ctrl: false, no_modifiers: true }
}

#[test]
fn loads_raw_codex_jsonl_events() {
    let input = r#"{"type":"session_meta","payload":{"id":"ignored"}}
{"type":"event_msg","payload":{"type":"user_message","message":"hello","phase":"input"}}
{"type":"event_msg","payload":{"type":"agent_message","message":"world"}}
{"type":"event_msg","payload":{"type":"exec_command_end","parsed_cmd":[{"type":"exec","cmd":"ls -la","name":"list"}],"aggregated_output":"done"}}"#;

    let entries = load_entries_from_str(input, true).expect("jsonl should parse");

    assert_eq!(entries.len(), 3);
    assert!(matches!(entries[0].kind, EntryKind::User));
    assert_eq!(entries[0].title, "#0000 USER [input]");
    assert_eq!(entries[0].detail, "hello");
    assert!(matches!(entries[1].kind, EntryKind::Agent));
    assert!(matches!(entries[2].kind, EntryKind::Exec));
    assert!(entries[2].detail.contains("$ ls -la"));
    assert!(entries[2].detail.contains("done"));
    assert_eq!(entries[2].title, "#0002 EXEC list");
    assert_eq!(entries[2].detail, "COMMANDS\n--------\ntype: exec | name: list\n$ ls -la\n\nOUTPUT\n------\ndone");
}

#[test]
fn loads_preprocessed_json_array_events() {
    let input = r#"[{"type":"user_message","message":"array input"}]"#;

    let entries = load_entries_from_str(input, false).expect("json array should parse");

    assert_eq!(entries.len(), 1);
    assert!(matches!(entries[0].kind, EntryKind::User));
    assert_eq!(entries[0].detail, "array input");
}

#[test]
fn loads_response_item_exec_tool_calls_as_exec_entries() {
    let input = r#"{"type":"response_item","payload":{"type":"message","role":"user","content":[{"type":"input_text","text":"ignored by replay parser"}]}}
{"type":"response_item","payload":{"type":"custom_tool_call","call_id":"call-1","name":"exec","input":"const r = await tools.exec_command({\"cmd\":\"pwd && ls\",\"workdir\":\"/repo/demo\"});\ntext(r.output);\n","status":"completed"}}
{"type":"response_item","payload":{"type":"custom_tool_call_output","call_id":"call-1","output":[{"type":"input_text","text":"Script completed\nOutput:\n"},{"type":"input_text","text":"/repo/demo\nfile.txt\n"}]}}
{"type":"response_item","payload":{"type":"function_call_output","call_id":"unmatched","output":"not exec"}}"#;

    let entries = load_entries_from_str(input, true).expect("jsonl should parse");

    assert_eq!(entries.len(), 2);
    assert!(matches!(entries[0].kind, EntryKind::User));
    assert_eq!(entries[0].detail, "ignored by replay parser");
    assert!(matches!(entries[1].kind, EntryKind::Exec));
    assert_eq!(entries[1].title, "#0001 EXEC pwd && ls");
    assert!(entries[1].detail.contains("$ pwd && ls"));
    assert!(entries[1].detail.contains("RAW INPUT"));
    assert!(entries[1].detail.contains("Script completed"));
    assert!(entries[1].detail.contains("file.txt"));
    assert!(!entries[1].detail.contains("not exec"));
}

#[test]
fn loads_function_call_exec_command_as_exec_entry() {
    let input = r#"{"type":"response_item","payload":{"type":"function_call","call_id":"call-1","name":"exec_command","arguments":"{\"cmd\":\"git status --short\",\"workdir\":\"/repo/demo\"}"}}
{"type":"response_item","payload":{"type":"function_call_output","call_id":"call-1","output":" M README.md"}}"#;

    let entries = load_entries_from_str(input, true).expect("jsonl should parse");

    assert_eq!(entries.len(), 1);
    assert!(matches!(entries[0].kind, EntryKind::Exec));
    assert_eq!(entries[0].title, "#0000 EXEC git status --short");
    assert!(entries[0].detail.contains("type: function_call | name: exec_command"));
    assert!(entries[0].detail.contains("$ git status --short"));
    assert!(entries[0].detail.contains(" M README.md"));
}

#[test]
fn extracts_exec_command_from_tool_input() {
    let input = r#"const r = await tools.exec_command({"cmd":"printf \"hi\"","workdir":"/tmp"});"#;

    assert_eq!(extract_exec_command(input).as_deref(), Some(r#"printf "hi""#));
    assert_eq!(extract_exec_command(r#"{"cmd":"cargo test"}"#).as_deref(), Some("cargo test"));
    assert_eq!(extract_exec_command("plain text"), None);
}

#[test]
fn excludes_exec_entries_unless_requested() {
    let input = r#"{"type":"event_msg","payload":{"type":"user_message","message":"hello"}}
{"type":"event_msg","payload":{"type":"exec_command_end","parsed_cmd":[{"cmd":"pwd"}],"aggregated_output":"/tmp"}}"#;

    let entries = load_entries_from_str(input, false).expect("jsonl should parse");

    assert_eq!(entries.len(), 1);
    assert!(matches!(entries[0].kind, EntryKind::User));
}

#[test]
fn entries_are_numbered_by_position() {
    let input = r#"{"type":"user_message","message":"a"}
{"type":"agent_message","message":"b","phase":"final"}
{"type":"user_message","message":"c"}"#;
    let entries = load_entries_from_str(input, false).unwrap();
    for (k, entry) in entries.iter().enumerate() {
        assert_eq!(entry.index, k);
    }
    assert_eq!(entries[1].title, "#0001 AGENT [final]");
}

#[test]
fn blank_and_invalid_input() {
    assert_eq!(load_entries_from_str("  \n ", true).unwrap(), Vec::new());
    assert!(matches!(load_entries_from_str("[1, 2", true), Err(ReplayError::InvalidArray(Some(_)))));
    assert!(matches!(load_entries_from_str("{\"a\": ", true), Err(ReplayError::InvalidStream(_))));
    assert_eq!(load_entries_from_str("5", true), Err(ReplayError::InvalidRecord));
    assert_eq!(load_entries_from_str("{\"type\": 3}", true), Err(ReplayError::InvalidRecord));
    assert_eq!(ReplayError::InvalidRecord.message(), "invalid top-level codex record");
    assert_eq!(ReplayError::InvalidArray(None).message(), "invalid json array input");
    assert_eq!(ReplayError::InvalidStream(String::new()).message(), "invalid json/jsonl stream object");
}

#[test]
fn helpers_cut_and_find_objects() {
    let long: Vec<char> = "abcdef".chars().collect();
    assert_eq!(truncate(&long, 3), "abc\u{2026}");
    assert_eq!(truncate(&long, 6), "abcdef");
    let text: Vec<char> = r#"x {"a":"}{","b":{"c":1}} tail"#.chars().collect();
    let object: String = json_object_at(&text).unwrap().into_iter().collect();
    assert_eq!(object, r#"{"a":"}{","b":{"c":1}}"#);
    let open: Vec<char> = "{ never closed".chars().collect();
    assert_eq!(json_object_at(&open), None);
    assert_eq!(kind_label(EntryKind::User), "USER ");
    assert_eq!(kind_label(EntryKind::Agent), "AGENT");
    assert_eq!(kind_label(EntryKind::Exec), "EXEC ");
}

#[test]
fn long_commands_are_cut_in_titles() {
    let command = "x".repeat(90);
    let input = format!(
        "{{\"type\":\"event_msg\",\"payload\":{{\"type\":\"exec_command_end\",\"parsed_cmd\":[{{\"cmd\":\"{command}\"}}],\"aggregated_output\":\"\"}}}}"
    );
    let entries = load_entries_from_str(&input, true).unwrap();
    assert_eq!(entries[0].title, format!("#0000 EXEC {}\u{2026}", "x".repeat(80)));
}

#[test]
fn replay_view_moves_wraps_and_copies() {
    let input = r#"{"type":"user_message","message":"a"}
{"type":"user_message","message":"b"}"#;
    let mut app = ReplayApp::new(load_entries_from_str(input, false).unwrap());
    assert_eq!(app.selected, Some(0));
    assert_eq!(app.handle_key(key(Key::Up)), None);
    assert_eq!(app.selected, Some(1));
    assert_eq!(app.handle_key(key(Key::Char('j'))), None);
    assert_eq!(app.selected, Some(0));
    assert_eq!(app.handle_key(key(Key::Char('y'))), None);
    assert_eq!(app.handle_key(key(Key::Tab)), None);
    assert_eq!(app.focus, ReplayFocus::Detail);
    assert_eq!(
        app.handle_key(key(Key::Char('y'))),
        Some(ReplayAction::Copy("#0000 USER\n\na".to_string()))
    );
    app.copy_finished(Ok(()));
    assert_eq!(app.status.as_deref(), Some("copied detail pane to clipboard"));
    app.handle_key(key(Key::Char('d')));
    assert_eq!(app.detail_scroll, 10);
    assert_eq!(app.status, None);
    app.handle_key(key(Key::Char('2')));
    assert_eq!(app.fullscreen, Fullscreen::Detail);
    assert_eq!(app.handle_key(key(Key::Esc)), None);
    assert_eq!(app.fullscreen, Fullscreen::Off);
    assert_eq!(app.handle_key(key(Key::Esc)), Some(ReplayAction::Quit));
    let mut empty = ReplayApp::new(Vec::new());
    empty.handle_key(key(Key::Tab));
    empty.handle_key(key(Key::Char('y')));
    assert_eq!(empty.status.as_deref(), Some("nothing to copy"));
    assert_eq!(
        empty.handle_key(KeyPress { key: Key::Char('c'), ctrl: true, no_modifiers: false }),
        Some(ReplayAction::Quit)
    );
}

#[test]
fn exec_flag_keeps_user_and_agent_entries() {
    let input = r#"{"type":"event_msg","payload":{"type":"user_message","message":"hello"}}
{"type":"event_msg","payload":{"type":"exec_command_end","parsed_cmd":[{"cmd":"pwd"}],"aggregated_output":"/tmp"}}
{"type":"event_msg","payload":{"type":"agent_message","message":"done"}}"#;
    let without = load_entries_from_str(input, false).unwrap();
    let with = load_entries_from_str(input, true).unwrap();
    let messages = |entries: &[codex_session_selector::replay::Entry]| -> Vec<(String, String)> {
        entries
            .iter()
            .filter(|e| !matches!(e.kind, EntryKind::Exec))
            .map(|e| (kind_label(e.kind).to_string(), e.detail.clone()))
            .collect()
    };
    assert_eq!(with.len(), 3);
    assert_eq!(without.len(), 2);
    assert_eq!(messages(&without), messages(&with));
    assert!(without[1].title.starts_with("#0001 AGENT"));
    assert!(load_entries_from_str("[1, 2", false).is_err());
    assert!(load_entries_from_str("[1, 2", true).is_err());
}

#[test]
fn parsed_values_give_the_timeline() {
    let values = vec![
        json_from_text(r#"{"type":"event_msg","payload":{"type":"user_message","message":"hi"}}"#).unwrap(),
        json_from_text(r#"{"type":"event_msg","payload":{"type":"exec_command_end","parsed_cmd":[{"cmd":"pwd"}],"aggregated_output":"/tmp"}}"#).unwrap(),
        json_from_text(r#"{"type":"event_msg","payload":{"type":"agent_message","message":"ok"}}"#).unwrap(),
    ];
    let with = entries_from_values(&values, true).unwrap();
    assert_eq!(with.len(), 3);
    assert!(matches!(with[1].kind, EntryKind::Exec));
    assert!(with[1].title.starts_with("#0001 EXEC "));
    let without = entries_from_values(&values, false).unwrap();
    assert_eq!(without.len(), 2);
    assert_eq!(without[1].detail, "ok");
    assert!(without[1].title.starts_with("#0001 AGENT"));
    assert_eq!(entries_from_values(&[JsonValue::Null], true), Err(ReplayError::InvalidRecord));
    assert_eq!(entries_from_values(&[], false), Ok(Vec::new()));
}
