use codex_session_selector::exec_events::ExecEvent;
use codex_session_selector::json::json_from_text;
use codex_session_selector::session::{
    collect_rows, collect_session_data, filter_sessions, is_subsession_meta, parse_session_file,
    parse_session_text, path_le_text, searchable_text, session_from_records, LineRecord, session_date, should_include_row,
    sort_sources, CollectOptions, SessionRow, SessionSource,
};

fn row(path: &str, timestamp: &str, cwd: &str, repo: &str, branch: &str, message: &str) -> SessionRow {
    SessionRow {
        path: path.to_string(),
        id: None,
        timestamp: Some(timestamp.to_string()),
        cwd: Some(cwd.to_string()),
        repository_url: Some(repo.to_string()),
        branch: Some(branch.to_string()),
        first_message: message.to_string(),
        is_subsession: false,
    }
}

fn sample_rows() -> Vec<SessionRow> {
    vec![
        row(
            "/tmp/a.jsonl",
            "2026-05-27T01:00:00Z",
            "/repo/alpha",
            "https://git.example/alpha.git",
            "main",
            "fix docker compose",
        ),
        row(
            "/tmp/b.jsonl",
            "2026-05-28T01:00:00Z",
            "/repo/beta",
            "https://git.example/beta.git",
            "feature/search",
            "add selector",
        ),
    ]
}

fn session_log(message: &str, source: &str, thread_source: &str) -> String {
    format!(
        "{{\"type\":\"session_meta\",\"payload\":{{\"id\":\"session-id\",\"timestamp\":\"2026-05-28T00:00:00Z\",\"cwd\":\"/repo/demo\",\"source\":{source},\"thread_source\":\"{thread_source}\",\"git\":{{\"repository_url\":\"https://git.example/demo.git\",\"branch\":\"main\"}}}}}}\n{{\"type\":\"event_msg\",\"payload\":{{\"type\":\"user_message\",\"message\":\"{message}\"}}}}\n"
    )
}

fn log_with_exec() -> String {
    let records = [
        r##"{"payload":{"cwd":"/repo/demo","git":{"branch":"main","repository_url":"https://git.example/demo.git"},"id":"session-id","source":"cli","thread_source":"user","timestamp":"2026-05-28T00:00:00Z"},"type":"session_meta"}"##,
        r##"{"payload":{"message":"real user request","type":"user_message"},"type":"event_msg"}"##,
        r##"{"payload":{"aggregated_output":"# Title","parsed_cmd":[{"cmd":"sed -n '1,80p' README.md","name":"README.md","type":"read"}],"type":"exec_command_end"},"type":"event_msg"}"##,
        r##"{"payload":{"call_id":"call-1","input":"const r = await tools.exec_command({\"cmd\":\"pwd\"});","name":"exec","status":"completed","type":"custom_tool_call"},"type":"response_item"}"##,
        r##"{"payload":{"call_id":"call-1","output":[{"text":"Script completed","type":"input_text"},{"text":"/repo/demo","type":"input_text"}],"type":"custom_tool_call_output"},"type":"response_item"}"##,
        r##"{"payload":{"arguments":"{\"cmd\":\"git status --short\",\"workdir\":\"/repo/demo\"}","call_id":"call-2","name":"exec_command","type":"function_call"},"type":"response_item"}"##,
        r##"{"payload":{"call_id":"call-2","output":" M README.md","type":"function_call_output"},"type":"response_item"}"##,
        r##"{"payload":{"call_id":"non-exec-call","output":"not an exec result","type":"function_call_output"},"type":"response_item"}"##,
    ];
    format!("{}\n", records.join("\n"))
}

#[test]
fn collect_options_default_disables_all_optional_data() {
    let options = CollectOptions::default();

    assert!(!options.include_subsessions);
    assert!(!options.include_empty_messages);
    assert!(!options.include_exec);
}

#[test]
fn detects_subsessions_from_session_meta_structure() {
    let nested = json_from_text(r#"{"source":{"subagent":{"thread_spawn":{"parent_thread_id":"parent"}}}}"#).unwrap();
    assert!(is_subsession_meta(&nested));
    assert!(is_subsession_meta(&json_from_text(r#"{"thread_source":"subagent"}"#).unwrap()));
    assert!(is_subsession_meta(&json_from_text(r#"{"agent_role":"worker"}"#).unwrap()));
    assert!(!is_subsession_meta(
        &json_from_text(r#"{"source":"cli","thread_source":"user"}"#).unwrap()
    ));
}

#[test]
fn blank_agent_role_is_not_a_subsession() {
    assert!(!is_subsession_meta(&json_from_text(r#"{"agent_role":"   "}"#).unwrap()));
    assert!(!is_subsession_meta(&json_from_text(r#"{"source":{"cli":true}}"#).unwrap()));
}

#[test]
fn parse_session_file_extracts_metadata_and_first_message() {
    let path = "/tmp/human.jsonl";
    let contents = session_log("real user request", "\"cli\"", "user");

    let row = parse_session_file(path, &contents).unwrap();

    assert_eq!(row.path, path);
    assert_eq!(row.id.as_deref(), Some("session-id"));
    assert_eq!(row.timestamp.as_deref(), Some("2026-05-28T00:00:00Z"));
    assert_eq!(row.cwd.as_deref(), Some("/repo/demo"));
    assert_eq!(row.repository_url.as_deref(), Some("https://git.example/demo.git"));
    assert_eq!(row.branch.as_deref(), Some("main"));
    assert_eq!(row.first_message, "real user request");
    assert!(!row.is_subsession);
}

#[test]
fn parse_session_file_without_metadata_gives_no_row() {
    let contents = "{\"type\":\"event_msg\",\"payload\":{\"type\":\"user_message\",\"message\":\"hi\"}}\n";
    assert_eq!(parse_session_file("/tmp/x.jsonl", contents), None);
}

#[test]
fn invalid_lines_are_reported_with_their_numbers() {
    let contents = format!("not json\n{}", session_log("hello", "\"cli\"", "user"));
    let parsed = parse_session_text("/tmp/x.jsonl", &contents, false);
    assert_eq!(parsed.invalid_lines.len(), 1);
    assert_eq!(parsed.invalid_lines[0].line_number, 1);
    assert!(!parsed.invalid_lines[0].message.is_empty());
    assert_eq!(parsed.session.unwrap().row.first_message, "hello");
}

#[test]
fn should_include_hides_empty_and_subsession_by_default() {
    let mut row = SessionRow {
        path: "/tmp/a.jsonl".to_string(),
        id: None,
        timestamp: None,
        cwd: None,
        repository_url: None,
        branch: None,
        first_message: "ordinary looking task text".to_string(),
        is_subsession: true,
    };
    assert!(!should_include_row(&row, CollectOptions::default()));

    row.is_subsession = false;
    row.first_message = "   ".to_string();
    assert!(!should_include_row(&row, CollectOptions::default()));

    row.first_message = "human request".to_string();
    assert!(should_include_row(&row, CollectOptions::default()));
}

#[test]
fn filter_sessions_searches_message_metadata_and_date() {
    let rows = sample_rows();

    assert_eq!(filter_sessions(&rows, "docker")[0].path, "/tmp/a.jsonl");
    assert_eq!(filter_sessions(&rows, "alpha.git")[0].path, "/tmp/a.jsonl");
    assert_eq!(filter_sessions(&rows, "feature")[0].path, "/tmp/b.jsonl");
    assert_eq!(filter_sessions(&rows, "2026-05-28")[0].path, "/tmp/b.jsonl");
}

#[test]
fn filter_sessions_is_case_insensitive_and_needs_every_term() {
    let rows = sample_rows();
    let hits = filter_sessions(&rows, "DOCKER Compose");
    assert_eq!(hits.len(), 1);
    assert_eq!(hits[0].path, "/tmp/a.jsonl");
    assert!(filter_sessions(&rows, "docker selector").is_empty());
    assert_eq!(filter_sessions(&rows, "   ").len(), 2);
}

#[test]
fn session_date_and_searchable_text_are_exact() {
    let rows = sample_rows();
    assert_eq!(session_date(&rows[0]), "2026-05-27");
    assert_eq!(
        searchable_text(&rows[1]),
        "add selector\n/repo/beta\nhttps://git.example/beta.git\nfeature/search\n2026-05-28t01:00:00z\n2026-05-28"
    );
    let mut short = rows[0].clone();
    short.timestamp = Some("2026".to_string());
    assert_eq!(session_date(&short), "2026");
    short.timestamp = None;
    assert_eq!(session_date(&short), "");
}

#[test]
fn collect_session_data_omits_exec_by_default_and_collects_when_enabled() {
    let sources = vec![SessionSource {
        path: "/sessions/2026/05/28/rollout.jsonl".to_string(),
        contents: log_with_exec(),
    }];

    let default_data = collect_session_data(&sources, CollectOptions::default());
    assert_eq!(default_data.rows.len(), 1);
    assert_eq!(default_data.exec_events.len(), 0);

    let with_exec = collect_session_data(
        &sources,
        CollectOptions { include_exec: true, ..CollectOptions::default() },
    );

    assert_eq!(with_exec.rows.len(), 1);
    assert_eq!(with_exec.exec_events.len(), 3);
    assert_eq!(with_exec.exec_events[0].kind, "exec_command_end");
    assert_eq!(with_exec.exec_events[0].name.as_deref(), Some("README.md"));
    assert_eq!(with_exec.exec_events[0].command, "sed -n '1,80p' README.md");
    assert_eq!(with_exec.exec_events[0].output, "# Title");
    assert_eq!(with_exec.exec_events[1].kind, "custom_tool_call");
    assert_eq!(with_exec.exec_events[1].call_id.as_deref(), Some("call-1"));
    assert!(with_exec.exec_events[1].command.contains("tools.exec_command"));
    assert!(with_exec.exec_events[1].output.contains("Script completed"));
    assert!(with_exec.exec_events[1].output.contains("/repo/demo"));
    assert_eq!(with_exec.exec_events[2].kind, "function_call");
    assert_eq!(with_exec.exec_events[2].name.as_deref(), Some("exec_command"));
    assert_eq!(with_exec.exec_events[2].command, "git status --short");
    assert_eq!(with_exec.exec_events[2].output, " M README.md");
    let expected = ExecEvent {
        session_path: "/sessions/2026/05/28/rollout.jsonl".to_string(),
        session_id: Some("session-id".to_string()),
        event_index: 5,
        call_id: Some("call-2".to_string()),
        kind: "function_call".to_string(),
        name: Some("exec_command".to_string()),
        command: "git status --short".to_string(),
        output: " M README.md".to_string(),
    };
    assert_eq!(with_exec.exec_events[2], expected);
}

#[test]
fn collected_rows_and_skipped_cover_every_log() {
    let sources = vec![
        SessionSource { path: "/s/a.jsonl".to_string(), contents: session_log("one", "\"cli\"", "user") },
        SessionSource { path: "/s/b.jsonl".to_string(), contents: session_log("  ", "\"cli\"", "user") },
        SessionSource { path: "/s/c.jsonl".to_string(), contents: session_log("sub", "\"cli\"", "subagent") },
        SessionSource { path: "/s/d.jsonl".to_string(), contents: "garbage\n".to_string() },
    ];
    let (rows, total, skipped) = collect_rows(&sources, CollectOptions::default());
    assert_eq!(rows.len(), 1);
    assert_eq!(total, 4);
    assert_eq!(skipped, 3);
    assert_eq!(rows.len() + skipped, total);
    let data = collect_session_data(&sources, CollectOptions::default());
    assert_eq!(data.invalid_lines.len(), 1);
    assert_eq!(data.invalid_lines[0].path, "/s/d.jsonl");
    let everything = collect_session_data(
        &sources,
        CollectOptions { include_subsessions: true, include_empty_messages: true, include_exec: false },
    );
    assert_eq!(everything.rows.len(), 3);
    assert_eq!(everything.skipped, 1);
}

#[test]
fn filtering_by_two_terms_equals_filtering_twice() {
    let rows = sample_rows();
    let both = filter_sessions(&rows, "main alpha");
    let twice = filter_sessions(&filter_sessions(&rows, "main"), "alpha");
    assert_eq!(both, twice);
    let once = filter_sessions(&rows, "main");
    assert_eq!(filter_sessions(&once, "main"), once);
    assert_eq!(filter_sessions(&rows, "   "), rows);
}

#[test]
fn rows_and_skips_do_not_depend_on_exec_flag() {
    let sources = vec![
        SessionSource { path: "/s/a.jsonl".to_string(), contents: log_with_exec() },
        SessionSource { path: "/s/b.jsonl".to_string(), contents: "garbage\n".to_string() },
    ];
    let without = collect_session_data(&sources, CollectOptions::default());
    let with = collect_session_data(&sources, CollectOptions { include_exec: true, ..CollectOptions::default() });
    assert!(without.exec_events.is_empty());
    assert!(!with.exec_events.is_empty());
    assert_eq!(without.rows, with.rows);
    assert_eq!(without.total_files, with.total_files);
    assert_eq!(without.skipped, with.skipped);
}

#[test]
fn sources_sort_by_path_components() {
    assert!(path_le_text("/r/2026/07/27/a.jsonl", "/r/2026/07/27-x/a.jsonl"));
    assert!(!path_le_text("/r/2026/07/27-x/a.jsonl", "/r/2026/07/27/a.jsonl"));
    assert!(path_le_text("/r/a.jsonl", "/r/a.jsonl"));
    assert!(path_le_text("/r/a", "/r/a.jsonl"));
    assert!(!path_le_text("/r/b.jsonl", "/r/a.jsonl"));
    let sources = vec![
        SessionSource { path: "/s/2026/c.jsonl".to_string(), contents: session_log("three", "\"cli\"", "user") },
        SessionSource { path: "/s/2026-x/a.jsonl".to_string(), contents: session_log("four", "\"cli\"", "user") },
        SessionSource { path: "/s/2026/a.jsonl".to_string(), contents: session_log("one", "\"cli\"", "user") },
    ];
    let sorted = sort_sources(&sources);
    let paths: Vec<&str> = sorted.iter().map(|s| s.path.as_str()).collect();
    assert_eq!(paths, vec!["/s/2026/a.jsonl", "/s/2026/c.jsonl", "/s/2026-x/a.jsonl"]);
    let data = collect_session_data(&sorted, CollectOptions::default());
    let messages: Vec<&str> = data.rows.iter().map(|r| r.first_message.as_str()).collect();
    assert_eq!(messages, vec!["one", "three", "four"]);
}

#[test]
fn parsed_records_give_the_session() {
    let meta = r#"{"type":"session_meta","payload":{"id":"sid","timestamp":"2026-05-28T00:00:00Z","cwd":"/repo/demo"}}"#;
    let user = r#"{"type":"event_msg","payload":{"type":"user_message","message":"first"}}"#;
    let later = r#"{"type":"event_msg","payload":{"type":"user_message","message":"second"}}"#;
    let records = vec![
        LineRecord::Blank,
        LineRecord::Invalid("bad line".to_string()),
        LineRecord::Value(json_from_text(user).unwrap()),
        LineRecord::Value(json_from_text(meta).unwrap()),
        LineRecord::Invalid("after the stop".to_string()),
        LineRecord::Value(json_from_text(later).unwrap()),
    ];
    let parsed = session_from_records("/s/a.jsonl", &records, false);
    let session = parsed.session.expect("metadata is present");
    assert_eq!(session.row.id.as_deref(), Some("sid"));
    assert_eq!(session.row.first_message, "first");
    assert_eq!(session.row.path, "/s/a.jsonl");
    assert!(session.exec_events.is_empty());
    assert_eq!(parsed.invalid_lines.len(), 1);
    assert_eq!(parsed.invalid_lines[0].line_number, 2);
    assert_eq!(parsed.invalid_lines[0].message, "bad line");
    let all = session_from_records("/s/a.jsonl", &records, true);
    assert_eq!(all.invalid_lines.len(), 2);
    assert_eq!(all.invalid_lines[1].line_number, 5);
    assert!(session_from_records("/s/a.jsonl", &records[..3], false).session.is_none());
}
