use codex_session_selector::cli::{
    expand_home, help_text, join_path, parse_args, version_text, CliAction, CliError, Command,
    HelpTopic, ReplayOptions,
};

fn strings(values: &[&str]) -> Vec<String> {
    values.iter().map(|value| (*value).to_owned()).collect()
}

fn home() -> Option<String> {
    Some("/home/me".to_string())
}

#[test]
fn no_args_defaults_to_selector() {
    let action = parse_args(&[], &home()).unwrap();
    let CliAction::Run(Command::Select(options)) = action else {
        panic!("expected selector");
    };
    assert!(options.refresh);
    assert!(!options.print_path);
    assert!(!options.include_exec);
    assert_eq!(options.record_command, None);
    assert_eq!(options.replay_command, None);
    assert_eq!(options.db, "/home/me/codex-session-info.sqlite3");
}

#[test]
fn selector_parses_current_options() {
    let action = parse_args(
        &strings(&[
            "--db",
            "/tmp/sessions.sqlite3",
            "--no-refresh",
            "--print-path",
            "--include-exec",
            "--record-command",
            "/tmp/recorder",
            "--replay-command",
            "/tmp/replay",
        ]),
        &home(),
    )
    .unwrap();
    let CliAction::Run(Command::Select(options)) = action else {
        panic!("expected selector");
    };
    assert_eq!(options.db, "/tmp/sessions.sqlite3");
    assert!(!options.refresh);
    assert!(options.print_path);
    assert!(options.include_exec);
    assert_eq!(options.record_command.as_deref(), Some("/tmp/recorder"));
    assert_eq!(options.replay_command.as_deref(), Some("/tmp/replay"));
}

#[test]
fn index_subcommand_parses_legacy_recorder_options() {
    let action = parse_args(
        &strings(&[
            "index",
            "--output",
            "/tmp/index.sqlite3",
            "--sessions-root",
            "/tmp/sessions",
            "--include-subsessions",
            "--include-empty-messages",
            "--include-exec",
        ]),
        &home(),
    )
    .unwrap();
    let CliAction::Run(Command::Index(options)) = action else {
        panic!("expected index");
    };
    assert_eq!(options.output, "/tmp/index.sqlite3");
    assert_eq!(options.sessions_root, "/tmp/sessions");
    assert!(options.include_subsessions);
    assert!(options.include_empty_messages);
    assert!(options.include_exec);
    assert!(!options.rebuild);
}

#[test]
fn replay_subcommand_accepts_stdin_and_include_exec() {
    assert_eq!(
        parse_args(&strings(&["replay", "--include-exec", "-"]), &home()).unwrap(),
        CliAction::Run(Command::Replay(ReplayOptions { input: Some("-".to_string()), include_exec: true }))
    );
}

#[test]
fn replay_rejects_multiple_inputs() {
    let error = parse_args(&strings(&["replay", "a.jsonl", "b.jsonl"]), &home()).unwrap_err();
    assert!(error.message().contains("only one input path"));
}

#[test]
fn root_option_before_subcommand_is_not_reinterpreted() {
    let error = parse_args(&strings(&["--include-exec", "replay", "a.jsonl"]), &home()).unwrap_err();
    assert!(error.message().contains("unknown argument"));
}

#[test]
fn help_is_returned_without_process_exit() {
    assert_eq!(
        parse_args(&strings(&["index", "--help"]), &home()).unwrap(),
        CliAction::PrintHelp(HelpTopic::Index)
    );
}

#[test]
fn missing_option_values_and_unknown_options_are_rejected() {
    for args in [&["--db"][..], &["index", "--output"][..], &["index", "--sessions-root"][..]] {
        assert!(parse_args(&strings(args), &home()).is_err());
    }
    assert!(parse_args(&strings(&["--wat"]), &home()).is_err());
    assert!(parse_args(&strings(&["index", "--wat"]), &home()).is_err());
    assert!(parse_args(&strings(&["replay", "--wat"]), &home()).is_err());
}

#[test]
fn help_texts_match_the_integrated_cli_surface() {
    let root = help_text(HelpTopic::Root, "1.2.3");
    assert!(root.contains("select-codex-session index"));
    assert!(root.contains("select-codex-session replay"));
    assert!(!root.ends_with('\n'));
    assert!(help_text(HelpTopic::Index, "1.2.3").contains("--include-empty-messages"));
    assert!(help_text(HelpTopic::Replay, "1.2.3").contains("[PATH|-]"));
    assert!(root.starts_with("select-codex-session 1.2.3\n"));
    assert_eq!(version_text("1.2.3"), "select-codex-session 1.2.3");
}

#[test]
fn error_messages_name_the_argument() {
    assert_eq!(
        parse_args(&strings(&["--wat"]), &home()).unwrap_err().message(),
        "unknown argument: --wat"
    );
    assert_eq!(
        parse_args(&strings(&["index", "--wat"]), &home()).unwrap_err(),
        CliError::UnknownIndexArgument("--wat".to_string())
    );
    assert_eq!(
        parse_args(&strings(&["replay", "--wat"]), &home()).unwrap_err().message(),
        "unknown replay argument: --wat"
    );
    assert_eq!(
        parse_args(&strings(&["--db"]), &home()).unwrap_err().message(),
        "--db requires a path"
    );
    assert_eq!(
        parse_args(&strings(&["--record-command"]), &home()).unwrap_err().message(),
        "--record-command requires a command"
    );
    assert_eq!(parse_args(&[], &None).unwrap_err(), CliError::HomeNotSet);
    assert_eq!(CliError::HomeNotSet.message(), "HOME is not set");
    assert_eq!(
        parse_args(&strings(&["replay", "x.jsonl"]), &None).unwrap(),
        CliAction::Run(Command::Replay(ReplayOptions { input: Some("x.jsonl".to_string()), include_exec: false }))
    );
    assert_eq!(parse_args(&strings(&["-V"]), &None).unwrap(), CliAction::PrintVersion);
}

#[test]
fn home_is_expanded_and_paths_joined() {
    assert_eq!(expand_home("~", &home()).unwrap(), "/home/me");
    assert_eq!(expand_home("~/db.sqlite3", &home()).unwrap(), "/home/me/db.sqlite3");
    assert_eq!(expand_home("~other", &home()).unwrap(), "~other");
    assert_eq!(expand_home("~/x", &None), Err(CliError::HomeNotSet));
    assert_eq!(join_path("/home/me/", "x"), "/home/me/x");
    assert_eq!(join_path("/home/me", "/abs"), "/abs");
    assert_eq!(join_path("", "rel"), "rel");
    let action = parse_args(&strings(&["index"]), &home()).unwrap();
    let CliAction::Run(Command::Index(options)) = action else {
        panic!("expected index");
    };
    assert_eq!(options.sessions_root, "/home/me/.codex/sessions");
    let action = parse_args(&strings(&["index", "--rebuild", "-o", "~/i.db"]), &home()).unwrap();
    let CliAction::Run(Command::Index(options)) = action else {
        panic!("expected index");
    };
    assert!(options.rebuild);
    assert_eq!(options.output, "/home/me/i.db");
}
