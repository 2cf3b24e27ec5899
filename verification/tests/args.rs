use ores_otel_cli::args::{help_block, help_text, parse, wants_help, Command, Invocation};
use ores_otel_cli::error::CliError;

fn args(items: &[&str]) -> Vec<String> {
    items.iter().map(|s| s.to_string()).collect()
}

fn usage_message(r: Result<Invocation, CliError>) -> String {
    match r {
        Err(CliError::Usage(m)) => m,
        other => panic!("expected a usage error, got {:?}", other),
    }
}

#[test]
fn no_arguments_ask_for_help() {
    let inv = parse(args(&[])).unwrap();
    assert_eq!(inv, Invocation { command: Command::Help, api_base: None, json: false });
}

#[test]
fn commands_and_flags_are_read() {
    let inv = parse(args(&["health", "--json", "--api-base=http://h:1"])).unwrap();
    assert_eq!(
        inv,
        Invocation {
            command: Command::Health,
            api_base: Some("http://h:1".to_string()),
            json: true
        }
    );
    let inv = parse(args(&["status"])).unwrap();
    assert_eq!(inv.command, Command::Status);
    assert!(!inv.json);
}

#[test]
fn help_words_select_help() {
    for word in ["help", "-h", "--help"] {
        assert_eq!(parse(args(&[word])).unwrap().command, Command::Help);
    }
    assert_eq!(parse(args(&["health", "--help"])).unwrap().command, Command::Help);
    assert_eq!(parse(args(&["status", "-h", "--json"])).unwrap().command, Command::Help);
}

#[test]
fn a_leading_flag_is_read_as_a_flag() {
    let inv = parse(args(&["--json"])).unwrap();
    assert_eq!(inv, Invocation { command: Command::Help, api_base: None, json: true });
}

#[test]
fn unknown_command_and_unknown_flag_are_usage_errors() {
    assert_eq!(usage_message(parse(args(&["deploy"]))), "unknown command deploy");
    assert_eq!(usage_message(parse(args(&[""]))), "unknown command ");
    assert_eq!(usage_message(parse(args(&["health", "--verbose"]))), "unknown flag --verbose");
    assert_eq!(usage_message(parse(args(&["health", "help"]))), "unknown flag help");
    assert_eq!(usage_message(parse(args(&["-x"]))), "unknown flag -x");
}

#[test]
fn the_first_unknown_flag_is_reported() {
    assert_eq!(
        usage_message(parse(args(&["health", "--a", "--b"]))),
        "unknown flag --a"
    );
}

#[test]
fn the_last_api_base_wins_and_repeated_prefixes_are_trimmed() {
    let inv = parse(args(&["--api-base=one", "status", "--api-base=two"]));
    assert_eq!(usage_message(inv), "unknown flag status");
    let inv = parse(args(&["health", "--api-base=one", "--api-base=two"])).unwrap();
    assert_eq!(inv.api_base, Some("two".to_string()));
    let inv = parse(args(&["health", "--api-base=--api-base=x"])).unwrap();
    assert_eq!(inv.api_base, Some("x".to_string()));
    let inv = parse(args(&["health", "--api-base="])).unwrap();
    assert_eq!(inv.api_base, Some(String::new()));
}

#[test]
fn help_text_lists_the_commands() {
    assert_eq!(help_text(), "ores-otel \u{2014} ores-otel CLI\n\nCommands:\n  health\n  status\n");
    assert_eq!(help_block(), "ores-otel \u{2014} ores-otel CLI\n\nCommands:\n  health\n  status");
}

#[test]
fn help_is_wanted_after_the_program_name_only() {
    assert!(wants_help(&args(&["cli", "health", "--help"])));
    assert!(wants_help(&args(&["cli", "help"])));
    assert!(wants_help(&args(&["cli", "-h"])));
    assert!(!wants_help(&args(&["help"])));
    assert!(!wants_help(&args(&["cli", "health", "--json"])));
    assert!(!wants_help(&args(&[])));
}
