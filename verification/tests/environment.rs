use ores_otel_cli::args::Command;
use ores_otel_cli::config::{
    settings_from_env_map, ColorMode, OutputMode, API_BASE, COLOR, DEFAULT_API_BASE, JSON,
    LOG_LEVEL, LOG_LEVEL_DEFAULT,
};
use ores_otel_cli::env_map::{merge_env, truthy, value, EnvMap};
use ores_otel_cli::error::CliError;
use ores_otel_cli::flags::{apply_cli_flags_from, parse_cli_flags, FlagsOutcome, ParsedFlags};

fn env(pairs: &[(&str, &str)]) -> EnvMap {
    EnvMap::from_entries(pairs.iter().map(|(k, v)| (k.to_string(), v.to_string())).collect())
}

fn parsed(command: &str, flags: &[(&str, &str)], unknown: &[&str], errors: &[&str]) -> FlagsOutcome {
    FlagsOutcome::Parsed(ParsedFlags {
        command: command.to_string(),
        flags: flags.iter().map(|(k, v)| (k.to_string(), v.to_string())).collect(),
        unknown_options: unknown.iter().map(|s| s.to_string()).collect(),
        errors: errors.iter().map(|s| s.to_string()).collect(),
    })
}

fn config_message<T: std::fmt::Debug>(r: Result<T, CliError>) -> String {
    match r {
        Err(CliError::Config(m)) => m,
        other => panic!("expected a configuration error, got {:?}", other),
    }
}

fn usage_message<T: std::fmt::Debug>(r: Result<T, CliError>) -> String {
    match r {
        Err(CliError::Usage(m)) => m,
        other => panic!("expected a usage error, got {:?}", other),
    }
}

#[test]
fn later_entries_win_and_values_are_read_back() {
    let mut m = env(&[("A", "1"), ("B", "2"), ("A", "3")]);
    assert_eq!(value(&m, "A"), Some("3"));
    assert_eq!(value(&m, "B"), Some("2"));
    assert_eq!(value(&m, "C"), None);
    m.insert("C".to_string(), "4".to_string());
    m.insert("B".to_string(), "5".to_string());
    assert_eq!(value(&m, "C"), Some("4"));
    assert_eq!(value(&m, "B"), Some("5"));
    assert_eq!(m.as_entries().len(), 3);
}

#[test]
fn truthy_values() {
    let m = env(&[("a", "1"), ("b", "TRUE"), ("c", "Yes"), ("d", "on"), ("e", "false"), ("f", "0"), ("g", " true")]);
    for key in ["a", "b", "c", "d"] {
        assert!(truthy(&m, key), "{key}");
    }
    for key in ["e", "f", "g", "missing"] {
        assert!(!truthy(&m, key), "{key}");
    }
}

#[test]
fn merge_puts_overrides_over_the_initial_values() {
    let merged = merge_env(env(&[("KEEP", "keep"), ("SET", "old")]), env(&[("SET", "new"), ("ADD", "x")]));
    assert_eq!(value(&merged, "KEEP"), Some("keep"));
    assert_eq!(value(&merged, "SET"), Some("new"));
    assert_eq!(value(&merged, "ADD"), Some("x"));
    assert_eq!(merged.as_entries().len(), 3);
}

#[test]
fn settings_default_when_nothing_is_set() {
    let s = settings_from_env_map(&EnvMap::new()).unwrap();
    assert_eq!(s.api_base, DEFAULT_API_BASE);
    assert_eq!(s.api_base, "http://127.0.0.1:8080");
    assert_eq!(s.output, OutputMode::Auto);
    assert_eq!(s.color, ColorMode::Auto);
    assert_eq!(s.log_level, LOG_LEVEL_DEFAULT);
}

#[test]
fn explicit_json_and_color_variables_are_followed() {
    let s = settings_from_env_map(&env(&[(JSON, "false"), (COLOR, "false")])).unwrap();
    assert_eq!(s.output, OutputMode::Human);
    assert_eq!(s.color, ColorMode::Never);
    let s = settings_from_env_map(&env(&[(JSON, "true"), (COLOR, "1")])).unwrap();
    assert_eq!(s.output, OutputMode::Json);
    assert_eq!(s.color, ColorMode::Always);
}

#[test]
fn log_level_and_api_base_are_read() {
    let s = settings_from_env_map(&env(&[(LOG_LEVEL, "trace"), (API_BASE, "https://api")])).unwrap();
    assert_eq!(s.log_level, "trace");
    assert_eq!(s.api_base, "https://api");
}

#[test]
fn a_blank_api_base_is_a_configuration_error() {
    assert_eq!(config_message(settings_from_env_map(&env(&[(API_BASE, "")]))), "API base is empty");
    assert_eq!(config_message(settings_from_env_map(&env(&[(API_BASE, " \t\u{3000}")]))), "API base is empty");
    assert!(settings_from_env_map(&env(&[(API_BASE, " x ")])).is_ok());
}

#[test]
fn parsed_flags_give_the_command_and_variables() {
    let (command, vars) = parse_cli_flags(parsed("health", &[("K", "v")], &[], &[])).unwrap();
    assert_eq!(command, Command::Health);
    assert_eq!(value(&vars, "K"), Some("v"));
    assert_eq!(parse_cli_flags(parsed("", &[], &[], &[])).unwrap().0, Command::Help);
    assert_eq!(parse_cli_flags(parsed("help", &[], &[], &[])).unwrap().0, Command::Help);
    assert_eq!(parse_cli_flags(parsed("status", &[], &[], &[])).unwrap().0, Command::Status);
}

#[test]
fn flag_problems_are_usage_errors_in_order() {
    assert_eq!(
        usage_message(parse_cli_flags(parsed("health", &[], &["--a", "--b"], &["bad"]))),
        "unknown command-line option(s): --a, --b"
    );
    assert_eq!(
        usage_message(parse_cli_flags(parsed("health", &[], &[], &["x: bad", "y: worse"]))),
        "invalid command-line value(s): x: bad; y: worse"
    );
    assert_eq!(usage_message(parse_cli_flags(parsed("deploy", &[], &[], &[]))), "unknown command deploy");
}

#[test]
fn flags_parser_failures_are_configuration_errors() {
    assert_eq!(
        config_message(parse_cli_flags(FlagsOutcome::ConfigPathNotUtf8)),
        ".cli-flags.toml path is not valid UTF-8"
    );
    assert_eq!(
        config_message(parse_cli_flags(FlagsOutcome::AuditFailed("no file".into()))),
        "flags-2-env configuration audit failed: no file"
    );
    assert_eq!(
        config_message(parse_cli_flags(FlagsOutcome::ParseFailed("bad toml".into()))),
        "flags-2-env parse failed: bad toml"
    );
}

#[test]
fn applied_flags_keep_the_initial_variables_they_do_not_set() {
    let (command, vars) = apply_cli_flags_from(
        parsed("health", &[("ORES_OTEL_JSON", "1")], &[], &[]),
        env(&[("ENV_MAP_PROBE", "keep"), ("ORES_OTEL_JSON", "0")]),
    )
    .unwrap();
    assert_eq!(command, Command::Health);
    assert_eq!(value(&vars, "ENV_MAP_PROBE"), Some("keep"));
    assert_eq!(value(&vars, "ORES_OTEL_JSON"), Some("1"));
}

#[test]
fn a_refused_command_line_gives_only_the_error() {
    let r = apply_cli_flags_from(
        parsed("health", &[], &["--this-flag-is-not-declared"], &[]),
        env(&[("ENV_MAP_PROBE", "keep")]),
    );
    assert_eq!(
        usage_message(r),
        "unknown command-line option(s): --this-flag-is-not-declared"
    );
}
