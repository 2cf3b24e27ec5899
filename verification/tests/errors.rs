use ores_otel_cli::error::CliError;

#[test]
fn exit_codes_follow_the_error_class() {
    assert_eq!(CliError::Usage("u".into()).exit_code(), 2);
    assert_eq!(CliError::Config("c".into()).exit_code(), 2);
    assert_eq!(CliError::Command("x".into()).exit_code(), 1);
}

#[test]
fn messages_name_the_error_class() {
    assert_eq!(CliError::Usage("unknown flag -x".into()).message(), "unknown flag -x");
    assert_eq!(
        CliError::Config("API base is empty".into()).message(),
        "configuration error: API base is empty"
    );
    assert_eq!(CliError::Command("boom".into()).message(), "command failed: boom");
}

#[test]
fn kinds_are_fixed_labels() {
    assert_eq!(CliError::Usage("a".into()).kind(), "usage");
    assert_eq!(CliError::Config("a".into()).kind(), "config");
    assert_eq!(CliError::Command("a".into()).kind(), "command");
}
