use ores_otel_cli::args::Command;
use ores_otel_cli::error::CliError;
use ores_otel_cli::markers::{declared_markers, markers};
use ores_otel_cli::telemetry::{
    command_fields, command_name, failure_fields, fields, output_fields, FieldValue, APP_NAME,
};

fn text(s: &str) -> FieldValue {
    FieldValue::Text(s.to_string())
}

#[test]
fn failure_fields_carry_class_and_exit_code_but_never_the_message() {
    let fields = failure_fields(&CliError::Usage("unknown flag --token=do-not-log".into()));
    assert_eq!(fields.get("error.kind"), Some(&text("usage")));
    assert_eq!(fields.get("exit_code"), Some(&FieldValue::Number(2)));
    assert!(!format!("{:?}", fields.as_entries()).contains("do-not-log"));
}

#[test]
fn command_fields_use_fixed_labels() {
    assert_eq!(command_fields(&Command::Status).get("command"), Some(&text("status")));
    assert_eq!(output_fields(true).get("output"), Some(&text("json")));
    assert_eq!(output_fields(false).get("output"), Some(&text("text")));
}

#[test]
fn the_scanner_sees_every_declaring_shape() {
    const TRACE_PREFIX: &str = "ores-trace-";
    const ROUTINE_PREFIX: &str = "ores-routine-";
    let a = format!("{TRACE_PREFIX}aaaaaaaaaaaaaaaaaaaaa");
    let b = format!("{TRACE_PREFIX}bbbbbbbbbbbbbbbbbbbbb");

    // Two call sites chained onto one line are two, not one.
    let line = format!("log.info(\"x\").add_trace(\"{a}\", false).add_trace(\"{b}\", false);");
    assert_eq!(
        declared_markers(&line, ".add_trace(\"", TRACE_PREFIX),
        vec![a.clone(), b.clone()]
    );

    // The `add_trace_id` spelling counts too.
    let line = format!("log.info(\"x\").add_trace_id(\"{a}\");");
    assert_eq!(
        declared_markers(&line, ".add_trace_id(\"", TRACE_PREFIX),
        vec![a.clone()]
    );

    // Both routine declaration spellings, with and without `pub`.
    let id = format!("{ROUTINE_PREFIX}ccccccccccccccccccccc");
    for line in [
        format!("    const ROUTINE_ID: &str = \"{id}\";"),
        format!("pub const ROUTINE_ID: &str = \"{id}\";"),
    ] {
        assert_eq!(declared_markers(&line, "&str = \"", ROUTINE_PREFIX), vec![id.clone()]);
    }
    let line = format!("static ROUTINE_ID: &'static str = \"{id}\";");
    assert_eq!(
        declared_markers(&line, "&'static str = \"", ROUTINE_PREFIX),
        vec![id.clone()]
    );

    // An assertion that repeats an id is not a second declaration.
    let line = format!("        assert_eq!(record.trace_id, Some(\"{a}\"));");
    assert!(declared_markers(&line, ".add_trace(\"", TRACE_PREFIX).is_empty());

    // And the length check still sees a marker in any of these.
    assert_eq!(
        markers(&format!("emit!(\"{TRACE_PREFIX}short\")"), TRACE_PREFIX),
        vec!["short".to_owned()]
    );
}

#[test]
fn command_names_are_fixed_labels() {
    assert_eq!(command_name(&Command::Help), "help");
    assert_eq!(command_name(&Command::Health), "health");
    assert_eq!(command_name(&Command::Status), "status");
}

#[test]
fn failure_fields_for_each_error_class() {
    let config = failure_fields(&CliError::Config("bad".into()));
    assert_eq!(config.get("error.kind"), Some(&text("config")));
    assert_eq!(config.get("exit_code"), Some(&FieldValue::Number(2)));
    let command = failure_fields(&CliError::Command("upstream".into()));
    assert_eq!(command.get("error.kind"), Some(&text("command")));
    assert_eq!(command.get("exit_code"), Some(&FieldValue::Number(1)));
    assert_eq!(command.as_entries().len(), 2);
}

#[test]
fn failure_fields_do_not_depend_on_the_message() {
    let a = failure_fields(&CliError::Command("first secret".into()));
    let b = failure_fields(&CliError::Command("second".into()));
    assert_eq!(a.as_entries(), b.as_entries());
}

#[test]
fn later_field_entries_win() {
    let f = fields(vec![
        ("k".to_string(), FieldValue::Number(1)),
        ("j".to_string(), text("x")),
        ("k".to_string(), FieldValue::Number(7)),
    ]);
    assert_eq!(f.get("k"), Some(&FieldValue::Number(7)));
    assert_eq!(f.get("j"), Some(&text("x")));
    assert_eq!(f.get("missing"), None);
    assert_eq!(f.as_entries().len(), 2);
}

#[test]
fn app_name_is_stamped() {
    assert_eq!(APP_NAME, "ores-otel-cli");
}

#[test]
fn markers_takes_every_occurrence_and_stops_at_other_characters() {
    assert_eq!(
        markers("x ores-trace-ab_c-1.y ores-trace- ores-trace-Z9", "ores-trace-"),
        vec!["ab_c-1".to_owned(), "".to_owned(), "Z9".to_owned()]
    );
    assert!(markers("nothing here", "ores-trace-").is_empty());
}

#[test]
fn declared_markers_skips_other_literals_and_unclosed_ones() {
    let line = ".add_trace(\"other\").add_trace(\"ores-trace-a\").add_trace(\"ores-trace-b";
    assert_eq!(
        declared_markers(line, ".add_trace(\"", "ores-trace-"),
        vec!["ores-trace-a".to_owned()]
    );
}
