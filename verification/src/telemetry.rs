//! The fields that the tool's diagnostic records carry. They describe the
//! outcome only (command name, error class, exit code, output mode), never
//! the arguments, flag values, API base or error messages.

use vstd::prelude::*;

use crate::args::Command;
use crate::env_map::{entries_view, KeyedMap};
use crate::error::{exit_code_of, kind_of, CliError, CliErrorView};

verus! {

/// The application name stamped on every record.
pub const APP_NAME: &'static str = "ores-otel-cli";

/// The value of a record field.
#[derive(Debug, PartialEq, Eq)]
pub enum FieldValue {
    Text(String),
    Number(i64),
}

/// A field value taken by the characters of its text.
pub enum FieldView {
    Text(Seq<char>),
    Number(int),
}

impl View for FieldValue {
    type V = FieldView;

    open spec fn view(&self) -> FieldView {
        match self {
            FieldValue::Text(s) => FieldView::Text(s@),
            FieldValue::Number(n) => FieldView::Number(*n as int),
        }
    }
}

/// The fields of a record, by name.
pub type Fields = KeyedMap<FieldValue>;

/// The fixed label of a command.
pub open spec fn command_label(command: Command) -> Seq<char> {
    match command {
        Command::Help => "help"@,
        Command::Health => "health"@,
        Command::Status => "status"@,
    }
}

/// The fields that describe a dispatched command.
pub open spec fn command_fields_of(command: Command) -> Map<Seq<char>, FieldView> {
    map!["command"@ => FieldView::Text(command_label(command))]
}

/// The fields that describe a failure: its class and its exit code.
pub open spec fn failure_fields_of(error: CliErrorView) -> Map<Seq<char>, FieldView> {
    map![
        "error.kind"@ => FieldView::Text(kind_of(error)),
        "exit_code"@ => FieldView::Number(exit_code_of(error) as int),
    ]
}

/// The label of an output mode: `json` or `text`.
pub open spec fn output_label(json_output: bool) -> Seq<char> {
    if json_output {
        "json"@
    } else {
        "text"@
    }
}

/// The fields that describe how a command rendered its output.
pub open spec fn output_fields_of(json_output: bool) -> Map<Seq<char>, FieldView> {
    map!["output"@ => FieldView::Text(output_label(json_output))]
}

proof fn lemma_single_entry(s: Seq<(String, FieldValue)>)
    requires
        s.len() == 1,
    ensures
        entries_view(s) == Map::<Seq<char>, FieldView>::empty().insert(s[0].0@, s[0].1@),
{
    assert(s.drop_last() =~= Seq::<(String, FieldValue)>::empty());
    assert(entries_view(s.drop_last()) == Map::<Seq<char>, FieldView>::empty());
}

/// A stable label for a parsed command, which never holds any input.
pub fn command_name(command: &Command) -> (name: &'static str)
    ensures
        name@ == command_label(*command),
{
    match command {
        Command::Help => "help",
        Command::Health => "health",
        Command::Status => "status",
    }
}

/// The fields that the entries give, a later entry winning over an earlier
/// one with the same name.
pub fn fields(entries: Vec<(String, FieldValue)>) -> (f: Fields)
    ensures
        f@ == entries_view(entries@),
{
    KeyedMap::from_entries(entries)
}

/// Fields describing which command was dispatched.
pub fn command_fields(command: &Command) -> (f: Fields)
    ensures
        f@ == command_fields_of(*command),
{
    let mut entries: Vec<(String, FieldValue)> = Vec::new();
    entries.push(("command".to_owned(), FieldValue::Text(command_name(command).to_owned())));
    proof {
        lemma_single_entry(entries@);
    }
    let f = fields(entries);
    assert(f@ =~= command_fields_of(*command));
    f
}

/// Fields describing a failed invocation: the error class and the exit code,
/// never the message.
pub fn failure_fields(error: &CliError) -> (f: Fields)
    ensures
        f@ == failure_fields_of(error@),
{
    let mut entries: Vec<(String, FieldValue)> = Vec::new();
    entries.push(("error.kind".to_owned(), FieldValue::Text(error.kind().to_owned())));
    entries.push(("exit_code".to_owned(), FieldValue::Number(error.exit_code() as i64)));
    proof {
        lemma_single_entry(entries@.drop_last());
        assert(entries_view(entries@) == entries_view(entries@.drop_last()).insert(
            entries@[1].0@,
            entries@[1].1@,
        ));
    }
    let f = fields(entries);
    assert(f@ =~= failure_fields_of(error@));
    f
}

/// Fields describing how a command rendered its output.
pub fn output_fields(json_output: bool) -> (f: Fields)
    ensures
        f@ == output_fields_of(json_output),
{
    let label = if json_output {
        "json"
    } else {
        "text"
    };
    let mut entries: Vec<(String, FieldValue)> = Vec::new();
    entries.push(("output".to_owned(), FieldValue::Text(label.to_owned())));
    proof {
        lemma_single_entry(entries@);
    }
    let f = fields(entries);
    assert(f@ =~= output_fields_of(json_output));
    f
}

} // verus!

verus! {

/// The failure fields depend on the class of the error alone: two errors of
/// one class give the same fields, whatever their messages say.
pub proof fn lemma_failure_fields_ignore_message(a: CliErrorView, b: CliErrorView)
    requires
        kind_of(a) == kind_of(b),
    ensures
        failure_fields_of(a) == failure_fields_of(b),
{
    reveal_strlit("usage");
    reveal_strlit("config");
    reveal_strlit("command");
    assert(exit_code_of(a) == exit_code_of(b)) by {
        assert("usage"@.len() == 5 && "config"@.len() == 6 && "command"@.len() == 7);
        assert("config"@[1] == 'o' && "command"@[1] == 'o' && "config"@[2] == 'n' && "command"@[2] == 'm');
    }
}

} // verus!

verus! {

/// The record of a dispatched command has one field, `command`, holding the
/// command's own label (`help`, `health` or `status`, the label that
/// `command_name` gives); distinct commands get distinct fields.
pub proof fn lemma_command_fields_name_the_command(c: Command, d: Command)
    ensures
        command_fields_of(c).dom() == set!["command"@],
        command_fields_of(c)["command"@] == FieldView::Text(command_label(c)),
        command_fields_of(Command::Help)["command"@] == FieldView::Text("help"@),
        command_fields_of(Command::Health)["command"@] == FieldView::Text("health"@),
        command_fields_of(Command::Status)["command"@] == FieldView::Text("status"@),
        c != d ==> command_fields_of(c) != command_fields_of(d),
{
    reveal_strlit("help");
    reveal_strlit("health");
    reveal_strlit("status");
    assert(command_fields_of(c).dom() =~= set!["command"@]);
    if c != d {
        assert(command_fields_of(c)["command"@] != command_fields_of(d)["command"@]) by {
            assert("help"@.len() == 4 && "health"@.len() == 6 && "status"@.len() == 6);
            assert("health"@[0] == 'h' && "status"@[0] == 's');
        }
    }
}

/// The record of an output has one field, `output`, holding `json` for JSON
/// output and `text` otherwise.
pub proof fn lemma_output_fields_name_the_mode(json_output: bool)
    ensures
        output_fields_of(json_output).dom() == set!["output"@],
        output_fields_of(json_output)["output"@] == FieldView::Text(
            if json_output {
                "json"@
            } else {
                "text"@
            },
        ),
{
    assert(output_fields_of(json_output).dom() =~= set!["output"@]);
}

} // verus!

verus! {

/// The record of a failure has two fields: `error.kind`, holding `usage`,
/// `config` or `command` by the error's class, and `exit_code`, holding 2 for
/// usage and configuration errors and 1 for a failed command.
pub proof fn lemma_failure_fields_name_class_and_code(m: Seq<char>)
    ensures
        failure_fields_of(CliErrorView::Usage(m)).dom() == set!["error.kind"@, "exit_code"@],
        failure_fields_of(CliErrorView::Usage(m))["error.kind"@] == FieldView::Text("usage"@),
        failure_fields_of(CliErrorView::Usage(m))["exit_code"@] == FieldView::Number(2),
        failure_fields_of(CliErrorView::Config(m))["error.kind"@] == FieldView::Text("config"@),
        failure_fields_of(CliErrorView::Config(m))["exit_code"@] == FieldView::Number(2),
        failure_fields_of(CliErrorView::Command(m))["error.kind"@] == FieldView::Text("command"@),
        failure_fields_of(CliErrorView::Command(m))["exit_code"@] == FieldView::Number(1),
{
    reveal_strlit("error.kind");
    reveal_strlit("exit_code");
    assert("error.kind"@.len() == 10 && "exit_code"@.len() == 9);
    assert(failure_fields_of(CliErrorView::Usage(m)).dom() =~= set!["error.kind"@, "exit_code"@]);
}

} // verus!
