//! The errors that the command-line tool reports, and the exit code of each.

use vstd::prelude::*;

verus! {

/// An error of the command-line tool, with its message.
#[derive(Debug)]
pub enum CliError {
    /// The command line was not understood.
    Usage(String),
    /// The configuration could not be read.
    Config(String),
    /// The command itself failed.
    Command(String),
}

/// A `CliError` taken by the characters of its message.
pub enum CliErrorView {
    Usage(Seq<char>),
    Config(Seq<char>),
    Command(Seq<char>),
}

impl View for CliError {
    type V = CliErrorView;

    open spec fn view(&self) -> CliErrorView {
        match self {
            CliError::Usage(m) => CliErrorView::Usage(m@),
            CliError::Config(m) => CliErrorView::Config(m@),
            CliError::Command(m) => CliErrorView::Command(m@),
        }
    }
}

/// The process exit code of an error: 2 for usage and configuration errors,
/// 1 for a failed command.
pub open spec fn exit_code_of(e: CliErrorView) -> i32 {
    match e {
        CliErrorView::Usage(_) => 2,
        CliErrorView::Config(_) => 2,
        CliErrorView::Command(_) => 1,
    }
}

/// The text that the tool prints for an error.
pub open spec fn message_of(e: CliErrorView) -> Seq<char> {
    match e {
        CliErrorView::Usage(m) => m,
        CliErrorView::Config(m) => "configuration error: "@ + m,
        CliErrorView::Command(m) => "command failed: "@ + m,
    }
}

/// The fixed class label of an error, which never depends on its message.
pub open spec fn kind_of(e: CliErrorView) -> Seq<char> {
    match e {
        CliErrorView::Usage(_) => "usage"@,
        CliErrorView::Config(_) => "config"@,
        CliErrorView::Command(_) => "command"@,
    }
}

impl CliError {
    /// The process exit code for this error.
    pub fn exit_code(&self) -> (code: i32)
        ensures
            code == exit_code_of(self@),
    {
        match self {
            CliError::Usage(_) => 2,
            CliError::Config(_) => 2,
            CliError::Command(_) => 1,
        }
    }

    /// The text that is printed for this error.
    pub fn message(&self) -> (text: String)
        ensures
            text@ == message_of(self@),
    {
        match self {
            CliError::Usage(m) => m.clone(),
            CliError::Config(m) => "configuration error: ".to_owned().concat(m.as_str()),
            CliError::Command(m) => "command failed: ".to_owned().concat(m.as_str()),
        }
    }

    /// The class label of this error: `usage`, `config` or `command`.
    pub fn kind(&self) -> (label: &'static str)
        ensures
            label@ == kind_of(self@),
    {
        match self {
            CliError::Usage(_) => "usage",
            CliError::Config(_) => "config",
            CliError::Command(_) => "command",
        }
    }
}

} // verus!
