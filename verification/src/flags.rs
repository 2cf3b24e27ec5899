//! What the command-line flags parser reported, turned into the command to
//! run and the environment that the flags set.

use vstd::prelude::*;

use crate::args::Command;
use crate::env_map::{entries_view, merge_env, EnvMap, KeyedMap};
use crate::error::{CliError, CliErrorView};
use crate::text::{join, joined, text_eq, texts};

verus! {

/// What the flags parser made of the command line.
pub struct ParsedFlags {
    /// The command word, empty when there was none.
    pub command: String,
    /// The variables that the flags set, in the order of the command line.
    pub flags: Vec<(String, String)>,
    /// The options that the configuration does not declare.
    pub unknown_options: Vec<String>,
    /// The values that the configuration refused.
    pub errors: Vec<String>,
}

/// How a run of the flags parser ended.
pub enum FlagsOutcome {
    /// The path of the flags configuration is not valid UTF-8.
    ConfigPathNotUtf8,
    /// The audit of the flags configuration failed, with the reason.
    AuditFailed(String),
    /// The command line could not be parsed, with the reason.
    ParseFailed(String),
    /// The command line was parsed.
    Parsed(ParsedFlags),
}

/// The command that the command word names.
pub open spec fn command_for_word(word: Seq<char>) -> Result<Command, CliErrorView> {
    if word == ""@ || word == "help"@ {
        Ok(Command::Help)
    } else if word == "health"@ {
        Ok(Command::Health)
    } else if word == "status"@ {
        Ok(Command::Status)
    } else {
        Err(CliErrorView::Usage("unknown command "@ + word))
    }
}

/// The command, or the error, that a parse result gives: unknown options come
/// first, refused values next, then the command word.
pub open spec fn parsed_command(
    command: Seq<char>,
    unknown_options: Seq<Seq<char>>,
    errors: Seq<Seq<char>>,
) -> Result<Command, CliErrorView> {
    if unknown_options.len() > 0 {
        Err(
            CliErrorView::Usage(
                "unknown command-line option(s): "@ + joined(unknown_options, ", "@),
            ),
        )
    } else if errors.len() > 0 {
        Err(CliErrorView::Usage("invalid command-line value(s): "@ + joined(errors, "; "@)))
    } else {
        command_for_word(command)
    }
}

/// The command, or the error, that an outcome of the flags parser gives.
pub open spec fn outcome_command(outcome: FlagsOutcome) -> Result<Command, CliErrorView> {
    match outcome {
        FlagsOutcome::ConfigPathNotUtf8 => Err(
            CliErrorView::Config(".cli-flags.toml path is not valid UTF-8"@),
        ),
        FlagsOutcome::AuditFailed(reason) => Err(
            CliErrorView::Config("flags-2-env configuration audit failed: "@ + reason@),
        ),
        FlagsOutcome::ParseFailed(reason) => Err(
            CliErrorView::Config("flags-2-env parse failed: "@ + reason@),
        ),
        FlagsOutcome::Parsed(p) => parsed_command(
            p.command@,
            texts(p.unknown_options@),
            texts(p.errors@),
        ),
    }
}

/// The variables that an outcome sets: none unless it parsed.
pub open spec fn outcome_overrides(outcome: FlagsOutcome) -> Map<Seq<char>, Seq<char>> {
    match outcome {
        FlagsOutcome::Parsed(p) => entries_view(p.flags@),
        _ => Map::empty(),
    }
}

fn command_from_word(word: &str) -> (r: Result<Command, CliError>)
    ensures
        match (r, command_for_word(word@)) {
            (Ok(x), Ok(y)) => x == y,
            (Err(x), Err(y)) => x@ == y,
            _ => false,
        },
{
    if text_eq(word, "") || text_eq(word, "help") {
        Ok(Command::Help)
    } else if text_eq(word, "health") {
        Ok(Command::Health)
    } else if text_eq(word, "status") {
        Ok(Command::Status)
    } else {
        Err(CliError::Usage("unknown command ".to_owned().concat(word)))
    }
}

/// The command to run and the variables that the flags set, from what the
/// flags parser reported.
///
/// A configuration path that is not UTF-8, a failed audit and a failed parse
/// are configuration errors; unknown options, then refused values, then an
/// unknown command word are usage errors. The command word may be empty or
/// `help` (help), `health` or `status`.
pub fn parse_cli_flags(outcome: FlagsOutcome) -> (r: Result<(Command, EnvMap), CliError>)
    ensures
        match (r, outcome_command(outcome)) {
            (Ok((c, m)), Ok(d)) => c == d && m@ == outcome_overrides(outcome),
            (Err(x), Err(y)) => x@ == y,
            _ => false,
        },
{
    match outcome {
        FlagsOutcome::ConfigPathNotUtf8 => Err(
            CliError::Config(".cli-flags.toml path is not valid UTF-8".to_owned()),
        ),
        FlagsOutcome::AuditFailed(reason) => Err(
            CliError::Config(
                "flags-2-env configuration audit failed: ".to_owned().concat(reason.as_str()),
            ),
        ),
        FlagsOutcome::ParseFailed(reason) => Err(
            CliError::Config("flags-2-env parse failed: ".to_owned().concat(reason.as_str())),
        ),
        FlagsOutcome::Parsed(p) => {
            let ParsedFlags { command, flags, unknown_options, errors } = p;
            if unknown_options.len() > 0 {
                let listed = join(&unknown_options, ", ");
                return Err(
                    CliError::Usage(
                        "unknown command-line option(s): ".to_owned().concat(listed.as_str()),
                    ),
                );
            }
            if errors.len() > 0 {
                let listed = join(&errors, "; ");
                return Err(
                    CliError::Usage(
                        "invalid command-line value(s): ".to_owned().concat(listed.as_str()),
                    ),
                );
            }
            let c = command_from_word(command.as_str())?;
            Ok((c, KeyedMap::from_entries(flags)))
        },
    }
}

/// The command to run and the environment to run it in: `initial` with the
/// variables that the flags set put over it. `initial` itself is consumed and
/// nothing else is changed.
pub fn apply_cli_flags_from(outcome: FlagsOutcome, initial: EnvMap) -> (r: Result<
    (Command, EnvMap),
    CliError,
>)
    ensures
        match (r, outcome_command(outcome)) {
            (Ok((c, m)), Ok(d)) => c == d && m@ == initial@.union_prefer_right(
                outcome_overrides(outcome),
            ),
            (Err(x), Err(y)) => x@ == y,
            _ => false,
        },
{
    let (command, overrides) = parse_cli_flags(outcome)?;
    Ok((command, merge_env(initial, overrides)))
}

} // verus!

verus! {

/// After the flags are applied, a variable that the flags set has the flags'
/// value, and every other variable keeps the value that it had: applying flags
/// never drops or changes a variable that they do not name.
pub proof fn lemma_flags_override_only_their_variables(
    initial: Map<Seq<char>, Seq<char>>,
    outcome: FlagsOutcome,
    key: Seq<char>,
)
    ensures
        ({
            let overrides = outcome_overrides(outcome);
            let merged = initial.union_prefer_right(overrides);
            &&& overrides.contains_key(key) ==> merged.contains_key(key) && merged[key]
                == overrides[key]
            &&& !overrides.contains_key(key) ==> (merged.contains_key(key) == initial.contains_key(
                key,
            ) && (initial.contains_key(key) ==> merged[key] == initial[key]))
        }),
{
}

/// An outcome that did not parse sets no variable.
pub proof fn lemma_failed_outcome_sets_nothing(outcome: FlagsOutcome)
    ensures
        !(outcome is Parsed) ==> outcome_overrides(outcome) == Map::<Seq<char>, Seq<char>>::empty(),
        !(outcome is Parsed) ==> (outcome_command(outcome) matches Err(e) && e is Config),
{
}

} // verus!

verus! {

/// Every variable that a reported flag names is set, to the value of the last
/// flag that names it, and no other variable is set.
pub proof fn lemma_reported_flags_set_their_variables(p: ParsedFlags)
    ensures
        ({
            let overrides = outcome_overrides(FlagsOutcome::Parsed(p));
            let s = p.flags@;
            &&& forall|i: int| 0 <= i < s.len() ==> overrides.contains_key(#[trigger] s[i].0@)
            &&& forall|i: int|
                0 <= i < s.len() && (forall|j: int| i < j < s.len() ==> s[j].0@ != s[i].0@)
                    ==> overrides[#[trigger] s[i].0@] == s[i].1@
            &&& forall|k: Seq<char>| #[trigger]
                overrides.contains_key(k) ==> exists|i: int| 0 <= i < s.len() && s[i].0@ == k
        }),
{
    let s = p.flags@;
    crate::env_map::lemma_entries_view(s);
    assert forall|i: int|
        0 <= i < s.len() && (forall|j: int| i < j < s.len() ==> s[j].0@ != s[i].0@) implies entries_view(
        s,
    )[#[trigger] s[i].0@] == s[i].1@ by {
        crate::env_map::lemma_last_entry_value(s, i);
    }
    assert forall|i: int| 0 <= i < s.len() implies entries_view(s).contains_key(#[trigger] s[i].0@) by {
        assert(entries_view(s).dom().contains(s[i].0@));
    }
}

} // verus!
