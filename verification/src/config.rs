//! The settings that the environment gives the tool: the API base, the
//! output and color modes asked for, and the log level asked for.

use vstd::prelude::*;

use crate::env_map::{is_truthy, truthy, value, EnvMap};
use crate::error::{CliError, CliErrorView};
use crate::text::{is_blank, text_is_blank};

verus! {

/// The variable that sets the API base.
pub const API_BASE: &'static str = "ORES_OTEL_API_BASE";

/// The variable that asks for JSON output, or for human output when it is set
/// to anything that is not "on".
pub const JSON: &'static str = "ORES_OTEL_JSON";

/// The variable that asks for color, or for none when it is set to anything
/// that is not "on".
pub const COLOR: &'static str = "ORES_OTEL_COLOR";

/// The variable that sets the log level.
pub const LOG_LEVEL: &'static str = "ORES_OTEL_LOG_LEVEL";

/// The log level when none is set.
pub const LOG_LEVEL_DEFAULT: &'static str = "info";

/// The API base when none is set.
pub const DEFAULT_API_BASE: &'static str = "http://127.0.0.1:8080";

/// How output is to be written.
#[derive(Clone, Copy, Debug, PartialEq, Eq, Structural)]
pub enum OutputMode {
    /// Decided by the terminal.
    Auto,
    Json,
    Human,
}

/// Whether output is to be colored.
#[derive(Clone, Copy, Debug, PartialEq, Eq, Structural)]
pub enum ColorMode {
    /// Decided by the terminal.
    Auto,
    Always,
    Never,
}

/// The settings read from the environment.
#[derive(Debug)]
pub struct Settings {
    pub api_base: String,
    pub output: OutputMode,
    pub color: ColorMode,
    /// The name of the log level, as it was set.
    pub log_level: String,
}

/// The API base that the environment sets, or the default.
pub open spec fn api_base_of(env: Map<Seq<char>, Seq<char>>) -> Seq<char> {
    if env.contains_key(API_BASE@) {
        env[API_BASE@]
    } else {
        DEFAULT_API_BASE@
    }
}

/// The output mode that the environment asks for.
pub open spec fn output_of(env: Map<Seq<char>, Seq<char>>) -> OutputMode {
    if !env.contains_key(JSON@) {
        OutputMode::Auto
    } else if is_truthy(env, JSON@) {
        OutputMode::Json
    } else {
        OutputMode::Human
    }
}

/// The color mode that the environment asks for.
pub open spec fn color_of(env: Map<Seq<char>, Seq<char>>) -> ColorMode {
    if !env.contains_key(COLOR@) {
        ColorMode::Auto
    } else if is_truthy(env, COLOR@) {
        ColorMode::Always
    } else {
        ColorMode::Never
    }
}

/// The name of the log level that the environment sets, or the default.
pub open spec fn log_level_of(env: Map<Seq<char>, Seq<char>>) -> Seq<char> {
    if env.contains_key(LOG_LEVEL@) {
        env[LOG_LEVEL@]
    } else {
        LOG_LEVEL_DEFAULT@
    }
}

/// Reads the settings from the environment.
///
/// The API base must hold something other than white space, else this is a
/// configuration error. A JSON or color variable that is set asks for its mode
/// when it is "on" and for the other mode when it is not; unset, the terminal
/// decides.
pub fn settings_from_env_map(env: &EnvMap) -> (r: Result<Settings, CliError>)
    ensures
        match r {
            Ok(s) => {
                &&& !is_blank(api_base_of(env@))
                &&& s.api_base@ == api_base_of(env@)
                &&& s.output == output_of(env@)
                &&& s.color == color_of(env@)
                &&& s.log_level@ == log_level_of(env@)
            },
            Err(e) => is_blank(api_base_of(env@)) && e@ == CliErrorView::Config(
                "API base is empty"@,
            ),
        },
{
    let api_base = match value(env, API_BASE) {
        Some(v) => v.to_owned(),
        None => DEFAULT_API_BASE.to_owned(),
    };
    if text_is_blank(api_base.as_str()) {
        return Err(CliError::Config("API base is empty".to_owned()));
    }
    let output = match value(env, JSON) {
        Some(_) => if truthy(env, JSON) {
            OutputMode::Json
        } else {
            OutputMode::Human
        },
        None => OutputMode::Auto,
    };
    let color = match value(env, COLOR) {
        Some(_) => if truthy(env, COLOR) {
            ColorMode::Always
        } else {
            ColorMode::Never
        },
        None => ColorMode::Auto,
    };
    let log_level = match value(env, LOG_LEVEL) {
        Some(v) => v.to_owned(),
        None => LOG_LEVEL_DEFAULT.to_owned(),
    };
    Ok(Settings { api_base, output, color, log_level })
}

} // verus!

verus! {

/// The JSON and color variables are read with the same on-test: the output
/// mode is JSON exactly when the JSON variable is set to a value that counts
/// as on (`1`, `true`, `yes` or `on`, in any ASCII case), human when it is set
/// to anything else, and left to the terminal when it is unset; the color
/// mode follows the color variable in the same way.
pub proof fn lemma_mode_variables_follow_the_on_test(env: Map<Seq<char>, Seq<char>>)
    ensures
        env.contains_key(JSON@) && crate::env_map::is_truthy_text(env[JSON@]) ==> output_of(env)
            == OutputMode::Json,
        env.contains_key(JSON@) && !crate::env_map::is_truthy_text(env[JSON@]) ==> output_of(env)
            == OutputMode::Human,
        !env.contains_key(JSON@) ==> output_of(env) == OutputMode::Auto,
        env.contains_key(COLOR@) && crate::env_map::is_truthy_text(env[COLOR@]) ==> color_of(env)
            == ColorMode::Always,
        env.contains_key(COLOR@) && !crate::env_map::is_truthy_text(env[COLOR@]) ==> color_of(env)
            == ColorMode::Never,
        !env.contains_key(COLOR@) ==> color_of(env) == ColorMode::Auto,
        (output_of(env) == OutputMode::Json) == (color_of(
            env.insert(COLOR@, if env.contains_key(JSON@) { env[JSON@] } else { Seq::empty() }),
        ) == ColorMode::Always && env.contains_key(JSON@)),
{
}

/// Each of the texts `1`, `true`, `yes` and `on`, in any ASCII case, turns
/// JSON output on.
pub proof fn lemma_on_words_turn_json_on(env: Map<Seq<char>, Seq<char>>)
    requires
        env.contains_key(JSON@),
        crate::text::eq_ignore_ascii_case(env[JSON@], "1"@) || crate::text::eq_ignore_ascii_case(
            env[JSON@],
            "true"@,
        ) || crate::text::eq_ignore_ascii_case(env[JSON@], "yes"@)
            || crate::text::eq_ignore_ascii_case(env[JSON@], "on"@),
    ensures
        output_of(env) == OutputMode::Json,
{
}

} // verus!

verus! {

/// Unset, the API base is `http://127.0.0.1:8080` and the log level `info`;
/// set, each is the variable's value as it stands.
pub proof fn lemma_defaults_and_set_values(env: Map<Seq<char>, Seq<char>>)
    ensures
        !env.contains_key(API_BASE@) ==> api_base_of(env) == "http://127.0.0.1:8080"@,
        env.contains_key(API_BASE@) ==> api_base_of(env) == env[API_BASE@],
        !env.contains_key(LOG_LEVEL@) ==> log_level_of(env) == "info"@,
        env.contains_key(LOG_LEVEL@) ==> log_level_of(env) == env[LOG_LEVEL@],
{
}

} // verus!
