//! The text that the `health` and `status` commands print.

use vstd::prelude::*;

verus! {

/// The hexadecimal digit of `n`, in lower case.
pub open spec fn hex_digit(n: u32) -> char {
    if n < 10 {
        (n + 0x30) as char
    } else {
        (n - 10 + 0x61) as char
    }
}

/// How a character is written inside a JSON string: a quote, a backslash and
/// the control characters are escaped, every other character stands as it is.
pub open spec fn json_escaped_char(c: char) -> Seq<char> {
    let n = c as u32;
    if c == '"' {
        seq!['\\', '"']
    } else if c == '\\' {
        seq!['\\', '\\']
    } else if n == 0x08 {
        seq!['\\', 'b']
    } else if n == 0x09 {
        seq!['\\', 't']
    } else if n == 0x0A {
        seq!['\\', 'n']
    } else if n == 0x0C {
        seq!['\\', 'f']
    } else if n == 0x0D {
        seq!['\\', 'r']
    } else if n < 0x20 {
        seq!['\\', 'u', '0', '0', hex_digit(n / 16), hex_digit(n % 16)]
    } else {
        seq![c]
    }
}

/// The characters of `s`, each written as inside a JSON string.
pub open spec fn json_escaped(s: Seq<char>) -> Seq<char>
    decreases s.len(),
{
    if s.len() == 0 {
        Seq::empty()
    } else {
        json_escaped(s.drop_last()) + json_escaped_char(s.last())
    }
}

/// `s` written as a JSON string, quotes included.
pub open spec fn json_string(s: Seq<char>) -> Seq<char> {
    seq!['"'] + json_escaped(s) + seq!['"']
}

/// The JSON body that `health` prints.
pub open spec fn health_body_of(api_base: Seq<char>) -> Seq<char> {
    "{\"api_base\":"@ + json_string(api_base) + ",\"ok\":true}"@
}

/// The JSON body that `status` prints.
pub open spec fn status_body_of(api_base: Seq<char>) -> Seq<char> {
    "{\"api_base\":"@ + json_string(api_base) + ",\"service\":\"ores-otel\"}"@
}

/// The line that `status` prints for people.
pub open spec fn status_line_of(api_base: Seq<char>) -> Seq<char> {
    "ores-otel @ "@ + api_base
}

/// `s` written as a JSON string, by `serde_json`.
///
/// Calls `Display` on `serde_json::Value::String`; the contract claims what
/// serde_json's compact formatter writes for a string: a quote, each character
/// with `"`, `\` and the characters below U+0020 escaped (the short escapes
/// `\b \t \n \f \r` where there is one, else `\u00` and two lower-case hex
/// digits), and a closing quote.
#[verifier::external_body]
fn json_quote(s: &str) -> (r: String)
    ensures
        r@ == json_string(s@),
{
    serde_json::Value::String(s.to_owned()).to_string()
}

/// The JSON object that `health` prints: `{"api_base":<api base>,"ok":true}`,
/// its keys in the order in which serde_json's map keeps them.
pub fn health_json_body(api_base: &str) -> (body: String)
    ensures
        body@ == health_body_of(api_base@),
{
    let quoted = json_quote(api_base);
    "{\"api_base\":".to_owned().concat(quoted.as_str()).concat(",\"ok\":true}")
}

/// The JSON object that `status` prints:
/// `{"api_base":<api base>,"service":"ores-otel"}`.
pub fn status_json_body(api_base: &str) -> (body: String)
    ensures
        body@ == status_body_of(api_base@),
{
    let quoted = json_quote(api_base);
    "{\"api_base\":".to_owned().concat(quoted.as_str()).concat(",\"service\":\"ores-otel\"}")
}

/// The line that `status` prints for people: `ores-otel @ <api base>`.
pub fn status_text_line(api_base: &str) -> (line: String)
    ensures
        line@ == status_line_of(api_base@),
{
    "ores-otel @ ".to_owned().concat(api_base)
}

} // verus!
