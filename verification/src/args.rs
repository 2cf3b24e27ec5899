//! The command line of the tool: its commands and flags.

use vstd::prelude::*;

use crate::error::{CliError, CliErrorView};
use crate::text::{
    has_prefix, is_prefix, strip_prefix_repeatedly, strip_repeated, text_eq, texts, trim_end_char,
    trim_end_matching,
};

verus! {

/// The command that an invocation runs.
#[derive(Clone, Copy, Debug, PartialEq, Eq, Structural)]
pub enum Command {
    Help,
    Health,
    Status,
}

/// A parsed command line.
#[derive(Clone, Debug, PartialEq, Eq)]
pub struct Invocation {
    pub command: Command,
    pub api_base: Option<String>,
    pub json: bool,
}

/// An `Invocation` taken by the characters of its API base.
pub struct InvocationView {
    pub command: Command,
    pub api_base: Option<Seq<char>>,
    pub json: bool,
}

impl View for Invocation {
    type V = InvocationView;

    open spec fn view(&self) -> InvocationView {
        InvocationView {
            command: self.command,
            api_base: match self.api_base {
                Some(s) => Some(s@),
                None => None,
            },
            json: self.json,
        }
    }
}

/// The prefix of the flag that sets the API base.
pub open spec fn api_base_prefix() -> Seq<char> {
    "--api-base="@
}

/// The words that ask for help.
pub open spec fn is_help_word(a: Seq<char>) -> bool {
    a == "-h"@ || a == "--help"@ || a == "help"@
}

/// The text begins with a dash, so it is taken as a flag and not as a command.
pub open spec fn is_dashed(a: Seq<char>) -> bool {
    a.len() > 0 && a[0] == '-'
}

/// What the first argument selects: the command and how many arguments it
/// takes (none when it is a flag or when there is no argument), or the error
/// for an unknown command.
pub open spec fn leading_command(args: Seq<Seq<char>>) -> Result<(Command, nat), CliErrorView> {
    if args.len() == 0 {
        Ok((Command::Help, 0))
    } else {
        let a = args[0];
        if a == "health"@ {
            Ok((Command::Health, 1))
        } else if a == "status"@ {
            Ok((Command::Status, 1))
        } else if is_help_word(a) {
            Ok((Command::Help, 1))
        } else if !is_dashed(a) {
            Err(CliErrorView::Usage("unknown command "@ + a))
        } else {
            Ok((Command::Help, 0))
        }
    }
}

/// The effect of one flag on the invocation read so far.
pub open spec fn apply_flag(inv: InvocationView, a: Seq<char>) -> Result<InvocationView, CliErrorView> {
    if a == "--json"@ {
        Ok(InvocationView { json: true, ..inv })
    } else if a == "--help"@ || a == "-h"@ {
        Ok(InvocationView { command: Command::Help, ..inv })
    } else if is_prefix(api_base_prefix(), a) {
        Ok(InvocationView { api_base: Some(strip_repeated(a, api_base_prefix())), ..inv })
    } else {
        Err(CliErrorView::Usage("unknown flag "@ + a))
    }
}

/// The flags applied one after another from `start`; the first unknown flag
/// ends it with its error.
pub open spec fn apply_flags(start: InvocationView, flags: Seq<Seq<char>>) -> Result<InvocationView, CliErrorView>
    decreases flags.len(),
{
    if flags.len() == 0 {
        Ok(start)
    } else {
        match apply_flags(start, flags.drop_last()) {
            Ok(inv) => apply_flag(inv, flags.last()),
            Err(e) => Err(e),
        }
    }
}

/// What `parse` gives for the arguments (the program name excluded).
pub open spec fn parse_spec(args: Seq<Seq<char>>) -> Result<InvocationView, CliErrorView> {
    match leading_command(args) {
        Err(e) => Err(e),
        Ok((command, used)) => apply_flags(
            InvocationView { command, api_base: None, json: false },
            args.skip(used as int),
        ),
    }
}

/// The text of the help message.
pub open spec fn help_text_spec() -> Seq<char> {
    "ores-otel \u{2014} ores-otel CLI\n\nCommands:\n  health\n  status\n"@
}

/// The argument vector (the program name first) holds a help word after the
/// program name.
pub open spec fn asks_for_help(argv: Seq<Seq<char>>) -> bool {
    exists|i: int| 1 <= i < argv.len() && #[trigger] is_help_word(argv[i])
}

proof fn lemma_dash_prefix(a: Seq<char>)
    ensures
        is_prefix("-"@, a) == is_dashed(a),
{
    reveal_strlit("-");
    if a.len() > 0 {
        assert(a.subrange(0, 1)[0] == a[0]);
        if a[0] == '-' {
            assert(a.subrange(0, 1) =~= "-"@);
        }
    }
}

/// Once a flag is refused, the flags after it do not change the error.
proof fn lemma_error_persists(start: InvocationView, flags: Seq<Seq<char>>, k: nat)
    requires
        k <= flags.len(),
        apply_flags(start, flags.take(k as int)) is Err,
    ensures
        apply_flags(start, flags) == apply_flags(start, flags.take(k as int)),
    decreases flags.len() - k,
{
    if k < flags.len() {
        assert(flags.take((k + 1) as int).drop_last() =~= flags.take(k as int));
        lemma_error_persists(start, flags, k + 1);
    } else {
        assert(flags.take(k as int) =~= flags);
    }
}

fn is_help_text(a: &str) -> (r: bool)
    ensures
        r == is_help_word(a@),
{
    text_eq(a, "-h") || text_eq(a, "--help") || text_eq(a, "help")
}

fn step_flag(inv: Invocation, a: &str) -> (r: Result<Invocation, CliError>)
    ensures
        match (r, apply_flag(inv@, a@)) {
            (Ok(x), Ok(y)) => x@ == y,
            (Err(x), Err(y)) => x@ == y,
            _ => false,
        },
{
    if text_eq(a, "--json") {
        Ok(Invocation { json: true, ..inv })
    } else if text_eq(a, "--help") || text_eq(a, "-h") {
        Ok(Invocation { command: Command::Help, ..inv })
    } else if has_prefix(a, "--api-base=") {
        let v = strip_prefix_repeatedly(a, "--api-base=");
        Ok(Invocation { api_base: Some(v), ..inv })
    } else {
        Err(CliError::Usage("unknown flag ".to_owned().concat(a)))
    }
}

/// Parses the arguments that follow the program name.
///
/// A leading `health` or `status` selects that command and a leading `help`,
/// `-h` or `--help` selects help; a leading argument that does not start with
/// `-` is an unknown command. Every later argument must be `--json`, `--help`,
/// `-h` or `--api-base=<url>`; anything else is an unknown flag. With no
/// command the invocation asks for help.
pub fn parse(args: Vec<String>) -> (r: Result<Invocation, CliError>)
    ensures
        match (r, parse_spec(texts(args@))) {
            (Ok(x), Ok(y)) => x@ == y,
            (Err(x), Err(y)) => x@ == y,
            _ => false,
        },
{
    let ghost views = texts(args@);
    let mut command = Command::Help;
    let mut used: usize = 0;
    if args.len() > 0 {
        let first = args[0].as_str();
        assert(first@ == views[0]);
        if text_eq(first, "health") {
            command = Command::Health;
            used = 1;
        } else if text_eq(first, "status") {
            command = Command::Status;
            used = 1;
        } else if is_help_text(first) {
            command = Command::Help;
            used = 1;
        } else if !has_prefix(first, "-") {
            proof {
                lemma_dash_prefix(first@);
            }
            return Err(CliError::Usage("unknown command ".to_owned().concat(first)));
        } else {
            proof {
                lemma_dash_prefix(first@);
            }
        }
    }
    let ghost rest = views.skip(used as int);
    let mut inv = Invocation { command, api_base: None, json: false };
    let ghost start = inv@;
    let mut i: usize = used;
    while i < args.len()
        invariant
            used <= i <= args.len(),
            views == texts(args@),
            views.len() == args.len(),
            rest == views.skip(used as int),
            start == (InvocationView { command: start.command, api_base: None, json: false }),
            leading_command(views) == Ok::<(Command, nat), CliErrorView>((start.command, used as nat)),
            apply_flags(start, rest.take(i - used)) == Ok::<InvocationView, CliErrorView>(inv@),
        decreases args.len() - i,
    {
        assert(rest.take(i + 1 - used).drop_last() =~= rest.take(i - used));
        assert(rest.take(i + 1 - used).last() == args@[i as int]@);
        match step_flag(inv, args[i].as_str()) {
            Ok(next) => {
                inv = next;
            },
            Err(e) => {
                proof {
                    lemma_error_persists(start, rest, (i + 1 - used) as nat);
                }
                return Err(e);
            },
        }
        i = i + 1;
    }
    assert(rest.take(args.len() - used) =~= rest);
    Ok(inv)
}

/// The help message.
pub fn help_text() -> (text: &'static str)
    ensures
        text@ == help_text_spec(),
{
    "ores-otel \u{2014} ores-otel CLI\n\nCommands:\n  health\n  status\n"
}

/// The help message as one block of lines, without its trailing line breaks.
pub fn help_block() -> (text: &'static str)
    ensures
        text@ == trim_end_matching(help_text_spec(), '\n'),
{
    trim_end_char(help_text(), '\n')
}

/// Whether the argument vector (the program name first) asks for help
/// anywhere after the program name: such a command line prints the help
/// message before anything else is read.
pub fn wants_help(argv: &Vec<String>) -> (r: bool)
    ensures
        r == asks_for_help(texts(argv@)),
{
    let ghost views = texts(argv@);
    let mut i: usize = 1;
    while i < argv.len()
        invariant
            1 <= i,
            views == texts(argv@),
            views.len() == argv.len(),
            forall|j: int| 1 <= j < i && j < views.len() ==> !#[trigger] is_help_word(views[j]),
        decreases argv.len() - i,
    {
        if is_help_text(argv[i].as_str()) {
            assert(is_help_word(views[i as int]));
            return true;
        }
        i = i + 1;
    }
    false
}

} // verus!

verus! {

/// A flag that asks for help.
pub open spec fn is_help_flag(a: Seq<char>) -> bool {
    a == "--help"@ || a == "-h"@
}

/// Some argument is `--json`.
pub open spec fn has_json_flag(args: Seq<Seq<char>>) -> bool {
    exists|i: int| 0 <= i < args.len() && #[trigger] args[i] == "--json"@
}

/// Some argument is `-h` or `--help`.
pub open spec fn has_help_flag(args: Seq<Seq<char>>) -> bool {
    exists|i: int| 0 <= i < args.len() && #[trigger] is_help_flag(args[i])
}

/// The argument at `i` sets the API base.
pub open spec fn sets_api_base(args: Seq<Seq<char>>, i: int) -> bool {
    0 <= i < args.len() && is_prefix(api_base_prefix(), args[i])
}

/// The argument at `i` is the last one that sets the API base.
pub open spec fn last_api_base_at(args: Seq<Seq<char>>, i: int) -> bool {
    sets_api_base(args, i) && forall|j: int| i < j < args.len() ==> !#[trigger] sets_api_base(args, j)
}

/// What the flags do to the invocation that they start from, when they are
/// all accepted.
proof fn lemma_apply_flags_effects(start: InvocationView, flags: Seq<Seq<char>>)
    ensures
        apply_flags(start, flags) matches Err(e) ==> e is Usage,
        apply_flags(start, flags) matches Ok(inv) ==> {
            &&& (inv.json <==> (start.json || has_json_flag(flags)))
            &&& has_help_flag(flags) ==> inv.command == Command::Help
            &&& !has_help_flag(flags) ==> inv.command == start.command
            &&& (forall|j: int| !#[trigger] sets_api_base(flags, j)) ==> inv.api_base
                == start.api_base
            &&& forall|i: int| #[trigger]
                last_api_base_at(flags, i) ==> inv.api_base == Some(
                    strip_repeated(flags[i], api_base_prefix()),
                )
        },
    decreases flags.len(),
{
    if flags.len() > 0 {
        let t = flags.drop_last();
        let a = flags.last();
        let n = flags.len() - 1;
        lemma_apply_flags_effects(start, t);
        assert forall|i: int| 0 <= i < t.len() implies t[i] == flags[i] by {}
        if let Ok(inv) = apply_flags(start, flags) {
            let p = apply_flags(start, t)->Ok_0;
            assert(apply_flags(start, t) is Ok);
            assert(inv == apply_flag(p, a)->Ok_0);
            assert(flags[n] == a);
            assert(has_json_flag(flags) <==> (has_json_flag(t) || a == "--json"@)) by {
                if has_json_flag(flags) && a != "--json"@ {
                    let i = choose|i: int| 0 <= i < flags.len() && #[trigger] flags[i] == "--json"@;
                    assert(t[i] == "--json"@);
                }
                if has_json_flag(t) {
                    let i = choose|i: int| 0 <= i < t.len() && #[trigger] t[i] == "--json"@;
                    assert(flags[i] == "--json"@);
                }
            }
            assert(has_help_flag(flags) <==> (has_help_flag(t) || is_help_flag(a))) by {
                if has_help_flag(flags) && !is_help_flag(a) {
                    let i = choose|i: int| 0 <= i < flags.len() && #[trigger] is_help_flag(flags[i]);
                    assert(is_help_flag(t[i]));
                }
                if has_help_flag(t) {
                    let i = choose|i: int| 0 <= i < t.len() && #[trigger] is_help_flag(t[i]);
                    assert(is_help_flag(flags[i]));
                }
            }
            assert forall|j: int| #[trigger] sets_api_base(t, j) implies sets_api_base(flags, j) by {}
            assert forall|i: int| #[trigger] last_api_base_at(flags, i) implies inv.api_base == Some(
                strip_repeated(flags[i], api_base_prefix()),
            ) by {
                if i < n {
                    assert(!sets_api_base(flags, n));
                    assert forall|j: int| i < j < t.len() implies !#[trigger] sets_api_base(t, j) by {
                        assert(!sets_api_base(flags, j));
                    }
                    assert(last_api_base_at(t, i));
                } else {
                    assert(i == n);
                    lemma_api_base_flag_is_no_other(a);
                }
            }
            if forall|j: int| !#[trigger] sets_api_base(flags, j) {
                assert(!sets_api_base(flags, n));
            }
            if "--json"@ == a {
                reveal_strlit("--json");
                reveal_strlit("--help");
                reveal_strlit("-h");
                assert(!is_help_flag(a)) by {
                    assert("--json"@[2] == 'j');
                    assert("--help"@[2] == 'h');
                    assert("-h"@.len() == 2);
                }
                assert(!is_prefix(api_base_prefix(), a)) by {
                    reveal_strlit("--api-base=");
                }
            } else if is_help_flag(a) {
                assert(!is_prefix(api_base_prefix(), a)) by {
                    reveal_strlit("--api-base=");
                    reveal_strlit("--help");
                    reveal_strlit("-h");
                }
            }
        } else if apply_flags(start, t) is Ok {
            let p = apply_flags(start, t)->Ok_0;
            assert(apply_flag(p, a) is Err);
        }
    }
}

proof fn lemma_api_base_flag_is_no_other(a: Seq<char>)
    requires
        is_prefix(api_base_prefix(), a),
    ensures
        a != "--json"@,
        !is_help_flag(a),
{
    reveal_strlit("--api-base=");
    reveal_strlit("--json");
    reveal_strlit("--help");
    reveal_strlit("-h");
    assert(a[2] == 'a') by {
        assert(a.subrange(0, 11)[2] == a[2]);
    }
}

proof fn lemma_command_words(a: Seq<char>)
    requires
        is_help_word(a) || a == "health"@ || a == "status"@,
    ensures
        a != "--json"@,
        !is_prefix(api_base_prefix(), a),
{
    reveal_strlit("--api-base=");
    reveal_strlit("--json");
    reveal_strlit("health");
    reveal_strlit("status");
    reveal_strlit("help");
    reveal_strlit("--help");
    reveal_strlit("-h");
    if is_prefix(api_base_prefix(), a) {
        assert(a.subrange(0, 11)[2] == a[2]);
    }
    assert("--json"@[0] == '-' && "--json"@[2] == 'j' && "--json"@.len() == 6);
    assert("health"@[0] == 'h' && "status"@[0] == 's' && "--help"@[2] == 'h');
    assert("help"@.len() == 4 && "-h"@.len() == 2);
}

/// Every command line that `parse` refuses is refused as a usage error, so
/// the tool exits with code 2 for it.
pub proof fn lemma_parse_refusals_are_usage(args: Seq<Seq<char>>)
    ensures
        parse_spec(args) matches Err(e) ==> e is Usage,
{
    if let Ok((command, used)) = leading_command(args) {
        lemma_apply_flags_effects(
            InvocationView { command, api_base: None, json: false },
            args.skip(used as int),
        );
    }
}

/// The invocation asks for JSON exactly when some argument is `--json`.
pub proof fn lemma_parse_json_flag(args: Seq<Seq<char>>)
    ensures
        parse_spec(args) matches Ok(inv) ==> (inv.json <==> has_json_flag(args)),
{
    if let Ok((command, used)) = leading_command(args) {
        let flags = args.skip(used as int);
        lemma_apply_flags_effects(InvocationView { command, api_base: None, json: false }, flags);
        if used == 1 {
            lemma_command_words(args[0]);
            assert(has_json_flag(args) <==> has_json_flag(flags)) by {
                if has_json_flag(args) {
                    let i = choose|i: int| 0 <= i < args.len() && #[trigger] args[i] == "--json"@;
                    assert(flags[i - 1] == args[i]);
                }
                if has_json_flag(flags) {
                    let i = choose|i: int| 0 <= i < flags.len() && #[trigger] flags[i] == "--json"@;
                    assert(args[i + 1] == flags[i]);
                }
            }
        } else {
            assert(flags =~= args);
        }
    }
}

/// An argument `-h` or `--help` anywhere makes the invocation ask for help.
pub proof fn lemma_parse_help_flag_wins(args: Seq<Seq<char>>)
    ensures
        has_help_flag(args) ==> (parse_spec(args) matches Ok(inv) ==> inv.command == Command::Help),
{
    if let Ok((command, used)) = leading_command(args) {
        let flags = args.skip(used as int);
        lemma_apply_flags_effects(InvocationView { command, api_base: None, json: false }, flags);
        if has_help_flag(args) && used == 1 && !has_help_flag(flags) {
            let i = choose|i: int| 0 <= i < args.len() && #[trigger] is_help_flag(args[i]);
            if i > 0 {
                assert(is_help_flag(flags[i - 1]));
            } else {
                reveal_strlit("health");
                reveal_strlit("status");
                reveal_strlit("--help");
                reveal_strlit("-h");
                assert(args[0] != "health"@) by {
                    if args[0] == "health"@ {
                        assert(args[0][0] == 'h');
                    }
                }
                assert(args[0] != "status"@) by {
                    if args[0] == "status"@ {
                        assert(args[0][0] == 's');
                    }
                }
            }
        }
        if used == 0 {
            assert(flags =~= args);
        }
    }
}

/// Without a help flag, the command is the one that the first argument names:
/// `health`, `status`, or help for anything else that is accepted.
pub proof fn lemma_parse_command_word(args: Seq<Seq<char>>)
    ensures
        !has_help_flag(args) ==> (parse_spec(args) matches Ok(inv) ==> inv.command == (if args.len()
            > 0 && args[0] == "health"@ {
            Command::Health
        } else if args.len() > 0 && args[0] == "status"@ {
            Command::Status
        } else {
            Command::Help
        })),
{
    if let Ok((command, used)) = leading_command(args) {
        let flags = args.skip(used as int);
        lemma_apply_flags_effects(InvocationView { command, api_base: None, json: false }, flags);
        if !has_help_flag(args) && has_help_flag(flags) {
            let i = choose|i: int| 0 <= i < flags.len() && #[trigger] is_help_flag(flags[i]);
            assert(is_help_flag(args[i + used]));
        }
        if args.len() > 0 && args[0] == "status"@ {
            assert(args[0] != "health"@) by {
                reveal_strlit("health");
                reveal_strlit("status");
                assert(args[0][0] == 's');
            }
        }
    }
}

/// The API base is the value of the last `--api-base=` argument, with every
/// leading copy of `--api-base=` removed, and there is none without such an
/// argument.
pub proof fn lemma_parse_last_api_base_wins(args: Seq<Seq<char>>)
    ensures
        parse_spec(args) matches Ok(inv) ==> {
            &&& (forall|j: int| !#[trigger] sets_api_base(args, j)) ==> inv.api_base is None
            &&& forall|i: int| #[trigger]
                last_api_base_at(args, i) ==> inv.api_base == Some(
                    strip_repeated(args[i], api_base_prefix()),
                )
        },
{
    if let Ok((command, used)) = leading_command(args) {
        let flags = args.skip(used as int);
        lemma_apply_flags_effects(InvocationView { command, api_base: None, json: false }, flags);
        if used == 0 {
            assert(flags =~= args);
        } else {
            lemma_command_words(args[0]);
            assert forall|j: int| #[trigger] sets_api_base(flags, j) implies sets_api_base(args, j + 1) by {
                assert(flags[j] == args[j + 1]);
            }
            assert forall|i: int| #[trigger] last_api_base_at(args, i) implies inv_api_base_matches(
                parse_spec(args),
                args[i],
            ) by {
                assert(i >= 1);
                assert(flags[i - 1] == args[i]);
                assert forall|j: int| i - 1 < j < flags.len() implies !#[trigger] sets_api_base(flags, j) by {
                    assert(!sets_api_base(args, j + 1));
                }
                assert(last_api_base_at(flags, i - 1));
            }
            if forall|j: int| !#[trigger] sets_api_base(args, j) {
                assert forall|j: int| !#[trigger] sets_api_base(flags, j) by {
                    if sets_api_base(flags, j) {
                        assert(sets_api_base(args, j + 1));
                    }
                }
            }
        }
    }
}

spec fn inv_api_base_matches(r: Result<InvocationView, CliErrorView>, a: Seq<char>) -> bool {
    r matches Ok(inv) ==> inv.api_base == Some(strip_repeated(a, api_base_prefix()))
}

/// After every leading copy of a non-empty pattern is removed, the text no
/// longer starts with it; removing them again changes nothing.
pub proof fn lemma_strip_repeated_leaves_no_prefix(s: Seq<char>, p: Seq<char>)
    requires
        p.len() > 0,
    ensures
        !is_prefix(p, strip_repeated(s, p)),
        strip_repeated(strip_repeated(s, p), p) == strip_repeated(s, p),
    decreases s.len(),
{
    if is_prefix(p, s) {
        lemma_strip_repeated_leaves_no_prefix(s.skip(p.len() as int), p);
    }
}

/// An API base that `parse` gives never starts with `--api-base=`.
pub proof fn lemma_parse_api_base_is_stripped(args: Seq<Seq<char>>)
    ensures
        parse_spec(args) matches Ok(inv) ==> (inv.api_base matches Some(v) ==> !is_prefix(
            api_base_prefix(),
            v,
        )),
{
    lemma_parse_last_api_base_wins(args);
    if let Ok(inv) = parse_spec(args) {
        if inv.api_base is Some {
            if forall|j: int| !#[trigger] sets_api_base(args, j) {
            } else {
                let i = lemma_last_api_base_exists(args);
                reveal_strlit("--api-base=");
                lemma_strip_repeated_leaves_no_prefix(args[i], api_base_prefix());
            }
        }
    }
}

proof fn lemma_last_api_base_exists(args: Seq<Seq<char>>) -> (i: int)
    requires
        exists|j: int| #[trigger] sets_api_base(args, j),
    ensures
        last_api_base_at(args, i),
    decreases args.len(),
{
    let n = args.len() - 1;
    if sets_api_base(args, n) {
        n
    } else {
        let t = args.drop_last();
        let j = choose|j: int| #[trigger] sets_api_base(args, j);
        assert(sets_api_base(t, j));
        let i = lemma_last_api_base_exists(t);
        assert forall|k: int| i < k < args.len() implies !#[trigger] sets_api_base(args, k) by {
            if k < n {
                assert(!sets_api_base(t, k));
            }
        }
        i
    }
}

} // verus!

verus! {

/// A help word (`-h`, `--help` or `help`) at any position after the program
/// name makes the command line ask for help, and nothing else does; adding
/// arguments at the end never takes that away, and the program name does not
/// matter.
pub proof fn lemma_help_word_anywhere_asks_for_help(argv: Seq<Seq<char>>, extra: Seq<char>, name: Seq<char>)
    ensures
        (exists|i: int|
            1 <= i < argv.len() && (#[trigger] argv[i] == "-h"@ || argv[i] == "--help"@ || argv[i]
                == "help"@)) <==> asks_for_help(argv),
        asks_for_help(argv) ==> asks_for_help(argv.push(extra)),
        argv.len() > 0 ==> (asks_for_help(argv.update(0, name)) == asks_for_help(argv)),
{
    if asks_for_help(argv) {
        let i = choose|i: int| 1 <= i < argv.len() && #[trigger] is_help_word(argv[i]);
        assert(argv.push(extra)[i] == argv[i]);
        assert(is_help_word(argv.push(extra)[i]));
        if argv.len() > 0 {
            assert(argv.update(0, name)[i] == argv[i]);
            assert(is_help_word(argv.update(0, name)[i]));
        }
    }
    if exists|i: int|
        1 <= i < argv.len() && (#[trigger] argv[i] == "-h"@ || argv[i] == "--help"@ || argv[i]
            == "help"@) {
        let i = choose|i: int|
            1 <= i < argv.len() && (#[trigger] argv[i] == "-h"@ || argv[i] == "--help"@ || argv[i]
                == "help"@);
        assert(is_help_word(argv[i]));
    }
    if argv.len() > 0 && asks_for_help(argv.update(0, name)) {
        let i = choose|i: int| 1 <= i < argv.len() && #[trigger] is_help_word(argv.update(0, name)[i]);
        assert(argv.update(0, name)[i] == argv[i]);
        assert(is_help_word(argv[i]));
    }
}

/// The flags that `parse` knows: `--json`, `-h`, `--help` and `--api-base=<v>`.
pub open spec fn is_known_flag(a: Seq<char>) -> bool {
    a == "--json"@ || a == "-h"@ || a == "--help"@ || is_prefix("--api-base="@, a)
}

/// The words that may stand first to select a command.
pub open spec fn is_command_word(a: Seq<char>) -> bool {
    a == "health"@ || a == "status"@ || a == "help"@ || a == "-h"@ || a == "--help"@
}

proof fn lemma_known_flags_are_dashed(a: Seq<char>)
    requires
        is_known_flag(a),
    ensures
        a.len() > 0 && a[0] == '-',
{
    reveal_strlit("--json");
    reveal_strlit("-h");
    reveal_strlit("--help");
    reveal_strlit("--api-base=");
    if is_prefix("--api-base="@, a) {
        assert(a.subrange(0, 11)[0] == a[0]);
    }
}

/// The flags are applied without error exactly when each is a known flag.
proof fn lemma_apply_flags_accepts_known(start: InvocationView, flags: Seq<Seq<char>>)
    ensures
        apply_flags(start, flags) is Ok <==> forall|i: int|
            0 <= i < flags.len() ==> is_known_flag(#[trigger] flags[i]),
    decreases flags.len(),
{
    if flags.len() > 0 {
        let t = flags.drop_last();
        lemma_apply_flags_accepts_known(start, t);
        assert forall|i: int| 0 <= i < t.len() implies t[i] == flags[i] by {}
        if apply_flags(start, flags) is Ok {
            assert(apply_flags(start, t) is Ok);
            assert forall|i: int| 0 <= i < flags.len() implies is_known_flag(#[trigger] flags[i]) by {
                if i < t.len() {
                    assert(is_known_flag(t[i]));
                } else {
                    assert(flags[i] == flags.last());
                }
            }
        }
        if forall|i: int| 0 <= i < flags.len() ==> is_known_flag(#[trigger] flags[i]) {
            assert forall|i: int| 0 <= i < t.len() implies is_known_flag(#[trigger] t[i]) by {
                assert(is_known_flag(flags[i]));
            }
            assert(is_known_flag(flags[flags.len() - 1]));
        }
    }
}

/// `parse` accepts a command line exactly when its first argument is a command
/// word (`health`, `status`, `help`, `-h`, `--help`) or a known flag, and every
/// later argument is a known flag (`--json`, `-h`, `--help`,
/// `--api-base=<v>`); every other command line is refused.
pub proof fn lemma_parse_accepts_exactly_known_flags(args: Seq<Seq<char>>)
    ensures
        parse_spec(args) is Ok <==> forall|i: int|
            0 <= i < args.len() ==> ((i == 0 && is_command_word(args[i])) || is_known_flag(
                #[trigger] args[i],
            )),
{
    if args.len() > 0 && !is_command_word(args[0]) && is_known_flag(args[0]) {
        lemma_known_flags_are_dashed(args[0]);
    }
    match leading_command(args) {
        Err(_) => {
            if is_known_flag(args[0]) {
                lemma_known_flags_are_dashed(args[0]);
            }
            assert(!((0 == 0 && is_command_word(args[0])) || is_known_flag(args[0])));
        },
        Ok((command, used)) => {
            let flags = args.skip(used as int);
            let start = InvocationView { command, api_base: None, json: false };
            lemma_apply_flags_accepts_known(start, flags);
            if used == 1 {
                assert(is_command_word(args[0]));
                if forall|i: int|
                    0 <= i < args.len() ==> ((i == 0 && is_command_word(args[i])) || is_known_flag(
                        #[trigger] args[i],
                    )) {
                    assert forall|j: int| 0 <= j < flags.len() implies is_known_flag(
                        #[trigger] flags[j],
                    ) by {
                        assert(flags[j] == args[j + 1]);
                        assert((j + 1 == 0 && is_command_word(args[j + 1])) || is_known_flag(
                            args[j + 1],
                        ));
                    }
                }
                if apply_flags(start, flags) is Ok {
                    assert forall|i: int| 0 <= i < args.len() implies ((i == 0 && is_command_word(
                        args[i],
                    )) || is_known_flag(#[trigger] args[i])) by {
                        if i > 0 {
                            assert(args[i] == flags[i - 1]);
                            assert(is_known_flag(flags[i - 1]));
                        }
                    }
                }
            } else {
                assert(flags =~= args);
                if args.len() > 0 {
                    assert(!is_command_word(args[0]));
                }
            }
        },
    }
}

/// A command word followed only by known flags is always accepted, with the
/// command that the word names unless a help flag follows.
pub proof fn lemma_command_with_known_flags_is_accepted(word: Seq<char>, flags: Seq<Seq<char>>)
    requires
        word == "health"@ || word == "status"@,
        forall|i: int| 0 <= i < flags.len() ==> is_known_flag(#[trigger] flags[i]),
    ensures
        parse_spec(seq![word] + flags) is Ok,
        !has_help_flag(seq![word] + flags) ==> parse_spec(seq![word] + flags)->Ok_0.command == (
        if word == "health"@ {
            Command::Health
        } else {
            Command::Status
        }),
{
    let args = seq![word] + flags;
    assert(args[0] == word);
    assert forall|i: int| 0 <= i < args.len() implies ((i == 0 && is_command_word(args[i]))
        || is_known_flag(#[trigger] args[i])) by {
        if i > 0 {
            assert(args[i] == flags[i - 1]);
        }
    }
    lemma_parse_accepts_exactly_known_flags(args);
    lemma_parse_command_word(args);
    if word == "status"@ {
        assert(word != "health"@) by {
            reveal_strlit("health");
            reveal_strlit("status");
            assert("health"@[0] == 'h' && "status"@[0] == 's');
        }
    }
}

} // verus!
