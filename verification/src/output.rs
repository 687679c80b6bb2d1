//! How the command line reports: the output format a user asked for, which
//! commands need a clear operation state, and the text of an error report.

use vstd::prelude::*;
use crate::error::ExitClass;
use crate::json::JsonValue;
use crate::text::{cat, cat3, owned, str_eq, substring, u64_to_decimal, decimal, views};

verus! {

/// The format of the tool's output.
#[derive(Debug, Clone, Copy, PartialEq, Eq, Structural)]
pub enum OutputFormat {
    Human,
    Json,
    Porcelain,
}

/// The format that the options ask for: JSON when `--json` or
/// `--format json` is given, else porcelain when `--porcelain` or
/// `--format porcelain` is, else human-readable text.
pub open spec fn spec_format(json: bool, porcelain: bool, format: Option<OutputFormat>) -> OutputFormat {
    if json || format == Some(OutputFormat::Json) {
        OutputFormat::Json
    } else if porcelain || format == Some(OutputFormat::Porcelain) {
        OutputFormat::Porcelain
    } else {
        OutputFormat::Human
    }
}

/// The format that the options ask for (see [`spec_format`]).
pub fn determine_format(json: bool, porcelain: bool, format: Option<OutputFormat>) -> (r: OutputFormat)
    ensures
        r == spec_format(json, porcelain, format),
{
    let wants_json = match format {
        Some(OutputFormat::Json) => true,
        _ => false,
    };
    let wants_porcelain = match format {
        Some(OutputFormat::Porcelain) => true,
        _ => false,
    };
    if json || wants_json {
        OutputFormat::Json
    } else if porcelain || wants_porcelain {
        OutputFormat::Porcelain
    } else {
        OutputFormat::Human
    }
}

/// Whether the raw arguments ask for format `name`: the flag `--<name>`,
/// `--format` followed by `<name>`, or `--format=<name>`.
pub open spec fn asks_for(args: Seq<Seq<char>>, name: Seq<char>) -> bool {
    ||| exists|i: int| 0 <= i < args.len() && #[trigger] args[i] == "--"@ + name
    ||| exists|i: int| 0 <= i < args.len() - 1 && #[trigger] args[i] == "--format"@ && args[i + 1] == name
    ||| exists|i: int| 0 <= i < args.len() && #[trigger] args[i] == "--format="@ + name
}

/// The format that raw arguments ask for, when they could not be parsed:
/// JSON, else porcelain, else human-readable text (see [`asks_for`]).
pub open spec fn spec_format_from_args(args: Seq<Seq<char>>) -> OutputFormat {
    if asks_for(args, "json"@) {
        OutputFormat::Json
    } else if asks_for(args, "porcelain"@) {
        OutputFormat::Porcelain
    } else {
        OutputFormat::Human
    }
}

/// Whether the raw arguments ask for format `name` (see [`asks_for`]).
fn args_ask_for(args: &Vec<String>, name: &str) -> (r: bool)
    ensures
        r == asks_for(views(args@), name@),
{
    let flag = cat("--", name);
    let assigned = cat("--format=", name);
    proof {
        reveal_strlit("--");
        reveal_strlit("--format=");
    }
    let mut i: usize = 0;
    while i < args.len()
        invariant
            flag@ == "--"@ + name@,
            assigned@ == "--format="@ + name@,
            i <= args@.len(),
            forall|j: int| 0 <= j < i ==> views(args@)[j] != flag@ && views(args@)[j] != assigned@,
            forall|j: int| 0 <= j < i && j < args@.len() - 1 ==> !(#[trigger] views(args@)[j] == "--format"@
                && views(args@)[j + 1] == name@),
        decreases args@.len() - i,
    {
        let a = args[i].as_str();
        if str_eq(a, flag.as_str()) || str_eq(a, assigned.as_str()) {
            proof {
                assert(views(args@)[i as int] == a@);
            }
            return true;
        }
        if i + 1 < args.len() && str_eq(a, "--format") && str_eq(args[i + 1].as_str(), name) {
            proof {
                assert(views(args@)[i as int] == a@);
                assert(views(args@)[i + 1] == args@[i + 1]@);
            }
            return true;
        }
        proof {
            assert(views(args@)[i as int] == a@);
            if i + 1 < args@.len() {
                assert(views(args@)[i + 1] == args@[i + 1]@);
            }
        }
        i += 1;
    }
    false
}

/// The format that raw arguments ask for (see [`spec_format_from_args`]).
pub fn detect_format_from_args(args: &Vec<String>) -> (r: OutputFormat)
    ensures
        r == spec_format_from_args(views(args@)),
{
    if args_ask_for(args, "json") {
        OutputFormat::Json
    } else if args_ask_for(args, "porcelain") {
        OutputFormat::Porcelain
    } else {
        OutputFormat::Human
    }
}

/// A character of a machine-readable field, escaped: backslash, newline,
/// carriage return and tab become `\\`, `\n`, `\r` and `\t`.
pub open spec fn escape_char(c: char) -> Seq<char> {
    if c == '\\' {
        seq!['\\', '\\']
    } else if c == '\n' {
        seq!['\\', 'n']
    } else if c == '\r' {
        seq!['\\', 'r']
    } else if c == '\t' {
        seq!['\\', 't']
    } else {
        seq![c]
    }
}

/// A machine-readable field with every character escaped (see [`escape_char`]).
pub open spec fn spec_escape(s: Seq<char>) -> Seq<char>
    decreases s.len(),
{
    if s.len() == 0 {
        seq![]
    } else {
        spec_escape(s.drop_last()) + escape_char(s.last())
    }
}

/// A field of a porcelain line, escaped (see [`spec_escape`]).
pub fn escape_machine_field(value: &str) -> (r: String)
    ensures
        r@ == spec_escape(value@),
{
    let chars = crate::text::to_chars(value);
    let mut out = String::new();
    let mut i: usize = 0;
    proof {
        assert(value@.take(0) =~= seq![]);
    }
    while i < chars.len()
        invariant
            chars@ == value@,
            i <= chars@.len(),
            out@ == spec_escape(value@.take(i as int)),
        decreases chars@.len() - i,
    {
        let c = chars[i];
        let ghost before = out@;
        if c == '\\' {
            out.append("\\\\");
            proof {
                reveal_strlit("\\\\");
                assert("\\\\"@ =~= seq!['\\', '\\']);
            }
        } else if c == '\n' {
            out.append("\\n");
            proof {
                reveal_strlit("\\n");
                assert("\\n"@ =~= seq!['\\', 'n']);
            }
        } else if c == '\r' {
            out.append("\\r");
            proof {
                reveal_strlit("\\r");
                assert("\\r"@ =~= seq!['\\', 'r']);
            }
        } else if c == '\t' {
            out.append("\\t");
            proof {
                reveal_strlit("\\t");
                assert("\\t"@ =~= seq!['\\', 't']);
            }
        } else {
            let one = substring(value, i, i + 1);
            proof {
                assert(one@ =~= seq![c]);
            }
            out.append(one.as_str());
        }
        proof {
            assert(value@.take(i + 1).drop_last() =~= value@.take(i as int));
            assert(value@.take(i + 1).last() == c);
            assert(out@ =~= before + escape_char(c));
            assert(out@ =~= spec_escape(value@.take(i + 1)));
        }
        i += 1;
    }
    proof {
        assert(value@.take(chars@.len() as int) =~= value@);
    }
    out
}

/// The commands of the tool.
#[derive(Debug, Clone, Copy, PartialEq, Eq, Structural)]
pub enum CommandKind {
    Workspace,
    Provider,
    Land,
    Append,
    Reorder,
    Move,
    Drop,
    Discover,
    Discovery,
    Adopt,
    List,
    Show,
    Status,
    Split,
    Join,
    Rebase,
    Restack,
    Verify,
    Id,
    Delete,
    Log,
    Diff,
    Graph,
    Steps,
    Review,
    Commits,
    Draft,
    Describe,
    Metadata,
    Policy,
    Layout,
    Normalize,
    Continue,
    Abort,
    Operation,
    Name,
    Rename,
    Unname,
    Tag,
    RevParse,
    Push,
    Fetch,
    Archive,
    Unarchive,
}

/// Whether a command may only run while no Staircase operation or external
/// Git operation is in progress: every command but those that only read,
/// configure or manage operations.
pub open spec fn spec_requires_clear_operation(kind: CommandKind) -> bool {
    !(kind == CommandKind::Workspace || kind == CommandKind::Provider || kind == CommandKind::Discover
        || kind == CommandKind::List || kind == CommandKind::Show || kind == CommandKind::Status
        || kind == CommandKind::Id || kind == CommandKind::Log || kind == CommandKind::Diff
        || kind == CommandKind::Graph || kind == CommandKind::Steps || kind == CommandKind::Commits
        || kind == CommandKind::RevParse || kind == CommandKind::Operation || kind == CommandKind::Continue
        || kind == CommandKind::Abort)
}

/// Whether the command needs a clear operation state (see
/// [`spec_requires_clear_operation`]).
pub fn requires_clear_operation(kind: CommandKind) -> (r: bool)
    ensures
        r == spec_requires_clear_operation(kind),
{
    match kind {
        CommandKind::Workspace | CommandKind::Provider | CommandKind::Discover | CommandKind::List
        | CommandKind::Show | CommandKind::Status | CommandKind::Id | CommandKind::Log | CommandKind::Diff
        | CommandKind::Graph | CommandKind::Steps | CommandKind::Commits | CommandKind::RevParse
        | CommandKind::Operation | CommandKind::Continue | CommandKind::Abort => false,
        _ => true,
    }
}

/// The line that reports an error in porcelain form:
/// `error<TAB><code><TAB><escaped message>`.
pub open spec fn spec_porcelain_error(code: Seq<char>, message: Seq<char>) -> Seq<char> {
    "error\t"@ + code + "\t"@ + spec_escape(message)
}

/// The line that reports an error to a person: `error [<code>]: <message>`.
pub open spec fn spec_human_error(code: Seq<char>, message: Seq<char>) -> Seq<char> {
    "error ["@ + code + "]: "@ + message
}

/// The line that reports an error in `format`; none for JSON, which
/// reports it as a diagnostic document (see [`error_diagnostic`]).
pub fn error_line(format: OutputFormat, code: &str, message: &str) -> (r: Option<String>)
    ensures
        format == OutputFormat::Json ==> r is None,
        format == OutputFormat::Porcelain ==> (r matches Some(l) && l@ == spec_porcelain_error(code@, message@)),
        format == OutputFormat::Human ==> (r matches Some(l) && l@ == spec_human_error(code@, message@)),
{
    match format {
        OutputFormat::Json => None,
        OutputFormat::Porcelain => {
            let escaped = escape_machine_field(message);
            let mut l = cat3("error\t", code, "\t");
            l.append(escaped.as_str());
            Some(l)
        },
        OutputFormat::Human => {
            let mut l = cat3("error [", code, "]: ");
            l.append(message);
            Some(l)
        },
    }
}

/// The JSON diagnostic of an error: an object whose member `error` holds
/// the code, the details, the exit status and the message, in name order.
pub fn error_diagnostic(code: &str, message: &str, class: ExitClass, details: JsonValue) -> (r: JsonValue)
    ensures
        r matches JsonValue::Object(outer) && outer@.len() == 1 && outer@[0].0@ == "error"@
            && (outer@[0].1 matches JsonValue::Object(m) && m@.len() == 4
                && m@[0].0@ == "code"@ && (m@[0].1 matches JsonValue::String(c) && c@ == code@)
                && m@[1].0@ == "details"@ && m@[1].1 == details
                && m@[2].0@ == "exit_status"@ && (m@[2].1 matches JsonValue::Number(n)
                    && n@ == decimal(class.spec_status() as nat))
                && m@[3].0@ == "message"@ && (m@[3].1 matches JsonValue::String(t) && t@ == message@)),
{
    let status = class.status();
    proof {
        assert(1 <= status <= 7);
    }
    let status_text = u64_to_decimal(status as u64);
    let inner = vec![
        (owned("code"), JsonValue::String(owned(code))),
        (owned("details"), details),
        (owned("exit_status"), JsonValue::Number(status_text)),
        (owned("message"), JsonValue::String(owned(message))),
    ];
    JsonValue::Object(vec![(owned("error"), JsonValue::Object(inner))])
}

} // verus!
