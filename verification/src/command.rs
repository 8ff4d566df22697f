//! The command interpreter's front end: one line of input is either an
//! exact zero-argument command, a pseudo-call `name(args)` anchored at the
//! start of the line, or literal text for the prompt buffer.

use vstd::prelude::*;

verus! {

use crate::num::TempArg;
use crate::num::spec_parse_i32;
use crate::num::spec_parse_usize;
use crate::num::spec_parse_temp;
use crate::num::parse_i32_chars;
use crate::num::parse_usize_chars;
use crate::num::parse_temp_chars;
use crate::text::find_from;
use crate::text::find_char_from;
use crate::text::spec_trim;
use crate::text::spec_trim_quotes;
use crate::text::trim_chars;
use crate::text::split_commas;
use crate::text::split_commas_exec;
use crate::text::str_to_chars;
use crate::text::chars_to_string;
use crate::text::chars_range;
use crate::text::chars_eq_str;
use crate::text::opt_int;

/// The mathematical shape of a parsed line.
pub enum CommandV {
    Exit,
    Help,
    Print,
    Empty,
    Clear,
    Log,
    Chat,
    Complete,
    Models,
    Cat { path: Seq<char>, start: Option<int>, end: Option<int> },
    File { path: Seq<char>, start: Option<int>, end: Option<int> },
    Export { path: Seq<char> },
    MaxTokens(int),
    Model(Seq<char>),
    Temperature(TempArg),
    Invalid(Seq<char>),
    Append(Seq<char>),
}

/// What one line of input asks for.  An `Invalid` command carries the
/// report for a rejected argument and has no effect on the session; an
/// `Append` carries the raw line destined for the prompt buffer.
#[derive(Debug, PartialEq)]
pub enum Command {
    Exit,
    Help,
    Print,
    Empty,
    Clear,
    Log,
    Chat,
    Complete,
    Models,
    Cat { path: String, start: Option<usize>, end: Option<usize> },
    File { path: String, start: Option<usize>, end: Option<usize> },
    Export { path: String },
    MaxTokens(i32),
    Model(String),
    Temperature(TempArg),
    Invalid(String),
    Append(String),
}

impl View for Command {
    type V = CommandV;

    open spec fn view(&self) -> CommandV {
        match *self {
            Command::Exit => CommandV::Exit,
            Command::Help => CommandV::Help,
            Command::Print => CommandV::Print,
            Command::Empty => CommandV::Empty,
            Command::Clear => CommandV::Clear,
            Command::Log => CommandV::Log,
            Command::Chat => CommandV::Chat,
            Command::Complete => CommandV::Complete,
            Command::Models => CommandV::Models,
            Command::Cat { path, start, end } => CommandV::Cat {
                path: path@,
                start: opt_int(start),
                end: opt_int(end),
            },
            Command::File { path, start, end } => CommandV::File {
                path: path@,
                start: opt_int(start),
                end: opt_int(end),
            },
            Command::Export { path } => CommandV::Export { path: path@ },
            Command::MaxTokens(n) => CommandV::MaxTokens(n as int),
            Command::Model(s) => CommandV::Model(s@),
            Command::Temperature(t) => CommandV::Temperature(t),
            Command::Invalid(s) => CommandV::Invalid(s@),
            Command::Append(s) => CommandV::Append(s@),
        }
    }
}

/// The argument text of a pseudo-call: when the line begins with
/// `name(`, the non-empty run of characters up to the first closing
/// parenthesis.  Whatever follows that parenthesis is ignored.
pub open spec fn call_args(line: Seq<char>, name: Seq<char>) -> Option<Seq<char>> {
    if line.len() >= name.len() + 2 && line.subrange(0, name.len() as int) == name && line[name.len() as int]
        == '(' {
        match find_from(line, ')', name.len() + 1 as int) {
            Some(j) => if j > name.len() + 1 as int {
                Some(line.subrange(name.len() + 1 as int, j))
            } else {
                None
            },
            None => None,
        }
    } else {
        None
    }
}

/// How a line-range pseudo-call reads its arguments: a path stripped of
/// surrounding quotes, then up to two whitespace-trimmed line numbers.
pub open spec fn spec_file_cmd(content: Seq<char>, is_cat: bool) -> CommandV {
    let args = split_commas(content);
    if args.len() > 3 {
        CommandV::Invalid("at most three arguments are allowed"@)
    } else if args.len() > 1 && spec_parse_usize(spec_trim(args[1])) is None {
        CommandV::Invalid("line numbers must be whole numbers"@)
    } else if args.len() > 2 && spec_parse_usize(spec_trim(args[2])) is None {
        CommandV::Invalid("line numbers must be whole numbers"@)
    } else {
        let path = spec_trim_quotes(args[0]);
        let start = if args.len() > 1 {
            spec_parse_usize(spec_trim(args[1]))
        } else {
            None
        };
        let end = if args.len() > 2 {
            spec_parse_usize(spec_trim(args[2]))
        } else {
            None
        };
        if is_cat {
            CommandV::Cat { path, start, end }
        } else {
            CommandV::File { path, start, end }
        }
    }
}

/// What one line of input denotes.  Exact zero-argument commands are
/// matched against the whitespace-trimmed line; pseudo-calls are matched
/// anchored at the raw start of the line, in a fixed priority order; any
/// other line is literal prompt text.
pub open spec fn spec_parse_command(line: Seq<char>) -> CommandV {
    let t = spec_trim(line);
    if t == "exit()"@ {
        CommandV::Exit
    } else if t == "help()"@ {
        CommandV::Help
    } else if t == "print()"@ {
        CommandV::Print
    } else if t == "empty()"@ {
        CommandV::Empty
    } else if t == "clear()"@ {
        CommandV::Clear
    } else if t == "log()"@ {
        CommandV::Log
    } else if t == "chat()"@ {
        CommandV::Chat
    } else if t == "complete()"@ {
        CommandV::Complete
    } else if t == "models()"@ {
        CommandV::Models
    } else if call_args(line, "cat"@) is Some {
        spec_file_cmd(call_args(line, "cat"@)->0, true)
    } else if call_args(line, "file"@) is Some {
        spec_file_cmd(call_args(line, "file"@)->0, false)
    } else if call_args(line, "export"@) is Some {
        CommandV::Export { path: spec_trim_quotes(split_commas(call_args(line, "export"@)->0)[0]) }
    } else if call_args(line, "max_tokens"@) is Some {
        match spec_parse_i32(split_commas(call_args(line, "max_tokens"@)->0)[0]) {
            Some(x) => CommandV::MaxTokens(x),
            None => CommandV::Invalid("max_tokens takes a whole number"@),
        }
    } else if call_args(line, "model"@) is Some {
        CommandV::Model(spec_trim_quotes(split_commas(call_args(line, "model"@)->0)[0]))
    } else if call_args(line, "temperature"@) is Some {
        match spec_parse_temp(split_commas(call_args(line, "temperature"@)->0)[0]) {
            Some(t2) => CommandV::Temperature(t2),
            None => CommandV::Invalid("temperature takes a decimal number"@),
        }
    } else {
        CommandV::Append(line)
    }
}

/// Matches a pseudo-call pattern at the start of the line, yielding the
/// argument text's position.
fn match_call(v: &Vec<char>, name: &str) -> (r: Option<(usize, usize)>)
    ensures
        match r {
            Some((a, b)) => a <= b <= v@.len() && call_args(v@, name@) == Some(
                v@.subrange(a as int, b as int),
            ),
            None => call_args(v@, name@) is None,
        },
{
    let nm = str_to_chars(name);
    let nl = nm.len();
    if v.len() < 2 || v.len() - 2 < nl {
        return None;
    }
    let mut i: usize = 0;
    while i < nl
        invariant
            0 <= i <= nl == nm@.len(),
            nm@ == name@,
            v@.len() >= nl + 2,
            forall|k: int| 0 <= k < i ==> v@[k] == nm@[k],
        decreases nl - i,
    {
        if v[i] != nm[i] {
            proof {
                assert(v@.subrange(0, nl as int)[i as int] != name@[i as int]);
            }
            return None;
        }
        i += 1;
    }
    proof {
        assert(v@.subrange(0, nl as int) =~= name@);
    }
    if v[nl] != '(' {
        return None;
    }
    match find_char_from(v, ')', nl + 1) {
        Some(j) => {
            if j > nl + 1 {
                Some((nl + 1, j))
            } else {
                None
            }
        },
        None => None,
    }
}

/// Reads the arguments of a `cat` or `file` pseudo-call.
fn file_command(v: &Vec<char>, a: usize, b: usize, is_cat: bool) -> (r: Command)
    requires
        a <= b <= v@.len(),
    ensures
        r@ == spec_file_cmd(v@.subrange(a as int, b as int), is_cat),
{
    let content = chars_range(v, a, b);
    let args = split_commas_exec(&content);
    if args.len() > 3 {
        return Command::Invalid("at most three arguments are allowed".to_owned());
    }
    let start: Option<usize> = if args.len() > 1 {
        let t1 = trim_chars(&args[1], true);
        match parse_usize_chars(&t1) {
            Some(x) => Some(x),
            None => {
                return Command::Invalid("line numbers must be whole numbers".to_owned());
            },
        }
    } else {
        None
    };
    let end: Option<usize> = if args.len() > 2 {
        let t2 = trim_chars(&args[2], true);
        match parse_usize_chars(&t2) {
            Some(x) => Some(x),
            None => {
                return Command::Invalid("line numbers must be whole numbers".to_owned());
            },
        }
    } else {
        None
    };
    let path = chars_to_string(&trim_chars(&args[0], false));
    if is_cat {
        Command::Cat { path, start, end }
    } else {
        Command::File { path, start, end }
    }
}

/// Parses one line of input.
pub fn parse_command(line: &str) -> (r: Command)
    ensures
        r@ == spec_parse_command(line@),
{
    let chars = str_to_chars(line);
    let t = trim_chars(&chars, true);
    if chars_eq_str(&t, "exit()") {
        return Command::Exit;
    }
    if chars_eq_str(&t, "help()") {
        return Command::Help;
    }
    if chars_eq_str(&t, "print()") {
        return Command::Print;
    }
    if chars_eq_str(&t, "empty()") {
        return Command::Empty;
    }
    if chars_eq_str(&t, "clear()") {
        return Command::Clear;
    }
    if chars_eq_str(&t, "log()") {
        return Command::Log;
    }
    if chars_eq_str(&t, "chat()") {
        return Command::Chat;
    }
    if chars_eq_str(&t, "complete()") {
        return Command::Complete;
    }
    if chars_eq_str(&t, "models()") {
        return Command::Models;
    }
    if let Some((a, b)) = match_call(&chars, "cat") {
        return file_command(&chars, a, b, true);
    }
    if let Some((a, b)) = match_call(&chars, "file") {
        return file_command(&chars, a, b, false);
    }
    if let Some((a, b)) = match_call(&chars, "export") {
        let content = chars_range(&chars, a, b);
        let args = split_commas_exec(&content);
        let path = chars_to_string(&trim_chars(&args[0], false));
        return Command::Export { path };
    }
    if let Some((a, b)) = match_call(&chars, "max_tokens") {
        let content = chars_range(&chars, a, b);
        let args = split_commas_exec(&content);
        return match parse_i32_chars(&args[0]) {
            Some(x) => Command::MaxTokens(x),
            None => Command::Invalid("max_tokens takes a whole number".to_owned()),
        };
    }
    if let Some((a, b)) = match_call(&chars, "model") {
        let content = chars_range(&chars, a, b);
        let args = split_commas_exec(&content);
        let name = chars_to_string(&trim_chars(&args[0], false));
        return Command::Model(name);
    }
    if let Some((a, b)) = match_call(&chars, "temperature") {
        let content = chars_range(&chars, a, b);
        let args = split_commas_exec(&content);
        return match parse_temp_chars(&args[0]) {
            Some(t2) => Command::Temperature(t2),
            None => Command::Invalid("temperature takes a decimal number".to_owned()),
        };
    }
    Command::Append(line.to_owned())
}

} // verus!
