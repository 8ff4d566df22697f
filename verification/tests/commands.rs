//! The command interpreter: exact commands, pseudo-calls, and the
//! literal-text fallback.

use gptshell::command::Command;
use gptshell::command::parse_command;
use gptshell::num::TempArg;

#[test]
fn exact_commands_match_trimmed() {
    assert_eq!(parse_command("exit()"), Command::Exit);
    assert_eq!(parse_command("  exit()  "), Command::Exit);
    assert_eq!(parse_command("help()"), Command::Help);
    assert_eq!(parse_command("print()"), Command::Print);
    assert_eq!(parse_command("empty()"), Command::Empty);
    assert_eq!(parse_command("clear()"), Command::Clear);
    assert_eq!(parse_command("log()"), Command::Log);
    assert_eq!(parse_command("chat()"), Command::Chat);
    assert_eq!(parse_command("complete()"), Command::Complete);
    assert_eq!(parse_command("models()"), Command::Models);
}

#[test]
fn file_call_reads_path_and_range() {
    assert_eq!(
        parse_command("file(\"a.txt\",1,2)"),
        Command::File { path: "a.txt".to_owned(), start: Some(1), end: Some(2) }
    );
    assert_eq!(
        parse_command("file(a.txt)"),
        Command::File { path: "a.txt".to_owned(), start: None, end: None }
    );
    assert_eq!(
        parse_command("cat(\"./main.rs\", 1, 12)"),
        Command::Cat { path: "./main.rs".to_owned(), start: Some(1), end: Some(12) }
    );
}

#[test]
fn file_call_rejects_bad_arguments() {
    assert_eq!(
        parse_command("file(\"a.txt\",x)"),
        Command::Invalid("line numbers must be whole numbers".to_owned())
    );
    assert_eq!(
        parse_command("cat(a,1,2,3)"),
        Command::Invalid("at most three arguments are allowed".to_owned())
    );
}

#[test]
fn numeric_calls_parse_their_argument() {
    assert_eq!(parse_command("max_tokens(500)"), Command::MaxTokens(500));
    assert_eq!(parse_command("max_tokens(-5)"), Command::MaxTokens(-5));
    assert_eq!(
        parse_command("max_tokens(lots)"),
        Command::Invalid("max_tokens takes a whole number".to_owned())
    );
    assert_eq!(
        parse_command("temperature(0.5)"),
        Command::Temperature(TempArg::InRange(500))
    );
    assert_eq!(
        parse_command("temperature(.5)"),
        Command::Temperature(TempArg::InRange(500))
    );
    assert_eq!(
        parse_command("temperature(1)"),
        Command::Temperature(TempArg::InRange(1000))
    );
    assert_eq!(
        parse_command("temperature(1.5)"),
        Command::Temperature(TempArg::OutOfRange)
    );
    assert_eq!(
        parse_command("temperature(-0.5)"),
        Command::Temperature(TempArg::OutOfRange)
    );
    assert_eq!(
        parse_command("temperature(warm)"),
        Command::Invalid("temperature takes a decimal number".to_owned())
    );
    assert_eq!(
        parse_command("temperature(0.1234)"),
        Command::Invalid("temperature takes a decimal number".to_owned())
    );
}

#[test]
fn model_and_export_strip_quotes() {
    assert_eq!(
        parse_command("model(\"code-cushman-001\")"),
        Command::Model("code-cushman-001".to_owned())
    );
    assert_eq!(
        parse_command("model(bogus-model)"),
        Command::Model("bogus-model".to_owned())
    );
    assert_eq!(
        parse_command("export(\"./history.json\")"),
        Command::Export { path: "./history.json".to_owned() }
    );
}

#[test]
fn anything_else_is_prompt_text() {
    assert_eq!(
        parse_command("tell me a story"),
        Command::Append("tell me a story".to_owned())
    );
    // An empty argument list matches no pseudo-call pattern.
    assert_eq!(parse_command("file()"), Command::Append("file()".to_owned()));
    // Pseudo-calls are anchored at the start of the raw line.
    assert_eq!(parse_command("  cat(x)"), Command::Append("  cat(x)".to_owned()));
    // Text after the closing parenthesis is ignored.
    assert_eq!(
        parse_command("model(x) trailing"),
        Command::Model("x".to_owned())
    );
}

#[test]
fn max_tokens_bounds_follow_i32() {
    assert_eq!(parse_command("max_tokens(2147483647)"), Command::MaxTokens(2147483647));
    assert_eq!(parse_command("max_tokens(-2147483648)"), Command::MaxTokens(-2147483648));
    assert_eq!(
        parse_command("max_tokens(2147483648)"),
        Command::Invalid("max_tokens takes a whole number".to_owned())
    );
    assert_eq!(
        parse_command("max_tokens( 300)"),
        Command::Invalid("max_tokens takes a whole number".to_owned())
    );
}
