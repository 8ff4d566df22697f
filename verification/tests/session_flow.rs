//! The session state machine: prompt accumulation, configuration changes,
//! and the chat and completion turns against canned response bodies.

use gptshell::chat::GptChat;
use gptshell::chat::History;
use gptshell::chat::Message;
use gptshell::err::ErrorKind;
use gptshell::session::Action;
use gptshell::session::Session;
use gptshell::session::apply_completion_response;

fn chat_success_body(reply: &str) -> String {
    let mut body = String::new();
    body.push_str("{\"id\":\"chatcmpl-1\",\"object\":\"chat.completion\",\"created_at\":1,");
    body.push_str("\"choices\":[{\"message\":{\"role\":\"assistant\",\"content\":\"");
    body.push_str(reply);
    body.push_str("\"},\"index\":0,\"logprobs\":null,\"finish_reason\":\"stop\"}],");
    body.push_str("\"usage\":{\"prompt_tokens\":1,\"completion_tokens\":1,\"total_tokens\":2}}");
    body
}

#[test]
fn defaults_are_the_documented_ones() {
    let s = Session::new();
    assert_eq!(s.config.model, "gpt-3.5-turbo");
    assert_eq!(s.config.max_tokens, 300);
    assert_eq!(s.config.temperature, 700);
    assert_eq!(s.history, "");
    assert_eq!(s.chat_history.get_all().len(), 0);
}

#[test]
fn append_file_text_selects_the_range() {
    // Lines 1-3 of the file, each newline-terminated, and nothing else.
    let mut s = Session::new();
    s.append_file_text("a\nb\nc\nd\n", Some(1), Some(3));
    assert_eq!(s.history, "a\nb\nc\n");
    // A second call appends after the existing buffer.
    s.append_file_text("x\ny\nz", Some(1), Some(3));
    assert_eq!(s.history, "a\nb\nc\nx\ny\nz\n");
}

#[test]
fn file_scenario_selects_one_line() {
    // file("a.txt",2,2) where a.txt holds three lines x, y, z.
    let mut s = Session::new();
    let action = s.handle_line("file(\"a.txt\",2,2)");
    assert_eq!(
        action,
        Action::ReadFileForPrompt { path: "a.txt".to_owned(), start: Some(2), end: Some(2) }
    );
    s.append_file_text("x\ny\nz", Some(2), Some(2));
    assert_eq!(s.history, "y\n");
}

#[test]
fn completion_scenario_drops_blank_lines() {
    let mut s = Session::new();
    s.append_file_text("x\ny\nz", Some(2), Some(2));
    let action = s.handle_line("complete()");
    let body = match action {
        Action::SendCompletion { body } => body,
        other => panic!("unexpected action: {:?}", other),
    };
    assert_eq!(
        body,
        "{\"model\":\"gpt-3.5-turbo\",\"prompt\":[\"y\\n\"],\"temperature\":0.7,\"max_tokens\":300}"
    );
    // The prompt buffer is cleared whatever the outcome.
    assert_eq!(s.history, "");
    let response = "{\"id\":\"cmpl-1\",\"object\":\"text_completion\",\"created\":1,\
                    \"model\":\"code-cushman-001\",\
                    \"choices\":[{\"text\":\"ok\\n\\nresult\",\"finish_reason\":\"stop\",\"index\":0,\"logprobs\":null}],\
                    \"usage\":{\"prompt_tokens\":1,\"completion_tokens\":1,\"total_tokens\":2}}";
    let out = apply_completion_response(response.to_owned()).expect("a well-formed response");
    assert_eq!(out, "ok\nresult\n");
}

#[test]
fn completion_never_touches_the_transcript() {
    let mut s = Session::new();
    s.handle_line("hello");
    s.handle_line("chat()");
    let _ = s.apply_chat_response(chat_success_body("hi"));
    assert_eq!(s.chat_history.get_all().len(), 2);
    s.handle_line("more");
    let _ = s.handle_line("complete()");
    let _ = apply_completion_response("not even a document".to_owned());
    assert_eq!(s.chat_history.get_all().len(), 2);
}

#[test]
fn chat_turn_appends_user_and_assistant() {
    let mut s = Session::new();
    s.handle_line("hello there");
    let action = s.handle_line("chat()");
    match &action {
        Action::SendChat { body } => {
            assert!(body.contains("\"hello there\""));
            assert!(body.contains("\"model\":\"gpt-3.5-turbo\""));
        },
        other => panic!("unexpected action: {:?}", other),
    }
    let msgs = s.chat_history.get_all();
    assert_eq!(msgs.len(), 1);
    assert_eq!(msgs[0].role.as_deref(), Some("user"));
    assert_eq!(msgs[0].content.as_deref(), Some("hello there"));
    assert_eq!(s.history, "");
    let out = s.apply_chat_response(chat_success_body("well hello")).expect("a success body");
    assert_eq!(out, "well hello\n");
    let msgs = s.chat_history.get_all();
    assert_eq!(msgs.len(), 2);
    assert_eq!(msgs[1].role.as_deref(), Some("assistant"));
    assert_eq!(msgs[1].content.as_deref(), Some("well hello"));
}

#[test]
fn chat_error_envelope_keeps_user_message_only() {
    // model("bogus-model") then chat() against an endpoint answering the
    // error envelope: the session reports an ApiError holding the message
    // and the transcript gains no assistant message.
    let mut s = Session::new();
    s.handle_line("model(\"bogus-model\")");
    assert_eq!(s.config.model, "bogus-model");
    s.handle_line("hello?");
    let action = s.handle_line("chat()");
    match &action {
        Action::SendChat { body } => assert!(body.contains("\"model\":\"bogus-model\"")),
        other => panic!("unexpected action: {:?}", other),
    }
    let envelope =
        "{\"error\":{\"message\":\"model not found\",\"type\":\"invalid_request_error\"}}";
    let err = s.apply_chat_response(envelope.to_owned()).expect_err("an error envelope");
    assert_eq!(err.kind, ErrorKind::Api);
    assert!(err.message.contains("model not found"));
    let msgs = s.chat_history.get_all();
    assert_eq!(msgs.len(), 1);
    assert_eq!(msgs[0].role.as_deref(), Some("user"));
}

#[test]
fn unreadable_chat_body_is_a_parse_error() {
    let mut s = Session::new();
    s.handle_line("hi");
    s.handle_line("chat()");
    let err = s.apply_chat_response("{\"half\":".to_owned()).expect_err("a broken body");
    assert_eq!(err.kind, ErrorKind::Parse);
    assert_eq!(s.chat_history.get_all().len(), 1);
}

#[test]
fn out_of_range_temperature_leaves_the_setting() {
    let mut s = Session::new();
    assert_eq!(s.config.temperature, 700);
    let action = s.handle_line("temperature(1.5)");
    assert_eq!(
        action,
        Action::ShowError("temperature must be between 0 and 1".to_owned())
    );
    assert_eq!(s.config.temperature, 700);
    s.handle_line("temperature(0.25)");
    assert_eq!(s.config.temperature, 250);
    s.handle_line("temperature(-1)");
    assert_eq!(s.config.temperature, 250);
}

#[test]
fn local_commands_change_the_session() {
    let mut s = Session::new();
    s.handle_line("some text");
    assert_eq!(s.history, "some text");
    assert_eq!(
        s.handle_line("print()"),
        Action::Show(vec!["some text".to_owned()])
    );
    s.handle_line("empty()");
    assert_eq!(s.history, "");
    s.handle_line("max_tokens(2048)");
    assert_eq!(s.config.max_tokens, 2048);
    assert_eq!(s.handle_line("exit()"), Action::Quit);
}

#[test]
fn clear_empties_buffer_and_transcript() {
    let mut s = Session::new();
    s.handle_line("hello");
    s.handle_line("chat()");
    let _ = s.apply_chat_response(chat_success_body("hi"));
    s.handle_line("leftover");
    s.handle_line("clear()");
    assert_eq!(s.history, "");
    assert_eq!(s.chat_history.get_all().len(), 0);
}

#[test]
fn export_action_carries_the_document() {
    let mut s = Session::new();
    s.handle_line("hi");
    s.handle_line("chat()");
    let _ = s.apply_chat_response(chat_success_body("hello"));
    let action = s.handle_line("export(\"t.json\")");
    let (path, body) = match action {
        Action::WriteExport { path, body } => (path, body),
        other => panic!("unexpected action: {:?}", other),
    };
    assert_eq!(path, "t.json");
    let back = gptshell::chat::parse_transcript(&body).expect("the export parses");
    assert_eq!(back.len(), 2);
    assert_eq!(back[0].content.as_deref(), Some("hi"));
    assert_eq!(back[1].content.as_deref(), Some("hello"));
    // The transcript itself is untouched by the export.
    assert_eq!(s.chat_history.get_all().len(), 2);
}

#[test]
fn history_pop_removes_the_last_message() {
    let mut h = GptChat::new();
    h.add(Message { role: Some("user".to_owned()), content: Some("a".to_owned()) });
    h.add(Message { role: Some("assistant".to_owned()), content: Some("b".to_owned()) });
    h.pop();
    let all = h.get_all();
    assert_eq!(all.len(), 1);
    assert_eq!(all[0].content.as_deref(), Some("a"));
    h.pop();
    h.pop();
    assert_eq!(h.get_all().len(), 0);
    h.add(Message { role: None, content: None });
    h.flush();
    assert_eq!(h.get_all().len(), 0);
}

#[test]
fn only_the_first_choice_is_taken() {
    let mut s = Session::new();
    s.handle_line("hi");
    s.handle_line("chat()");
    let body = "{\"id\":\"chatcmpl-1\",\
                \"choices\":[\
                {\"message\":{\"role\":\"assistant\",\"content\":\"first\"},\"index\":0},\
                {\"message\":{\"role\":\"assistant\",\"content\":\"second\"},\"index\":1}]}";
    let out = s.apply_chat_response(body.to_owned()).expect("a success body");
    assert_eq!(out, "first\n");
    let msgs = s.chat_history.get_all();
    assert_eq!(msgs.len(), 2);
    assert_eq!(msgs[1].content.as_deref(), Some("first"));
}

#[test]
fn log_shows_the_transcript() {
    let mut s = Session::new();
    let action = s.handle_line("log()");
    assert_eq!(
        action,
        Action::Show(vec!["There is no current chat history to display".to_owned()])
    );
    s.handle_line("hello");
    s.handle_line("chat()");
    let _ = s.apply_chat_response(chat_success_body("hi"));
    let action = s.handle_line("log()");
    let lines = match action {
        Action::Show(lines) => lines,
        other => panic!("unexpected action: {:?}", other),
    };
    assert_eq!(lines.len(), 6);
    assert_eq!(lines[0], "Current log of chat history: ");
    assert_eq!(lines[1], "User: \"user\"");
    assert_eq!(lines[2], "Message: hello");
    assert_eq!(lines[3], "User: \"assistant\"");
    assert_eq!(lines[4], "Message: hi");
    assert_eq!(lines[5], "Current query: ");
}

#[test]
fn windows_line_endings_are_normalised() {
    let mut s = Session::new();
    s.append_file_text("a\r\nb\r\nc", None, None);
    assert_eq!(s.history, "a\nb\nc\n");
}

#[test]
fn range_beyond_the_file_selects_what_exists() {
    let mut s = Session::new();
    s.append_file_text("a\nb", Some(2), Some(9), );
    assert_eq!(s.history, "b\n");
    s.handle_line("empty()");
    s.append_file_text("a\nb", Some(5), Some(9));
    assert_eq!(s.history, "");
}
