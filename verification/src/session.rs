//! The session state machine: one line of input moves the session — prompt
//! buffer, transcript, configuration — to its next state and names the one
//! outside action the caller must perform.  The caller does the I/O and
//! hands results back to the apply functions here.

use vstd::prelude::*;

verus! {

use vstd::string::StringExecFns;

use crate::chat::GptChat;
use crate::chat::History;
use crate::chat::MessageHistory;
use crate::chat::Message;
use crate::chat::MessageV;
use crate::chat::ChatCreateCompletionParams;
use crate::chat::ChatParamsV;
use crate::chat::Response;
use crate::chat::spec_chat_body;
use crate::chat::spec_chat_output;
use crate::chat::spec_first_reply;
use crate::chat::spec_decode_chat;
use crate::chat::spec_decode_error_resp;
use crate::chat::spec_user_msg;
use crate::chat::spec_export;
use crate::chat::generate_message_from_prompt;
use crate::chat::export_transcript;
use crate::chat::parse_chat_response;
use crate::chat::msg_views;
use crate::command::Command;
use crate::command::CommandV;
use crate::command::parse_command;
use crate::command::spec_parse_command;
use crate::completion::CodeCompletionCreateParams;
use crate::completion::CompletionParamsV;
use crate::completion::spec_completion_body;
use crate::completion::spec_completion_output;
use crate::completion::spec_decode_completion;
use crate::completion::parse_completion_response;
use crate::err::ApiError;
use crate::err::ErrorKind;
use crate::json::spec_parse_doc;
use crate::models::Models;
use crate::num::TempArg;
use crate::num::spec_int_str;
use crate::num::spec_temp_str;
use crate::num::i32_to_chars;
use crate::num::temp_to_chars;
use crate::text::chars_to_string;
use crate::text::str_to_chars;
use crate::text::push_chars;
use crate::text::spec_file_text;
use crate::text::select_file_text;
use crate::text::opt_int;

/// The mathematical shape of the session configuration.
pub struct ConfigV {
    pub model: Seq<char>,
    pub max_tokens: int,
    pub temperature: int,
}

/// The current model, token limit, and temperature.  The temperature is
/// held in thousandths of the unit interval.  The token limit is passed
/// through to the service unvalidated; the service itself enforces each
/// model's bound.
pub struct SessionConfig {
    pub model: String,
    pub max_tokens: i32,
    pub temperature: u32,
}

impl View for SessionConfig {
    type V = ConfigV;

    open spec fn view(&self) -> ConfigV {
        ConfigV {
            model: self.model@,
            max_tokens: self.max_tokens as int,
            temperature: self.temperature as int,
        }
    }
}

/// The mathematical shape of a whole session.
pub struct SessionV {
    pub history: Seq<char>,
    pub transcript: Seq<MessageV>,
    pub config: ConfigV,
}

/// The running session: the prompt buffer under construction, the chat
/// transcript, and the configuration.
pub struct Session {
    pub history: String,
    pub chat_history: GptChat,
    pub config: SessionConfig,
}

impl View for Session {
    type V = SessionV;

    open spec fn view(&self) -> SessionV {
        SessionV { history: self.history@, transcript: self.chat_history@, config: self.config@ }
    }
}

/// A session in a usable state: its temperature lies in the unit interval.
pub open spec fn session_wf(s: SessionV) -> bool {
    0 <= s.config.temperature <= 1000
}

/// The mathematical shape of what the caller must do next.
pub enum ActionV {
    /// Nothing; the command was handled in place.
    Handled,
    /// End the session loop.
    Quit,
    /// Print these lines.
    Show(Seq<Seq<char>>),
    /// Report this rejected input; the session is unchanged.
    ShowError(Seq<char>),
    /// Print the help text.
    ShowHelp,
    /// Print the model overview.
    ShowModels,
    /// Read the file and hand its contents to `cat_display`.
    ReadFileForCat { path: Seq<char>, start: Option<int>, end: Option<int> },
    /// Read the file and hand its contents to `append_file_text`.
    ReadFileForPrompt { path: Seq<char>, start: Option<int>, end: Option<int> },
    /// Write this document to the file.
    WriteExport { path: Seq<char>, body: Seq<char> },
    /// Post this body to the chat endpoint and hand the response body to
    /// `apply_chat_response`.
    SendChat { body: Seq<char> },
    /// Post this body to the completion endpoint and hand the response
    /// body to `apply_completion_response`.
    SendCompletion { body: Seq<char> },
}

/// What the caller must do after a line is handled.
#[derive(Debug, PartialEq)]
pub enum Action {
    Handled,
    Quit,
    Show(Vec<String>),
    ShowError(String),
    ShowHelp,
    ShowModels,
    ReadFileForCat { path: String, start: Option<usize>, end: Option<usize> },
    ReadFileForPrompt { path: String, start: Option<usize>, end: Option<usize> },
    WriteExport { path: String, body: String },
    SendChat { body: String },
    SendCompletion { body: String },
}

impl View for Action {
    type V = ActionV;

    open spec fn view(&self) -> ActionV {
        match self {
            Action::Handled => ActionV::Handled,
            Action::Quit => ActionV::Quit,
            Action::Show(lines) => ActionV::Show(lines@.map_values(|s: String| s@)),
            Action::ShowError(msg) => ActionV::ShowError(msg@),
            Action::ShowHelp => ActionV::ShowHelp,
            Action::ShowModels => ActionV::ShowModels,
            Action::ReadFileForCat { path, start, end } => ActionV::ReadFileForCat {
                path: path@,
                start: opt_int(*start),
                end: opt_int(*end),
            },
            Action::ReadFileForPrompt { path, start, end } => ActionV::ReadFileForPrompt {
                path: path@,
                start: opt_int(*start),
                end: opt_int(*end),
            },
            Action::WriteExport { path, body } => ActionV::WriteExport {
                path: path@,
                body: body@,
            },
            Action::SendChat { body } => ActionV::SendChat { body: body@ },
            Action::SendCompletion { body } => ActionV::SendCompletion { body: body@ },
        }
    }
}

/// An optional text, or nothing.
pub open spec fn opt_or_empty(o: Option<Seq<char>>) -> Seq<char> {
    match o {
        Some(s) => s,
        None => Seq::empty(),
    }
}

/// The two display lines of one logged message; a missing role or content
/// shows as empty.
pub open spec fn spec_log_msg_lines(m: MessageV) -> Seq<Seq<char>> {
    seq![
        "User: \""@ + opt_or_empty(m.role) + seq!['"'],
        "Message: "@ + opt_or_empty(m.content),
    ]
}

/// The display lines of the messages from index `i` on.
pub open spec fn spec_log_from(msgs: Seq<MessageV>, i: int) -> Seq<Seq<char>>
    decreases msgs.len() - i,
    when 0 <= i <= msgs.len()
{
    if i >= msgs.len() {
        Seq::empty()
    } else {
        spec_log_msg_lines(msgs[i]) + spec_log_from(msgs, i + 1)
    }
}

/// The full transcript display: a header, two lines per message, and a
/// closing prompt, or a notice when the transcript is empty.
pub open spec fn spec_log_lines(msgs: Seq<MessageV>) -> Seq<Seq<char>> {
    if msgs.len() == 0 {
        seq!["There is no current chat history to display"@]
    } else {
        seq!["Current log of chat history: "@] + spec_log_from(msgs, 0) + seq![
            "Current query: "@,
        ]
    }
}

/// Renders an optional string, or nothing.
fn push_opt_string(acc: &mut Vec<char>, o: &Option<String>)
    ensures
        final(acc)@ == old(acc)@ + opt_or_empty(crate::chat::opt_str_view(*o)),
{
    match o {
        Some(s) => {
            let cs = str_to_chars(s.as_str());
            push_chars(acc, &cs);
        },
        None => {
            proof {
                assert(acc@ =~= old(acc)@ + Seq::<char>::empty());
            }
        },
    }
}

/// Renders the transcript for the `log()` command.
pub fn log_lines(msgs: &Vec<Message>) -> (r: Vec<String>)
    ensures
        r@.map_values(|s: String| s@) == spec_log_lines(msg_views(msgs@)),
{
    let ghost msgsv = msg_views(msgs@);
    let mut out: Vec<String> = Vec::new();
    if msgs.len() == 0 {
        out.push("There is no current chat history to display".to_owned());
        proof {
            assert(out@.map_values(|s: String| s@) =~~= spec_log_lines(msgsv));
        }
        return out;
    }
    out.push("Current log of chat history: ".to_owned());
    let n = msgs.len();
    let mut i: usize = 0;
    proof {
        lemma_log_from_len(msgsv, 0);
        assert(out@.map_values(|s: String| s@) =~~= seq!["Current log of chat history: "@]
            + spec_log_from(msgsv, 0).subrange(0, 0));
    }
    while i < n
        invariant
            0 <= i <= n == msgs@.len(),
            n == msgsv.len(),
            forall|k: int| 0 <= k < n ==> msgsv[k] == msgs@[k]@,
            out@.map_values(|s: String| s@) =~~= seq!["Current log of chat history: "@]
                + spec_log_from(msgsv, 0).subrange(0, 2 * i as int),
            spec_log_from(msgsv, 0).len() == 2 * n,
        decreases n - i,
    {
        proof {
            lemma_log_from_len(msgsv, i as int);
            lemma_log_from_index(msgsv, 0, i as int);
        }
        let ghost out0 = out@;
        let m = &msgs[i];
        let mut l1: Vec<char> = str_to_chars("User: \"");
        push_opt_string(&mut l1, &m.role);
        l1.push('"');
        proof {
            assert(l1@ =~= spec_log_msg_lines(msgsv[i as int])[0]);
        }
        out.push(chars_to_string(&l1));
        let mut l2: Vec<char> = str_to_chars("Message: ");
        push_opt_string(&mut l2, &m.content);
        proof {
            assert(l2@ =~= spec_log_msg_lines(msgsv[i as int])[1]);
        }
        out.push(chars_to_string(&l2));
        proof {
            let f = spec_log_from(msgsv, 0);
            let got = out@.map_values(|s: String| s@);
            let prev = out0.map_values(|s: String| s@);
            let target = seq!["Current log of chat history: "@] + f.subrange(0, 2 * (i + 1));
            assert(f.len() == 2 * n);
            assert(i < n);
            assert(prev.len() == out0.len());
            assert(prev =~= seq!["Current log of chat history: "@] + f.subrange(0, 2 * i as int));
            assert(out0.len() == 1 + 2 * i);
            assert(out@.len() == out0.len() + 2);
            assert(got.len() == 3 + 2 * i);
            assert(target.len() == 3 + 2 * i);
            assert forall|k: int| 0 <= k < got.len() implies got[k] == target[k] by {
                if k < 1 + 2 * i {
                    assert(out@[k] == out0[k]);
                    assert(got[k] == prev[k]);
                    assert(target[k] == prev[k]);
                } else if k == 1 + 2 * i {
                    assert(got[k] == spec_log_msg_lines(msgsv[i as int])[0]);
                    assert(target[k] == f[2 * i as int]);
                } else {
                    assert(got[k] == spec_log_msg_lines(msgsv[i as int])[1]);
                    assert(target[k] == f[2 * i + 1]);
                }
            }
            assert(got =~= target);
        }
        i += 1;
    }
    out.push("Current query: ".to_owned());
    proof {
        assert(spec_log_from(msgsv, 0).subrange(0, 2 * n as int) =~~= spec_log_from(msgsv, 0));
        assert(out@.map_values(|s: String| s@) =~~= spec_log_lines(msgsv));
    }
    out
}

/// Two display lines per remaining message.
proof fn lemma_log_from_len(msgs: Seq<MessageV>, i: int)
    requires
        0 <= i <= msgs.len(),
    ensures
        spec_log_from(msgs, i).len() == 2 * (msgs.len() - i),
    decreases msgs.len() - i,
{
    if i < msgs.len() {
        lemma_log_from_len(msgs, i + 1);
    }
}

/// Where one message's lines stand in the flattened display.
proof fn lemma_log_from_index(msgs: Seq<MessageV>, i: int, k: int)
    requires
        0 <= i <= k < msgs.len(),
    ensures
        spec_log_from(msgs, i).len() == 2 * (msgs.len() - i),
        spec_log_from(msgs, i)[2 * (k - i)] == spec_log_msg_lines(msgs[k])[0],
        spec_log_from(msgs, i)[2 * (k - i) + 1] == spec_log_msg_lines(msgs[k])[1],
    decreases msgs.len() - i,
{
    lemma_log_from_len(msgs, i);
    if i < k {
        lemma_log_from_index(msgs, i + 1, k);
    } else {
        lemma_log_from_len(msgs, i + 1);
    }
}

/// How one line of input moves the session, and what it asks of the
/// caller.
pub open spec fn spec_handle_line(s: SessionV, line: Seq<char>) -> (SessionV, ActionV) {
    match spec_parse_command(line) {
        CommandV::Exit => (s, ActionV::Quit),
        CommandV::Help => (s, ActionV::ShowHelp),
        CommandV::Print => (s, ActionV::Show(seq![s.history])),
        CommandV::Empty => (
            SessionV { history: Seq::empty(), transcript: s.transcript, config: s.config },
            ActionV::Handled,
        ),
        CommandV::Clear => (
            SessionV { history: Seq::empty(), transcript: Seq::empty(), config: s.config },
            ActionV::Handled,
        ),
        CommandV::Log => (s, ActionV::Show(spec_log_lines(s.transcript))),
        CommandV::Chat => {
            let t2 = s.transcript.push(spec_user_msg(s.history));
            let body = spec_chat_body(
                ChatParamsV {
                    model: Some(s.config.model),
                    messages: Some(t2),
                    temperature: Some(s.config.temperature),
                    max_tokens: Some(s.config.max_tokens),
                },
            );
            (
                SessionV { history: Seq::empty(), transcript: t2, config: s.config },
                ActionV::SendChat { body },
            )
        },
        CommandV::Complete => {
            let body = spec_completion_body(
                CompletionParamsV {
                    model: s.config.model,
                    max_tokens: s.config.max_tokens,
                    temperature: s.config.temperature,
                    prompt: seq![s.history],
                },
            );
            (
                SessionV { history: Seq::empty(), transcript: s.transcript, config: s.config },
                ActionV::SendCompletion { body },
            )
        },
        CommandV::Models => (s, ActionV::ShowModels),
        CommandV::Cat { path, start, end } => (s, ActionV::ReadFileForCat { path, start, end }),
        CommandV::File { path, start, end } => (
            s,
            ActionV::ReadFileForPrompt { path, start, end },
        ),
        CommandV::Export { path } => (
            s,
            ActionV::WriteExport { path, body: spec_export(s.transcript) },
        ),
        CommandV::MaxTokens(n) => (
            SessionV {
                history: s.history,
                transcript: s.transcript,
                config: ConfigV {
                    model: s.config.model,
                    max_tokens: n,
                    temperature: s.config.temperature,
                },
            },
            ActionV::Show(seq!["Setting max tokens to "@ + spec_int_str(n)]),
        ),
        CommandV::Model(name) => (
            SessionV {
                history: s.history,
                transcript: s.transcript,
                config: ConfigV {
                    model: name,
                    max_tokens: s.config.max_tokens,
                    temperature: s.config.temperature,
                },
            },
            ActionV::Show(seq!["Setting model to "@ + name]),
        ),
        CommandV::Temperature(arg) => match arg {
            TempArg::InRange(t) => (
                SessionV {
                    history: s.history,
                    transcript: s.transcript,
                    config: ConfigV {
                        model: s.config.model,
                        max_tokens: s.config.max_tokens,
                        temperature: t as int,
                    },
                },
                ActionV::Show(seq!["Setting temperature to "@ + spec_temp_str(t as int)]),
            ),
            TempArg::OutOfRange => (s, ActionV::ShowError("temperature must be between 0 and 1"@)),
        },
        CommandV::Invalid(msg) => (s, ActionV::ShowError(msg)),
        CommandV::Append(text) => (
            SessionV { history: s.history + text, transcript: s.transcript, config: s.config },
            ActionV::Handled,
        ),
    }
}

impl Session {
    /// A fresh session with the default configuration.
    pub fn new() -> (r: Session)
        ensures
            r@.history == Seq::<char>::empty(),
            r@.transcript == Seq::<MessageV>::empty(),
            r@.config.model == Models::Gpt35Turbo.spec_name(),
            r@.config.max_tokens == 300,
            r@.config.temperature == 700,
            session_wf(r@),
    {
        Session {
            history: String::new(),
            chat_history: GptChat::new(),
            config: SessionConfig {
                model: Models::Gpt35Turbo.name().to_owned(),
                max_tokens: 300,
                temperature: 700,
            },
        }
    }

    /// Handles one line of input: applies any local effect and reports the
    /// outside action the caller must perform.
    pub fn handle_line(&mut self, line: &str) -> (r: Action)
        requires
            session_wf(old(self)@),
        ensures
            session_wf(final(self)@),
            (final(self)@, r@) == spec_handle_line(old(self)@, line@),
    {
        let cmd = parse_command(line);
        match cmd {
            Command::Exit => Action::Quit,
            Command::Help => Action::ShowHelp,
            Command::Print => {
                let mut lines: Vec<String> = Vec::new();
                lines.push(self.history.clone());
                proof {
                    assert(lines@.map_values(|s: String| s@) =~= seq![self.history@]);
                }
                Action::Show(lines)
            },
            Command::Empty => {
                self.history = String::new();
                Action::Handled
            },
            Command::Clear => {
                self.chat_history.flush();
                self.history = String::new();
                Action::Handled
            },
            Command::Log => {
                let msgs = self.chat_history.get_all();
                proof {
                    assert(msg_views(msgs@) =~= self.chat_history@);
                }
                Action::Show(log_lines(&msgs))
            },
            Command::Chat => {
                let msg = generate_message_from_prompt(self.history.as_str());
                self.chat_history.add(msg);
                let params = ChatCreateCompletionParams {
                    model: Some(self.config.model.clone()),
                    messages: Some(self.chat_history.get_all()),
                    temperature: Some(self.config.temperature),
                    max_tokens: Some(self.config.max_tokens),
                };
                proof {
                    assert(msg_views(params.messages->0@) =~= self.chat_history@);
                }
                let body = params.to_body();
                self.history = String::new();
                Action::SendChat { body }
            },
            Command::Complete => {
                let params = CodeCompletionCreateParams {
                    model: self.config.model.clone(),
                    max_tokens: self.config.max_tokens,
                    temperature: self.config.temperature,
                    prompt: crate::text::string_to_vec(self.history.as_str()),
                };
                proof {
                    assert(params@.prompt =~= seq![self.history@]);
                }
                let body = params.to_body();
                self.history = String::new();
                Action::SendCompletion { body }
            },
            Command::Models => Action::ShowModels,
            Command::Cat { path, start, end } => Action::ReadFileForCat { path, start, end },
            Command::File { path, start, end } => Action::ReadFileForPrompt { path, start, end },
            Command::Export { path } => {
                let msgs = self.chat_history.get_all();
                proof {
                    assert(msg_views(msgs@) =~= self.chat_history@);
                }
                let body = export_transcript(&msgs);
                Action::WriteExport { path, body }
            },
            Command::MaxTokens(n) => {
                self.config.max_tokens = n;
                let mut acc: Vec<char> = str_to_chars("Setting max tokens to ");
                push_chars(&mut acc, &i32_to_chars(n));
                let mut lines: Vec<String> = Vec::new();
                lines.push(chars_to_string(&acc));
                proof {
                    assert(lines@.map_values(|s: String| s@) =~= seq![
                        "Setting max tokens to "@ + spec_int_str(n as int),
                    ]);
                }
                Action::Show(lines)
            },
            Command::Model(name) => {
                let mut acc: Vec<char> = str_to_chars("Setting model to ");
                push_chars(&mut acc, &str_to_chars(name.as_str()));
                self.config.model = name;
                let mut lines: Vec<String> = Vec::new();
                lines.push(chars_to_string(&acc));
                proof {
                    assert(lines@.map_values(|s: String| s@) =~= seq![
                        "Setting model to "@ + self.config.model@,
                    ]);
                }
                Action::Show(lines)
            },
            Command::Temperature(arg) => match arg {
                TempArg::InRange(t) => {
                    proof {
                        let la = crate::command::call_args(line@, "temperature"@);
                        if la is Some {
                            crate::num::lemma_parse_temp_in_range(
                                crate::text::split_commas(la->0)[0],
                            );
                        }
                    }
                    self.config.temperature = t;
                    let mut acc: Vec<char> = str_to_chars("Setting temperature to ");
                    push_chars(&mut acc, &temp_to_chars(t));
                    let mut lines: Vec<String> = Vec::new();
                    lines.push(chars_to_string(&acc));
                    proof {
                        assert(lines@.map_values(|s: String| s@) =~= seq![
                            "Setting temperature to "@ + spec_temp_str(t as int),
                        ]);
                    }
                    Action::Show(lines)
                },
                TempArg::OutOfRange => Action::ShowError(
                    "temperature must be between 0 and 1".to_owned(),
                ),
            },
            Command::Invalid(msg) => Action::ShowError(msg),
            Command::Append(text) => {
                self.history.append(text.as_str());
                Action::Handled
            },
        }
    }

    /// Appends the selected lines of a loaded file to the prompt buffer:
    /// exactly the lines whose 1-based number lies in `[start, end]`, in
    /// order, each newline-terminated.
    pub fn append_file_text(&mut self, contents: &str, start: Option<usize>, end: Option<usize>)
        ensures
            final(self)@.history == old(self)@.history + spec_file_text(
                contents@,
                opt_int(start),
                opt_int(end),
            ),
            final(self)@.transcript == old(self)@.transcript,
            final(self)@.config == old(self)@.config,
    {
        let t = select_file_text(contents, start, end);
        self.history.append(t.as_str());
    }

    /// Applies a chat response body: on a successful completion the first
    /// choice's message joins the transcript and its text is returned; an
    /// error envelope or an unreadable body leaves the transcript alone.
    pub fn apply_chat_response(&mut self, body: String) -> (r: Result<String, ApiError>)
        ensures
            final(self)@.history == old(self)@.history,
            final(self)@.config == old(self)@.config,
            final(self)@.transcript == spec_chat_reply_effect(old(self)@.transcript, body@),
            match r {
                Ok(out) => {
                    &&& spec_parse_doc(body@) matches Some(v)
                    &&& spec_decode_error_resp(v) is None
                    &&& spec_decode_chat(v) matches Some(cv)
                    &&& out@ == spec_chat_output(cv)
                },
                Err(e) => {
                    &&& final(self)@.transcript == old(self)@.transcript
                    &&& (e.kind == ErrorKind::Api || e.kind == ErrorKind::Parse)
                    &&& (e.kind == ErrorKind::Api ==> (spec_parse_doc(body@) matches Some(v)
                        && spec_decode_error_resp(v) matches Some(ev) && e.message@ == ev.kind
                        + ": "@ + ev.message))
                    &&& (e.kind == ErrorKind::Parse ==> (spec_parse_doc(body@) is None || (
                    spec_decode_error_resp(spec_parse_doc(body@)->0) is None && spec_decode_chat(
                        spec_parse_doc(body@)->0,
                    ) is None)))
                },
            },
    {
        match parse_chat_response(body) {
            Ok(Response::ChatCreateCompletion(c)) => {
                c.save_messages(&mut self.chat_history);
                Ok(c.get_output())
            },
            Ok(Response::Error(e)) => Err(ApiError::new(e.get_output().as_str())),
            Err(pe) => Err(pe),
        }
    }
}

/// The assistant message a chat response body carries, when it is a
/// successful completion with a first choice.
pub open spec fn spec_chat_reply(body: Seq<char>) -> Option<MessageV> {
    match spec_parse_doc(body) {
        Some(v) => if spec_decode_error_resp(v) is None {
            match spec_decode_chat(v) {
                Some(cv) => spec_first_reply(cv),
                None => None,
            }
        } else {
            None
        },
        None => None,
    }
}

/// What a chat response body does to the transcript.
pub open spec fn spec_chat_reply_effect(t: Seq<MessageV>, body: Seq<char>) -> Seq<MessageV> {
    match spec_chat_reply(body) {
        Some(m) => t.push(m),
        None => t,
    }
}

/// A chat turn is idempotent in transcript-length terms: issuing `chat()`
/// appends exactly one user message built from the prompt buffer, and
/// applying the response body appends exactly one assistant message when
/// the body is a successful completion carrying a reply, and none
/// otherwise — in particular none on an error envelope or an unreadable
/// body.
pub proof fn lemma_chat_turn_transcript(s: SessionV, line: Seq<char>, body: Seq<char>)
    requires
        spec_parse_command(line) == CommandV::Chat,
    ensures
        spec_handle_line(s, line).0.transcript == s.transcript.push(spec_user_msg(s.history)),
        spec_chat_reply(body) matches Some(m) ==> spec_chat_reply_effect(
            spec_handle_line(s, line).0.transcript,
            body,
        ) == s.transcript.push(spec_user_msg(s.history)).push(m),
        spec_chat_reply(body) is None ==> spec_chat_reply_effect(
            spec_handle_line(s, line).0.transcript,
            body,
        ) == s.transcript.push(spec_user_msg(s.history)),
{
}

/// A completion turn never touches the transcript: handling `complete()`
/// leaves it as it was, and applying the response body takes no session at
/// all, whatever the outcome.
pub proof fn lemma_complete_preserves_transcript(s: SessionV, line: Seq<char>)
    requires
        spec_parse_command(line) == CommandV::Complete,
    ensures
        spec_handle_line(s, line).0.transcript == s.transcript,
{
}

/// A temperature outside the unit interval leaves the whole session — its
/// temperature in particular — unchanged.
pub proof fn lemma_out_of_range_temperature_unchanged(s: SessionV, line: Seq<char>)
    requires
        spec_parse_command(line) == CommandV::Temperature(TempArg::OutOfRange),
    ensures
        spec_handle_line(s, line).0 == s,
{
}

/// Applies a completion response body.  It takes no session: a completion
/// never touches the transcript or the rest of the session state.
pub fn apply_completion_response(body: String) -> (r: Result<String, ApiError>)
    ensures
        match r {
            Ok(out) => {
                &&& spec_parse_doc(body@) matches Some(v)
                &&& spec_decode_completion(v) matches Some(cv)
                &&& out@ == spec_completion_output(cv)
            },
            Err(e) => e.kind == ErrorKind::Parse && (spec_parse_doc(body@) is None
                || spec_decode_completion(spec_parse_doc(body@)->0) is None),
        },
{
    match parse_completion_response(body) {
        Ok(c) => Ok(c.get_output()),
        Err(e) => Err(e),
    }
}

} // verus!
