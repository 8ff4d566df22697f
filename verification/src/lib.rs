//! An interactive client library for a large-language-model HTTP API.
//!
//! The library holds everything with algorithmic content: the model
//! registry, the prompt buffer and chat transcript, the REPL command
//! interpreter, the JSON codec for the wire format, and the session state
//! machine.  Network and file I/O, line editing and terminal colouring
//! live outside the library; callers perform the I/O and hand the results
//! back as plain values.

pub mod chat;
pub mod command;
pub mod completion;
pub mod display;
pub mod err;
pub mod json;
pub mod models;
pub mod num;
pub mod session;
pub mod text;

pub use chat::ChatCreateCompletionParams;
pub use chat::ChatCreateCompletionResponse;
pub use chat::Error;
pub use chat::ErrorResponse;
pub use chat::GptChat;
pub use chat::History;
pub use chat::Message;
pub use chat::MessageHistory;
pub use chat::Response;
pub use command::Command;
pub use command::parse_command;
pub use completion::Choice;
pub use completion::CodeCompletionCreateParams;
pub use completion::CodeCompletionResponse;
pub use completion::Logprobs;
pub use completion::Usage;
pub use err::ApiError;
pub use err::ErrorKind;
pub use json::Json;
pub use models::Models;
pub use models::get_model;
pub use session::Action;
pub use session::Session;
pub use session::apply_completion_response;
pub use text::string_to_vec;
