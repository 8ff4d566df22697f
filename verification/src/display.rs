//! The static display text: the quickstart notice, the help screen, and
//! the model overview.  Colouring is the caller's business; these are the
//! plain lines.

use vstd::prelude::*;

verus! {

use crate::models::Models;
use crate::num::spec_int_str;
use crate::num::i32_to_chars;
use crate::text::str_to_chars;
use crate::text::push_chars;
use crate::text::chars_to_string;

/// The views of a vector of lines.
pub open spec fn line_views(v: Seq<String>) -> Seq<Seq<char>> {
    v.map_values(|s: String| s@)
}

/// The quickstart notice shown at startup.
pub open spec fn spec_quickstart_lines() -> Seq<Seq<char>> {
    seq![
        "Quickstart:"@,
        "\"help()\" for information on commands"@,
        "\"print()\" to print current query"@,
        "\"chat()\" to send the query to the chat API"@,
        "\"completion()\" to send query to completion API"@,
        "\"exit()\" to exit the terminal"@,
    ]
}

/// The quickstart notice, line by line.
pub fn quickstart_lines() -> (r: Vec<String>)
    ensures
        line_views(r@) == spec_quickstart_lines(),
{
    let mut out: Vec<String> = Vec::new();
    out.push("Quickstart:".to_owned());
    out.push("\"help()\" for information on commands".to_owned());
    out.push("\"print()\" to print current query".to_owned());
    out.push("\"chat()\" to send the query to the chat API".to_owned());
    out.push("\"completion()\" to send query to completion API".to_owned());
    out.push("\"exit()\" to exit the terminal".to_owned());
    proof {
        assert(line_views(out@) =~~= spec_quickstart_lines());
    }
    out
}

/// The help screen.
pub open spec fn spec_help_lines() -> Seq<Seq<char>> {
    seq![
        "Generic Commands"@,
        "\"print()\" to print the current terminal query "@,
        "\"empty()\" to clear the current terminal query and start again"@,
        "\"cat(\"./path/to/file\",line,line)\" to load a file into the query i.e \"file(\"./main.rs\",1,12)\" - the line numbers are optional"@,
        "\"file(\"./path/to/file\",line,line)\" to load a file into the query i.e \"file(\"./main.rs\",1,12)\" - the line numbers are optional"@,
        ""@,
        "Completion API Commands"@,
        "\"complete()\" to send the current terminal query to OpenAI Completion API https://platform.openai.com/docs/guides/code * note: you must set model to a code model for complete to work i.e model(\"code-cushman-001\")"@,
        ""@,
        "Chat API Commands"@,
        "\"chat()\" to send the current terminal query to OpenAI Chat API https://platform.openai.com/docs/guides/chat"@,
        "\"log()\" to see the current chat history, each subsequent chat request will include this chat history for context"@,
        "\"clear()\" to clear the current chat history and start a new chat from fresh"@,
        "\"export(\"./path/to/file.json\")\" to export the current chat history to a json file"@,
        ""@,
        "API Configuration"@,
        "Note: currently for both chat and completion you can only change model,max_tokens and temperature. This will be expanded."@,
        ""@,
        "\"models()\" to see a list of models, also see https://platform.openai.com/docs/models incase the model you require is not listed, you can still supply it as a string i.e \"model-name-001\""@,
        "\"model(\"model\")\" to set a model i.e model(\"code-cushman-001\")"@,
        "\"max_tokens(3000)\" to set max_tokens, default is 300"@,
        "\"temperature(0.5)\" to set temperature, default is 0.7, allowed values are 0 to 1"@,
        ""@,
    ]
}

/// The help screen, line by line.
pub fn help_lines() -> (r: Vec<String>)
    ensures
        line_views(r@) == spec_help_lines(),
{
    let mut out: Vec<String> = Vec::new();
    out.push("Generic Commands".to_owned());
    out.push("\"print()\" to print the current terminal query ".to_owned());
    out.push("\"empty()\" to clear the current terminal query and start again".to_owned());
    out.push(
        "\"cat(\"./path/to/file\",line,line)\" to load a file into the query i.e \"file(\"./main.rs\",1,12)\" - the line numbers are optional".to_owned(),
    );
    out.push(
        "\"file(\"./path/to/file\",line,line)\" to load a file into the query i.e \"file(\"./main.rs\",1,12)\" - the line numbers are optional".to_owned(),
    );
    out.push("".to_owned());
    out.push("Completion API Commands".to_owned());
    out.push(
        "\"complete()\" to send the current terminal query to OpenAI Completion API https://platform.openai.com/docs/guides/code * note: you must set model to a code model for complete to work i.e model(\"code-cushman-001\")".to_owned(),
    );
    out.push("".to_owned());
    out.push("Chat API Commands".to_owned());
    out.push(
        "\"chat()\" to send the current terminal query to OpenAI Chat API https://platform.openai.com/docs/guides/chat".to_owned(),
    );
    out.push(
        "\"log()\" to see the current chat history, each subsequent chat request will include this chat history for context".to_owned(),
    );
    out.push(
        "\"clear()\" to clear the current chat history and start a new chat from fresh".to_owned(),
    );
    out.push(
        "\"export(\"./path/to/file.json\")\" to export the current chat history to a json file".to_owned(),
    );
    out.push("".to_owned());
    out.push("API Configuration".to_owned());
    out.push(
        "Note: currently for both chat and completion you can only change model,max_tokens and temperature. This will be expanded.".to_owned(),
    );
    out.push("".to_owned());
    out.push(
        "\"models()\" to see a list of models, also see https://platform.openai.com/docs/models incase the model you require is not listed, you can still supply it as a string i.e \"model-name-001\"".to_owned(),
    );
    out.push("\"model(\"model\")\" to set a model i.e model(\"code-cushman-001\")".to_owned());
    out.push("\"max_tokens(3000)\" to set max_tokens, default is 300".to_owned());
    out.push(
        "\"temperature(0.5)\" to set temperature, default is 0.7, allowed values are 0 to 1".to_owned(),
    );
    out.push("".to_owned());
    proof {
        assert(line_views(out@) =~~= spec_help_lines());
    }
    out
}

/// The three display lines of one model: its name and token limit, its
/// description, and a separating blank.
pub open spec fn spec_model_block(m: Models) -> Seq<Seq<char>> {
    seq![
        "Model '"@ + m.spec_name() + "' has max tokens of "@ + spec_int_str(m.spec_max_tokens()),
        "Description: "@ + m.spec_description(),
        ""@,
    ]
}

/// The whole model overview: one block per known model, in display order,
/// then the closing note.
pub open spec fn spec_models_lines() -> Seq<Seq<char>> {
    spec_model_block(Models::Gpt4) + spec_model_block(Models::Gpt432k) + spec_model_block(
        Models::Gpt35Turbo,
    ) + spec_model_block(Models::TextDavinci003) + spec_model_block(Models::TextDavinci002)
        + spec_model_block(Models::CodeDavinci002) + spec_model_block(Models::CodeCushman001)
        + seq![
        "To set a model, run model(\"model\") i.e model(\"code-cushman-001\")"@,
        ""@,
    ]
}

/// Appends one model's three display lines.
fn push_model_block(m: Models, out: &mut Vec<String>)
    ensures
        line_views(final(out)@) == line_views(old(out)@) + spec_model_block(m),
{
    let mut l1: Vec<char> = str_to_chars("Model '");
    push_chars(&mut l1, &str_to_chars(m.name()));
    push_chars(&mut l1, &str_to_chars("' has max tokens of "));
    push_chars(&mut l1, &i32_to_chars(m.max_tokens()));
    proof {
        assert(l1@ =~= spec_model_block(m)[0]);
    }
    out.push(chars_to_string(&l1));
    let mut l2: Vec<char> = str_to_chars("Description: ");
    push_chars(&mut l2, &str_to_chars(m.description()));
    proof {
        assert(l2@ =~= spec_model_block(m)[1]);
    }
    out.push(chars_to_string(&l2));
    out.push("".to_owned());
    proof {
        assert(line_views(out@) =~~= line_views(old(out)@) + spec_model_block(m));
    }
}

/// The model overview, line by line.
pub fn models_lines() -> (r: Vec<String>)
    ensures
        line_views(r@) == spec_models_lines(),
{
    let mut out: Vec<String> = Vec::new();
    proof {
        assert(line_views(out@) =~~= Seq::<Seq<char>>::empty());
    }
    push_model_block(Models::Gpt4, &mut out);
    push_model_block(Models::Gpt432k, &mut out);
    push_model_block(Models::Gpt35Turbo, &mut out);
    push_model_block(Models::TextDavinci003, &mut out);
    push_model_block(Models::TextDavinci002, &mut out);
    push_model_block(Models::CodeDavinci002, &mut out);
    push_model_block(Models::CodeCushman001, &mut out);
    out.push("To set a model, run model(\"model\") i.e model(\"code-cushman-001\")".to_owned());
    out.push("".to_owned());
    proof {
        assert(line_views(out@) =~~= spec_models_lines());
    }
    out
}

} // verus!
