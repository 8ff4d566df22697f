//! The model registry: a fixed enumeration of known model identifiers with
//! static metadata (wire name, description, token limit, training-data cutoff).

use vstd::prelude::*;

verus! {

use crate::text::str_eq;

#[derive(Clone, Copy, Debug, PartialEq, Eq, Structural)]
pub enum Models {
    Gpt4,
    Gpt432k,
    TextDavinci003,
    TextDavinci002,
    CodeDavinci002,
    CodeCushman001,
    Gpt35Turbo,
}

impl Models {
    /// The identifier a model goes by on the wire.
    pub open spec fn spec_name(self) -> Seq<char> {
        match self {
            Models::Gpt4 => "gpt-4"@,
            Models::Gpt432k => "gpt-4-32k"@,
            Models::Gpt35Turbo => "gpt-3.5-turbo"@,
            Models::TextDavinci003 => "text-davinci-003"@,
            Models::TextDavinci002 => "text-davinci-002"@,
            Models::CodeDavinci002 => "code-davinci-002"@,
            Models::CodeCushman001 => "code-cushman-001"@,
        }
    }

    /// The largest token count the model accepts in one request.
    pub open spec fn spec_max_tokens(self) -> int {
        match self {
            Models::Gpt4 => 8192,
            Models::Gpt432k => 32768,
            Models::Gpt35Turbo => 4096,
            Models::TextDavinci003 => 4093,
            Models::TextDavinci002 => 4097,
            Models::CodeDavinci002 => 4093,
            Models::CodeCushman001 => 4093,
        }
    }

    /// Every known model, in display order.
    pub fn all() -> (r: Vec<Models>)
        ensures
            r@ == seq![
                Models::Gpt4,
                Models::Gpt432k,
                Models::Gpt35Turbo,
                Models::TextDavinci003,
                Models::TextDavinci002,
                Models::CodeDavinci002,
                Models::CodeCushman001,
            ],
    {
        let mut out: Vec<Models> = Vec::new();
        out.push(Models::Gpt4);
        out.push(Models::Gpt432k);
        out.push(Models::Gpt35Turbo);
        out.push(Models::TextDavinci003);
        out.push(Models::TextDavinci002);
        out.push(Models::CodeDavinci002);
        out.push(Models::CodeCushman001);
        proof {
            assert(out@ =~= seq![
                Models::Gpt4,
                Models::Gpt432k,
                Models::Gpt35Turbo,
                Models::TextDavinci003,
                Models::TextDavinci002,
                Models::CodeDavinci002,
                Models::CodeCushman001,
            ]);
        }
        out
    }

    pub fn name(&self) -> (r: &'static str)
        ensures
            r@ == self.spec_name(),
    {
        match *self {
            Models::Gpt4 => "gpt-4",
            Models::Gpt432k => "gpt-4-32k",
            Models::Gpt35Turbo => "gpt-3.5-turbo",
            Models::TextDavinci003 => "text-davinci-003",
            Models::TextDavinci002 => "text-davinci-002",
            Models::CodeDavinci002 => "code-davinci-002",
            Models::CodeCushman001 => "code-cushman-001",
        }
    }

    /// The display description of the model.
    pub open spec fn spec_description(self) -> Seq<char> {
        match self {
            Models::Gpt4 => "More capable than any GPT-3.5 model, able to do more complex tasks, and optimized for chat. Will be updated with our latest model iteration."@,
            Models::Gpt432k => "More capable than any GPT-3.5 model, able to do more complex tasks, and optimized for chat. Will be updated with our latest model iteration."@,
            Models::Gpt35Turbo => "Most capable GPT-3.5 model and optimized for chat at 1/10th the cost of text-davinci-003. Will be updated with our latest model iteration."@,
            Models::TextDavinci003 => "Can do any language task with better quality, longer output, and consistent instruction-following than the curie, babbage, or ada models. Also supports inserting completions within text."@,
            Models::TextDavinci002 => "	Similar capabilities to text-davinci-003 but trained with supervised fine-tuning instead of reinforcement learning"@,
            Models::CodeDavinci002 => "Optimized for code-completion tasks"@,
            Models::CodeCushman001 => "Cushman code generation model, version 001"@,
        }
    }

    pub fn description(&self) -> (r: &'static str)
        ensures
            r@ == self.spec_description(),
    {
        match *self {
            Models::Gpt4 => "More capable than any GPT-3.5 model, able to do more complex tasks, and optimized for chat. Will be updated with our latest model iteration.",
            Models::Gpt432k => "More capable than any GPT-3.5 model, able to do more complex tasks, and optimized for chat. Will be updated with our latest model iteration.",
            Models::Gpt35Turbo => "Most capable GPT-3.5 model and optimized for chat at 1/10th the cost of text-davinci-003. Will be updated with our latest model iteration.",
            Models::TextDavinci003 => "Can do any language task with better quality, longer output, and consistent instruction-following than the curie, babbage, or ada models. Also supports inserting completions within text.",
            Models::TextDavinci002 => "	Similar capabilities to text-davinci-003 but trained with supervised fine-tuning instead of reinforcement learning",
            Models::CodeDavinci002 => "Optimized for code-completion tasks",
            Models::CodeCushman001 => "Cushman code generation model, version 001",
        }
    }

    pub fn max_tokens(&self) -> (r: i32)
        ensures
            r == self.spec_max_tokens(),
    {
        match *self {
            Models::Gpt4 => 8192,
            Models::Gpt432k => 32768,
            Models::Gpt35Turbo => 4096,
            Models::TextDavinci003 => 4093,
            Models::TextDavinci002 => 4097,
            Models::CodeDavinci002 => 4093,
            Models::CodeCushman001 => 4093,
        }
    }

    pub fn training_data(&self) -> (r: &'static str)
        ensures
            r@ == "Up to Sep 2021"@,
    {
        match *self {
            Models::Gpt4 => "Up to Sep 2021",
            Models::Gpt432k => "Up to Sep 2021",
            Models::Gpt35Turbo => "Up to Sep 2021",
            Models::TextDavinci003 => "Up to Sep 2021",
            Models::TextDavinci002 => "Up to Sep 2021",
            Models::CodeDavinci002 => "Up to Sep 2021",
            Models::CodeCushman001 => "Up to Sep 2021",
        }
    }
}

/// Which model a wire name denotes; unknown names fall back to the default
/// chat model.
pub open spec fn spec_get_model(name: Seq<char>) -> Models {
    if name == "gpt-4"@ {
        Models::Gpt4
    } else if name == "gpt-4-32k"@ {
        Models::Gpt432k
    } else if name == "text-davinci-003"@ {
        Models::TextDavinci003
    } else if name == "text-davinci-002"@ {
        Models::TextDavinci002
    } else if name == "code-davinci-002"@ {
        Models::CodeDavinci002
    } else if name == "code-cushman-001"@ {
        Models::CodeCushman001
    } else {
        Models::Gpt35Turbo
    }
}

/// Which model the command-line completion path uses: an argument on the
/// accepted list stands; anything else falls back to the default, with
/// notice.
pub open spec fn spec_cli_model(arg: Option<Seq<char>>) -> (Seq<char>, bool) {
    match arg {
        None => ("text-davinci-003"@, false),
        Some(a) => if a == "text-davinci-003"@ || a == "code-davinci-002"@ || a
            == "code-cushman-001"@ {
            (a, false)
        } else {
            ("text-davinci-003"@, true)
        },
    }
}

/// Chooses the completion model from the command-line argument; the flag
/// reports an argument that was not on the accepted list.
pub fn cli_model_choice(arg: Option<&str>) -> (r: (String, bool))
    ensures
        (r.0@, r.1) == spec_cli_model(match arg {
            Some(a) => Some(a@),
            None => None,
        }),
{
    match arg {
        None => ("text-davinci-003".to_owned(), false),
        Some(a) => {
            if str_eq(a, "text-davinci-003") || str_eq(a, "code-davinci-002") || str_eq(
                a,
                "code-cushman-001",
            ) {
                (a.to_owned(), false)
            } else {
                ("text-davinci-003".to_owned(), true)
            }
        },
    }
}

pub fn get_model(name: &str) -> (r: Models)
    ensures
        r == spec_get_model(name@),
{
    if str_eq(name, "gpt-4") {
        Models::Gpt4
    } else if str_eq(name, "gpt-4-32k") {
        Models::Gpt432k
    } else if str_eq(name, "text-davinci-003") {
        Models::TextDavinci003
    } else if str_eq(name, "text-davinci-002") {
        Models::TextDavinci002
    } else if str_eq(name, "code-davinci-002") {
        Models::CodeDavinci002
    } else if str_eq(name, "code-cushman-001") {
        Models::CodeCushman001
    } else {
        Models::Gpt35Turbo
    }
}

} // verus!
