//! The command-line surface: supported models, defaults and subcommands.
//!
//! Argument parsing itself is an external collaborator; the unverified
//! binary parses with its own mirrored argument types and converts into the
//! types here.

use vstd::prelude::*;
use vstd::string::{StringExecFns, StringSliceAdditionalSpecFns};

use crate::text::{ascii_lower, eq_bytes, to_ascii_lower};

verus! {

/// The models supported for queries and chats.
#[derive(Clone, Copy, Debug, PartialEq, Eq, Structural)]
pub enum Model {
    Gpt4o,
    Gpt4oMini,
    O3Mini,
}

/// The canonical name of a model, as sent to the chat API.
pub open spec fn model_name(m: Model) -> Seq<char> {
    match m {
        Model::Gpt4o => "gpt-4o"@,
        Model::Gpt4oMini => "gpt-4o-mini"@,
        Model::O3Mini => "o3-mini"@,
    }
}

/// Parsing a model name: after ASCII lowering, the canonical names and
/// their undashed spellings are accepted.
pub open spec fn spec_parse_model(s: Seq<u8>) -> Option<Model> {
    let l = ascii_lower(s);
    if l == ("gpt-4o").spec_bytes() || l == ("gpt4o").spec_bytes() {
        Option::Some(Model::Gpt4o)
    } else if l == ("gpt-4o-mini").spec_bytes() || l == ("gpt4o-mini").spec_bytes() {
        Option::Some(Model::Gpt4oMini)
    } else if l == ("o3-mini").spec_bytes() || l == ("o3mini").spec_bytes() {
        Option::Some(Model::O3Mini)
    } else {
        Option::None
    }
}

impl Model {
    /// The canonical name of this model.
    pub fn name(&self) -> (r: String)
        ensures
            r@ == model_name(*self),
    {
        match self {
            Model::Gpt4o => String::from_str("gpt-4o"),
            Model::Gpt4oMini => String::from_str("gpt-4o-mini"),
            Model::O3Mini => String::from_str("o3-mini"),
        }
    }

    /// Every supported model's canonical name, in a fixed order.
    pub fn all_models() -> (r: Vec<String>)
        ensures
            r@.len() == 3,
            r@[0]@ == model_name(Model::Gpt4o),
            r@[1]@ == model_name(Model::Gpt4oMini),
            r@[2]@ == model_name(Model::O3Mini),
    {
        let mut v: Vec<String> = Vec::new();
        v.push(Model::Gpt4o.name());
        v.push(Model::Gpt4oMini.name());
        v.push(Model::O3Mini.name());
        v
    }

    /// Parse a model name, ASCII case-insensitively.
    pub fn from_str(s: &str) -> (r: Option<Model>)
        ensures
            r == spec_parse_model(s.spec_bytes()),
    {
        let low = to_ascii_lower(s.as_bytes());
        if eq_bytes(low.as_slice(), ("gpt-4o").as_bytes()) || eq_bytes(
            low.as_slice(),
            ("gpt4o").as_bytes(),
        ) {
            Option::Some(Model::Gpt4o)
        } else if eq_bytes(low.as_slice(), ("gpt-4o-mini").as_bytes()) || eq_bytes(
            low.as_slice(),
            ("gpt4o-mini").as_bytes(),
        ) {
            Option::Some(Model::Gpt4oMini)
        } else if eq_bytes(low.as_slice(), ("o3-mini").as_bytes()) || eq_bytes(
            low.as_slice(),
            ("o3mini").as_bytes(),
        ) {
            Option::Some(Model::O3Mini)
        } else {
            Option::None
        }
    }
}

/// The default model for queries and chats.
pub fn default_llm() -> (r: Model)
    ensures
        r == Model::Gpt4o,
{
    Model::Gpt4o
}

/// The built-in default prompt for a one-time query.
pub open spec fn default_query_text() -> Seq<char> {
    "Here is the program output. If there was an error, concisely explain how it can be fixed. \nIf there was no error, concisely summarize the output."@
}

/// The built-in default prompt for a one-time query, built at run time.
pub fn default_query() -> (r: String)
    ensures
        r@ == default_query_text(),
{
    String::from_str(
        "Here is the program output. If there was an error, concisely explain how it can be fixed. \nIf there was no error, concisely summarize the output.",
    )
}

/// The command-line arguments: one subcommand.
pub struct Args {
    pub command: Commands,
}

/// The subcommands.
pub enum Commands {
    /// Start a new session, logging the current command's output to the
    /// given file; the path is also published in the environment so later
    /// invocations in the same shell default to the same log.
    Start { logfile: String },
    /// One query against the last command's output.
    Query { logfile: Option<String>, prompt: Option<String>, model: Option<Model> },
    /// An interactive chat seeded with the last command's output.
    Chat { logfile: Option<String>, model: Option<Model> },
}

} // verus!
