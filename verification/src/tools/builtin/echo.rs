use vstd::prelude::*;

use crate::text::{chars_of, string_of};
use crate::tools::dispatch::{descriptor_of, ToolDescriptor};

verus! {

pub const ECHO_NAME: &'static str = "echo";

pub const ECHO_DESCRIPTION: &'static str = "Echo the provided text back to the model (for wiring tests).";

pub const ECHO_SCHEMA: &'static str = "{\n  \"oneOf\": [\n    {\"type\": \"string\"},\n    {\n      \"type\": \"object\",\n      \"additionalProperties\": false,\n      \"properties\": {\n        \"text\": {\"type\": \"string\"}\n      },\n      \"required\": [\"text\"]\n    }\n  ]\n}";

/// Gives its input text back (a plain string or `{"text": ...}`).
pub struct EchoTool;

/// The shapes of input the echo tool tells apart.
pub enum EchoInput {
    /// A JSON string.
    Text(String),
    /// A JSON object, with its `text` member when that is a string.
    Object(Option<String>),
    /// Anything else.
    Other,
}

impl EchoTool {
    /// Name, description, capabilities (none) and input schema.
    pub fn descriptor(&self) -> (r: ToolDescriptor)
        ensures
            r.name@ == ECHO_NAME@,
            r.description@ == ECHO_DESCRIPTION@,
            r.required_capabilities@ == Seq::<crate::policy::ToolCategory>::empty(),
            r.input_schema@ == ECHO_SCHEMA@,
    {
        descriptor_of(ECHO_NAME, ECHO_DESCRIPTION, Vec::new(), ECHO_SCHEMA)
    }

    /// The text echoed for an input: the string itself, an object's `text`
    /// (empty when missing), or none for an unsupported shape.
    pub fn echo_text(input: EchoInput) -> (r: Option<String>)
        ensures
            match input {
                EchoInput::Text(s) => r == Some(s),
                EchoInput::Object(Some(t)) => r == Some(t),
                EchoInput::Object(None) => r matches Some(s) && s@ == Seq::<char>::empty(),
                EchoInput::Other => r is None,
            },
    {
        match input {
            EchoInput::Text(s) => Some(s),
            EchoInput::Object(Some(t)) => Some(t),
            EchoInput::Object(None) => Some(string_of(Vec::<char>::new().as_slice())),
            EchoInput::Other => None,
        }
    }
}

} // verus!
