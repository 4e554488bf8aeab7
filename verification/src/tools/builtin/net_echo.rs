use vstd::prelude::*;

use crate::policy::categories::ToolCategory;
use crate::text::{chars_of, string_of};
use crate::tools::dispatch::{descriptor_of, ToolDescriptor};

verus! {

pub const NET_ECHO_NAME: &'static str = "net_echo";

pub const NET_ECHO_DESCRIPTION: &'static str = "Pretend network tool (policy-gated). Returns a JSON echo of the requested URL.";

pub const NET_ECHO_SCHEMA: &'static str = "{\n  \"type\": \"object\",\n  \"additionalProperties\": false,\n  \"properties\": {\n    \"url\": {\"type\": \"string\", \"minLength\": 1}\n  },\n  \"required\": [\"url\"]\n}";

/// A pretend network tool: it makes no request, but runs only when the
/// network capability is on.
pub struct NetworkEchoTool;

impl NetworkEchoTool {
    /// Name, description, capabilities (network) and input schema.
    pub fn descriptor(&self) -> (r: ToolDescriptor)
        ensures
            r.name@ == NET_ECHO_NAME@,
            r.description@ == NET_ECHO_DESCRIPTION@,
            r.required_capabilities@ == seq![ToolCategory::Network],
            r.input_schema@ == NET_ECHO_SCHEMA@,
    {
        let mut caps: Vec<ToolCategory> = Vec::new();
        caps.push(ToolCategory::Network);
        descriptor_of(NET_ECHO_NAME, NET_ECHO_DESCRIPTION, caps, NET_ECHO_SCHEMA)
    }

    /// The URL echoed: the `url` field, empty when missing.
    pub fn echo_url(url: Option<String>) -> (r: String)
        ensures
            match url {
                Some(u) => r == u,
                None => r@ == Seq::<char>::empty(),
            },
    {
        match url {
            Some(u) => u,
            None => string_of(Vec::<char>::new().as_slice()),
        }
    }

    /// The status the reply carries.
    pub fn simulated_status() -> (r: &'static str)
        ensures
            r@ == "ok (simulated)"@,
    {
        "ok (simulated)"
    }
}

} // verus!
