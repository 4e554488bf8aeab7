use vstd::prelude::*;

verus! {

/// The id of one tool call, unique within a run.
#[derive(Debug, Clone, PartialEq, Eq, Hash)]
pub struct ToolCallId(pub String);

impl ToolCallId {
    /// The id as text (what `Display` shows).
    pub fn as_str(&self) -> (r: &str)
        ensures
            r@ == self.0@,
    {
        self.0.as_str()
    }
}

/// A tool call parsed from model output.
#[derive(Debug, Clone, PartialEq, Eq)]
pub struct ToolCall {
    pub id: ToolCallId,
    pub name: String,
    /// The raw `Action Input:` text of the ReAct protocol (usually JSON).
    pub raw_input: String,
}

/// How a tool call ended.
#[derive(Debug, Clone, Copy, PartialEq, Eq, Structural)]
pub enum ToolErrorKind {
    /// The call succeeded (labelled `ok`).
    Success,
    UnknownTool,
    InvalidActionInputJson,
    JsonSchemaValidation,
    PolicyDenied,
    ToolExecution,
}

/// The snake-case label of a kind, as it appears in observations.
pub open spec fn kind_label(k: ToolErrorKind) -> Seq<char> {
    match k {
        ToolErrorKind::Success => "ok"@,
        ToolErrorKind::UnknownTool => "unknown_tool"@,
        ToolErrorKind::InvalidActionInputJson => "invalid_action_input_json"@,
        ToolErrorKind::JsonSchemaValidation => "json_schema_validation"@,
        ToolErrorKind::PolicyDenied => "policy_denied"@,
        ToolErrorKind::ToolExecution => "tool_execution"@,
    }
}

impl ToolErrorKind {
    /// The snake-case label (what `Display` shows).
    pub fn as_str(self) -> (r: &'static str)
        ensures
            r@ == kind_label(self),
    {
        match self {
            ToolErrorKind::Success => "ok",
            ToolErrorKind::UnknownTool => "unknown_tool",
            ToolErrorKind::InvalidActionInputJson => "invalid_action_input_json",
            ToolErrorKind::JsonSchemaValidation => "json_schema_validation",
            ToolErrorKind::PolicyDenied => "policy_denied",
            ToolErrorKind::ToolExecution => "tool_execution",
        }
    }
}

/// The outcome of a tool call, as the model sees it.
#[derive(Debug, Clone, PartialEq)]
pub struct ToolResult {
    pub ok: bool,
    pub kind: ToolErrorKind,
    pub message: String,
    pub data: Option<serde_json::Value>,
}

/// A result that is a failure of the given kind with the given message.
pub open spec fn is_failure(r: ToolResult, kind: ToolErrorKind, message: Seq<char>) -> bool {
    &&& !r.ok
    &&& r.kind == kind
    &&& r.message@ == message
    &&& r.data is None
}

impl ToolResult {
    /// A successful call with its output.
    pub fn success(data: serde_json::Value) -> (r: Self)
        ensures
            r.ok,
            r.kind == ToolErrorKind::Success,
            r.message@ == "ok"@,
            r.data == Some(data),
    {
        ToolResult {
            ok: true,
            kind: ToolErrorKind::Success,
            message: crate::text::string_of(crate::text::chars_of("ok").as_slice()),
            data: Some(data),
        }
    }

    /// A failed call.
    pub fn err(kind: ToolErrorKind, message: String) -> (r: Self)
        ensures
            !r.ok,
            r.kind == kind,
            r.message == message,
            r.data is None,
    {
        ToolResult { ok: false, kind, message, data: None }
    }

    /// The result of running a tool: its output, or the message of the error
    /// it failed with.
    pub fn from_run(run: Result<serde_json::Value, String>) -> (r: Self)
        ensures
            match run {
                Ok(v) => r.ok && r.kind == ToolErrorKind::Success && r.message@ == "ok"@ && r.data
                    == Some(v),
                Err(m) => is_failure(r, ToolErrorKind::ToolExecution, m@),
            },
    {
        match run {
            Ok(v) => ToolResult::success(v),
            Err(m) => ToolResult::err(ToolErrorKind::ToolExecution, m),
        }
    }
}

} // verus!
