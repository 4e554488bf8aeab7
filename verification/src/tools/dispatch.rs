use vstd::prelude::*;

use super::types::{is_failure, ToolCall, ToolErrorKind, ToolResult};
use crate::json::{
    json_syntax_error, json_value_of, parse_json_value, schema_compile_error,
    schema_compile_message, schema_first_violation, schema_violation,
};
use crate::policy::categories::{category_name, ToolCategory};
use crate::policy::context::PromptContext;
use crate::policy::tool_profile::{profile_name, strings_view};
use crate::text::{append_chars, append_str, chars_of, string_of, sub_chars, truncated_to};

verus! {

/// Cap on observation text, in Unicode scalar values.
pub const MAX_TOOL_OBSERVATION_CHARS: usize = 12000;

/// What the dispatcher and the prompt need to know of a tool.
pub struct ToolDescriptor {
    pub name: String,
    pub description: String,
    /// Capabilities the run must have switched on to execute the tool.
    pub required_capabilities: Vec<ToolCategory>,
    /// The JSON Schema of the tool's input, as JSON text.
    pub input_schema: String,
}

/// The first tool at or after `i` with the given name.
pub open spec fn find_tool_from(tools: Seq<ToolDescriptor>, name: Seq<char>, i: int) -> Option<int>
    decreases tools.len() - i,
{
    if i < 0 || i >= tools.len() {
        None
    } else if tools[i].name@ == name {
        Some(i)
    } else {
        find_tool_from(tools, name, i + 1)
    }
}

/// The first tool with the given name.
pub open spec fn find_tool(tools: Seq<ToolDescriptor>, name: Seq<char>) -> Option<int> {
    find_tool_from(tools, name, 0)
}

/// The profile allowlist check (an empty allowlist allows everything).
pub open spec fn profile_allows(ctx: PromptContext, name: Seq<char>) -> bool {
    ctx.allowed_tool_names@.len() == 0 || strings_view(ctx.allowed_tool_names@).contains(name)
}

/// Whether the capability switch of a category is on.
pub open spec fn category_allowed(ctx: PromptContext, c: ToolCategory) -> bool {
    match c {
        ToolCategory::Network => ctx.capability_network,
        ToolCategory::Shell => ctx.capability_shell,
        ToolCategory::WriteFile => ctx.capability_write_file,
        ToolCategory::Lsp => ctx.capability_lsp,
    }
}

/// The first required capability that is switched off.
pub open spec fn first_denied(caps: Seq<ToolCategory>, ctx: PromptContext) -> Option<ToolCategory>
    decreases caps.len(),
{
    if caps.len() == 0 {
        None
    } else if !category_allowed(ctx, caps[0]) {
        Some(caps[0])
    } else {
        first_denied(caps.drop_first(), ctx)
    }
}

/// How the dispatcher answers a call: rejected with a kind and a message,
/// or ready to run the tool at an index.
pub enum Verdict {
    Rejected(ToolErrorKind, Seq<char>),
    Ready(int),
}

/// The dispatch policy, in the order it is applied: the tool must exist, be
/// in the profile allowlist, have every capability it requires switched on,
/// get an input that is JSON, and that input must satisfy its schema.
pub open spec fn verdict(tools: Seq<ToolDescriptor>, ctx: PromptContext, call: ToolCall) -> Verdict {
    let name = call.name@;
    match find_tool(tools, name) {
        None => Verdict::Rejected(ToolErrorKind::UnknownTool, "unknown tool: "@ + name),
        Some(i) => if !profile_allows(ctx, name) {
            Verdict::Rejected(
                ToolErrorKind::PolicyDenied,
                "tool '"@ + name + "' is not in the active profile allowlist (profile="@
                    + profile_name(ctx.tool_profile) + ")"@,
            )
        } else {
            match first_denied(tools[i].required_capabilities@, ctx) {
                Some(c) => Verdict::Rejected(
                    ToolErrorKind::PolicyDenied,
                    "capability denied for tool '"@ + name + "': "@ + category_name(c),
                ),
                None => match json_syntax_error(call.raw_input@) {
                    Some(m) => Verdict::Rejected(
                        ToolErrorKind::InvalidActionInputJson,
                        "Action Input is not valid JSON: "@ + m,
                    ),
                    None => {
                        let schema = tools[i].input_schema@;
                        match schema_compile_error(schema) {
                            Some(m) => Verdict::Rejected(
                                ToolErrorKind::JsonSchemaValidation,
                                "schema compile failed for tool '"@ + name + "': "@ + m,
                            ),
                            None => match schema_violation(schema, call.raw_input@) {
                                Some(m) => Verdict::Rejected(
                                    ToolErrorKind::JsonSchemaValidation,
                                    "schema validation failed for tool '"@ + name + "': "@ + m,
                                ),
                                None => Verdict::Ready(i),
                            },
                        }
                    },
                }
            }
        },
    }
}

proof fn lemma_find_tool_from(tools: Seq<ToolDescriptor>, name: Seq<char>, i: int)
    requires
        0 <= i,
    ensures
        match find_tool_from(tools, name, i) {
            Some(j) => i <= j < tools.len() && tools[j].name@ == name && forall|k: int|
                i <= k < j ==> (#[trigger] tools[k]).name@ != name,
            None => forall|k: int| i <= k < tools.len() ==> (#[trigger] tools[k]).name@ != name,
        },
    decreases tools.len() - i,
{
    if i < tools.len() && tools[i].name@ != name {
        lemma_find_tool_from(tools, name, i + 1);
    }
}

proof fn lemma_first_denied(caps: Seq<ToolCategory>, ctx: PromptContext)
    ensures
        first_denied(caps, ctx) is None <==> forall|k: int|
            0 <= k < caps.len() ==> category_allowed(ctx, #[trigger] caps[k]),
    decreases caps.len(),
{
    if caps.len() > 0 {
        lemma_first_denied(caps.drop_first(), ctx);
        if first_denied(caps, ctx) is None {
            assert forall|k: int| 0 <= k < caps.len() implies category_allowed(
                ctx,
                #[trigger] caps[k],
            ) by {
                if k > 0 {
                    assert(caps[k] == caps.drop_first()[k - 1]);
                }
            }
        }
        if forall|k: int| 0 <= k < caps.len() ==> category_allowed(ctx, #[trigger] caps[k]) {
            assert(category_allowed(ctx, caps[0]));
            assert forall|k: int| 0 <= k < caps.drop_first().len() implies category_allowed(
                ctx,
                #[trigger] caps.drop_first()[k],
            ) by {
                assert(caps.drop_first()[k] == caps[k + 1]);
            }
        }
    }
}

/// The dispatch policy lets a call through exactly when every gate passes:
/// the first tool of the call's name exists, the profile allowlist admits
/// the name, every capability the tool requires is switched on, the input is
/// JSON, the tool's schema compiles and the input satisfies it.  In
/// particular a tool whose capability is off never runs, whatever its input.
pub proof fn lemma_ready_iff_every_gate_passes(
    tools: Seq<ToolDescriptor>,
    ctx: PromptContext,
    call: ToolCall,
    i: int,
)
    ensures
        verdict(tools, ctx, call) == Verdict::Ready(i) <==> {
            &&& 0 <= i < tools.len()
            &&& tools[i].name@ == call.name@
            &&& forall|k: int| 0 <= k < i ==> (#[trigger] tools[k]).name@ != call.name@
            &&& profile_allows(ctx, call.name@)
            &&& forall|k: int|
                0 <= k < tools[i].required_capabilities@.len() ==> category_allowed(
                    ctx,
                    #[trigger] tools[i].required_capabilities@[k],
                )
            &&& json_syntax_error(call.raw_input@) is None
            &&& schema_compile_error(tools[i].input_schema@) is None
            &&& schema_violation(tools[i].input_schema@, call.raw_input@) is None
        },
{
    lemma_find_tool_from(tools, call.name@, 0);
    if 0 <= i < tools.len() {
        lemma_first_denied(tools[i].required_capabilities@, ctx);
    }
    match find_tool(tools, call.name@) {
        Some(j) => {
            if j != i && 0 <= i < tools.len() && tools[i].name@ == call.name@ {
                if i < j {
                    assert(tools[i].name@ != call.name@);
                } else {
                    assert(tools[j].name@ == call.name@);
                }
            }
        },
        None => {},
    }
}

/// A call whose tool requires a capability that is switched off is
/// answered `PolicyDenied`; it is never run.  (The tool is the first one
/// with the call's name, which is the one the dispatcher picks.)
pub proof fn lemma_capability_off_never_runs(
    tools: Seq<ToolDescriptor>,
    ctx: PromptContext,
    call: ToolCall,
    i: int,
    c: ToolCategory,
)
    requires
        0 <= i < tools.len(),
        tools[i].name@ == call.name@,
        forall|k: int| 0 <= k < i ==> (#[trigger] tools[k]).name@ != call.name@,
        tools[i].required_capabilities@.contains(c),
        !category_allowed(ctx, c),
    ensures
        verdict(tools, ctx, call) matches Verdict::Rejected(k, _) && k == ToolErrorKind::PolicyDenied,
{
    lemma_find_tool_from(tools, call.name@, 0);
    assert(find_tool(tools, call.name@) == Some(i));
    lemma_first_denied(tools[i].required_capabilities@, ctx);
    let caps = tools[i].required_capabilities@;
    let k = choose|k: int| 0 <= k < caps.len() && caps[k] == c;
    assert(!category_allowed(ctx, caps[k]));
}

/// A tool that the (non-empty) profile allowlist leaves out is answered
/// `PolicyDenied` when some tool has its name; it is never run.
pub proof fn lemma_outside_allowlist_never_runs(
    tools: Seq<ToolDescriptor>,
    ctx: PromptContext,
    call: ToolCall,
)
    requires
        !profile_allows(ctx, call.name@),
    ensures
        match verdict(tools, ctx, call) {
            Verdict::Rejected(k, _) => k == ToolErrorKind::PolicyDenied || k
                == ToolErrorKind::UnknownTool,
            Verdict::Ready(_) => false,
        },
{
}

/// Each capability is granted by its own switch and by nothing else: the
/// network, shell, write-file and LSP capabilities are allowed exactly when
/// the context's matching flag is on.
pub proof fn lemma_capability_granted_by_own_flag(ctx: PromptContext)
    ensures
        category_allowed(ctx, ToolCategory::Network) == ctx.capability_network,
        category_allowed(ctx, ToolCategory::Shell) == ctx.capability_shell,
        category_allowed(ctx, ToolCategory::WriteFile) == ctx.capability_write_file,
        category_allowed(ctx, ToolCategory::Lsp) == ctx.capability_lsp,
{
}

/// A call to a tool whose required capabilities all have their own flags
/// switched on, and whose name the profile admits, is never denied by
/// policy: it is run, or refused only for its input.
pub proof fn lemma_granted_tool_passes_policy(
    tools: Seq<ToolDescriptor>,
    ctx: PromptContext,
    call: ToolCall,
    i: int,
)
    requires
        0 <= i < tools.len(),
        tools[i].name@ == call.name@,
        forall|k: int| 0 <= k < i ==> (#[trigger] tools[k]).name@ != call.name@,
        profile_allows(ctx, call.name@),
        forall|k: int|
            0 <= k < tools[i].required_capabilities@.len() ==> {
                let c = #[trigger] tools[i].required_capabilities@[k];
                &&& c == ToolCategory::Network ==> ctx.capability_network
                &&& c == ToolCategory::Shell ==> ctx.capability_shell
                &&& c == ToolCategory::WriteFile ==> ctx.capability_write_file
                &&& c == ToolCategory::Lsp ==> ctx.capability_lsp
            },
    ensures
        match verdict(tools, ctx, call) {
            Verdict::Ready(j) => j == i,
            Verdict::Rejected(k, _) => k == ToolErrorKind::InvalidActionInputJson || k
                == ToolErrorKind::JsonSchemaValidation,
        },
{
    lemma_find_tool_from(tools, call.name@, 0);
    assert(find_tool(tools, call.name@) == Some(i));
    lemma_first_denied(tools[i].required_capabilities@, ctx);
    let caps = tools[i].required_capabilities@;
    assert forall|k: int| 0 <= k < caps.len() implies category_allowed(ctx, #[trigger] caps[k]) by {
        lemma_capability_granted_by_own_flag(ctx);
    }
}

/// A call the dispatcher rejected, or the tool to run with its parsed input.
pub enum Dispatch {
    Rejected(ToolResult),
    Ready { tool_index: usize, input: serde_json::Value },
}

/// Parses the `Action Input:` text of a call as JSON.
pub fn parse_action_input_json(raw: &str) -> (r: Result<serde_json::Value, String>)
    ensures
        match r {
            Ok(v) => json_syntax_error(raw@) is None && v == json_value_of(raw@),
            Err(e) => json_syntax_error(raw@) matches Some(m) && e@ == "Action Input is not valid JSON: "@
                + m,
        },
{
    match parse_json_value(raw) {
        Ok(v) => Ok(v),
        Err(e) => {
            let mut msg = chars_of("Action Input is not valid JSON: ");
            append_str(&mut msg, e.as_str());
            Err(string_of(msg.as_slice()))
        },
    }
}

fn find_tool_exec(tools: &[ToolDescriptor], name: &String) -> (r: Option<usize>)
    ensures
        match r {
            Some(i) => find_tool(tools@, name@) == Some(i as int) && i < tools@.len(),
            None => find_tool(tools@, name@) is None,
        },
{
    let mut i: usize = 0;
    while i < tools.len()
        invariant
            0 <= i <= tools@.len(),
            find_tool(tools@, name@) == find_tool_from(tools@, name@, i as int),
        decreases tools@.len() - i,
    {
        if tools[i].name == *name {
            return Some(i);
        }
        i = i + 1;
    }
    None
}

fn first_denied_exec(caps: &[ToolCategory], ctx: &PromptContext) -> (r: Option<ToolCategory>)
    ensures
        r == first_denied(caps@, *ctx),
{
    let mut i: usize = 0;
    assert(caps@.skip(0) == caps@);
    while i < caps.len()
        invariant
            0 <= i <= caps@.len(),
            first_denied(caps@, *ctx) == first_denied(caps@.skip(i as int), *ctx),
        decreases caps@.len() - i,
    {
        let ghost rest = caps@.skip(i as int);
        assert(rest[0] == caps@[i as int]);
        if !ctx.allows_category(caps[i]) {
            return Some(caps[i]);
        }
        assert(rest.drop_first() == caps@.skip(i + 1));
        i = i + 1;
    }
    assert(caps@.skip(caps@.len() as int) =~= Seq::<ToolCategory>::empty());
    None
}

fn msg_with_name(prefix: &str, name: &String, middle: &str, tail: &[char]) -> (r: String)
    ensures
        r@ == prefix@ + name@ + middle@ + tail@,
{
    let mut m = chars_of(prefix);
    append_str(&mut m, name.as_str());
    append_str(&mut m, middle);
    append_chars(&mut m, tail);
    string_of(m.as_slice())
}

/// Applies the dispatch policy to a call: the result is the rejection the
/// policy answers with, or the tool to run with the parsed input.
pub fn prepare_tool_call(tools: &[ToolDescriptor], prompt_ctx: &PromptContext, call: &ToolCall) -> (r:
    Dispatch)
    ensures
        match verdict(tools@, *prompt_ctx, *call) {
            Verdict::Rejected(k, m) => r matches Dispatch::Rejected(res) && is_failure(res, k, m),
            Verdict::Ready(i) => r matches Dispatch::Ready { tool_index, input } && tool_index == i
                && input == json_value_of(call.raw_input@),
        },
{
    let name = &call.name;
    let i = match find_tool_exec(tools, name) {
        None => {
            let mut mv = chars_of("unknown tool: ");
            append_str(&mut mv, name.as_str());
            let m = string_of(mv.as_slice());
            return Dispatch::Rejected(ToolResult::err(ToolErrorKind::UnknownTool, m));
        },
        Some(i) => i,
    };
    if !prompt_ctx.is_tool_allowed_by_profile(name.as_str()) {
        let mut tail = chars_of(prompt_ctx.tool_profile.as_str());
        append_str(&mut tail, ")");
        let m = msg_with_name(
            "tool '",
            name,
            "' is not in the active profile allowlist (profile=",
            tail.as_slice(),
        );
        assert(m@ =~= "tool '"@ + name@ + "' is not in the active profile allowlist (profile="@
            + profile_name(prompt_ctx.tool_profile) + ")"@);
        return Dispatch::Rejected(ToolResult::err(ToolErrorKind::PolicyDenied, m));
    }
    let tool = &tools[i];
    match first_denied_exec(tool.required_capabilities.as_slice(), prompt_ctx) {
        Some(c) => {
            let m = msg_with_name(
                "capability denied for tool '",
                name,
                "': ",
                chars_of(c.name()).as_slice(),
            );
            assert(m@ =~= "capability denied for tool '"@ + name@ + "': "@ + category_name(c));
            return Dispatch::Rejected(ToolResult::err(ToolErrorKind::PolicyDenied, m));
        },
        None => {},
    }
    let input = match parse_action_input_json(call.raw_input.as_str()) {
        Ok(v) => v,
        Err(e) => {
            return Dispatch::Rejected(ToolResult::err(ToolErrorKind::InvalidActionInputJson, e));
        },
    };
    match schema_compile_message(tool.input_schema.as_str()) {
        Some(e) => {
            let m = msg_with_name(
                "schema compile failed for tool '",
                name,
                "': ",
                chars_of(e.as_str()).as_slice(),
            );
            assert(m@ =~= "schema compile failed for tool '"@ + name@ + "': "@ + e@);
            return Dispatch::Rejected(ToolResult::err(ToolErrorKind::JsonSchemaValidation, m));
        },
        None => {},
    }
    match schema_first_violation(tool.input_schema.as_str(), call.raw_input.as_str()) {
        Some(e) => {
            let m = msg_with_name(
                "schema validation failed for tool '",
                name,
                "': ",
                chars_of(e.as_str()).as_slice(),
            );
            assert(m@ =~= "schema validation failed for tool '"@ + name@ + "': "@ + e@);
            Dispatch::Rejected(ToolResult::err(ToolErrorKind::JsonSchemaValidation, m))
        },
        None => Dispatch::Ready { tool_index: i, input },
    }
}

/// Cuts `s` down to its first `max_chars` characters; tells whether it cut.
pub fn truncate_chars_in_place(s: &mut String, max_chars: usize) -> (cut: bool)
    ensures
        cut == (old(s)@.len() > max_chars),
        final(s)@ == truncated_to(old(s)@, max_chars as nat),
{
    let v = chars_of(s.as_str());
    if v.len() <= max_chars {
        return false;
    }
    *s = string_of(sub_chars(v.as_slice(), 0, max_chars).as_slice());
    assert(v@.subrange(0, max_chars as int) == v@.take(max_chars as int));
    true
}

/// The observation text for a serialized observation payload: the payload
/// cut to `MAX_TOOL_OBSERVATION_CHARS` characters, marked when cut.
pub open spec fn observation_of(payload: Seq<char>) -> Seq<char> {
    if payload.len() <= MAX_TOOL_OBSERVATION_CHARS {
        payload
    } else {
        payload.take(MAX_TOOL_OBSERVATION_CHARS as int) + " /* truncated */"@
    }
}

/// An observation never exceeds the cap by more than the marker, and keeps
/// the payload's leading characters.
pub proof fn lemma_observation_bounded(payload: Seq<char>)
    ensures
        observation_of(payload).len() <= MAX_TOOL_OBSERVATION_CHARS + 16,
        payload.len() <= MAX_TOOL_OBSERVATION_CHARS ==> observation_of(payload) == payload,
        payload.len() > MAX_TOOL_OBSERVATION_CHARS ==> observation_of(payload).take(
            MAX_TOOL_OBSERVATION_CHARS as int,
        ) == payload.take(MAX_TOOL_OBSERVATION_CHARS as int),
{
    reveal_strlit(" /* truncated */");
    if payload.len() > MAX_TOOL_OBSERVATION_CHARS {
        let o = observation_of(payload);
        assert(o.take(MAX_TOOL_OBSERVATION_CHARS as int) =~= payload.take(
            MAX_TOOL_OBSERVATION_CHARS as int,
        ));
    }
}

/// Turns a serialized observation payload into the observation text.
pub fn observation_text(payload: String) -> (r: String)
    ensures
        r@ == observation_of(payload@),
{
    let mut s = payload;
    let cut = truncate_chars_in_place(&mut s, MAX_TOOL_OBSERVATION_CHARS);
    if cut {
        let mut v = chars_of(s.as_str());
        append_str(&mut v, " /* truncated */");
        string_of(v.as_slice())
    } else {
        s
    }
}

/// A descriptor with the given fields.
pub fn descriptor_of(
    name: &str,
    description: &str,
    required_capabilities: Vec<ToolCategory>,
    input_schema: &str,
) -> (r: ToolDescriptor)
    ensures
        r.name@ == name@,
        r.description@ == description@,
        r.required_capabilities == required_capabilities,
        r.input_schema@ == input_schema@,
{
    ToolDescriptor {
        name: string_of(chars_of(name).as_slice()),
        description: string_of(chars_of(description).as_slice()),
        required_capabilities,
        input_schema: string_of(chars_of(input_schema).as_slice()),
    }
}

} // verus!
