use vstd::prelude::*;

use super::workspace::{render_workspace_docs_section, workspace_section, WorkspaceDocs};
use crate::json::{json_pretty, pretty_json};
use crate::policy::context::PromptContext;
use crate::policy::tool_profile::{profile_name, strings_view};
use crate::text::{
    append_chars, append_str, chars_of, decimal, decimal_chars, has_prefix, join_seqs,
    join_strings, lines_of, lines_str, replace_all, replace_chars, seqs_view, string_of, trim,
    trim_chars, trim_end, trim_end_chars, trim_str,
};
use crate::tools::dispatch::ToolDescriptor;

verus! {

/// The role of the agent.
pub const PROMPT_CORE: &'static str = "# Hippocampus\n\nYou are an autonomous agent that works in a loop of Thought, Action and Observation until you can give a Final Answer.";

/// The rules the agent follows whatever the task.
pub const PROMPT_SAFETY: &'static str = "## Safety\n\n- Stay inside workspace_root; never try to reach files outside it.\n- Call only the tools listed below, with input that satisfies their schema.\n- A call denied by policy stays denied; do not try to work around it.";

/// The turn format of the ReAct protocol.
pub const PROMPT_REACT: &'static str = "## Turn format\n\nEvery turn starts with `Thought:` and then holds either\n\nAction: <tool_name>\nAction Input: <JSON input>\n\nor\n\nFinal Answer: <answer>\n\nAn optional `Call ID: <id>` line names the call. The harness appends each Observation to the scratchpad.";

/// The static part of the prompt, shared by every run.
pub open spec fn static_block() -> Seq<char> {
    PROMPT_CORE@ + "\n\n"@ + PROMPT_SAFETY@ + "\n\n__HIPPOCAMPUS_SYSTEM_PROMPT_STATIC_BOUNDARY__\n\n"@
        + PROMPT_REACT@
}

pub open spec fn on_off(v: bool) -> Seq<char> {
    if v {
        "on"@
    } else {
        "off"@
    }
}

/// The run id as the harness section shows it: trimmed, or `none`.
pub open spec fn run_id_text(run_id: Option<String>) -> Seq<char> {
    match run_id {
        Some(s) => if trim(s@).len() > 0 {
            trim(s@)
        } else {
            "none"@
        },
        None => "none"@,
    }
}

/// The harness section: run id, workspace root, profile, allowlist,
/// iteration budget and capability switches.
pub open spec fn harness_section(ctx: PromptContext) -> Seq<char> {
    "## Harness Context\n\n- run_id: "@ + run_id_text(ctx.run_id) + "\n- workspace_root: `"@
        + ctx.workspace_root@ + "`\n- tool_profile: "@ + profile_name(ctx.tool_profile)
        + "\n- allowed_tools: "@ + join_seqs(strings_view(ctx.allowed_tool_names@), ", "@)
        + "\n- max_tool_iterations: "@ + decimal(ctx.max_tool_iterations as nat)
        + "\n- capabilities:\n- network: "@ + on_off(ctx.capability_network) + "\n- shell: "@
        + on_off(ctx.capability_shell) + "\n- write_file: "@ + on_off(ctx.capability_write_file)
        + "\n- lsp: "@ + on_off(ctx.capability_lsp) + "\n"@
}

/// Every line of `json` prefixed with `indent`, joined by newlines.
pub open spec fn indent_json(json: Seq<char>, indent: Seq<char>) -> Seq<char> {
    join_seqs(lines_of(json).map_values(|l: Seq<char>| indent + l), "\n"@)
}

/// The pretty-printed schema of a tool (`{}` when it is not JSON).
pub open spec fn schema_text(t: ToolDescriptor) -> Seq<char> {
    match json_pretty(t.input_schema@) {
        Some(p) => p,
        None => "{}"@,
    }
}

/// The lines describing one tool.
pub open spec fn tool_entry(t: ToolDescriptor) -> Seq<char> {
    "- "@ + t.name@ + ": "@ + t.description@ + "\n"@ + "  input_json_schema:\n"@ + indent_json(
        schema_text(t),
        "  "@,
    ) + "\n"@
}

/// The tool list of the prompt.
pub open spec fn tool_lines(tools: Seq<ToolDescriptor>) -> Seq<char>
    decreases tools.len(),
{
    if tools.len() == 0 {
        Seq::empty()
    } else {
        tool_lines(tools.drop_last()) + tool_entry(tools.last())
    }
}

/// The tool list of two lists of tools is the list of the first followed by
/// that of the second.
pub proof fn lemma_tool_lines_concat(a: Seq<ToolDescriptor>, b: Seq<ToolDescriptor>)
    ensures
        tool_lines(a + b) == tool_lines(a) + tool_lines(b),
    decreases b.len(),
{
    if b.len() == 0 {
        assert(a + b =~= a);
        assert(tool_lines(a) + tool_lines(b) =~= tool_lines(a));
    } else {
        assert((a + b).drop_last() =~= a + b.drop_last());
        assert((a + b).last() == b.last());
        lemma_tool_lines_concat(a, b.drop_last());
        assert(tool_lines(a) + tool_lines(b.drop_last()) + tool_entry(b.last()) =~= tool_lines(a)
            + (tool_lines(b.drop_last()) + tool_entry(b.last())));
    }
}

/// Every tool has its own entry in the tool list, in the tools' order: the
/// entries of the tools before it, then its entry, then those after it.  An
/// entry opens with `- <name>: <description>` on a line of its own, followed
/// by the tool's schema.
pub proof fn lemma_tool_lines_lists_every_tool(tools: Seq<ToolDescriptor>, i: int)
    requires
        0 <= i < tools.len(),
    ensures
        tool_lines(tools) == tool_lines(tools.take(i)) + tool_entry(tools[i]) + tool_lines(
            tools.skip(i + 1),
        ),
        has_prefix(
            tool_entry(tools[i]),
            "- "@ + tools[i].name@ + ": "@ + tools[i].description@ + "\n"@,
        ),
        tool_lines(tools).len() >= tool_lines(tools.take(i)).len() + tool_entry(tools[i]).len(),
{
    let t = tools[i];
    assert(tools =~= tools.take(i) + (seq![t] + tools.skip(i + 1)));
    lemma_tool_lines_concat(tools.take(i), seq![t] + tools.skip(i + 1));
    lemma_tool_lines_concat(seq![t], tools.skip(i + 1));
    assert(seq![t].drop_last() =~= Seq::<ToolDescriptor>::empty());
    assert(seq![t].last() == t);
    assert(tool_lines(Seq::<ToolDescriptor>::empty()) == Seq::<char>::empty());
    assert(tool_lines(seq![t]) =~= tool_entry(t));
    let head = "- "@ + t.name@ + ": "@ + t.description@ + "\n"@;
    assert(tool_entry(t).take(head.len() as int) =~= head);
}

/// The prompt template, with its placeholders.
pub open spec fn prompt_template(with_docs: bool) -> Seq<char> {
    let head = "{static_block}\n\n## Runtime System（来自调用方）\n\n{system}\n\n{harness}\n\n"@;
    let tail = "可用工具（tool_name + schema）：\n{tool_lines}\n\n任务（Task）：{task}\n\nScratchpad（历史记录，含 Observation）：\n{scratchpad}\n"@;
    if with_docs {
        head + "{workspace_docs}\n\n"@ + tail
    } else {
        head + tail
    }
}

/// The full prompt: the template with each placeholder replaced in turn.
pub open spec fn prompt_text(
    system: Seq<char>,
    task: Seq<char>,
    scratchpad: Seq<char>,
    tools: Seq<ToolDescriptor>,
    ctx: PromptContext,
    docs: WorkspaceDocs,
) -> Seq<char> {
    let ws = workspace_section(docs);
    let t0 = prompt_template(trim(ws).len() > 0);
    let t1 = replace_all(t0, "{static_block}"@, trim(static_block()));
    let t2 = replace_all(t1, "{system}"@, system);
    let t3 = replace_all(t2, "{harness}"@, trim(harness_section(ctx)));
    let t4 = replace_all(t3, "{workspace_docs}"@, trim(ws));
    let t5 = replace_all(t4, "{tool_lines}"@, trim_end(tool_lines(tools)));
    let t6 = replace_all(t5, "{task}"@, task);
    replace_all(t6, "{scratchpad}"@, scratchpad)
}

fn on_off_str(v: bool) -> (r: &'static str)
    ensures
        r@ == on_off(v),
{
    if v {
        "on"
    } else {
        "off"
    }
}

/// A context with another iteration budget.
pub open spec fn with_budget(ctx: PromptContext, n: usize) -> PromptContext {
    PromptContext { max_tool_iterations: n, ..ctx }
}

fn render_harness_section(ctx: &PromptContext, budget: usize) -> (r: Vec<char>)
    ensures
        r@ == harness_section(with_budget(*ctx, budget)),
{
    let run_id: Vec<char> = match &ctx.run_id {
        Some(s) => {
            let t = trim_str(s.as_str());
            if t.len() > 0 {
                t
            } else {
                chars_of("none")
            }
        },
        None => chars_of("none"),
    };
    let mut out = chars_of("## Harness Context\n\n- run_id: ");
    append_chars(&mut out, run_id.as_slice());
    append_str(&mut out, "\n- workspace_root: `");
    append_str(&mut out, ctx.workspace_root.as_str());
    append_str(&mut out, "`\n- tool_profile: ");
    append_str(&mut out, ctx.tool_profile.as_str());
    append_str(&mut out, "\n- allowed_tools: ");
    let csv = join_strings(ctx.allowed_tool_names.as_slice(), ", ");
    append_chars(&mut out, csv.as_slice());
    append_str(&mut out, "\n- max_tool_iterations: ");
    let n = decimal_chars(budget as u64);
    append_chars(&mut out, n.as_slice());
    append_str(&mut out, "\n- capabilities:\n- network: ");
    append_str(&mut out, on_off_str(ctx.capability_network));
    append_str(&mut out, "\n- shell: ");
    append_str(&mut out, on_off_str(ctx.capability_shell));
    append_str(&mut out, "\n- write_file: ");
    append_str(&mut out, on_off_str(ctx.capability_write_file));
    append_str(&mut out, "\n- lsp: ");
    append_str(&mut out, on_off_str(ctx.capability_lsp));
    append_str(&mut out, "\n");
    assert(out@ =~= harness_section(with_budget(*ctx, budget)));
    out
}

fn indent_json_exec(json: &str, indent: &str) -> (r: Vec<char>)
    ensures
        r@ == indent_json(json@, indent@),
{
    let lines = lines_str(json);
    let ghost ls = lines_of(json@);
    let ghost ind = ls.map_values(|l: Seq<char>| indent@ + l);
    let mut out: Vec<char> = Vec::new();
    let mut i: usize = 0;
    while i < lines.len()
        invariant
            0 <= i <= lines@.len(),
            ls == seqs_view(lines@),
            ind == ls.map_values(|l: Seq<char>| indent@ + l),
            out@ == join_seqs(ind.take(i as int), "\n"@),
        decreases lines@.len() - i,
    {
        assert(ind.take(i + 1).drop_last() == ind.take(i as int));
        assert(ind.take(i + 1).last() == indent@ + lines@[i as int]@);
        if i > 0 {
            append_str(&mut out, "\n");
        }
        append_str(&mut out, indent);
        append_chars(&mut out, lines[i].as_slice());
        i = i + 1;
    }
    assert(ind.take(lines@.len() as int) == ind);
    out
}

fn render_tool_lines(tools: &[ToolDescriptor]) -> (r: Vec<char>)
    ensures
        r@ == tool_lines(tools@),
{
    let mut out: Vec<char> = Vec::new();
    let mut i: usize = 0;
    while i < tools.len()
        invariant
            0 <= i <= tools@.len(),
            out@ == tool_lines(tools@.take(i as int)),
        decreases tools@.len() - i,
    {
        let t = &tools[i];
        assert(tools@.take(i + 1).drop_last() == tools@.take(i as int));
        assert(tools@.take(i + 1).last() == *t);
        let pretty: Vec<char> = match pretty_json(t.input_schema.as_str()) {
            Some(p) => chars_of(p.as_str()),
            None => chars_of("{}"),
        };
        let pretty_s = string_of(pretty.as_slice());
        let ghost before = out@;
        append_str(&mut out, "- ");
        append_str(&mut out, t.name.as_str());
        append_str(&mut out, ": ");
        append_str(&mut out, t.description.as_str());
        append_str(&mut out, "\n");
        append_str(&mut out, "  input_json_schema:\n");
        let ind = indent_json_exec(pretty_s.as_str(), "  ");
        append_chars(&mut out, ind.as_slice());
        append_str(&mut out, "\n");
        assert(out@ =~= before + tool_entry(*t));
        i = i + 1;
    }
    assert(tools@.take(tools@.len() as int) == tools@);
    out
}

fn replace_placeholder(s: Vec<char>, pat: &str, rep: &[char]) -> (r: Vec<char>)
    requires
        pat@.len() > 0,
    ensures
        r@ == replace_all(s@, pat@, rep@),
{
    let p = chars_of(pat);
    replace_chars(s.as_slice(), p.as_slice(), rep)
}

/// Renders the full model prompt for one turn.
pub fn build_prompt(
    system: &str,
    task: &str,
    scratchpad: &str,
    tools: &[ToolDescriptor],
    prompt_ctx: &PromptContext,
    docs: &WorkspaceDocs,
) -> (r: String)
    ensures
        r@ == prompt_text(system@, task@, scratchpad@, tools@, *prompt_ctx, *docs),
{
    assert(with_budget(*prompt_ctx, prompt_ctx.max_tool_iterations) == *prompt_ctx);
    build_prompt_with_budget(
        system,
        task,
        scratchpad,
        tools,
        prompt_ctx,
        prompt_ctx.max_tool_iterations,
        docs,
    )
}

/// Renders the prompt for a context whose iteration budget is `budget`.
pub fn build_prompt_with_budget(
    system: &str,
    task: &str,
    scratchpad: &str,
    tools: &[ToolDescriptor],
    prompt_ctx: &PromptContext,
    budget: usize,
    docs: &WorkspaceDocs,
) -> (r: String)
    ensures
        r@ == prompt_text(system@, task@, scratchpad@, tools@, with_budget(*prompt_ctx, budget), *docs),
{
    proof {
        reveal_strlit("{static_block}");
        reveal_strlit("{system}");
        reveal_strlit("{harness}");
        reveal_strlit("{workspace_docs}");
        reveal_strlit("{tool_lines}");
        reveal_strlit("{task}");
        reveal_strlit("{scratchpad}");
    }
    let tool_text = render_tool_lines(tools);
    let mut static_text = chars_of(PROMPT_CORE);
    append_str(&mut static_text, "\n\n");
    append_str(&mut static_text, PROMPT_SAFETY);
    append_str(&mut static_text, "\n\n__HIPPOCAMPUS_SYSTEM_PROMPT_STATIC_BOUNDARY__\n\n");
    append_str(&mut static_text, PROMPT_REACT);
    assert(static_text@ =~= static_block());
    let harness = render_harness_section(prompt_ctx, budget);
    let ws = render_workspace_docs_section(docs);
    let ws_trim = trim_str(ws.as_str());
    let mut tmpl = chars_of("{static_block}\n\n## Runtime System（来自调用方）\n\n{system}\n\n{harness}\n\n");
    if ws_trim.len() > 0 {
        append_str(&mut tmpl, "{workspace_docs}\n\n");
    }
    append_str(
        &mut tmpl,
        "可用工具（tool_name + schema）：\n{tool_lines}\n\n任务（Task）：{task}\n\nScratchpad（历史记录，含 Observation）：\n{scratchpad}\n",
    );
    assert(tmpl@ =~= prompt_template(ws_trim@.len() > 0));
    let t = replace_placeholder(tmpl, "{static_block}", trim_chars(static_text.as_slice()).as_slice());
    let t = replace_placeholder(t, "{system}", chars_of(system).as_slice());
    let t = replace_placeholder(t, "{harness}", trim_chars(harness.as_slice()).as_slice());
    let t = replace_placeholder(t, "{workspace_docs}", ws_trim.as_slice());
    let t = replace_placeholder(t, "{tool_lines}", trim_end_chars(tool_text.as_slice()).as_slice());
    let t = replace_placeholder(t, "{task}", chars_of(task).as_slice());
    let t = replace_placeholder(t, "{scratchpad}", chars_of(scratchpad).as_slice());
    string_of(t.as_slice())
}

} // verus!
