use hippocampus::tools::builtin::echo::EchoInput;
use hippocampus::tools::{observation_text, prepare_tool_call, Dispatch, ToolResult};
use hippocampus::EchoTool;
use hippocampus::llm::ScriptedLlm;
use hippocampus::react::parser::{parse_final_answer, parse_react_tool_call, parse_thought, CallIdSeq};
use hippocampus::react::react_loop::provider_error_output;
use hippocampus::react::{ReactConfig, ReactError, ReactRun, TurnOutcome};

#[test]
fn parse_thought_stops_before_action_or_final() {
    let block = "Thought: a\nb\nAction: echo\nAction Input: \"x\"\n";
    assert_eq!(parse_thought(block).as_deref(), Some("a\nb"));
    let fin = "Thought: done\nFinal Answer: 99\n";
    assert_eq!(parse_thought(fin).as_deref(), Some("done"));
}

#[test]
fn parse_thought_absent_or_blank_is_none() {
    assert_eq!(parse_thought("Action: echo\nAction Input: \"x\"\n"), None);
    assert_eq!(parse_thought("Thought:   \nAction: echo\n"), None);
}

#[test]
fn final_answer_keeps_text_after_marker() {
    assert_eq!(
        parse_final_answer("Thought: done\n  Final Answer: 42  \n").as_deref(),
        Some(" 42")
    );
    assert_eq!(parse_final_answer("Thought: nothing\n"), None);
    assert_eq!(
        parse_final_answer("Final Answer: first\nFinal Answer: second\n").as_deref(),
        Some(" first")
    );
}

#[test]
fn final_answer_handles_crlf_lines() {
    assert_eq!(parse_final_answer("Final Answer: x\r\n").as_deref(), Some(" x"));
}

#[test]
fn tool_call_with_generated_id() {
    let mut ids = CallIdSeq::new();
    let call = parse_react_tool_call(
        "Thought: need echo\nAction: echo\nAction Input: \"hello\"\n",
        &mut ids,
    )
    .unwrap();
    assert_eq!(call.name, "echo");
    assert_eq!(call.raw_input, "\"hello\"");
    assert_eq!(call.id.as_str(), "tc_1");
    assert_eq!(ids.peek(), 2);
    let second = parse_react_tool_call("Action: echo\nAction Input: {}\n", &mut ids).unwrap();
    assert_eq!(second.id.as_str(), "tc_2");
}

#[test]
fn tool_call_with_given_id_keeps_counter() {
    let mut ids = CallIdSeq::new();
    let call = parse_react_tool_call(
        "Action:  list_dir \nAction Input: {\"path\":\".\"}\nCall ID:  abc \n",
        &mut ids,
    )
    .unwrap();
    assert_eq!(call.name, "list_dir");
    assert_eq!(call.raw_input, "{\"path\":\".\"}");
    assert_eq!(call.id.as_str(), "abc");
    assert_eq!(ids.peek(), 1);
}

#[test]
fn tool_call_needs_action_and_input() {
    let mut ids = CallIdSeq::new();
    assert!(parse_react_tool_call("Action: echo\n", &mut ids).is_none());
    assert!(parse_react_tool_call("Action Input: {}\n", &mut ids).is_none());
    assert!(parse_react_tool_call("Action:   \nAction Input: {}\n", &mut ids).is_none());
    assert_eq!(ids.peek(), 1);
}

#[test]
fn tool_call_last_action_wins() {
    let mut ids = CallIdSeq::new();
    let call = parse_react_tool_call(
        "Action: echo\nAction: net_echo\nAction Input: 1\nAction Input: 2\n",
        &mut ids,
    )
    .unwrap();
    assert_eq!(call.name, "net_echo");
    assert_eq!(call.raw_input, "2");
}

#[test]
fn run_finishes_on_final_answer() {
    let config = ReactConfig { max_steps: 4, ..Default::default() };
    let mut run = ReactRun::new(config.max_steps);
    let mut ids = CallIdSeq::new();
    assert!(run.has_turns_left());
    match run.absorb_model_output("Thought: done\nFinal Answer: 42\n", &mut ids) {
        TurnOutcome::Finished(a) => assert_eq!(a, "42"),
        _ => panic!("expected a final answer"),
    }
    assert_eq!(run.scratchpad(), "Thought: done\nFinal Answer: 42\n");
}

#[test]
fn run_acts_then_records_observation() {
    let mut run = ReactRun::new(2);
    let mut ids = CallIdSeq::new();
    match run.absorb_model_output("Thought: t\nAction: echo\nAction Input: \"hi\"\n", &mut ids) {
        TurnOutcome::Act(call) => assert_eq!(call.name, "echo"),
        _ => panic!("expected a tool call"),
    }
    run.absorb_observation("{\"ok\":true}");
    assert_eq!(
        run.scratchpad(),
        "Thought: t\nAction: echo\nAction Input: \"hi\"\nObservation: {\"ok\":true}\n"
    );
    assert!(run.has_turns_left());
    match run.absorb_model_output("no protocol here", &mut ids) {
        TurnOutcome::Failed(e) => assert_eq!(e, ReactError::NoActionOrFinal),
        _ => panic!("expected a failure"),
    }
    assert!(!run.has_turns_left());
}

#[test]
fn provider_error_becomes_final_answer() {
    let raw = provider_error_output("connection refused");
    assert_eq!(raw, "Thought: provider_error\nFinal Answer: connection refused\n");
    let mut run = ReactRun::new(1);
    let mut ids = CallIdSeq::new();
    match run.absorb_model_output(&raw, &mut ids) {
        TurnOutcome::Finished(a) => assert_eq!(a, "connection refused"),
        _ => panic!("expected a final answer"),
    }
}

#[test]
fn react_config_default_budget() {
    let c = ReactConfig::default();
    assert_eq!(c.max_steps, 8);
    assert!(!c.trace_thinking);
    assert_eq!(ReactError::MaxSteps.message(), "exceeded max ReAct steps");
}

/// Drives one run the way the program does, with a scripted model and the
/// library's dispatcher; the echo tool is the only tool that runs.
fn drive(
    script: &[&str],
    tools: &[hippocampus::ToolDescriptor],
    ctx: &hippocampus::PromptContext,
) -> Result<String, ReactError> {
    let mut model = ScriptedLlm::new(script.iter().map(|s| s.to_string()).collect());
    let mut run = ReactRun::new(4);
    let mut ids = CallIdSeq::new();
    while run.has_turns_left() {
        let raw = model.next_turn();
        match run.absorb_model_output(&raw, &mut ids) {
            TurnOutcome::Finished(a) => return Ok(a),
            TurnOutcome::Failed(e) => return Err(e),
            TurnOutcome::Act(call) => {
                let result = match prepare_tool_call(tools, ctx, &call) {
                    Dispatch::Rejected(r) => r,
                    Dispatch::Ready { input, .. } => {
                        let shape = match input {
                            serde_json::Value::String(s) => EchoInput::Text(s),
                            _ => EchoInput::Other,
                        };
                        let text = EchoTool::echo_text(shape).unwrap();
                        ToolResult::success(serde_json::Value::from(text))
                    }
                };
                let payload = format!(
                    "{{\"id\":\"{}\",\"ok\":{},\"kind\":\"{}\",\"message\":\"{}\"}}",
                    call.id.as_str(),
                    result.ok,
                    result.kind.as_str(),
                    result.message
                );
                run.absorb_observation(&observation_text(payload));
            }
        }
    }
    Err(ReactError::MaxSteps)
}

#[test]
fn stops_on_final_answer_without_tools() {
    let ctx = hippocampus::PromptContext::with_workspace_root("/ws".to_string());
    assert_eq!(drive(&["Thought: done\nFinal Answer: 42\n"], &[], &ctx).unwrap(), "42");
}

#[test]
fn one_tool_then_final() {
    let ctx = hippocampus::PromptContext::with_workspace_root("/ws".to_string());
    let tools = vec![hippocampus::EchoTool.descriptor()];
    let out = drive(
        &[
            "Thought: need echo\nAction: echo\nAction Input: \"hello\"\n",
            "Thought: got it\nFinal Answer: hello\n",
        ],
        &tools,
        &ctx,
    );
    assert_eq!(out.unwrap(), "hello");
}

#[test]
fn run_stops_at_step_budget() {
    let ctx = hippocampus::PromptContext::with_workspace_root("/ws".to_string());
    let turn = "Thought: again\nAction: echo\nAction Input: \"x\"\n";
    let tools = vec![hippocampus::EchoTool.descriptor()];
    assert_eq!(drive(&[turn, turn, turn, turn, turn], &tools, &ctx), Err(ReactError::MaxSteps));
}
