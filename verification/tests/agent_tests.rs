use asi::agent::{
    AgentEvent, DeepStage, ToolError, answer_from, answer_of, assistant_turn, final_thought, output_after_reflection,
    max_steps_event, parse_reflection, reasoning_prompt, tool_result, truncate_output, ReasoningStep,
    ReflectionResult, TurnOutcome, MAX_RESULT_LEN,
};
use asi::agent::{provider_failure, record_thought, review_prompt, AgentRun, Reasoning, ReasoningAction};
use asi::provider::ProviderError;
use asi::types::{FunctionCall, Message, Role, ToolCall, Usage};

#[test]
fn test_deep_stage_progression() {
    // Verify stages are in correct order.
    let stages = [DeepStage::Plan, DeepStage::Execute, DeepStage::Reflect, DeepStage::Revise, DeepStage::Complete];
    assert!(stages.windows(2).all(|w| w[0] as u8 + 1 == w[1] as u8 || w[0] == DeepStage::Complete));
}

#[test]
fn test_deep_agent_construction() {
    let _ = DeepStage::Plan;
    let _ = DeepStage::Execute;
    let _ = DeepStage::Reflect;
    let _ = DeepStage::Revise;
    let _ = DeepStage::Complete;
    let _ = DeepStage::Abandoned;
}

#[test]
fn test_agent_event_types() {
    let text = AgentEvent::TextDelta { content: "hello".into() };
    let done = AgentEvent::Done { usage: None };
    assert!(matches!(text, AgentEvent::TextDelta { .. }));
    assert!(matches!(done, AgentEvent::Done { .. }));
}

#[test]
fn test_parse_good_reflection() {
    let json = r#"{"score":8,"issues":[],"improved":""}"#;
    let result = parse_reflection(json).unwrap();
    assert!(result.is_acceptable);
    assert_eq!(result.score, 8);
}

#[test]
fn test_parse_bad_reflection() {
    let json = r#"{"score":3,"issues":["missing error handling","no tests"],"improved":"fixed version"}"#;
    let result = parse_reflection(json).unwrap();
    assert!(!result.is_acceptable);
    assert_eq!(result.issues.len(), 2);
    assert!(result.improved_output.is_some());
}

#[test]
fn test_parse_markdown_wrapped() {
    let json = "```json\n{\"score\":9,\"issues\":[],\"improved\":\"\"}\n```";
    let result = parse_reflection(json).unwrap();
    assert_eq!(result.score, 9);
}

#[test]
fn reflection_of_non_json_is_acceptable_with_default_score() {
    let result = parse_reflection("not json at all").unwrap();
    assert!(result.is_acceptable);
    assert_eq!(result.score, 5);
    assert!(result.issues.is_empty());
    assert!(result.improved_output.is_none());
}

#[test]
fn reflection_keeps_only_string_issues_and_missing_score_defaults() {
    let result = parse_reflection(r#"{"issues":["a", 3, "b"], "improved": "better"}"#).unwrap();
    assert_eq!(result.score, 5);
    assert!(!result.is_acceptable);
    assert_eq!(result.issues, vec!["a".to_string(), "b".to_string()]);
    assert_eq!(result.improved_output.as_deref(), Some("better"));
}

#[test]
fn improved_output_replaces_only_low_scores() {
    let low = ReflectionResult { is_acceptable: false, score: 4, issues: vec![], improved_output: Some("new".into()) };
    assert_eq!(output_after_reflection(&low, "old"), "new");
    let high = ReflectionResult { is_acceptable: true, score: 8, issues: vec![], improved_output: Some("new".into()) };
    assert_eq!(output_after_reflection(&high, "old"), "old");
    let none = ReflectionResult { is_acceptable: false, score: 2, issues: vec![], improved_output: None };
    assert_eq!(output_after_reflection(&none, "old"), "old");
}

#[test]
fn truncation_keeps_short_output_whole() {
    let (out, truncated) = truncate_output("short");
    assert_eq!(out, "short");
    assert!(!truncated);
}

#[test]
fn truncation_cuts_long_output_at_the_limit() {
    let long = "x".repeat(MAX_RESULT_LEN + 10);
    let (out, truncated) = truncate_output(&long);
    assert!(truncated);
    assert_eq!(out.len(), MAX_RESULT_LEN);
}

#[test]
fn tool_result_texts() {
    assert_eq!(tool_result("grep", None), ("Unknown tool: grep".to_string(), false));
    assert_eq!(tool_result("grep", Some(Ok("found".into()))), ("found".to_string(), false));
    let (text, truncated) = tool_result("grep", Some(Err(ToolError::Execution("boom".into()))));
    assert!(!truncated);
    assert_eq!(text, "Tool error: Tool execution failed: boom");
}

#[test]
fn max_steps_error_names_the_limit() {
    match max_steps_event(7) {
        AgentEvent::Error { message } => {
            assert_eq!(message, "Agent reached maximum steps (7) without completing the task.")
        }
        _ => panic!("expected an error event"),
    }
}

fn assistant(content: &str, calls: Option<Vec<ToolCall>>) -> Message {
    Message { role: Role::Assistant, content: content.into(), tool_calls: calls, tool_call_id: None }
}

#[test]
fn assistant_turn_without_tool_calls_finishes() {
    let usage = Usage { prompt_tokens: 1, completion_tokens: 2, total_tokens: 3 };
    let m = assistant("all done", None);
    let (events, outcome) = assistant_turn(Some(&m), Some(usage));
    assert!(matches!(outcome, TurnOutcome::Finish));
    assert_eq!(events.len(), 2);
    assert!(matches!(&events[0], AgentEvent::TextDelta { content } if content == "all done"));
    assert!(matches!(&events[1], AgentEvent::Done { usage: Some(u) } if u.total_tokens == 3));
}

#[test]
fn assistant_turn_with_tool_calls_continues() {
    let call = ToolCall { id: "c1".into(), function: FunctionCall { name: "read".into(), arguments: "{}".into() } };
    let m = assistant("", Some(vec![call]));
    let (events, outcome) = assistant_turn(Some(&m), None);
    assert!(matches!(outcome, TurnOutcome::RunTools));
    assert!(events.is_empty());
}

#[test]
fn assistant_turn_without_choice_is_done() {
    let (events, outcome) = assistant_turn(None, None);
    assert!(matches!(outcome, TurnOutcome::Finish));
    assert_eq!(events.len(), 1);
    assert!(matches!(events[0], AgentEvent::Done { usage: None }));
}

#[test]
fn answer_extraction() {
    assert_eq!(answer_of("ANSWER:  42 "), Some("42".to_string()));
    // The marker is found case-insensitively but removed only as written.
    assert_eq!(answer_of("Answer:  42 "), Some("Answer:  42".to_string()));
    assert_eq!(answer_of("Therefore, ANSWER: 42"), None);
    assert_eq!(answer_of("I am still thinking"), None);
    assert_eq!(answer_from("ANSWER: yes", "ANSWER: YES"), Some("yes".to_string()));
}

#[test]
fn reasoning_prompt_lists_previous_steps() {
    let steps = vec![ReasoningStep { thought: "first".into(), action: None, observation: None }];
    let p0 = reasoning_prompt(0, "why?", &steps);
    assert_eq!(
        p0,
        "Think step by step to solve this problem:\n\nwhy?\n\nFirst, what is the key insight? Reply with just your reasoning."
    );
    let p1 = reasoning_prompt(1, "why?", &steps);
    assert_eq!(
        p1,
        "Previous reasoning:\n- first\n\nBased on this, what is the next step? If you have the final answer, start your response with ANSWER:"
    );
    assert_eq!(final_thought(&steps), "first");
    assert_eq!(final_thought(&vec![]), "Unable to reach conclusion");
}

#[test]
fn chain_of_thought_records_steps() {
    let mut steps: Vec<ReasoningStep> = Vec::new();
    assert_eq!(record_thought(&mut steps, "step one".into()), None);
    assert_eq!(record_thought(&mut steps, "ANSWER: 7".into()), Some("7".to_string()));
    assert_eq!(steps.len(), 2);
    assert_eq!(steps[1].thought, "7");
    assert_eq!(asi::agent::reasoning_system_message().content, "You are a reasoning engine. Think step by step. Be concise.");
}

#[test]
fn review_prompt_and_failures() {
    let p = review_prompt("t", "o");
    assert!(p.starts_with("Review this AI agent output for the task: \"t\"\n\nOutput:\no\n\n"));
    assert!(p.ends_with("\"improved\": \"<improved output or empty if perfect>\"}"));
    assert_eq!(
        provider_failure("Reasoning error", &ProviderError::Parse("bad".into())),
        format!("Reasoning error: {}", ProviderError::Parse("bad".into()).message())
    );
}

#[test]
fn agent_run_counts_steps_and_grows_the_conversation() {
    let user = Message { role: Role::User, content: "hi".into(), tool_calls: None, tool_call_id: None };
    let mut run = AgentRun::new("be brief", vec![user], 1);
    assert_eq!(run.conversation.len(), 2);
    assert_eq!(run.conversation[0].role, Role::System);
    assert_eq!(run.conversation[0].content, "be brief");
    assert_eq!(run.conversation[1].content, "hi");
    assert!(run.begin_step().is_none());
    let call = ToolCall { id: "c9".into(), function: FunctionCall { name: "ls".into(), arguments: "{}".into() } };
    let (events, run_tools) = run.on_response(Some(assistant("", Some(vec![call.clone()]))), None);
    assert!(events.is_empty() && run_tools);
    assert_eq!(run.conversation.len(), 3);
    run.on_tool_result(&call, "a b".into());
    assert_eq!(run.conversation[3].role, Role::Tool);
    assert_eq!(run.conversation[3].tool_call_id.as_deref(), Some("c9"));
    match run.begin_step() {
        Some(AgentEvent::Error { message }) => {
            assert_eq!(message, "Agent reached maximum steps (1) without completing the task.")
        }
        _ => panic!("expected the step limit"),
    }
    let (events, run_tools) = run.on_response(Some(assistant("done", None)), None);
    assert!(!run_tools);
    assert_eq!(events.len(), 2);
    assert_eq!(run.conversation.len(), 4);
}

#[test]
fn reasoning_asks_then_concludes_with_the_answer() {
    let mut r = Reasoning::new(3);
    match r.next_action("2+2?") {
        ReasoningAction::Ask(p) => assert!(p.starts_with("Think step by step to solve this problem:\n\n2+2?")),
        other => panic!("unexpected {:?}", other),
    }
    r.on_reply("add the numbers".to_string());
    match r.next_action("2+2?") {
        ReasoningAction::Ask(p) => assert!(p.starts_with("Previous reasoning:\n- add the numbers")),
        other => panic!("unexpected {:?}", other),
    }
    r.on_reply("ANSWER: 4".to_string());
    match r.next_action("2+2?") {
        ReasoningAction::Conclude(a) => assert_eq!(a, "4"),
        other => panic!("unexpected {:?}", other),
    }
    assert_eq!(r.steps.len(), 2);
}

#[test]
fn reasoning_stops_at_the_step_limit() {
    let mut r = Reasoning::new(2);
    r.on_reply("first".to_string());
    r.on_reply("second".to_string());
    match r.next_action("p") {
        ReasoningAction::Conclude(a) => assert_eq!(a, "second"),
        other => panic!("unexpected {:?}", other),
    }
    let r = Reasoning::new(0);
    match r.next_action("p") {
        ReasoningAction::Conclude(a) => assert_eq!(a, "Unable to reach conclusion"),
        other => panic!("unexpected {:?}", other),
    }
}
