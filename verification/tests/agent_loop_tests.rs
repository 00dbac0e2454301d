use agnt::agent_loop::{
    begin_turn, end_pass, new_pass, on_stream_event, tool_finished, tool_started, unknown_tool_reason, usage_fits,
    PassEnd, StreamStep, ToolRun,
};
use agnt::conversation::{AssistantPart, Message, UserPart};
use agnt::event::{AgentEvent, DisplayBody, ToolCallDisplay, ToolResultDisplay};
use agnt::openai_events::{FinishReason, StreamEvent, ToolCallPart, Usage};

fn usage(i: u32, o: u32, r: Option<u32>) -> Usage {
    Usage { input_tokens: i, output_tokens: o, reasoning_tokens: r, cached_tokens: None }
}

fn call(id: &str) -> ToolCallPart {
    ToolCallPart { id: id.to_string(), name: "read".to_string(), arguments: "{}".to_string(), metadata: vec![], display: None }
}

#[test]
fn first_turn_carries_workspace_instructions() {
    let mut messages: Vec<Message> = Vec::new();
    let mut md = Some("Use tabs.".to_string());
    let e = begin_turn(&mut messages, &mut md, "hello");
    assert!(matches!(e, AgentEvent::UserMessage { content } if content == "hello"));
    assert!(md.is_none());
    assert_eq!(messages.len(), 2);
    assert!(matches!(&messages[0], Message::System(p) if p == &vec!["Repository instructions from AGENTS.md:\n\nUse tabs.".to_string()]));
    assert!(matches!(&messages[1], Message::User(p) if matches!(&p[0], UserPart::Text(t) if t == "hello")));
    let mut later = Some("again".to_string());
    begin_turn(&mut messages, &mut later, "more");
    assert_eq!(messages.len(), 3);
    assert!(later.is_some(), "only the first turn uses the instructions");
}

#[test]
fn a_pass_with_text_ends_the_turn() {
    let mut pass = new_pass(usage(1, 1, None));
    let s = on_stream_event(&mut pass, StreamEvent::TextDelta("Hel".to_string()));
    assert!(matches!(s, StreamStep::Emit(AgentEvent::TextDelta { delta }) if delta == "Hel"));
    on_stream_event(&mut pass, StreamEvent::TextDelta("lo".to_string()));
    assert!(matches!(on_stream_event(&mut pass, StreamEvent::TextDone { metadata: vec![("openai:item_id".to_string(), "m1".to_string())] }), StreamStep::Quiet));
    let u = usage(10, 5, Some(2));
    assert!(usage_fits(pass.usage, u));
    on_stream_event(&mut pass, StreamEvent::Finish { reason: FinishReason::Stop, usage: Some(u) });
    let mut messages: Vec<Message> = Vec::new();
    let (end, total) = end_pass(pass, &mut messages);
    assert_eq!((total.input_tokens, total.output_tokens, total.reasoning_tokens), (11, 6, Some(2)));
    assert!(matches!(end, PassEnd::Complete(AgentEvent::TurnComplete { usage }) if usage.input_tokens == 11));
    match &messages[0] {
        Message::Assistant(parts) => {
            assert_eq!(parts.len(), 1);
            assert!(matches!(&parts[0], AssistantPart::Text(t) if t.text == "Hello" && t.metadata.len() == 1));
        }
        _ => panic!("expected an assistant message"),
    }
    assert!(!usage_fits(usage(u32::MAX, 0, None), usage(1, 0, None)));
}

#[test]
fn tool_calls_run_and_report() {
    let mut pass = new_pass(usage(0, 0, None));
    on_stream_event(&mut pass, StreamEvent::TextDelta("Let me look".to_string()));
    on_stream_event(&mut pass, StreamEvent::ToolCallBegin { index: 0, id: "c1".to_string(), name: "read".to_string() });
    on_stream_event(&mut pass, StreamEvent::ToolCallEnd { index: 0, call: call("c1") });
    on_stream_event(&mut pass, StreamEvent::Finish { reason: FinishReason::ToolCalls, usage: None });
    let mut messages: Vec<Message> = Vec::new();
    let (end, _) = end_pass(pass, &mut messages);
    let calls = match end {
        PassEnd::RunTools(c) => c,
        _ => panic!("expected tool calls"),
    };
    assert_eq!(calls.len(), 1);
    match &messages[0] {
        Message::Assistant(parts) => assert_eq!(parts.len(), 2),
        _ => panic!("expected an assistant message"),
    }
    let e = tool_started(&mut messages, &calls[0], ToolCallDisplay { title: "Read a".to_string(), body: None });
    assert!(matches!(e, AgentEvent::ToolCallStart { id, display } if id == "c1" && display.title == "Read a"));
    let run = ToolRun { display: ToolResultDisplay { title: "3 lines".to_string(), body: None }, llm_output: "abc".to_string() };
    let e = tool_finished(&mut messages, &calls[0], Ok(run));
    assert!(matches!(e, AgentEvent::ToolCallDone { id, display } if id == "c1" && display.title == "3 lines"));
    assert!(matches!(&messages[1], Message::Tool(p) if p[0].tool_call_id == "c1" && p[0].content == "abc"));
    let e = tool_finished(&mut messages, &calls[0], Err(unknown_tool_reason("grep")));
    match e {
        AgentEvent::ToolCallDone { display, .. } => {
            assert_eq!(display.title, "error");
            assert!(matches!(display.body, Some(DisplayBody::Text(t)) if t == "tool error: unknown tool: grep"));
        }
        _ => panic!("expected a done event"),
    }
    assert!(matches!(&messages[2], Message::Tool(p) if p[0].content == "tool error: unknown tool: grep"));
    match &messages[0] {
        Message::Assistant(parts) => match &parts[1] {
            AssistantPart::ToolCall(c) => {
                let d = c.display.as_ref().expect("the call keeps its display");
                assert_eq!(d.title, "Read a");
                assert_eq!(d.result.as_ref().map(|r| r.title.as_str()), Some("error"));
            }
            _ => panic!("expected the tool call"),
        },
        _ => panic!("expected an assistant message"),
    }
}

#[test]
fn a_result_without_a_start_is_titled_with_the_tool_name() {
    let mut messages = vec![Message::Assistant(vec![AssistantPart::ToolCall(call("c9"))])];
    let run = ToolRun { display: ToolResultDisplay { title: "done".to_string(), body: None }, llm_output: "ok".to_string() };
    tool_finished(&mut messages, &call("c9"), Ok(run));
    match &messages[0] {
        Message::Assistant(parts) => match &parts[0] {
            AssistantPart::ToolCall(c) => {
                let d = c.display.as_ref().expect("the call is shown");
                assert_eq!(d.title, "read");
                assert!(d.description.is_none());
                assert_eq!(d.result.as_ref().map(|r| r.title.as_str()), Some("done"));
            }
            _ => panic!("expected the tool call"),
        },
        _ => panic!("expected an assistant message"),
    }
    let before = messages.len();
    tool_finished(&mut messages, &call("other"), Err("x".to_string()));
    assert_eq!(messages.len(), before + 1);
}

#[test]
fn stream_error_fails_the_turn() {
    let mut pass = new_pass(usage(0, 0, None));
    let s = on_stream_event(&mut pass, StreamEvent::Error("overloaded".to_string()));
    assert!(matches!(s, StreamStep::Failed(AgentEvent::Error { error }) if error == "overloaded"));
    let mut messages: Vec<Message> = Vec::new();
    let (end, _) = end_pass(new_pass(usage(0, 0, None)), &mut messages);
    assert!(messages.is_empty());
    assert!(matches!(end, PassEnd::Complete(_)));
}
