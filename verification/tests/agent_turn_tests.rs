use agnt::agent_loop::ToolRun;
use agnt::agent_turn::{agent_step, start_turn, Turn, TurnEvent, TurnPhase, TurnStep, TurnWork};
use agnt::conversation::{AssistantPart, Message};
use agnt::event::{AgentEvent, ToolCallDisplay, ToolResultDisplay};
use agnt::openai_events::{FinishReason, StreamEvent, ToolCallPart, Usage};

fn call(id: &str) -> ToolCallPart {
    ToolCallPart { id: id.to_string(), name: "read".to_string(), arguments: "{}".to_string(), metadata: vec![], display: None }
}

fn usage(i: u32, o: u32) -> Usage {
    Usage { input_tokens: i, output_tokens: o, reasoning_tokens: None, cached_tokens: None }
}

fn name(e: &Option<AgentEvent>) -> &'static str {
    match e {
        None => "-",
        Some(AgentEvent::UserMessage { .. }) => "user",
        Some(AgentEvent::TextDelta { .. }) => "text",
        Some(AgentEvent::ReasoningDelta { .. }) => "reasoning",
        Some(AgentEvent::ToolCallStart { .. }) => "start",
        Some(AgentEvent::ToolCallDone { .. }) => "done",
        Some(AgentEvent::TurnComplete { .. }) => "complete",
        Some(AgentEvent::Error { .. }) => "error",
    }
}

fn step(turn: &mut Turn, told: &mut Vec<&'static str>, e: TurnEvent) -> TurnStep {
    let s = agent_step(turn, e);
    told.push(name(&s.tell));
    s
}

#[test]
fn a_turn_runs_its_tools_in_order_and_completes_once() {
    let mut md = Some("Be terse.".to_string());
    let (mut turn, first) = start_turn(Vec::new(), &mut md, "list files");
    let mut told = vec![name(&first.tell)];
    assert!(matches!(first.work, TurnWork::Generate));
    assert_eq!(turn.messages.len(), 2);

    step(&mut turn, &mut told, TurnEvent::Stream(StreamEvent::TextDelta("Looking".to_string())));
    step(&mut turn, &mut told, TurnEvent::Stream(StreamEvent::ToolCallEnd { index: 0, call: call("a") }));
    step(&mut turn, &mut told, TurnEvent::Stream(StreamEvent::ToolCallEnd { index: 1, call: call("b") }));
    step(&mut turn, &mut told, TurnEvent::Stream(StreamEvent::Finish { reason: FinishReason::ToolCalls, usage: Some(usage(3, 2)) }));
    let s = step(&mut turn, &mut told, TurnEvent::StreamEnded);
    assert!(matches!(&s.work, TurnWork::Prepare(c) if c.id == "a"));

    // A result before the call was prepared is not taken.
    let s = step(&mut turn, &mut told, TurnEvent::ToolRan(Err("early".to_string())));
    assert!(matches!(s.work, TurnWork::Ignored));
    told.pop();

    let s = step(&mut turn, &mut told, TurnEvent::ToolPrepared(Ok(ToolCallDisplay { title: "Read a".to_string(), body: None })));
    assert!(matches!(s.work, TurnWork::Run));
    let run = ToolRun { display: ToolResultDisplay { title: "1 line".to_string(), body: None }, llm_output: "x".to_string() };
    let s = step(&mut turn, &mut told, TurnEvent::ToolRan(Ok(run)));
    assert!(matches!(&s.work, TurnWork::Prepare(c) if c.id == "b"));
    let s = step(&mut turn, &mut told, TurnEvent::ToolPrepared(Err("bad arguments".to_string())));
    assert!(matches!(s.work, TurnWork::Generate));
    assert!(matches!(turn.phase, TurnPhase::Generating));
    assert_eq!(turn.pass.usage.input_tokens, 3);

    step(&mut turn, &mut told, TurnEvent::Stream(StreamEvent::TextDelta("Done.".to_string())));
    step(&mut turn, &mut told, TurnEvent::Stream(StreamEvent::Finish { reason: FinishReason::Stop, usage: Some(usage(4, 1)) }));
    let s = step(&mut turn, &mut told, TurnEvent::StreamEnded);
    assert!(matches!(s.work, TurnWork::Stop));
    assert!(matches!(&s.tell, Some(AgentEvent::TurnComplete { usage }) if usage.input_tokens == 7 && usage.output_tokens == 3));

    // Once over, the turn takes nothing more.
    let s = step(&mut turn, &mut told, TurnEvent::StreamEnded);
    assert!(matches!(s.work, TurnWork::Stop));

    assert_eq!(
        told,
        vec!["user", "text", "-", "-", "-", "-", "start", "done", "done", "text", "-", "complete", "-"]
    );
    // system, user, assistant (text + two calls), two tool results, assistant.
    assert_eq!(turn.messages.len(), 6);
    match &turn.messages[2] {
        Message::Assistant(parts) => {
            assert_eq!(parts.len(), 3);
            assert!(matches!(&parts[1], AssistantPart::ToolCall(c) if c.display.as_ref().map(|d| d.title.as_str()) == Some("Read a")));
            assert!(matches!(&parts[2], AssistantPart::ToolCall(c) if c.display.as_ref().map(|d| d.title.as_str()) == Some("read")));
        }
        _ => panic!("expected the assistant message"),
    }
}

#[test]
fn a_stream_error_ends_the_turn_without_completion() {
    let mut md = None;
    let (mut turn, _) = start_turn(Vec::new(), &mut md, "hi");
    let s = agent_step(&mut turn, TurnEvent::Stream(StreamEvent::Error("rate limited".to_string())));
    assert!(matches!(&s.tell, Some(AgentEvent::Error { error }) if error == "rate limited"));
    assert!(matches!(s.work, TurnWork::Stop));
    let s = agent_step(&mut turn, TurnEvent::StreamEnded);
    assert!(s.tell.is_none());
    assert!(matches!(s.work, TurnWork::Stop));
    assert_eq!(turn.messages.len(), 1);
}
