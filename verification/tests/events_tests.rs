use agnt::openai_events::{
    sse_kind, EventMapper, FinishReason, FunctionCallArgumentsDelta, InputTokensDetails, OutputItem, OutputItemAdded,
    OutputItemComplete, OutputItemDone, OutputTextDelta, OutputTokensDetails, ReasoningSummaryPart,
    ReasoningSummaryTextDelta, ResponseCompleted, ResponseObject, SseEvent, SseKind, StreamEvent, UsageObject,
};

fn s(x: &str) -> String {
    x.to_string()
}

fn pairs(v: &[(&str, &str)]) -> Vec<(String, String)> {
    v.iter().map(|(a, b)| (s(a), s(b))).collect()
}

#[test]
fn event_names_select_payloads() {
    assert_eq!(sse_kind("response.output_text.delta"), SseKind::OutputTextDelta);
    assert_eq!(sse_kind("response.output_item.added"), SseKind::OutputItemAdded);
    assert_eq!(sse_kind("response.reasoning_summary_text.delta"), SseKind::ReasoningSummaryTextDelta);
    assert_eq!(sse_kind("response.function_call_arguments.delta"), SseKind::FunctionCallArgumentsDelta);
    assert_eq!(sse_kind("response.output_item.done"), SseKind::OutputItemDone);
    assert_eq!(sse_kind("response.completed"), SseKind::ResponseCompleted);
    assert_eq!(sse_kind("error"), SseKind::Error);
    assert_eq!(sse_kind("response.created"), SseKind::Ignored);
    assert_eq!(sse_kind("response.output_text.done"), SseKind::Ignored);
}

#[test]
fn text_and_reasoning_stream() {
    let mut m = EventMapper::new();
    let r = m.map_event(SseEvent::OutputItemAdded(OutputItemAdded { item: OutputItem::Reasoning { id: s("rs_1") } }));
    assert!(r.is_none());
    let r = m.map_event(SseEvent::ReasoningSummaryTextDelta(ReasoningSummaryTextDelta { delta: s("think") }));
    assert!(matches!(r, Some(StreamEvent::ReasoningDelta(d)) if d == "think"));
    let done = OutputItemComplete::Reasoning {
        id: s("rs_1"),
        summary: vec![
            ReasoningSummaryPart::SummaryText { text: s("first") },
            ReasoningSummaryPart::SummaryText { text: s("second") },
        ],
        encrypted_content: Some(s("enc")),
    };
    match m.map_event(SseEvent::OutputItemDone(OutputItemDone { item: done })) {
        Some(StreamEvent::ReasoningDone(p)) => {
            assert_eq!(p.text.as_deref(), Some("first"));
            assert_eq!(p.metadata, pairs(&[("openai:item_id", "rs_1"), ("openai:encrypted_content", "enc")]));
        }
        _ => panic!("expected reasoning done"),
    }
    let bare = OutputItemComplete::Reasoning { id: s("rs_2"), summary: vec![], encrypted_content: None };
    match m.map_event(SseEvent::OutputItemDone(OutputItemDone { item: bare })) {
        Some(StreamEvent::ReasoningDone(p)) => {
            assert_eq!(p.text, None);
            assert_eq!(p.metadata, pairs(&[("openai:item_id", "rs_2")]));
        }
        _ => panic!("expected reasoning done"),
    }
    assert!(m.map_event(SseEvent::OutputItemAdded(OutputItemAdded { item: OutputItem::Message { id: s("msg_1") } })).is_none());
    let r = m.map_event(SseEvent::OutputTextDelta(OutputTextDelta { delta: s("Hello") }));
    assert!(matches!(r, Some(StreamEvent::TextDelta(d)) if d == "Hello"));
    let r = m.map_event(SseEvent::OutputItemDone(OutputItemDone { item: OutputItemComplete::Message { id: s("msg_1") } }));
    assert!(matches!(r, Some(StreamEvent::TextDone { metadata }) if metadata == pairs(&[("openai:item_id", "msg_1")])));
    let completed = ResponseCompleted {
        response: ResponseObject {
            id: s("resp"),
            status: s("completed"),
            usage: Some(UsageObject {
                input_tokens: 10,
                output_tokens: 5,
                output_tokens_details: Some(OutputTokensDetails { reasoning_tokens: Some(3) }),
                input_tokens_details: None,
            }),
        },
    };
    match m.map_event(SseEvent::ResponseCompleted(completed)) {
        Some(StreamEvent::Finish { reason, usage: Some(u) }) => {
            assert_eq!(reason, FinishReason::Stop);
            assert_eq!((u.input_tokens, u.output_tokens, u.reasoning_tokens, u.cached_tokens), (10, 5, Some(3), None));
        }
        _ => panic!("expected finish"),
    }
    assert!(m.map_event(SseEvent::Ignored).is_none());
    assert!(matches!(m.map_event(SseEvent::Error(s("{\"code\":1}"))), Some(StreamEvent::Error(e)) if e == "{\"code\":1}"));
}

#[test]
fn tool_calls_keep_their_indices() {
    let mut m = EventMapper::new();
    let add = |id: &str, call: &str, name: &str| {
        SseEvent::OutputItemAdded(OutputItemAdded {
            item: OutputItem::FunctionCall { id: s(id), name: s(name), call_id: s(call) },
        })
    };
    let done = |id: &str| {
        SseEvent::OutputItemDone(OutputItemDone {
            item: OutputItemComplete::FunctionCall {
                id: s(id),
                call_id: s("c"),
                name: s("read"),
                arguments: s("{}"),
            },
        })
    };
    let r = m.map_event(SseEvent::FunctionCallArgumentsDelta(FunctionCallArgumentsDelta { delta: s("x") }));
    assert!(matches!(r, Some(StreamEvent::ToolCallDelta { index: 0, .. })));
    assert!(m.can_number_call());
    let r = m.map_event(add("fc_a", "call_a", "read"));
    assert!(matches!(r, Some(StreamEvent::ToolCallBegin { index: 0, id, name }) if id == "call_a" && name == "read"));
    let r = m.map_event(add("fc_b", "call_b", "bash"));
    assert!(matches!(r, Some(StreamEvent::ToolCallBegin { index: 1, .. })));
    let r = m.map_event(SseEvent::FunctionCallArgumentsDelta(FunctionCallArgumentsDelta { delta: s("{\"p\"") }));
    assert!(matches!(r, Some(StreamEvent::ToolCallDelta { index: 1, arguments_delta }) if arguments_delta == "{\"p\""));
    match m.map_event(done("fc_a")) {
        Some(StreamEvent::ToolCallEnd { index, call }) => {
            assert_eq!(index, 0);
            assert_eq!((call.id.as_str(), call.name.as_str(), call.arguments.as_str()), ("c", "read", "{}"));
            assert_eq!(call.metadata, pairs(&[("openai:item_id", "fc_a")]));
        }
        _ => panic!("expected tool call end"),
    }
    assert!(matches!(m.map_event(done("fc_b")), Some(StreamEvent::ToolCallEnd { index: 1, .. })));
    assert!(matches!(m.map_event(done("unknown")), Some(StreamEvent::ToolCallEnd { index: 0, .. })));
    let completed = ResponseCompleted {
        response: ResponseObject {
            id: s("r"),
            status: s("completed"),
            usage: Some(UsageObject {
                input_tokens: 1,
                output_tokens: 2,
                output_tokens_details: None,
                input_tokens_details: Some(InputTokensDetails { cached_tokens: Some(7) }),
            }),
        },
    };
    match m.map_event(SseEvent::ResponseCompleted(completed)) {
        Some(StreamEvent::Finish { reason, usage: Some(u) }) => {
            assert_eq!(reason, FinishReason::ToolCalls);
            assert_eq!((u.reasoning_tokens, u.cached_tokens), (None, Some(7)));
        }
        _ => panic!("expected finish"),
    }
}
