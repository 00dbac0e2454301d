use agnt::conversation::{
    extract_latest_turn_parts, AssistantPart, Message, TextPart, ToolCallDisplayPart, TurnPartsError, UserPart,
};
use agnt::event::ToolResultDisplay;
use agnt::history::display_messages_from_history;
use agnt::openai_events::{ReasoningPart, ToolCallPart};
use agnt::screen::{Role, StreamChunk};

fn s(x: &str) -> String {
    x.to_string()
}

fn call(id: &str, display: Option<ToolCallDisplayPart>) -> AssistantPart {
    AssistantPart::ToolCall(ToolCallPart { id: s(id), name: s("bash"), arguments: s("{}"), metadata: vec![], display })
}

fn texts(cs: &[StreamChunk]) -> Vec<String> {
    cs.iter()
        .map(|c| match c {
            StreamChunk::Text(t) => format!("text:{t}"),
            StreamChunk::Reasoning(t) => format!("reasoning:{t}"),
            StreamChunk::Tool(t) => format!("tool:{t}"),
        })
        .collect()
}

#[test]
fn history_shows_user_and_assistant_messages() {
    let messages = vec![
        Message::System(vec![s("be brief")]),
        Message::User(vec![UserPart::Text(s("hi")), UserPart::Text(s("")), UserPart::Image(s("http://i/p.png"))]),
        Message::Assistant(vec![
            AssistantPart::Reasoning(ReasoningPart { text: Some(s("thinking")), metadata: vec![] }),
            AssistantPart::Reasoning(ReasoningPart { text: None, metadata: vec![] }),
            AssistantPart::Text(TextPart { text: s("hello"), metadata: vec![] }),
            call(
                "c1",
                Some(ToolCallDisplayPart {
                    title: s("Run ls"),
                    description: None,
                    result: Some(ToolResultDisplay { title: s("2 lines"), body: None }),
                }),
            ),
            call("c2", Some(ToolCallDisplayPart { title: s("Run pwd"), description: None, result: None })),
            call("c3", None),
        ]),
        Message::Tool(vec![]),
        Message::User(vec![UserPart::Text(s(""))]),
        Message::Assistant(vec![AssistantPart::Text(TextPart { text: s(""), metadata: vec![] })]),
    ];
    let out = display_messages_from_history(&messages);
    assert_eq!(out.len(), 2);
    assert_eq!(out[0].role, Role::User);
    assert_eq!(texts(&out[0].chunks), vec!["text:hi", "text:[image: http://i/p.png]"]);
    assert_eq!(out[1].role, Role::Assistant);
    assert_eq!(
        texts(&out[1].chunks),
        vec![
            "reasoning:thinking",
            "text:hello",
            "tool:[Run ls...]",
            "tool:[2 lines]",
            "tool:[Run pwd...]",
            "tool:[tool: bash...]",
        ]
    );
    assert!(display_messages_from_history(&[]).is_empty());
}

#[test]
fn latest_turn_is_the_last_user_message_and_the_answers_after_it() {
    let messages = vec![
        Message::User(vec![UserPart::Text(s("first"))]),
        Message::Assistant(vec![AssistantPart::Text(TextPart { text: s("a"), metadata: vec![] })]),
        Message::User(vec![UserPart::Text(s("second"))]),
        Message::Assistant(vec![]),
        Message::Tool(vec![]),
        Message::Assistant(vec![AssistantPart::Text(TextPart { text: s("b"), metadata: vec![] })]),
    ];
    let t = extract_latest_turn_parts(&messages).expect("a turn");
    assert_eq!(t.user_index, 2);
    assert_eq!(t.assistant_indices, vec![3, 5]);

    let no_user = vec![Message::Assistant(vec![AssistantPart::Text(TextPart { text: s("a"), metadata: vec![] })])];
    let e = extract_latest_turn_parts(&no_user).err().expect("no user message");
    assert_eq!(e, TurnPartsError::NoUserMessage);
    assert_eq!(e.message(), "cannot persist turn: no user message found");

    let unanswered = vec![
        Message::User(vec![UserPart::Text(s("q"))]),
        Message::Assistant(vec![]),
    ];
    let e = extract_latest_turn_parts(&unanswered).err().expect("no assistant content");
    assert_eq!(e, TurnPartsError::NoAssistantContent);
    assert_eq!(e.message(), "cannot persist turn: no assistant content found for latest user turn");
}
