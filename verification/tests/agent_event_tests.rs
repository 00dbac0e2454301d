use agnt::event::{AgentEvent, ToolCallDisplay, ToolResultDisplay};
use agnt::openai_events::Usage;
use agnt::screen::{DisplayMessage, Role, StreamChunk};
use agnt::models::Session;
use agnt::session_dialog::session_label;
use agnt::stream::{apply_agent_event, open_resume_dialog, turn_saved, EventEffect};

fn texts(chunks: &[StreamChunk]) -> Vec<String> {
    chunks
        .iter()
        .map(|c| match c {
            StreamChunk::Reasoning(s) => format!("R:{s}"),
            StreamChunk::Text(s) => format!("T:{s}"),
            StreamChunk::Tool(s) => format!("L:{s}"),
        })
        .collect()
}

fn usage() -> Usage {
    Usage { input_tokens: 3, output_tokens: 4, reasoning_tokens: None, cached_tokens: Some(1) }
}

#[test]
fn a_turn_as_the_interface_follows_it() {
    let mut messages: Vec<DisplayMessage> = Vec::new();
    let mut chunks: Vec<StreamChunk> = Vec::new();
    let e = apply_agent_event(&mut messages, &mut chunks, AgentEvent::UserMessage { content: "hi".to_string() });
    assert!(matches!(e, EventEffect::ClearInput));
    assert_eq!(messages.len(), 1);
    assert_eq!(messages[0].role, Role::User);
    assert_eq!(texts(&messages[0].chunks), vec!["T:hi"]);

    for d in ["thin", "king"] {
        let e = apply_agent_event(&mut messages, &mut chunks, AgentEvent::ReasoningDelta { delta: d.to_string() });
        assert!(matches!(e, EventEffect::ShowCursor));
    }
    apply_agent_event(&mut messages, &mut chunks, AgentEvent::TextDelta { delta: "Hel".to_string() });
    apply_agent_event(&mut messages, &mut chunks, AgentEvent::TextDelta { delta: "lo".to_string() });
    let start = ToolCallDisplay { title: "Read a.rs".to_string(), body: None };
    let e = apply_agent_event(&mut messages, &mut chunks, AgentEvent::ToolCallStart { id: "1".to_string(), display: start });
    assert!(matches!(e, EventEffect::Nothing));
    let done = ToolResultDisplay { title: "3 lines".to_string(), body: None };
    apply_agent_event(&mut messages, &mut chunks, AgentEvent::ToolCallDone { id: "1".to_string(), display: done });
    assert_eq!(texts(&chunks), vec!["R:thinking", "T:Hello", "L:[Read a.rs...]", "L:[3 lines]"]);

    let e = apply_agent_event(&mut messages, &mut chunks, AgentEvent::TurnComplete { usage: usage() });
    match e {
        EventEffect::SaveTurn(u) => assert_eq!((u.input_tokens, u.output_tokens, u.cached_tokens), (3, 4, Some(1))),
        _ => panic!("expected a save"),
    }
    assert_eq!(chunks.len(), 4, "saving comes first");
    turn_saved(&mut messages, &mut chunks, Err("disk full".to_string()));
    assert!(chunks.is_empty());
    assert_eq!(messages.len(), 2);
    assert_eq!(messages[1].role, Role::Assistant);
    assert_eq!(
        texts(&messages[1].chunks),
        vec!["R:thinking", "T:Hello", "L:[Read a.rs...]", "L:[3 lines]", "L:[session save error: disk full]"]
    );
    turn_saved(&mut messages, &mut chunks, Ok(()));
    assert_eq!(messages.len(), 2, "an empty answer adds no message");
}

#[test]
fn a_failed_turn_closes_the_answer() {
    let mut messages: Vec<DisplayMessage> = Vec::new();
    let mut chunks: Vec<StreamChunk> = vec![StreamChunk::Text("partial".to_string())];
    let e = apply_agent_event(&mut messages, &mut chunks, AgentEvent::Error { error: "timeout".to_string() });
    assert!(matches!(e, EventEffect::Stopped));
    assert!(chunks.is_empty());
    assert_eq!(texts(&messages[0].chunks), vec!["T:partial", "L:[error: timeout]"]);
}

fn session(id: &str, title: Option<&str>) -> Session {
    Session {
        id: id.to_string(),
        project_id: "p".to_string(),
        title: title.map(|t| t.to_string()),
        root_turn_id: None,
        current_turn_id: None,
        created_at_ms: 0,
        updated_at_ms: 0,
    }
}

#[test]
fn resume_dialog_offers_other_sessions() {
    let all = vec![session("s1", Some("Fix bug")), session("s2", None), session("s3", None)];
    let d = open_resume_dialog(Ok(all), Some("s2")).ok().unwrap();
    assert_eq!(d.selected_index, 0);
    let ids: Vec<&str> = d.entries.iter().map(|e| e.session_id.as_str()).collect();
    assert_eq!(ids, vec!["s1", "s3"]);
    assert_eq!(d.entries[0].label, session_label(&session("s1", Some("Fix bug"))));
    match open_resume_dialog(Ok(vec![session("s2", None)]), Some("s2")) {
        Err(StreamChunk::Tool(t)) => assert_eq!(t, "[no previous sessions to resume]"),
        _ => panic!("expected a notice"),
    }
    match open_resume_dialog(Err("locked".to_string()), None) {
        Err(StreamChunk::Tool(t)) => assert_eq!(t, "[session error: locked]"),
        _ => panic!("expected an error line"),
    }
}
