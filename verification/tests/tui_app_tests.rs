use agnt::auth::{OAuthPkceAuth, ResolvedAuth};
use agnt::commands::Command;
use agnt::conversation::TurnPartsError;
use agnt::event::{AgentEvent, ToolCallDisplay};
use agnt::input_box::{Key, KeyAction, KeyPress};
use agnt::mentions::Mention;
use agnt::openai_events::Usage;
use agnt::screen::{Role, StreamChunk};
use agnt::stream::EventEffect;
use agnt::tui_app::{
    app_enter_step, app_event_step, app_key_step, app_turn_saved, check_mention_fits, submit_step, AppPhase, AppView,
    EnterOutcome,
};
use agnt::tui_typeahead::TypeaheadActivation;

fn press(key: Key) -> KeyPress {
    KeyPress { key, ctrl: false, shift_or_alt: false }
}

fn ctrl_c() -> KeyPress {
    KeyPress { key: Key::Char('c'), ctrl: true, shift_or_alt: false }
}

fn generating_with(text: &str) -> AppView {
    let mut app = AppView::new();
    app.phase = AppPhase::Generating;
    app.stream_chunks.push(StreamChunk::Text(text.to_string()));
    app
}

#[test]
fn ctrl_c_while_generating_closes_the_answer() {
    let mut app = generating_with("partial");
    assert_eq!(app_key_step(&mut app, ctrl_c(), false), KeyAction::CancelGeneration);
    assert_eq!(app.phase, AppPhase::Idle);
    assert!(!app.should_quit);
    assert!(app.stream_chunks.is_empty());
    assert_eq!(app.messages.len(), 1);
    assert_eq!(app.messages[0].role, Role::Assistant);
    assert!(matches!(&app.messages[0].chunks[0], StreamChunk::Text(t) if t == "partial"));

    // Idle now: Control-C quits, nothing else changes.
    assert_eq!(app_key_step(&mut app, ctrl_c(), false), KeyAction::Quit);
    assert!(app.should_quit);
    assert_eq!(app.messages.len(), 1);
}

#[test]
fn esc_while_generating_stops_and_nothing_empty_is_kept() {
    let mut app = AppView::new();
    app.phase = AppPhase::Generating;
    assert_eq!(app_key_step(&mut app, press(Key::Esc), false), KeyAction::CancelGeneration);
    assert_eq!(app.phase, AppPhase::Idle);
    assert!(app.messages.is_empty());
    assert_eq!(app_key_step(&mut app, press(Key::Esc), false), KeyAction::DismissTypeahead);
    assert!(!app.should_quit);
}

#[test]
fn typing_and_enter_submit() {
    let mut app = AppView::new();
    for c in "  hi ".chars() {
        app_key_step(&mut app, press(Key::Char(c)), false);
    }
    assert_eq!(app.input.input, "  hi ");
    let a = app_key_step(&mut app, press(Key::Enter), false);
    assert_eq!(a, KeyAction::Enter { submit: true });
    assert!(matches!(app_enter_step(&mut app, None, true), EnterOutcome::Submit));

    let sent = submit_step(&mut app, Err("db locked".to_string()));
    assert!(sent.is_none());
    assert_eq!(app.phase, AppPhase::Idle);
    assert!(matches!(&app.stream_chunks[0], StreamChunk::Tool(t) if t == "[session error: db locked]"));

    let sent = submit_step(&mut app, Ok(()));
    assert_eq!(sent.as_deref(), Some("hi"));
    assert_eq!(app.phase, AppPhase::Generating);
    assert!(app.stream_chunks.is_empty());
    assert_eq!(app.input.input, "  hi ", "the input stays until the agent records it");

    assert_eq!(app_key_step(&mut app, press(Key::Enter), false), KeyAction::Enter { submit: false });
    assert!(matches!(app_enter_step(&mut app, None, false), EnterOutcome::Nothing));
}

#[test]
fn enter_takes_a_mention_or_a_command() {
    let mut app = AppView::new();
    for c in "see @ma".chars() {
        app_key_step(&mut app, press(Key::Char(c)), false);
    }
    let mention = Mention::File("src\\main.rs".to_string());
    assert!(check_mention_fits(&app.input, &mention, 4, 7));
    assert!(!check_mention_fits(&app.input, &mention, 5, 4));
    let act = TypeaheadActivation::Mention { mention, token_start: 4, token_end: 7 };
    assert!(matches!(app_enter_step(&mut app, Some(act), true), EnterOutcome::Mentioned));
    assert_eq!(app.input.input, "see src/main.rs ");
    assert_eq!(app.input.cursor_pos, 16);

    let act = TypeaheadActivation::Command { command: Command::NewSession, token_start: 0, token_end: 1 };
    assert!(matches!(app_enter_step(&mut app, Some(act), true), EnterOutcome::Command(Command::NewSession)));
    assert_eq!(app.input.input, "see src/main.rs ");
}

#[test]
fn agent_events_drive_the_phase() {
    let mut app = AppView::new();
    app.input.input = "hello".to_string();
    app.input.cursor_pos = 5;
    app.phase = AppPhase::Generating;
    let e = app_event_step(&mut app, AgentEvent::UserMessage { content: "hello".to_string() });
    assert!(matches!(e, EventEffect::ClearInput));
    assert_eq!(app.input.input, "");
    assert_eq!(app.input.cursor_pos, 0);
    app_event_step(&mut app, AgentEvent::TextDelta { delta: "Hi".to_string() });
    app_event_step(&mut app, AgentEvent::ToolCallStart {
        id: "c1".to_string(),
        display: ToolCallDisplay { title: "Read a".to_string(), body: None },
    });
    let usage = Usage { input_tokens: 1, output_tokens: 2, reasoning_tokens: None, cached_tokens: None };
    let e = app_event_step(&mut app, AgentEvent::TurnComplete { usage });
    assert!(matches!(e, EventEffect::SaveTurn(u) if u.output_tokens == 2));
    assert_eq!(app.phase, AppPhase::Generating);
    app_turn_saved(&mut app, Err("disk full".to_string()));
    assert_eq!(app.phase, AppPhase::Idle);
    assert_eq!(app.messages.len(), 2);
    assert_eq!(app.messages[1].chunks.len(), 3);

    app.phase = AppPhase::Generating;
    let e = app_event_step(&mut app, AgentEvent::Error { error: "boom".to_string() });
    assert!(matches!(e, EventEffect::Stopped));
    assert_eq!(app.phase, AppPhase::Idle);
    assert!(matches!(app.messages.last().unwrap().chunks.last().unwrap(), StreamChunk::Tool(t) if t == "[error: boom]"));
}

#[test]
fn defaults_and_error_texts() {
    let d = OAuthPkceAuth::default();
    assert!(d.client_id.is_empty() && d.scopes.is_empty() && d.token_params.is_empty());
    let r = ResolvedAuth::default();
    assert!(r.method.is_empty() && r.values.is_empty());
    assert_eq!(ResolvedAuth::api_key("k".to_string()).get("api_key"), Some("k"));
    assert_eq!(TurnPartsError::NoUserMessage.message(), "cannot persist turn: no user message found");
    assert_eq!(
        TurnPartsError::NoAssistantContent.message(),
        "cannot persist turn: no assistant content found for latest user turn"
    );
}
