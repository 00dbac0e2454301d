use agnt::input_box::{handle_mouse, InputBox, Key, KeyPress, MouseScroll};
use agnt::models::Session;
use agnt::screen::{DisplayMessage, Role, StreamChunk};
use agnt::stream::{
    dialog_key_action, error_line, finalize_response, push_reasoning_delta, push_text_delta, resume_candidates,
    session_error_line, session_save_error_line, tool_done_line, tool_started_line, user_message, DialogAction,
};
use agnt::thread::{build_thread_blocks, byte_offset_to_position, ThreadBlockKind};

fn text_of(c: &StreamChunk) -> (&'static str, String) {
    match c {
        StreamChunk::Reasoning(s) => ("reasoning", s.clone()),
        StreamChunk::Text(s) => ("text", s.clone()),
        StreamChunk::Tool(s) => ("tool", s.clone()),
    }
}

#[test]
fn deltas_merge_into_chunks() {
    let mut chunks = Vec::new();
    push_reasoning_delta(&mut chunks, "think");
    push_reasoning_delta(&mut chunks, "ing");
    push_text_delta(&mut chunks, "Hel");
    push_text_delta(&mut chunks, "lo");
    chunks.push(tool_started_line("Read a.rs"));
    push_text_delta(&mut chunks, "!");
    let got: Vec<(&str, String)> = chunks.iter().map(text_of).collect();
    assert_eq!(
        got,
        vec![
            ("reasoning", "thinking".to_string()),
            ("text", "Hello".to_string()),
            ("tool", "[Read a.rs...]".to_string()),
            ("text", "!".to_string()),
        ]
    );
    let mut once = Vec::new();
    push_text_delta(&mut once, "Hello");
    let mut twice = Vec::new();
    push_text_delta(&mut twice, "He");
    push_text_delta(&mut twice, "llo");
    assert_eq!(once.iter().map(text_of).collect::<Vec<_>>(), twice.iter().map(text_of).collect::<Vec<_>>());
}

#[test]
fn status_lines() {
    assert_eq!(text_of(&tool_done_line("Read a.rs")).1, "[Read a.rs]");
    assert_eq!(text_of(&error_line("boom")).1, "[error: boom]");
    assert_eq!(text_of(&session_error_line("db")).1, "[session error: db]");
    assert_eq!(text_of(&session_save_error_line("db")).1, "[session save error: db]");
    let m = user_message("hi".to_string());
    assert!(matches!(m.role, Role::User));
    assert_eq!(m.chunks.len(), 1);
}

#[test]
fn finalizing_moves_the_stream_into_history() {
    let mut messages: Vec<DisplayMessage> = Vec::new();
    let mut chunks: Vec<StreamChunk> = Vec::new();
    finalize_response(&mut messages, &mut chunks);
    assert!(messages.is_empty());
    push_text_delta(&mut chunks, "answer");
    finalize_response(&mut messages, &mut chunks);
    assert!(chunks.is_empty());
    assert_eq!(messages.len(), 1);
    assert!(matches!(messages[0].role, Role::Assistant));
    assert_eq!(text_of(&messages[0].chunks[0]).1, "answer");
}

fn press(key: Key, shift_or_alt: bool) -> KeyPress {
    KeyPress { key, ctrl: false, shift_or_alt }
}

#[test]
fn dialog_keys() {
    assert_eq!(dialog_key_action(press(Key::Esc, false)), DialogAction::Close);
    assert_eq!(dialog_key_action(press(Key::Up, false)), DialogAction::Move(-1));
    assert_eq!(dialog_key_action(press(Key::Down, false)), DialogAction::Move(1));
    assert_eq!(dialog_key_action(press(Key::Enter, false)), DialogAction::Confirm);
    assert_eq!(dialog_key_action(press(Key::Enter, true)), DialogAction::Consumed);
    assert_eq!(dialog_key_action(press(Key::Char('x'), false)), DialogAction::Consumed);
}

fn session(id: &str) -> Session {
    Session {
        id: id.to_string(),
        project_id: "p".to_string(),
        title: None,
        root_turn_id: None,
        current_turn_id: None,
        created_at_ms: 0,
        updated_at_ms: 0,
    }
}

#[test]
fn resume_offers_other_sessions() {
    let all = vec![session("a"), session("b"), session("c")];
    let ids: Vec<String> = resume_candidates(all.clone(), Some("b")).into_iter().map(|s| s.id).collect();
    assert_eq!(ids, vec!["a".to_string(), "c".to_string()]);
    assert_eq!(resume_candidates(all, None).len(), 3);
}

#[test]
fn mouse_scrolls_within_bounds() {
    let mut b = InputBox::new();
    b.max_scroll = 4;
    handle_mouse(&mut b, MouseScroll::Up, false);
    assert_eq!(b.scroll_offset, 3);
    handle_mouse(&mut b, MouseScroll::Up, false);
    assert_eq!(b.scroll_offset, 4);
    handle_mouse(&mut b, MouseScroll::Down, true);
    assert_eq!(b.scroll_offset, 4);
    handle_mouse(&mut b, MouseScroll::Down, false);
    assert_eq!(b.scroll_offset, 1);
    handle_mouse(&mut b, MouseScroll::Down, false);
    assert_eq!(b.scroll_offset, 0);
}

#[test]
fn mention_replaces_the_token() {
    let mut b = InputBox::new();
    for c in "see @src/ma please".chars() {
        b.insert_char(c);
    }
    b.apply_mention("src/main.rs", 4, 11);
    assert_eq!(b.input, "see src/main.rs  please");
    assert_eq!(b.cursor_pos, 4 + "src/main.rs ".len());
    b.clear();
    assert_eq!((b.input.as_str(), b.cursor_pos, b.scroll_offset), ("", 0, 0));
}

#[test]
fn thread_blocks_layout() {
    let blocks = build_thread_blocks(&vec![], &vec![], false, true);
    assert_eq!(blocks.len(), 1);
    assert_eq!(blocks[0].kind, ThreadBlockKind::Hint);
    let messages = vec![
        DisplayMessage { role: Role::User, chunks: vec![StreamChunk::Text("hi".to_string())] },
        DisplayMessage {
            role: Role::Assistant,
            chunks: vec![
                StreamChunk::Tool("[a]".to_string()),
                StreamChunk::Tool("[b]".to_string()),
                StreamChunk::Text("done".to_string()),
            ],
        },
    ];
    let stream = vec![StreamChunk::Reasoning("hm".to_string())];
    let blocks = build_thread_blocks(&messages, &stream, true, false);
    let kinds: Vec<ThreadBlockKind> = blocks.iter().map(|b| b.kind).collect();
    assert_eq!(
        kinds,
        vec![
            ThreadBlockKind::UserLabel,
            ThreadBlockKind::Markdown,
            ThreadBlockKind::Spacer,
            ThreadBlockKind::AssistantLabel,
            ThreadBlockKind::Tool,
            ThreadBlockKind::Tool,
            ThreadBlockKind::Spacer,
            ThreadBlockKind::Markdown,
            ThreadBlockKind::Spacer,
            ThreadBlockKind::AssistantLabel,
            ThreadBlockKind::ReasoningMarkdown,
            ThreadBlockKind::Cursor,
        ]
    );
    assert_eq!(blocks[1].markdown_id.as_deref(), Some("msg-0-0"));
    assert_eq!(blocks[7].markdown_id.as_deref(), Some("msg-1-2"));
    assert_eq!(blocks[10].markdown_id.as_deref(), Some("stream-0"));
    assert_eq!(blocks[11].text, " ");
    assert_eq!(blocks[3].text, "Assistant");
}

#[test]
fn positions_of_byte_offsets() {
    assert_eq!(byte_offset_to_position("ab\ncd", 4), (1, 1));
    assert_eq!(byte_offset_to_position("ab\ncd", 99), (1, 2));
    assert_eq!(byte_offset_to_position("é\nx", 2), (0, 1));
    assert_eq!(byte_offset_to_position("", 0), (0, 0));
}
