use agnt::input_box::{handle_key, InputBox, Key, KeyAction, KeyPress};
use agnt::layout::{calculate_input_height, calculate_typeahead_height, cursor_position, message_viewport, typeahead_header, typeahead_status};
use agnt::models::Session;
use agnt::paths::session_db_path;
use agnt::screen::{build_message_lines, conversation_view, split_text_lines, wrap_line, DisplayMessage, Role, StreamChunk, StyledLine, StyledSpan, Tone};
use agnt::session_dialog::{build_dialog_entries, move_selection, selected_session_id, session_label, ResumeDialogState};
use agnt::tui_session_dialog::{dialog_layout, CellRect, ResumeSessionDialogEntry, ResumeSessionDialogState};
use agnt::typeahead::TypeaheadMatchSet;
use agnt::typeahead_state::ActiveTypeahead;

fn span(text: &str, tone: Tone) -> StyledSpan {
    StyledSpan { text: text.to_string(), tone }
}

fn texts(lines: &[StyledLine]) -> Vec<Vec<(String, Tone)>> {
    lines.iter().map(|l| l.spans.iter().map(|s| (s.text.clone(), s.tone)).collect()).collect()
}

#[test]
fn wrap_line_fits_rows_in_columns() {
    let line = StyledLine { spans: vec![span("日本語", Tone::Plain), span("ab", Tone::Dim)] };
    assert_eq!(
        texts(&wrap_line(&line, 4)),
        vec![vec![("日本".to_string(), Tone::Plain)], vec![("語".to_string(), Tone::Plain), ("ab".to_string(), Tone::Dim)]]
    );
    assert_eq!(
        texts(&wrap_line(&line, 5)),
        vec![vec![("日本".to_string(), Tone::Plain)], vec![("語".to_string(), Tone::Plain), ("ab".to_string(), Tone::Dim)]]
    );
    // A character wider than the whole width takes a row of its own.
    assert_eq!(
        texts(&wrap_line(&StyledLine { spans: vec![span("日a", Tone::Plain)] }, 1)),
        vec![vec![("日".to_string(), Tone::Plain)], vec![("a".to_string(), Tone::Plain)]]
    );
    // A combining mark takes no column and stays with its letter.
    assert_eq!(
        texts(&wrap_line(&StyledLine { spans: vec![span("ab\u{301}c", Tone::Plain)] }, 2)),
        vec![vec![("ab\u{301}".to_string(), Tone::Plain)], vec![("c".to_string(), Tone::Plain)]]
    );
}

#[test]
fn wrap_line_cuts_rows_and_keeps_styles() {
    let line = StyledLine { spans: vec![span("abc", Tone::Plain), span("de", Tone::Dim), span("f", Tone::Dim)] };
    let rows = wrap_line(&line, 4);
    assert_eq!(
        texts(&rows),
        vec![
            vec![("abc".to_string(), Tone::Plain), ("d".to_string(), Tone::Dim)],
            vec![("ef".to_string(), Tone::Dim)],
        ]
    );
    assert_eq!(texts(&wrap_line(&line, 0)), vec![Vec::<(String, Tone)>::new()]);
    assert_eq!(texts(&wrap_line(&StyledLine { spans: vec![] }, 5)), vec![Vec::<(String, Tone)>::new()]);
    assert_eq!(wrap_line(&line, 1).len(), 6);
}

#[test]
fn text_lines_like_str_lines() {
    for text in ["", "a", "a\n", "a\r\nb", "a\n\nb\n", "x\r", "\n"] {
        let expected: Vec<String> = text.lines().map(str::to_string).collect();
        assert_eq!(split_text_lines(text), expected, "{text:?}");
    }
}

#[test]
fn conversation_lines_with_labels_and_cursor() {
    let msgs = vec![
        DisplayMessage { role: Role::User, chunks: vec![StreamChunk::Text("hi".to_string())] },
        DisplayMessage {
            role: Role::Assistant,
            chunks: vec![StreamChunk::Tool("[Read a...]".to_string()), StreamChunk::Tool("[Read a]".to_string()), StreamChunk::Text("done\n".to_string())],
        },
    ];
    let lines = conversation_view(&msgs, &vec![], false, true);
    let plain: Vec<String> = lines.iter().map(|l| l.spans.iter().map(|s| s.text.as_str()).collect()).collect();
    assert_eq!(plain, vec!["You", "hi", "", "Assistant", "[Read a...]", "[Read a]", "", "done", ""]);

    let streaming = conversation_view(&vec![], &vec![StreamChunk::Text("par".to_string())], true, true);
    assert_eq!(
        texts(&streaming),
        vec![
            vec![("Assistant".to_string(), Tone::AssistantLabel)],
            vec![("par".to_string(), Tone::Plain), ("█".to_string(), Tone::Cursor)],
        ]
    );
    let waiting = conversation_view(&vec![], &vec![], true, false);
    assert_eq!(texts(&waiting)[1], vec![(" ".to_string(), Tone::Cursor)]);
    let empty = conversation_view(&vec![], &vec![], false, true);
    assert_eq!(texts(&empty), vec![vec![("Type a message and press Enter to start.".to_string(), Tone::Dim)]]);
    let wrapped = build_message_lines(&msgs, &vec![], false, true, 3);
    assert_eq!(wrapped.len(), 17);
}

#[test]
fn cursor_and_heights() {
    assert_eq!(cursor_position("abc\nde", 6, 10), (1, 2));
    assert_eq!(cursor_position("abcd", 4, 2), (2, 0));
    assert_eq!(cursor_position("abc", 100, 0), (3, 0));
    assert_eq!(calculate_input_height("", 20), 2);
    assert_eq!(calculate_input_height("a\nb\nc", 20), 3);
    assert_eq!(calculate_input_height(&"x".repeat(100), 12), 8);
    let set = |n: usize| ActiveTypeahead::Command(TypeaheadMatchSet {
        leader: '/',
        query: String::new(),
        token_start: 0,
        cursor_pos: 1,
        loading: false,
        show_loading: false,
        matches: vec![agnt::commands::Command::NewSession; n],
    });
    assert_eq!(calculate_typeahead_height(None), 0);
    assert_eq!(calculate_typeahead_height(Some(&set(0))), 2);
    assert_eq!(calculate_typeahead_height(Some(&set(2))), 3);
    assert_eq!(calculate_typeahead_height(Some(&set(9))), 5);
    assert_eq!(typeahead_header(""), "Suggestions");
    assert_eq!(typeahead_header("ne"), "Suggestions for `ne`");
    assert_eq!(typeahead_status(true, true, '@', true), "  indexing files...");
    assert_eq!(typeahead_status(true, true, '@', false), "  searching...");
    assert_eq!(typeahead_status(true, true, '/', false), "  loading...");
    assert_eq!(typeahead_status(true, false, '@', false), "  ");
    assert_eq!(typeahead_status(false, false, '@', false), "  no matches");
}

#[test]
fn viewport_keeps_bottom_and_bumps_scroll() {
    let v = message_viewport(3, 10, 0, 0);
    assert_eq!((v.padding, v.max_scroll, v.first, v.end), (7, 0, 0, 10));
    let v = message_viewport(30, 10, 5, 15);
    assert_eq!((v.max_scroll, v.scroll_offset, v.first, v.end), (20, 10, 10, 20));
    let v = message_viewport(30, 10, 50, 20);
    assert_eq!((v.scroll_offset, v.first), (20, 0));
}

fn press(key: Key) -> KeyPress {
    KeyPress { key, ctrl: false, shift_or_alt: false }
}

#[test]
fn editing_keys() {
    let mut b = InputBox::new();
    assert_eq!(handle_key(&mut b, press(Key::Char('h')), false, false), KeyAction::Edited);
    assert_eq!(handle_key(&mut b, press(Key::Char('é')), false, false), KeyAction::Edited);
    assert_eq!((b.input.as_str(), b.cursor_pos), ("hé", 3));
    assert_eq!(handle_key(&mut b, press(Key::Home), false, false), KeyAction::Edited);
    handle_key(&mut b, press(Key::Char('>')), false, false);
    assert_eq!((b.input.as_str(), b.cursor_pos), (">hé", 1));
    handle_key(&mut b, press(Key::Backspace), false, false);
    assert_eq!((b.input.as_str(), b.cursor_pos), ("hé", 0));
    assert_eq!(handle_key(&mut b, press(Key::Backspace), false, false), KeyAction::Handled);
    handle_key(&mut b, press(Key::Delete), false, false);
    assert_eq!(b.input, "é");
    handle_key(&mut b, KeyPress { key: Key::Enter, ctrl: false, shift_or_alt: true }, false, false);
    assert_eq!((b.input.as_str(), b.cursor_pos), ("\né", 1));
    assert_eq!(handle_key(&mut b, press(Key::Enter), false, false), KeyAction::Enter { submit: true });
    assert_eq!(handle_key(&mut b, press(Key::Enter), true, false), KeyAction::Enter { submit: false });
    assert_eq!(handle_key(&mut b, KeyPress { key: Key::Char('c'), ctrl: true, shift_or_alt: false }, false, false), KeyAction::Quit);
    assert_eq!(handle_key(&mut b, KeyPress { key: Key::Char('c'), ctrl: true, shift_or_alt: false }, true, true), KeyAction::CancelGeneration);
    assert_eq!(handle_key(&mut b, press(Key::Up), false, true), KeyAction::DialogKey);
    assert_eq!(handle_key(&mut b, press(Key::Esc), false, false), KeyAction::DismissTypeahead);
    assert_eq!(handle_key(&mut b, press(Key::Down), false, false), KeyAction::MoveTypeahead(1));
    assert_eq!(handle_key(&mut b, press(Key::Other), false, false), KeyAction::Ignored);
    b.max_scroll = 15;
    handle_key(&mut b, press(Key::PageUp), false, false);
    assert_eq!(b.scroll_offset, 10);
    handle_key(&mut b, press(Key::PageUp), false, false);
    assert_eq!(b.scroll_offset, 15);
    handle_key(&mut b, press(Key::PageDown), false, false);
    assert_eq!(b.scroll_offset, 5);
}

fn session(id: &str, title: Option<&str>) -> Session {
    Session {
        id: id.to_string(),
        project_id: "p".to_string(),
        title: title.map(str::to_string),
        root_turn_id: None,
        current_turn_id: None,
        created_at_ms: 0,
        updated_at_ms: 0,
    }
}

#[test]
fn resume_dialog() {
    assert_eq!(session_label(&session("s1", Some("Fix bug"))), "Fix bug (s1)");
    assert_eq!(session_label(&session("s2", None)), "Session s2");
    let entries = build_dialog_entries(vec![session("a", None), session("b", Some("T"))]);
    assert_eq!(entries[1].label, "T (b)");
    let mut d = ResumeDialogState::new(entries);
    assert_eq!(selected_session_id(&d), Some("a"));
    move_selection(&mut d, -1);
    assert_eq!(selected_session_id(&d), Some("b"));
    move_selection(&mut d, 1);
    assert_eq!(selected_session_id(&d), Some("a"));
    let mut empty = ResumeDialogState::new(vec![]);
    move_selection(&mut empty, 1);
    assert_eq!(selected_session_id(&empty), None);
}

#[test]
fn resume_dialog_layout() {
    let entries: Vec<ResumeSessionDialogEntry> = (0..12)
        .map(|i| ResumeSessionDialogEntry { session_id: format!("s{i}"), label: format!("S{i}") })
        .collect();
    let mut d = ResumeSessionDialogState::new(entries);
    d.selected_index = 10;
    let l = dialog_layout(&d, CellRect { x: 0, y: 0, width: 100, height: 40 });
    assert_eq!(l.popup, CellRect { x: 5, y: 14, width: 90, height: 12 });
    assert_eq!((l.first_row, l.end_row), (3, 11));
}

#[test]
fn database_path() {
    assert_eq!(session_db_path("/home/u/.local/share/agnt"), "/home/u/.local/share/agnt/sessions.sqlite3");
    assert_eq!(session_db_path("/data/"), "/data/sessions.sqlite3");
    assert_eq!(session_db_path(""), "sessions.sqlite3");
}
