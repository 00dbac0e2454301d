//! The terminal application's state as keys and agent events change it: the
//! input box, the conversation shown, the answer streaming in, whether an
//! answer is being generated, and whether to quit. Talking to the agent, the
//! session store and the typeahead's sources is the caller's part.

use vstd::prelude::*;

use crate::commands::Command;
use crate::event::AgentEvent;
use crate::input_box::{handle_key, key_handled, key_ok, on_boundary, InputBox, Key, KeyAction, KeyPress};
use crate::mentions::{mention_path, path_text, slashed, Mention};
use crate::screen::{DisplayMessage, Role, StreamChunk};
use crate::stream::{
    apply_agent_event, chunks_view, finalize_response, session_error_line, turn_saved, ChunkView, EventEffect,
};
use crate::text::{trim, trim_str, utf8_len};
use crate::tui_typeahead::TypeaheadActivation;

verus! {

/// Whether an answer is being generated.
#[derive(Debug, Clone, Copy, PartialEq, Eq, Structural)]
pub enum AppPhase {
    Idle,
    Generating,
}

/// The terminal application's state.
pub struct AppView {
    pub input: InputBox,
    pub messages: Vec<DisplayMessage>,
    /// The answer streaming in.
    pub stream_chunks: Vec<StreamChunk>,
    pub phase: AppPhase,
    pub should_quit: bool,
}

/// The conversation once the streaming answer is closed into it (when it
/// has any chunk).
pub open spec fn closed_answer(ms: Seq<DisplayMessage>, chunks: Vec<StreamChunk>) -> Seq<DisplayMessage> {
    if chunks@.len() == 0 {
        ms
    } else {
        ms.push(DisplayMessage { role: Role::Assistant, chunks })
    }
}

/// The conversation, the answer, the phase and the quit flag are as before.
pub open spec fn rest_unchanged(old: AppView, new: AppView) -> bool {
    &&& new.messages@ == old.messages@
    &&& new.stream_chunks@ == old.stream_chunks@
    &&& new.phase == old.phase
    &&& new.should_quit == old.should_quit
}

impl AppView {
    /// An idle application with an empty box and conversation.
    pub fn new() -> (a: AppView)
        ensures
            a.input.input@.len() == 0,
            a.input.cursor_pos == 0,
            a.messages@.len() == 0,
            a.stream_chunks@.len() == 0,
            a.phase == AppPhase::Idle,
            !a.should_quit,
    {
        AppView {
            input: InputBox::new(),
            messages: Vec::new(),
            stream_chunks: Vec::new(),
            phase: AppPhase::Idle,
            should_quit: false,
        }
    }
}

/// Handles a key press. The box changes as `handle_key` says. Control-C
/// while generating, and Esc while generating (no dialog open), stop the
/// answer: it is closed into the conversation and the application is idle
/// again, the quit flag untouched. Control-C while idle sets the quit flag.
/// Every other key leaves the rest as it was; what it asks (Enter, moving or
/// dismissing the typeahead, a dialog key) is returned for the caller. The
/// key is consumed unless the action is `Ignored`.
pub fn app_key_step(app: &mut AppView, press: KeyPress, dialog_open: bool) -> (a: KeyAction)
    requires
        key_ok(old(app).input, press, dialog_open),
    ensures
        key_handled(old(app).input, press, old(app).phase == AppPhase::Generating, dialog_open, final(app).input, a),
        (press.key == Key::Char('c') && press.ctrl && old(app).phase == AppPhase::Generating) ==> {
            &&& final(app).phase == AppPhase::Idle
            &&& final(app).should_quit == old(app).should_quit
            &&& final(app).stream_chunks@.len() == 0
            &&& final(app).messages@ == closed_answer(old(app).messages@, old(app).stream_chunks)
        },
        (press.key == Key::Char('c') && press.ctrl && old(app).phase == AppPhase::Idle) ==> {
            &&& final(app).should_quit
            &&& final(app).phase == old(app).phase
            &&& final(app).messages@ == old(app).messages@ && final(app).stream_chunks@ == old(app).stream_chunks@
        },
        a is CancelGeneration ==> {
            &&& final(app).phase == AppPhase::Idle
            &&& final(app).should_quit == old(app).should_quit
            &&& final(app).stream_chunks@.len() == 0
            &&& final(app).messages@ == closed_answer(old(app).messages@, old(app).stream_chunks)
        },
        !(a is CancelGeneration) && !(a is Quit) ==> rest_unchanged(*old(app), *final(app)),
{
    let generating = app.phase == AppPhase::Generating;
    let a = handle_key(&mut app.input, press, generating, dialog_open);
    match a {
        KeyAction::CancelGeneration => {
            finalize_response(&mut app.messages, &mut app.stream_chunks);
            app.phase = AppPhase::Idle;
        },
        KeyAction::Quit => {
            app.should_quit = true;
        },
        _ => {},
    }
    a
}

/// What Enter leads to once the typeahead was asked for its selection.
pub enum EnterOutcome {
    /// The selected file mention took the place of its token.
    Mentioned,
    /// Run this command.
    Command(Command),
    /// Send the input: make sure a session is active, then `submit_step`.
    Submit,
    /// Nothing.
    Nothing,
}

/// The text of a mention: its path with `\\` written as `/`.
pub open spec fn mention_text(m: Mention) -> Seq<char> {
    slashed(mention_path(m))
}

/// Whether a mention can replace the text between two byte offsets of the
/// box (both on character boundaries, in order, and the result fits).
pub open spec fn mention_fits(b: InputBox, m: Mention, token_start: usize, token_end: usize) -> bool {
    &&& on_boundary(b.input@, token_start as int)
    &&& on_boundary(b.input@, token_end as int)
    &&& token_start <= token_end
    &&& utf8_len(b.input@) + utf8_len(mention_text(m)) + 1 <= usize::MAX
}

/// Whether the mention fits in the box; see `mention_fits`.
pub fn check_mention_fits(b: &InputBox, m: &Mention, token_start: usize, token_end: usize) -> (r: bool)
    ensures
        r == mention_fits(*b, *m, token_start, token_end),
{
    let text = match m {
        Mention::File(p) => path_text(p.as_str()),
    };
    let len = b.input.as_str().as_bytes().len();
    let tl = text.as_str().as_bytes().len();
    crate::input_box::is_boundary(b.input.as_str(), token_start) && crate::input_box::is_boundary(
        b.input.as_str(),
        token_end,
    ) && token_start <= token_end && len <= usize::MAX - 1 && tl <= usize::MAX - 1 - len
}

/// Follows Enter once the typeahead took its selection, if any: a file
/// mention replaces its token (with a space after it) and puts the cursor
/// after it; a command is handed back to run; with no selection the input
/// is to be submitted when `submit` says so (as `handle_key` decides it:
/// idle, and the input not blank).
pub fn app_enter_step(app: &mut AppView, activation: Option<TypeaheadActivation>, submit: bool) -> (r: EnterOutcome)
    requires
        activation matches Some(TypeaheadActivation::Mention { mention, token_start, token_end }) ==> mention_fits(
            old(app).input,
            mention,
            token_start,
            token_end,
        ),
    ensures
        match activation {
            Some(TypeaheadActivation::Mention { mention, token_start, token_end }) => {
                &&& r is Mentioned
                &&& final(app).input.input@ == crate::input_box::replaced(
                    old(app).input.input@,
                    crate::input_box::char_index(old(app).input.input@, token_start as int),
                    crate::input_box::char_index(old(app).input.input@, token_end as int),
                    mention_text(mention) + seq![' '],
                )
                &&& final(app).input.cursor_pos == token_start + utf8_len(mention_text(mention)) + 1
                &&& rest_unchanged(*old(app), *final(app))
            },
            Some(TypeaheadActivation::Command { command, .. }) => r == EnterOutcome::Command(command) && *final(app)
                == *old(app),
            None => *final(app) == *old(app) && if submit {
                r is Submit
            } else {
                r is Nothing
            },
        },
{
    match activation {
        Some(TypeaheadActivation::Mention { mention, token_start, token_end }) => {
            let text = match &mention {
                Mention::File(p) => path_text(p.as_str()),
            };
            app.input.apply_mention(text.as_str(), token_start, token_end);
            EnterOutcome::Mentioned
        },
        Some(TypeaheadActivation::Command { command, .. }) => EnterOutcome::Command(command),
        None => if submit {
            EnterOutcome::Submit
        } else {
            EnterOutcome::Nothing
        },
    }
}

/// Sends the input once the caller tried to make a session active: when
/// that failed, a `[session error: ...]` line joins the answer and nothing
/// is sent; else the answer is emptied, the application is generating, and
/// the trimmed input is returned to send (the input stays shown until the
/// agent records it).
pub fn submit_step(app: &mut AppView, session: Result<(), String>) -> (r: Option<String>)
    ensures
        final(app).input == old(app).input,
        final(app).messages@ == old(app).messages@,
        final(app).should_quit == old(app).should_quit,
        match session {
            Err(e) => {
                &&& r is None
                &&& chunks_view(final(app).stream_chunks@) == chunks_view(old(app).stream_chunks@).push(
                    ChunkView::Tool("[session error: "@ + e@ + "]"@),
                )
                &&& final(app).phase == old(app).phase
            },
            Ok(()) => {
                &&& r matches Some(t) && t@ == trim(old(app).input.input@)
                &&& final(app).stream_chunks@.len() == 0
                &&& final(app).phase == AppPhase::Generating
            },
        },
{
    match session {
        Err(e) => {
            let ghost before = app.stream_chunks@;
            app.stream_chunks.push(session_error_line(e.as_str()));
            assert(chunks_view(app.stream_chunks@) =~= chunks_view(before).push(
                ChunkView::Tool("[session error: "@ + e@ + "]"@),
            ));
            None
        },
        Ok(()) => {
            let text = trim_str(app.input.input.as_str());
            app.stream_chunks = Vec::new();
            app.phase = AppPhase::Generating;
            Some(text)
        },
    }
}

/// Follows an agent event as `apply_agent_event` does; besides, a recorded
/// user message empties the box (scrolling untouched) and a failure makes
/// the application idle. A finished turn is to be saved by the caller, who
/// then calls `app_turn_saved`.
pub fn app_event_step(app: &mut AppView, event: AgentEvent) -> (e: EventEffect)
    ensures
        e is ClearInput ==> final(app).input.input@.len() == 0 && final(app).input.cursor_pos == 0
            && final(app).input.scroll_offset == old(app).input.scroll_offset && final(app).input.max_scroll
            == old(app).input.max_scroll,
        !(e is ClearInput) ==> final(app).input == old(app).input,
        e is Stopped ==> final(app).phase == AppPhase::Idle,
        !(e is Stopped) ==> final(app).phase == old(app).phase,
        final(app).should_quit == old(app).should_quit,
        (event is UserMessage ==> e is ClearInput),
        (event is TextDelta || event is ReasoningDelta ==> e is ShowCursor),
        (event is ToolCallStart || event is ToolCallDone ==> e is Nothing),
        (event matches AgentEvent::TurnComplete { usage } ==> e == EventEffect::SaveTurn(usage)),
        (event is Error ==> e is Stopped),
{
    let ghost ev = event;
    let e = apply_agent_event(&mut app.messages, &mut app.stream_chunks, event);
    match e {
        EventEffect::ClearInput => {
            app.input.input = String::new();
            app.input.cursor_pos = 0;
        },
        EventEffect::Stopped => {
            app.phase = AppPhase::Idle;
        },
        _ => {},
    }
    e
}

/// Closes a finished turn once saving it was tried, as `turn_saved` does,
/// and makes the application idle.
pub fn app_turn_saved(app: &mut AppView, saved: Result<(), String>)
    ensures
        final(app).stream_chunks@.len() == 0,
        final(app).phase == AppPhase::Idle,
        final(app).input == old(app).input,
        final(app).should_quit == old(app).should_quit,
        ({
            let shown = match saved {
                Ok(()) => chunks_view(old(app).stream_chunks@),
                Err(m) => chunks_view(old(app).stream_chunks@).push(ChunkView::Tool("[session save error: "@ + m@ + "]"@)),
            };
            &&& shown.len() == 0 ==> final(app).messages@ == old(app).messages@
            &&& shown.len() > 0 ==> final(app).messages@.len() == old(app).messages@.len() + 1 && final(app).messages@.drop_last()
                == old(app).messages@ && final(app).messages@.last().role == Role::Assistant && chunks_view(
                final(app).messages@.last().chunks@,
            ) == shown
        }),
{
    turn_saved(&mut app.messages, &mut app.stream_chunks, saved);
    app.phase = AppPhase::Idle;
}

} // verus!
