//! How the terminal application follows an answer as it streams in, closes
//! it, and picks the sessions offered for resuming.

use vstd::prelude::*;

use crate::event::AgentEvent;
use crate::input_box::{Key, KeyPress};
use crate::openai_events::Usage;
use crate::models::Session;
use crate::session_dialog::label_of;
use crate::tui_session_dialog::{build_dialog_entries, ResumeSessionDialogState};
use crate::screen::{DisplayMessage, Role, StreamChunk};
use crate::text::push_str;

verus! {

/// A chunk, as values.
pub enum ChunkView {
    Reasoning(Seq<char>),
    Text(Seq<char>),
    Tool(Seq<char>),
}

pub open spec fn chunk_view(c: StreamChunk) -> ChunkView {
    match c {
        StreamChunk::Reasoning(s) => ChunkView::Reasoning(s@),
        StreamChunk::Text(s) => ChunkView::Text(s@),
        StreamChunk::Tool(s) => ChunkView::Tool(s@),
    }
}

pub open spec fn chunks_view(v: Seq<StreamChunk>) -> Seq<ChunkView> {
    v.map_values(|c: StreamChunk| chunk_view(c))
}

/// The stream after a text delta: appended to the last chunk when that is
/// text, else a new text chunk.
pub open spec fn with_text(s: Seq<ChunkView>, d: Seq<char>) -> Seq<ChunkView> {
    if s.len() > 0 && s.last() is Text {
        s.update(s.len() - 1, ChunkView::Text(s.last()->Text_0 + d))
    } else {
        s.push(ChunkView::Text(d))
    }
}

/// The stream after a reasoning delta: appended to the last chunk when that
/// is reasoning, else a new reasoning chunk.
pub open spec fn with_reasoning(s: Seq<ChunkView>, d: Seq<char>) -> Seq<ChunkView> {
    if s.len() > 0 && s.last() is Reasoning {
        s.update(s.len() - 1, ChunkView::Reasoning(s.last()->Reasoning_0 + d))
    } else {
        s.push(ChunkView::Reasoning(d))
    }
}

/// Adds a text delta to the streaming answer.
pub fn push_text_delta(chunks: &mut Vec<StreamChunk>, delta: &str)
    ensures
        chunks_view(final(chunks)@) == with_text(chunks_view(old(chunks)@), delta@),
{
    let n = chunks.len();
    if n > 0 {
        let merged = match &chunks[n - 1] {
            StreamChunk::Text(s) => {
                let mut t = s.clone();
                push_str(&mut t, delta);
                Some(t)
            },
            _ => None,
        };
        match merged {
            Some(t) => {
                chunks.set(n - 1, StreamChunk::Text(t));
                assert(chunks_view(chunks@) =~= with_text(chunks_view(old(chunks)@), delta@));
                return;
            },
            None => {},
        }
    }
    chunks.push(StreamChunk::Text(delta.to_owned()));
    assert(chunks_view(chunks@) =~= with_text(chunks_view(old(chunks)@), delta@));
}

/// Adds a reasoning delta to the streaming answer.
pub fn push_reasoning_delta(chunks: &mut Vec<StreamChunk>, delta: &str)
    ensures
        chunks_view(final(chunks)@) == with_reasoning(chunks_view(old(chunks)@), delta@),
{
    let n = chunks.len();
    if n > 0 {
        let merged = match &chunks[n - 1] {
            StreamChunk::Reasoning(s) => {
                let mut t = s.clone();
                push_str(&mut t, delta);
                Some(t)
            },
            _ => None,
        };
        match merged {
            Some(t) => {
                chunks.set(n - 1, StreamChunk::Reasoning(t));
                assert(chunks_view(chunks@) =~= with_reasoning(chunks_view(old(chunks)@), delta@));
                return;
            },
            None => {},
        }
    }
    chunks.push(StreamChunk::Reasoning(delta.to_owned()));
    assert(chunks_view(chunks@) =~= with_reasoning(chunks_view(old(chunks)@), delta@));
}

/// Text streamed in two pieces shows as the same text streamed at once.
pub proof fn law_text_deltas_merge(s: Seq<ChunkView>, a: Seq<char>, b: Seq<char>)
    ensures
        with_text(with_text(s, a), b) == with_text(s, a + b),
{
    if s.len() > 0 && s.last() is Text {
        let x = s.last()->Text_0;
        assert(x + a + b =~= x + (a + b));
        assert(with_text(with_text(s, a), b) =~= with_text(s, a + b));
    } else {
        assert(with_text(with_text(s, a), b) =~= with_text(s, a + b));
    }
}

/// Reasoning streamed in two pieces shows as the same reasoning streamed at once.
pub proof fn law_reasoning_deltas_merge(s: Seq<ChunkView>, a: Seq<char>, b: Seq<char>)
    ensures
        with_reasoning(with_reasoning(s, a), b) == with_reasoning(s, a + b),
{
    if s.len() > 0 && s.last() is Reasoning {
        let x = s.last()->Reasoning_0;
        assert(x + a + b =~= x + (a + b));
        assert(with_reasoning(with_reasoning(s, a), b) =~= with_reasoning(s, a + b));
    } else {
        assert(with_reasoning(with_reasoning(s, a), b) =~= with_reasoning(s, a + b));
    }
}

/// The line of a tool call that started: `[title...]`.
pub fn tool_started_line(title: &str) -> (c: StreamChunk)
    ensures
        chunk_view(c) == ChunkView::Tool("["@ + title@ + "...]"@),
{
    let mut s = String::new();
    push_str(&mut s, "[");
    push_str(&mut s, title);
    push_str(&mut s, "...]");
    assert(s@ =~= "["@ + title@ + "...]"@);
    StreamChunk::Tool(s)
}

/// The line of a finished tool call: `[title]`.
pub fn tool_done_line(title: &str) -> (c: StreamChunk)
    ensures
        chunk_view(c) == ChunkView::Tool("["@ + title@ + "]"@),
{
    let mut s = String::new();
    push_str(&mut s, "[");
    push_str(&mut s, title);
    push_str(&mut s, "]");
    assert(s@ =~= "["@ + title@ + "]"@);
    StreamChunk::Tool(s)
}

/// A status line: `prefix`, the message, and `]`.
fn status_line(prefix: &str, message: &str) -> (c: StreamChunk)
    ensures
        chunk_view(c) == ChunkView::Tool(prefix@ + message@ + "]"@),
{
    let mut s = String::new();
    push_str(&mut s, prefix);
    push_str(&mut s, message);
    push_str(&mut s, "]");
    assert(s@ =~= prefix@ + message@ + "]"@);
    StreamChunk::Tool(s)
}

/// The line of a failed answer: `[error: message]`.
pub fn error_line(message: &str) -> (c: StreamChunk)
    ensures
        chunk_view(c) == ChunkView::Tool("[error: "@ + message@ + "]"@),
{
    status_line("[error: ", message)
}

/// The line of a failed session operation: `[session error: message]`.
pub fn session_error_line(message: &str) -> (c: StreamChunk)
    ensures
        chunk_view(c) == ChunkView::Tool("[session error: "@ + message@ + "]"@),
{
    status_line("[session error: ", message)
}

/// The line of a turn that could not be saved: `[session save error: message]`.
pub fn session_save_error_line(message: &str) -> (c: StreamChunk)
    ensures
        chunk_view(c) == ChunkView::Tool("[session save error: "@ + message@ + "]"@),
{
    status_line("[session save error: ", message)
}

/// The message of what the user sent.
pub fn user_message(content: String) -> (m: DisplayMessage)
    ensures
        m.role == Role::User,
        chunks_view(m.chunks@) == seq![ChunkView::Text(content@)],
{
    let chunks = vec![StreamChunk::Text(content)];
    assert(chunks_view(chunks@) =~= seq![ChunkView::Text(content@)]);
    DisplayMessage { role: Role::User, chunks }
}

/// Closes the streaming answer: its chunks, if any, become an assistant
/// message; the stream is emptied.
pub fn finalize_response(messages: &mut Vec<DisplayMessage>, chunks: &mut Vec<StreamChunk>)
    ensures
        final(chunks)@.len() == 0,
        old(chunks)@.len() == 0 ==> final(messages)@ == old(messages)@,
        old(chunks)@.len() > 0 ==> final(messages)@ == old(messages)@.push(
            DisplayMessage { role: Role::Assistant, chunks: *old(chunks) },
        ),
{
    let mut taken: Vec<StreamChunk> = Vec::new();
    std::mem::swap(&mut taken, chunks);
    if taken.len() > 0 {
        messages.push(DisplayMessage { role: Role::Assistant, chunks: taken });
    }
}

/// What the interface does besides updating the answer after an event.
pub enum EventEffect {
    /// Nothing.
    Nothing,
    /// The message was recorded: clear the input and its cursor.
    ClearInput,
    /// Text arrived: show the cursor.
    ShowCursor,
    /// The turn finished: save it with this usage, then report the outcome
    /// to `turn_saved`.
    SaveTurn(Usage),
    /// The turn failed and its answer was closed: stop generating.
    Stopped,
}

/// Follows one agent event: a user message joins the conversation; text and
/// reasoning deltas extend the answer; tool calls add status lines; a failure
/// adds an error line and closes the answer; a finished turn is to be saved.
pub fn apply_agent_event(messages: &mut Vec<DisplayMessage>, chunks: &mut Vec<StreamChunk>, event: AgentEvent) -> (e: EventEffect)
    ensures
        match event {
            AgentEvent::UserMessage { content } => {
                &&& e is ClearInput
                &&& final(chunks)@ == old(chunks)@
                &&& final(messages)@.len() == old(messages)@.len() + 1
                &&& final(messages)@.drop_last() == old(messages)@
                &&& final(messages)@.last().role == Role::User
                &&& chunks_view(final(messages)@.last().chunks@) == seq![ChunkView::Text(content@)]
            },
            AgentEvent::TextDelta { delta } => e is ShowCursor && final(messages)@ == old(messages)@ && chunks_view(
                final(chunks)@,
            ) == with_text(chunks_view(old(chunks)@), delta@),
            AgentEvent::ReasoningDelta { delta } => e is ShowCursor && final(messages)@ == old(messages)@ && chunks_view(
                final(chunks)@,
            ) == with_reasoning(chunks_view(old(chunks)@), delta@),
            AgentEvent::ToolCallStart { display, .. } => e is Nothing && final(messages)@ == old(messages)@ && chunks_view(
                final(chunks)@,
            ) == chunks_view(old(chunks)@).push(ChunkView::Tool("["@ + display.title@ + "...]"@)),
            AgentEvent::ToolCallDone { display, .. } => e is Nothing && final(messages)@ == old(messages)@ && chunks_view(
                final(chunks)@,
            ) == chunks_view(old(chunks)@).push(ChunkView::Tool("["@ + display.title@ + "]"@)),
            AgentEvent::TurnComplete { usage } => e == EventEffect::SaveTurn(usage) && final(messages)@ == old(messages)@
                && final(chunks)@ == old(chunks)@,
            AgentEvent::Error { error } => {
                &&& e is Stopped
                &&& final(chunks)@.len() == 0
                &&& final(messages)@.len() == old(messages)@.len() + 1
                &&& final(messages)@.drop_last() == old(messages)@
                &&& final(messages)@.last().role == Role::Assistant
                &&& chunks_view(final(messages)@.last().chunks@) == chunks_view(old(chunks)@).push(
                    ChunkView::Tool("[error: "@ + error@ + "]"@),
                )
            },
        },
{
    match event {
        AgentEvent::UserMessage { content } => {
            messages.push(user_message(content));
            EventEffect::ClearInput
        },
        AgentEvent::TextDelta { delta } => {
            push_text_delta(chunks, delta.as_str());
            EventEffect::ShowCursor
        },
        AgentEvent::ReasoningDelta { delta } => {
            push_reasoning_delta(chunks, delta.as_str());
            EventEffect::ShowCursor
        },
        AgentEvent::ToolCallStart { display, .. } => {
            let ghost before = chunks@;
            chunks.push(tool_started_line(display.title.as_str()));
            assert(chunks_view(chunks@) =~= chunks_view(before).push(ChunkView::Tool("["@ + display.title@ + "...]"@)));
            EventEffect::Nothing
        },
        AgentEvent::ToolCallDone { display, .. } => {
            let ghost before = chunks@;
            chunks.push(tool_done_line(display.title.as_str()));
            assert(chunks_view(chunks@) =~= chunks_view(before).push(ChunkView::Tool("["@ + display.title@ + "]"@)));
            EventEffect::Nothing
        },
        AgentEvent::TurnComplete { usage } => EventEffect::SaveTurn(usage),
        AgentEvent::Error { error } => {
            let ghost before = chunks@;
            chunks.push(error_line(error.as_str()));
            let ghost pushed = chunks@;
            assert(chunks_view(pushed) =~= chunks_view(before).push(ChunkView::Tool("[error: "@ + error@ + "]"@)));
            finalize_response(messages, chunks);
            EventEffect::Stopped
        },
    }
}

/// Closes a finished turn once saving it was tried: a failed save adds a
/// line saying so to the answer, which then joins the conversation.
pub fn turn_saved(messages: &mut Vec<DisplayMessage>, chunks: &mut Vec<StreamChunk>, saved: Result<(), String>)
    ensures
        final(chunks)@.len() == 0,
        ({
            let shown = match saved {
                Ok(()) => chunks_view(old(chunks)@),
                Err(m) => chunks_view(old(chunks)@).push(ChunkView::Tool("[session save error: "@ + m@ + "]"@)),
            };
            &&& shown.len() == 0 ==> final(messages)@ == old(messages)@
            &&& shown.len() > 0 ==> final(messages)@.len() == old(messages)@.len() + 1 && final(messages)@.drop_last()
                == old(messages)@ && final(messages)@.last().role == Role::Assistant && chunks_view(
                final(messages)@.last().chunks@,
            ) == shown
        }),
{
    match saved {
        Ok(()) => {},
        Err(m) => {
            let ghost before = chunks@;
            chunks.push(session_save_error_line(m.as_str()));
            assert(chunks_view(chunks@) =~= chunks_view(before).push(ChunkView::Tool("[session save error: "@ + m@ + "]"@)));
        },
    }
    finalize_response(messages, chunks);
}

/// What a key does while the resume dialog is open.
#[derive(Debug, Clone, Copy, PartialEq, Eq, Structural)]
pub enum DialogAction {
    /// Close the dialog.
    Close,
    /// Move the selection (negative: up).
    Move(i32),
    /// Resume the selected session.
    Confirm,
    /// Nothing, but the key is taken.
    Consumed,
}

/// The dialog's keys: Esc closes, Up and Down move, Enter (without Shift or
/// Alt) resumes; every other key is taken and does nothing.
pub fn dialog_key_action(press: KeyPress) -> (a: DialogAction)
    ensures
        a == (match press.key {
            Key::Esc => DialogAction::Close,
            Key::Up => DialogAction::Move(-1i32),
            Key::Down => DialogAction::Move(1i32),
            Key::Enter => if press.shift_or_alt {
                DialogAction::Consumed
            } else {
                DialogAction::Confirm
            },
            _ => DialogAction::Consumed,
        }),
{
    match press.key {
        Key::Esc => DialogAction::Close,
        Key::Up => DialogAction::Move(-1),
        Key::Down => DialogAction::Move(1),
        Key::Enter => if press.shift_or_alt {
            DialogAction::Consumed
        } else {
            DialogAction::Confirm
        },
        _ => DialogAction::Consumed,
    }
}

/// The sessions other than the active one, in order.
pub open spec fn others(sessions: Seq<Session>, active: Option<Seq<char>>) -> Seq<Session>
    decreases sessions.len(),
{
    if sessions.len() == 0 {
        Seq::empty()
    } else {
        let rest = others(sessions.drop_last(), active);
        if active == Some(sessions.last().id@) {
            rest
        } else {
            rest.push(sessions.last())
        }
    }
}

/// The sessions offered for resuming: all but the active one.
pub fn resume_candidates(sessions: Vec<Session>, active_session_id: Option<&str>) -> (r: Vec<Session>)
    ensures
        r@ == others(
            sessions@,
            match active_session_id {
                Some(a) => Some(a@),
                None => None,
            },
        ),
{
    let ghost act = match active_session_id {
        Some(a) => Some(a@),
        None => None::<Seq<char>>,
    };
    let active: Option<String> = match active_session_id {
        Some(a) => Some(a.to_owned()),
        None => None,
    };
    let ghost all = sessions@;
    assert(all.len() == sessions.len());
    let mut rest = sessions;
    let mut kept: Vec<Session> = Vec::new();
    let mut k: usize = 0;
    while rest.len() > 0
        invariant
            all.len() == k + rest.len(),
            all.len() <= usize::MAX,
            rest@ == all.skip(k as int),
            kept@ == others(all.take(k as int), act),
            match active {
                Some(a) => act == Some(a@),
                None => act is None,
            },
        decreases rest.len(),
    {
        let s = rest.remove(0);
        proof {
            assert(s == all[k as int]);
            assert(all.take(k + 1).drop_last() == all.take(k as int));
            assert(all.take(k + 1).last() == all[k as int]);
            assert(rest@ =~= all.skip(k + 1));
        }
        let same = match &active {
            Some(a) => s.id == *a,
            None => false,
        };
        if !same {
            kept.push(s);
        }
        k = k + 1;
    }
    proof {
        assert(all.take(all.len() as int) == all);
    }
    kept
}

/// What asking to resume a session opens: the dialog over the stored
/// sessions other than the active one, or the line that says why there is
/// none (`listed` is what listing the stored sessions gave).
pub fn open_resume_dialog(listed: Result<Vec<Session>, String>, active_session_id: Option<&str>) -> (r: Result<
    ResumeSessionDialogState,
    StreamChunk,
>)
    ensures
        match listed {
            Err(m) => r matches Err(c) && chunk_view(c) == ChunkView::Tool("[session error: "@ + m@ + "]"@),
            Ok(all) => {
                let offered = others(
                    all@,
                    match active_session_id {
                        Some(a) => Some(a@),
                        None => None,
                    },
                );
                &&& offered.len() == 0 ==> (r matches Err(c) && chunk_view(c) == ChunkView::Tool(
                    "[no previous sessions to resume]"@,
                ))
                &&& offered.len() > 0 ==> (r matches Ok(d) && d.selected_index == 0 && d.entries.len() == offered.len()
                    && forall|i: int|
                    0 <= i < offered.len() ==> (#[trigger] d.entries@[i]).session_id@ == offered[i].id@
                        && d.entries@[i].label@ == label_of(offered[i]))
            },
        },
{
    match listed {
        Err(m) => Err(session_error_line(m.as_str())),
        Ok(all) => {
            let offered = resume_candidates(all, active_session_id);
            if offered.len() == 0 {
                Err(StreamChunk::Tool("[no previous sessions to resume]".to_owned()))
            } else {
                Ok(ResumeSessionDialogState::new(build_dialog_entries(offered)))
            }
        },
    }
}

} // verus!

