//! The conversation as the view shows it when a session is resumed: the
//! user's and the assistant's messages as chunks of text, reasoning and
//! tool lines.

use vstd::prelude::*;

use crate::conversation::{AssistantPart, Message, UserPart};
use crate::openai_events::ToolCallPart;
use crate::screen::{DisplayMessage, Role, StreamChunk};
use crate::stream::{chunk_view, chunks_view, ChunkView};
use crate::text::push_str;

verus! {

/// The chunks of a user message: each non-empty text, and `[image: url]`
/// for each image.
pub open spec fn user_chunks(ps: Seq<UserPart>) -> Seq<ChunkView>
    decreases ps.len(),
{
    if ps.len() == 0 {
        Seq::empty()
    } else {
        let prev = user_chunks(ps.drop_last());
        match ps.last() {
            UserPart::Text(t) => if t@.len() == 0 {
                prev
            } else {
                prev.push(ChunkView::Text(t@))
            },
            UserPart::Image(url) => prev.push(ChunkView::Text("[image: "@ + url@ + "]"@)),
        }
    }
}

/// The tool lines of a call: `[title...]` and, once it finished,
/// `[result title]`; a call never shown reads `[tool: name...]`.
pub open spec fn call_chunks(c: ToolCallPart) -> Seq<ChunkView> {
    match c.display {
        Some(d) => seq![ChunkView::Tool("["@ + d.title@ + "...]"@)] + match d.result {
            Some(r) => seq![ChunkView::Tool("["@ + r.title@ + "]"@)],
            None => Seq::empty(),
        },
        None => seq![ChunkView::Tool("[tool: "@ + c.name@ + "...]"@)],
    }
}

/// The chunks of an assistant message: each non-empty text, each non-empty
/// reasoning text, and the tool lines of each call.
pub open spec fn assistant_chunks(ps: Seq<AssistantPart>) -> Seq<ChunkView>
    decreases ps.len(),
{
    if ps.len() == 0 {
        Seq::empty()
    } else {
        let prev = assistant_chunks(ps.drop_last());
        match ps.last() {
            AssistantPart::Text(t) => if t.text@.len() == 0 {
                prev
            } else {
                prev.push(ChunkView::Text(t.text@))
            },
            AssistantPart::Reasoning(r) => match r.text {
                Some(t) => if t@.len() == 0 {
                    prev
                } else {
                    prev.push(ChunkView::Reasoning(t@))
                },
                None => prev,
            },
            AssistantPart::ToolCall(c) => prev + call_chunks(c),
        }
    }
}

/// The messages shown: each user or assistant message with at least one
/// chunk, in order; system and tool messages are not shown.
pub open spec fn history_view(ms: Seq<Message>) -> Seq<(Role, Seq<ChunkView>)>
    decreases ms.len(),
{
    if ms.len() == 0 {
        Seq::empty()
    } else {
        let prev = history_view(ms.drop_last());
        match ms.last() {
            Message::User(ps) => if user_chunks(ps@).len() > 0 {
                prev.push((Role::User, user_chunks(ps@)))
            } else {
                prev
            },
            Message::Assistant(ps) => if assistant_chunks(ps@).len() > 0 {
                prev.push((Role::Assistant, assistant_chunks(ps@)))
            } else {
                prev
            },
            _ => prev,
        }
    }
}

pub open spec fn display_view(m: DisplayMessage) -> (Role, Seq<ChunkView>) {
    (m.role, chunks_view(m.chunks@))
}

fn push_chunk(cs: &mut Vec<StreamChunk>, c: StreamChunk)
    ensures
        chunks_view(final(cs)@) == chunks_view(old(cs)@).push(chunk_view(c)),
{
    cs.push(c);
    assert(chunks_view(cs@) =~= chunks_view(old(cs)@).push(chunk_view(c)));
}

/// `open` + `s` + `close`.
fn bracketed(open: &str, s: &str, close: &str) -> (r: String)
    ensures
        r@ == open@ + s@ + close@,
{
    let mut r = String::new();
    push_str(&mut r, open);
    push_str(&mut r, s);
    push_str(&mut r, close);
    r
}

fn user_message_chunks(ps: &Vec<UserPart>) -> (cs: Vec<StreamChunk>)
    ensures
        chunks_view(cs@) == user_chunks(ps@),
{
    let mut cs: Vec<StreamChunk> = Vec::new();
    assert(chunks_view(cs@) =~= Seq::<ChunkView>::empty());
    for i in 0..ps.len()
        invariant
            chunks_view(cs@) == user_chunks(ps@.take(i as int)),
    {
        assert(ps@.take(i + 1).drop_last() == ps@.take(i as int));
        assert(ps@.take(i + 1).last() == ps@[i as int]);
        match &ps[i] {
            UserPart::Text(t) => {
                if !t.as_str().is_empty() {
                    push_chunk(&mut cs, StreamChunk::Text(t.clone()));
                }
            },
            UserPart::Image(url) => {
                push_chunk(&mut cs, StreamChunk::Text(bracketed("[image: ", url.as_str(), "]")));
            },
        }
    }
    assert(ps@.take(ps.len() as int) == ps@);
    cs
}

fn push_call_chunks(cs: &mut Vec<StreamChunk>, c: &ToolCallPart)
    ensures
        chunks_view(final(cs)@) == chunks_view(old(cs)@) + call_chunks(*c),
{
    let ghost before = chunks_view(cs@);
    match &c.display {
        Some(d) => {
            push_chunk(cs, StreamChunk::Tool(bracketed("[", d.title.as_str(), "...]")));
            match &d.result {
                Some(r) => {
                    push_chunk(cs, StreamChunk::Tool(bracketed("[", r.title.as_str(), "]")));
                },
                None => {},
            }
        },
        None => {
            push_chunk(cs, StreamChunk::Tool(bracketed("[tool: ", c.name.as_str(), "...]")));
        },
    }
    assert(chunks_view(cs@) =~= before + call_chunks(*c));
}

fn assistant_message_chunks(ps: &Vec<AssistantPart>) -> (cs: Vec<StreamChunk>)
    ensures
        chunks_view(cs@) == assistant_chunks(ps@),
{
    let mut cs: Vec<StreamChunk> = Vec::new();
    assert(chunks_view(cs@) =~= Seq::<ChunkView>::empty());
    for i in 0..ps.len()
        invariant
            chunks_view(cs@) == assistant_chunks(ps@.take(i as int)),
    {
        assert(ps@.take(i + 1).drop_last() == ps@.take(i as int));
        assert(ps@.take(i + 1).last() == ps@[i as int]);
        match &ps[i] {
            AssistantPart::Text(t) => {
                if !t.text.as_str().is_empty() {
                    push_chunk(&mut cs, StreamChunk::Text(t.text.clone()));
                }
            },
            AssistantPart::Reasoning(r) => {
                match &r.text {
                    Some(t) => {
                        if !t.as_str().is_empty() {
                            push_chunk(&mut cs, StreamChunk::Reasoning(t.clone()));
                        }
                    },
                    None => {},
                }
            },
            AssistantPart::ToolCall(c) => {
                push_call_chunks(&mut cs, c);
            },
        }
    }
    assert(ps@.take(ps.len() as int) == ps@);
    cs
}

/// The messages the view shows for a conversation: user and assistant
/// messages as chunks (texts, reasoning, `[image: url]`, and each tool
/// call's lines), leaving out system and tool messages and messages with
/// nothing to show.
pub fn display_messages_from_history(messages: &[Message]) -> (out: Vec<DisplayMessage>)
    ensures
        out@.map_values(|m: DisplayMessage| display_view(m)) == history_view(messages@),
{
    let mut out: Vec<DisplayMessage> = Vec::new();
    assert(out@.map_values(|m: DisplayMessage| display_view(m)) =~= Seq::<(Role, Seq<ChunkView>)>::empty());
    for i in 0..messages.len()
        invariant
            out@.map_values(|m: DisplayMessage| display_view(m)) == history_view(messages@.take(i as int)),
    {
        assert(messages@.take(i + 1).drop_last() == messages@.take(i as int));
        assert(messages@.take(i + 1).last() == messages@[i as int]);
        let ghost before = out@;
        match &messages[i] {
            Message::User(ps) => {
                let chunks = user_message_chunks(ps);
                if chunks.len() > 0 {
                    out.push(DisplayMessage { role: Role::User, chunks });
                    assert(out@.map_values(|m: DisplayMessage| display_view(m)) =~= before.map_values(
                        |m: DisplayMessage| display_view(m),
                    ).push(display_view(out@.last())));
                }
            },
            Message::Assistant(ps) => {
                let chunks = assistant_message_chunks(ps);
                if chunks.len() > 0 {
                    out.push(DisplayMessage { role: Role::Assistant, chunks });
                    assert(out@.map_values(|m: DisplayMessage| display_view(m)) =~= before.map_values(
                        |m: DisplayMessage| display_view(m),
                    ).push(display_view(out@.last())));
                }
            },
            _ => {},
        }
    }
    assert(messages@.take(messages.len() as int) == messages@);
    out
}

} // verus!
