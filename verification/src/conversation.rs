//! A conversation with a language model, independent of any provider: the
//! messages, their parts, the tools offered, and the options of a request.

use vstd::prelude::*;

use crate::auth::{lookup, pair_views};
use crate::event::{copy_body, copy_result_display, opt_body_view, BodyView, DisplayBody, ToolResultDisplay};
use crate::openai_events::{ReasoningPart, ToolCallPart};
use crate::registry::put_key;

verus! {

/// Answer text, with provider metadata for sending it back.
pub struct TextPart {
    pub text: String,
    pub metadata: Vec<(String, String)>,
}

/// A part of a user message.
pub enum UserPart {
    Text(String),
    /// An image, by URL.
    Image(String),
}

/// How a tool call was shown, kept with the call in the conversation: the
/// title and body it started with, and how its result was shown once it
/// finished.
pub struct ToolCallDisplayPart {
    pub title: String,
    pub description: Option<DisplayBody>,
    pub result: Option<ToolResultDisplay>,
}

/// The contents of a call's display: title, body, and the result's title
/// and body.
pub type DisplayPartView = (Seq<char>, Option<BodyView>, Option<(Seq<char>, Option<BodyView>)>);

pub open spec fn display_part_view(d: ToolCallDisplayPart) -> DisplayPartView {
    (
        d.title@,
        opt_body_view(d.description),
        match d.result {
            Some(r) => Some((r.title@, opt_body_view(r.body))),
            None => None,
        },
    )
}

pub open spec fn opt_display_view(d: Option<ToolCallDisplayPart>) -> Option<DisplayPartView> {
    match d {
        Some(x) => Some(display_part_view(x)),
        None => None,
    }
}

/// A copy of a call's display.
pub fn copy_display(d: &Option<ToolCallDisplayPart>) -> (r: Option<ToolCallDisplayPart>)
    ensures
        opt_display_view(r) == opt_display_view(*d),
{
    match d {
        Some(x) => Some(
            ToolCallDisplayPart {
                title: x.title.clone(),
                description: copy_body(&x.description),
                result: match &x.result {
                    Some(res) => Some(copy_result_display(res)),
                    None => None,
                },
            },
        ),
        None => None,
    }
}

/// A part of an assistant message, in the order the model produced it.
pub enum AssistantPart {
    Text(TextPart),
    Reasoning(ReasoningPart),
    ToolCall(ToolCallPart),
}

/// The result of a tool call, as the model reads it.
pub struct ToolResultPart {
    pub tool_call_id: String,
    pub content: String,
}

/// A message of the conversation.
pub enum Message {
    /// System instructions, as text parts.
    System(Vec<String>),
    User(Vec<UserPart>),
    Assistant(Vec<AssistantPart>),
    Tool(Vec<ToolResultPart>),
}

/// A tool the model may call: its name, description and the JSON schema of
/// its input, as JSON text.
pub struct ToolDefinition {
    pub name: String,
    pub description: String,
    pub parameters: String,
}

/// Whether and which tool the model must call.
#[derive(Debug, Clone, PartialEq, Eq)]
pub enum ToolChoice {
    Auto,
    /// No tool may be called.
    Disabled,
    Required,
    /// This tool must be called.
    Tool(String),
}

/// A request: the conversation, the tools, and options. Sampling settings,
/// which are floating-point numbers, are handled by the caller.
pub struct GenerateRequest {
    pub messages: Vec<Message>,
    pub tools: Vec<ToolDefinition>,
    pub tool_choice: ToolChoice,
    pub max_tokens: Option<u32>,
    /// Provider-specific options, by key.
    pub metadata: Vec<(String, String)>,
}

/// A user message of one text part.
pub fn user_message(text: &str) -> (m: Message)
    ensures
        m matches Message::User(ps) && ps@.len() == 1 && (ps@[0] matches UserPart::Text(t) && t@ == text@),
{
    let mut ps: Vec<UserPart> = Vec::new();
    ps.push(UserPart::Text(text.to_owned()));
    Message::User(ps)
}

/// A system message of one text part.
pub fn system_message(text: String) -> (m: Message)
    ensures
        m matches Message::System(ps) && ps@.len() == 1 && ps@[0]@ == text@,
{
    let mut ps: Vec<String> = Vec::new();
    ps.push(text);
    Message::System(ps)
}

/// A tool message carrying one result.
pub fn tool_result_message(tool_call_id: &str, content: &str) -> (m: Message)
    ensures
        m matches Message::Tool(ps) && ps@.len() == 1 && ps@[0].tool_call_id@ == tool_call_id@ && ps@[0].content@
            == content@,
{
    let mut ps: Vec<ToolResultPart> = Vec::new();
    ps.push(ToolResultPart { tool_call_id: tool_call_id.to_owned(), content: content.to_owned() });
    Message::Tool(ps)
}

/// The value stored under `key` in metadata (its first entry).
pub fn lookup_meta(meta: &Vec<(String, String)>, key: &str) -> (r: Option<String>)
    ensures
        match lookup(pair_views(meta@), key@) {
            Some(v) => r matches Some(x) && x@ == v,
            None => r is None,
        },
{
    let k = key.to_owned();
    let ghost e = pair_views(meta@);
    assert(e.skip(0) == e);
    for i in 0..meta.len()
        invariant
            e == pair_views(meta@),
            k@ == key@,
            lookup(e, key@) == lookup(e.skip(i as int), key@),
    {
        assert(e.skip(i as int).drop_first() == e.skip(i + 1));
        assert(e.skip(i as int)[0] == (meta@[i as int].0@, meta@[i as int].1@));
        if meta[i].0 == k {
            return Some(meta[i].1.clone());
        }
    }
    assert(e.skip(meta.len() as int) =~= Seq::<(Seq<char>, Seq<char>)>::empty());
    None
}

/// Sets a metadata entry: the first entry under `key` is replaced, else one
/// is added at the end.
pub fn set_meta(meta: &mut Vec<(String, String)>, key: &str, value: &str)
    ensures
        pair_views(final(meta)@) == put_key(pair_views(old(meta)@), key@, value@),
{
    let ghost e = pair_views(meta@);
    let k = key.to_owned();
    let mut i: usize = 0;
    while i < meta.len()
        invariant
            i <= meta.len(),
            e == pair_views(meta@),
            e == pair_views(old(meta)@),
            k@ == key@,
            forall|j: int| 0 <= j < i ==> (#[trigger] e[j]).0 != key@,
        decreases meta.len() - i,
    {
        assert(e[i as int] == (meta@[i as int].0@, meta@[i as int].1@));
        if meta[i].0 == k {
            proof {
                crate::registry::lemma_key_index_is(e, key@, Some(i as int));
            }
            let v = value.to_owned();
            meta.set(i, (k, v));
            assert(put_key(e, key@, value@) == e.update(i as int, (key@, value@)));
            assert(pair_views(meta@) =~= put_key(e, key@, value@));
            return;
        }
        i = i + 1;
    }
    proof {
        crate::registry::lemma_key_index_is(e, key@, None);
    }
    meta.push((k, value.to_owned()));
    assert(pair_views(meta@) =~= put_key(e, key@, value@));
}

// ---------------------------------------------------------------------------
// The latest turn
// ---------------------------------------------------------------------------

/// The index of the last user message.
pub open spec fn last_user(ms: Seq<Message>) -> Option<int>
    decreases ms.len(),
{
    if ms.len() == 0 {
        None
    } else if ms.last() is User {
        Some(ms.len() - 1)
    } else {
        last_user(ms.drop_last())
    }
}

/// The indices, in order, of the assistant messages from index `from` on.
pub open spec fn assistant_indices(ms: Seq<Message>, from: int) -> Seq<usize>
    decreases ms.len(),
{
    if ms.len() <= from || ms.len() == 0 {
        Seq::empty()
    } else {
        let prev = assistant_indices(ms.drop_last(), from);
        if ms.last() is Assistant {
            prev.push((ms.len() - 1) as usize)
        } else {
            prev
        }
    }
}

/// Some listed message is an assistant message with at least one part.
pub open spec fn has_content(ms: Seq<Message>, idx: Seq<usize>) -> bool {
    exists|k: int| 0 <= k < idx.len() && (ms[#[trigger] idx[k] as int] matches Message::Assistant(ps) && ps@.len() > 0)
}

/// The messages of the latest turn: the last user message, and the
/// assistant messages after it, whose parts together are the answer.
pub struct TurnParts {
    pub user_index: usize,
    pub assistant_indices: Vec<usize>,
}

/// Why the latest turn cannot be saved.
#[derive(Debug, Clone, Copy, PartialEq, Eq, Structural)]
pub enum TurnPartsError {
    NoUserMessage,
    NoAssistantContent,
}

impl TurnPartsError {
    /// The error's message.
    pub fn message(&self) -> (m: &'static str)
        ensures
            m@ == match self {
                TurnPartsError::NoUserMessage => "cannot persist turn: no user message found"@,
                TurnPartsError::NoAssistantContent => "cannot persist turn: no assistant content found for latest user turn"@,
            },
    {
        match self {
            TurnPartsError::NoUserMessage => "cannot persist turn: no user message found",
            TurnPartsError::NoAssistantContent => "cannot persist turn: no assistant content found for latest user turn",
        }
    }
}

/// Finds the latest turn to save: the last user message and the assistant
/// messages after it. Fails without a user message, or when those assistant
/// messages have no part at all.
pub fn extract_latest_turn_parts(messages: &[Message]) -> (r: Result<TurnParts, TurnPartsError>)
    ensures
        match last_user(messages@) {
            None => r == Err::<TurnParts, TurnPartsError>(TurnPartsError::NoUserMessage),
            Some(u) => if has_content(messages@, assistant_indices(messages@, u + 1)) {
                r matches Ok(t) && t.user_index == u && t.assistant_indices@ == assistant_indices(messages@, u + 1)
            } else {
                r == Err::<TurnParts, TurnPartsError>(TurnPartsError::NoAssistantContent)
            },
        },
{
    let mut i: usize = messages.len();
    assert(messages@.take(i as int) == messages@);
    let mut found: Option<usize> = None;
    while found.is_none() && i > 0
        invariant
            i <= messages.len(),
            found is None ==> last_user(messages@) == last_user(messages@.take(i as int)),
            found matches Some(u) ==> last_user(messages@) == Some(u as int) && u < messages.len(),
        decreases i + (if found is None { 1int } else { 0int }),
    {
        let k = i - 1;
        assert(messages@.take(i as int).drop_last() == messages@.take(k as int));
        assert(messages@.take(i as int).last() == messages@[k as int]);
        if let Message::User(_) = &messages[k] {
            found = Some(k);
        } else {
            i = k;
        }
    }
    let u = match found {
        None => {
            assert(messages@.take(0) =~= Seq::<Message>::empty());
            return Err(TurnPartsError::NoUserMessage);
        },
        Some(u) => u,
    };
    let mut idx: Vec<usize> = Vec::new();
    let mut content = false;
    let ghost from = u + 1;
    assert(assistant_indices(messages@.take(from), from) =~= Seq::<usize>::empty()) by {
        assert(messages@.take(from).len() <= from);
    }
    for j in u + 1..messages.len()
        invariant
            from == u + 1,
            u < messages.len(),
            idx@ == assistant_indices(messages@.take(j as int), from),
            content == has_content(messages@, idx@),
            forall|k: int| 0 <= k < idx@.len() ==> #[trigger] idx@[k] < j,
    {
        assert(messages@.take(j + 1).drop_last() == messages@.take(j as int));
        assert(messages@.take(j + 1).last() == messages@[j as int]);
        let ghost before = idx@;
        if let Message::Assistant(ps) = &messages[j] {
            idx.push(j);
            if ps.len() > 0 {
                content = true;
                assert(idx@[idx@.len() - 1] == j);
            }
            assert(has_content(messages@, idx@) == (has_content(messages@, before) || ps@.len() > 0)) by {
                if has_content(messages@, idx@) && !(ps@.len() > 0) {
                    let k = choose|k: int| 0 <= k < idx@.len() && (messages@[#[trigger] idx@[k] as int] matches Message::Assistant(qs) && qs@.len() > 0);
                    assert(k < before.len());
                    assert(idx@[k] == before[k]);
                }
                if has_content(messages@, before) {
                    let k = choose|k: int| 0 <= k < before.len() && (messages@[#[trigger] before[k] as int] matches Message::Assistant(qs) && qs@.len() > 0);
                    assert(idx@[k] == before[k]);
                }
            }
        }
    }
    assert(messages@.take(messages.len() as int) == messages@);
    if content {
        Ok(TurnParts { user_index: u, assistant_indices: idx })
    } else {
        Err(TurnPartsError::NoAssistantContent)
    }
}

} // verus!
