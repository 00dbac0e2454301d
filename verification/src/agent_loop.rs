//! The decisions of an agent turn: recording the user's message (with the
//! workspace instructions on the first turn), following the model's stream
//! into an assistant message, deciding whether the turn ends or tools run,
//! and recording each tool's result. Sending requests, awaiting the stream
//! and running tools are the caller's part; each step here says what to
//! tell the interface.

use vstd::prelude::*;

use crate::auth::{copy_pair_list, pair_views};
use crate::conversation::{
    copy_display, opt_display_view, system_message, tool_result_message, user_message, AssistantPart, DisplayPartView,
    Message, TextPart, ToolCallDisplayPart,
};
use crate::event::{
    copy_body, copy_result_display, opt_body_view, AgentEvent, BodyView, DisplayBody, ToolCallDisplay, ToolResultDisplay,
};
use crate::openai_events::{FinishReason, StreamEvent, ToolCallPart, Usage};
use crate::text::push_str;

verus! {

/// The text of the message that carries the workspace instructions.
pub open spec fn agents_preamble(md: Seq<char>) -> Seq<char> {
    "Repository instructions from AGENTS.md:\n\n"@ + md
}

/// How recording the user's message changes the conversation (`old_ms` to
/// `new_ms`) and the workspace instructions (`old_md` to `new_md`): see
/// `begin_turn`.
pub open spec fn turn_begun(
    old_ms: Seq<Message>,
    old_md: Option<String>,
    new_ms: Seq<Message>,
    new_md: Option<String>,
    content: Seq<char>,
) -> bool {
    let first = old_ms.len() == 0 && old_md is Some;
    &&& first ==> new_md is None && new_ms.len() == 2 && (new_ms[0] matches Message::System(ps) && ps@.len() == 1
        && ps@[0]@ == agents_preamble(old_md->0@))
    &&& !first ==> new_md == old_md && new_ms.len() == old_ms.len() + 1 && new_ms.drop_last() == old_ms
    &&& new_ms.last() matches Message::User(ps) && ps@.len() == 1 && (ps@[0] matches crate::conversation::UserPart::Text(
        t,
    ) && t@ == content)
}

/// Records the user's message: on the first turn (no messages yet) the
/// workspace instructions, if any, come first and are used up. The interface
/// is told of the message.
pub fn begin_turn(messages: &mut Vec<Message>, agents_md: &mut Option<String>, content: &str) -> (e: AgentEvent)
    ensures
        e matches AgentEvent::UserMessage { content: c } && c@ == content@,
        turn_begun(old(messages)@, *old(agents_md), final(messages)@, *final(agents_md), content@),
{
    if messages.len() == 0 && agents_md.is_some() {
        let md = agents_md.take();
        match md {
            Some(m) => {
                let mut text = String::new();
                push_str(&mut text, "Repository instructions from AGENTS.md:\n\n");
                push_str(&mut text, m.as_str());
                messages.push(system_message(text));
            },
            None => {},
        }
    }
    let ghost mid = messages@;
    messages.push(user_message(content));
    assert(messages@.drop_last() =~= mid);
    AgentEvent::UserMessage { content: content.to_owned() }
}

/// What one generation pass has gathered: the assistant's parts in arrival
/// order, answer text not yet closed into a part, the tool calls, why the
/// stream said it finished, and the usage of the whole turn so far.
pub struct PassState {
    pub parts: Vec<AssistantPart>,
    pub text: String,
    pub tool_calls: Vec<ToolCallPart>,
    pub finish: FinishReason,
    pub usage: Usage,
}

/// A pass about to start, with the turn's usage so far.
pub fn new_pass(usage: Usage) -> (p: PassState)
    ensures
        p.parts@.len() == 0,
        p.text@.len() == 0,
        p.tool_calls@.len() == 0,
        p.finish == FinishReason::Stop,
        p.usage == usage,
{
    PassState { parts: Vec::new(), text: String::new(), tool_calls: Vec::new(), finish: FinishReason::Stop, usage }
}

/// The usage of a turn with a response's usage added (optional counts add
/// up from zero where the turn had none).
pub open spec fn added_usage(total: Usage, u: Usage) -> Usage {
    Usage {
        input_tokens: (total.input_tokens + u.input_tokens) as u32,
        output_tokens: (total.output_tokens + u.output_tokens) as u32,
        reasoning_tokens: match u.reasoning_tokens {
            Some(r) => Some(
                (match total.reasoning_tokens {
                    Some(t) => t,
                    None => 0,
                } + r) as u32,
            ),
            None => total.reasoning_tokens,
        },
        cached_tokens: match u.cached_tokens {
            Some(c) => Some(
                (match total.cached_tokens {
                    Some(t) => t,
                    None => 0,
                } + c) as u32,
            ),
            None => total.cached_tokens,
        },
    }
}

/// Every count of the sum fits in 32 bits.
pub open spec fn usage_fits_spec(total: Usage, u: Usage) -> bool {
    &&& total.input_tokens + u.input_tokens <= u32::MAX
    &&& total.output_tokens + u.output_tokens <= u32::MAX
    &&& (u.reasoning_tokens matches Some(r) ==> match total.reasoning_tokens {
        Some(t) => t,
        None => 0,
    } + r <= u32::MAX)
    &&& (u.cached_tokens matches Some(c) ==> match total.cached_tokens {
        Some(t) => t,
        None => 0,
    } + c <= u32::MAX)
}

/// Whether a response's usage can be added to the turn's.
pub fn usage_fits(total: Usage, u: Usage) -> (b: bool)
    ensures
        b == usage_fits_spec(total, u),
{
    let zero: u32 = 0;
    let tr = match total.reasoning_tokens {
        Some(t) => t,
        None => zero,
    };
    let tc = match total.cached_tokens {
        Some(t) => t,
        None => zero,
    };
    u.input_tokens <= u32::MAX - total.input_tokens && u.output_tokens <= u32::MAX - total.output_tokens && match u.reasoning_tokens {
        Some(r) => r <= u32::MAX - tr,
        None => true,
    } && match u.cached_tokens {
        Some(c) => c <= u32::MAX - tc,
        None => true,
    }
}

/// A turn's usage is the sum of its passes' usages: the token counts add
/// up, and an optional count is the sum over the passes that report it
/// (absent only while none has).
pub proof fn law_usage_adds_up(total: Usage, u: Usage)
    requires
        usage_fits_spec(total, u),
    ensures
        added_usage(total, u).input_tokens == total.input_tokens + u.input_tokens,
        added_usage(total, u).output_tokens == total.output_tokens + u.output_tokens,
        (total.reasoning_tokens is Some && u.reasoning_tokens is Some) ==> added_usage(total, u).reasoning_tokens is Some
            && added_usage(total, u).reasoning_tokens->0 == total.reasoning_tokens->0 + u.reasoning_tokens->0,
        (total.reasoning_tokens is None && u.reasoning_tokens is Some) ==> added_usage(total, u).reasoning_tokens
            == u.reasoning_tokens,
        u.reasoning_tokens is None ==> added_usage(total, u).reasoning_tokens == total.reasoning_tokens,
        (total.cached_tokens is Some && u.cached_tokens is Some) ==> added_usage(total, u).cached_tokens is Some
            && added_usage(total, u).cached_tokens->0 == total.cached_tokens->0 + u.cached_tokens->0,
        (total.cached_tokens is None && u.cached_tokens is Some) ==> added_usage(total, u).cached_tokens
            == u.cached_tokens,
        u.cached_tokens is None ==> added_usage(total, u).cached_tokens == total.cached_tokens,
{
}

/// Two passes from a turn that used nothing yet: each count is the sum of
/// the two passes' counts.
pub proof fn law_two_passes_sum(zero: Usage, u1: Usage, u2: Usage)
    requires
        zero.input_tokens == 0 && zero.output_tokens == 0,
        zero.reasoning_tokens is None && zero.cached_tokens is None,
        usage_fits_spec(zero, u1),
        usage_fits_spec(added_usage(zero, u1), u2),
    ensures
        added_usage(added_usage(zero, u1), u2).input_tokens == u1.input_tokens + u2.input_tokens,
        added_usage(added_usage(zero, u1), u2).output_tokens == u1.output_tokens + u2.output_tokens,
        (u1.reasoning_tokens is Some && u2.reasoning_tokens is Some) ==> added_usage(added_usage(zero, u1), u2).reasoning_tokens
            is Some && added_usage(added_usage(zero, u1), u2).reasoning_tokens->0 == u1.reasoning_tokens->0
            + u2.reasoning_tokens->0,
        (u1.cached_tokens is Some && u2.cached_tokens is Some) ==> added_usage(added_usage(zero, u1), u2).cached_tokens
            is Some && added_usage(added_usage(zero, u1), u2).cached_tokens->0 == u1.cached_tokens->0
            + u2.cached_tokens->0,
{
    law_usage_adds_up(zero, u1);
    law_usage_adds_up(added_usage(zero, u1), u2);
}

fn add_usage(total: Usage, u: Usage) -> (r: Usage)
    requires
        usage_fits_spec(total, u),
    ensures
        r == added_usage(total, u),
{
    let zero: u32 = 0;
    Usage {
        input_tokens: total.input_tokens + u.input_tokens,
        output_tokens: total.output_tokens + u.output_tokens,
        reasoning_tokens: match u.reasoning_tokens {
            Some(r) => Some(
                match total.reasoning_tokens {
                    Some(t) => t,
                    None => zero,
                } + r,
            ),
            None => total.reasoning_tokens,
        },
        cached_tokens: match u.cached_tokens {
            Some(c) => Some(
                match total.cached_tokens {
                    Some(t) => t,
                    None => zero,
                } + c,
            ),
            None => total.cached_tokens,
        },
    }
}

/// `new` is `old` with the pending text `text`, if any, closed into a text
/// part carrying metadata `meta`.
pub open spec fn text_closed(
    old: Seq<AssistantPart>,
    text: String,
    new: Seq<AssistantPart>,
    meta: Seq<(Seq<char>, Seq<char>)>,
) -> bool {
    if text@.len() == 0 {
        new == old
    } else {
        &&& new.len() == old.len() + 1
        &&& new.drop_last() == old
        &&& new.last() matches AssistantPart::Text(tp) && tp.text == text && pair_views(tp.metadata@) == meta
    }
}

fn close_text(pass: &mut PassState, metadata: Vec<(String, String)>)
    ensures
        text_closed(old(pass).parts@, old(pass).text, final(pass).parts@, pair_views(metadata@)),
        final(pass).text@.len() == 0,
        final(pass).tool_calls == old(pass).tool_calls,
        final(pass).finish == old(pass).finish,
        final(pass).usage == old(pass).usage,
{
    let ghost old_text = pass.text;
    let ghost old_parts = pass.parts@;
    if !pass.text.as_str().is_empty() {
        let mut text = String::new();
        std::mem::swap(&mut text, &mut pass.text);
        assert(text == old_text);
        let part = AssistantPart::Text(TextPart { text, metadata });
        pass.parts.push(part);
        assert(pass.parts@.drop_last() == old_parts);
        assert(pass.parts@.last() == part);
    } else {
        assert(old_text@.len() == 0);
    }
}

pub(crate) fn copy_call(c: &ToolCallPart) -> (r: ToolCallPart)
    ensures
        r.id@ == c.id@,
        r.name@ == c.name@,
        r.arguments@ == c.arguments@,
        pair_views(r.metadata@) == pair_views(c.metadata@),
        opt_display_view(r.display) == opt_display_view(c.display),
{
    ToolCallPart {
        id: c.id.clone(),
        name: c.name.clone(),
        arguments: c.arguments.clone(),
        metadata: copy_pair_list(&c.metadata),
        display: copy_display(&c.display),
    }
}

/// What a stream event means for the turn.
pub enum StreamStep {
    /// Tell the interface this.
    Emit(AgentEvent),
    /// Nothing to tell.
    Quiet,
    /// The turn failed: tell the interface this error and stop.
    Failed(AgentEvent),
}

/// How one stream event changes a pass (`old` to `new`) and what it says
/// (`s`): see `on_stream_event`.
pub open spec fn stream_followed(old: PassState, event: StreamEvent, new: PassState, s: StreamStep) -> bool {
    match event {
        StreamEvent::TextDelta(d) => {
            &&& s matches StreamStep::Emit(AgentEvent::TextDelta { delta }) && delta@ == d@
            &&& new.text@ == old.text@ + d@
            &&& new.parts == old.parts
            &&& new.tool_calls == old.tool_calls
            &&& new.finish == old.finish && new.usage == old.usage
        },
        StreamEvent::TextDone { metadata } => {
            &&& s is Quiet
            &&& text_closed(old.parts@, old.text, new.parts@, pair_views(metadata@))
            &&& new.text@.len() == 0
            &&& new.tool_calls == old.tool_calls
            &&& new.finish == old.finish && new.usage == old.usage
        },
        StreamEvent::ReasoningDelta(d) => {
            &&& s matches StreamStep::Emit(AgentEvent::ReasoningDelta { delta }) && delta@ == d@
            &&& new == old
        },
        StreamEvent::ReasoningDone(p) => {
            &&& s is Quiet
            &&& new.parts@.len() > 0
            &&& new.parts@.last() == AssistantPart::Reasoning(p)
            &&& text_closed(old.parts@, old.text, new.parts@.drop_last(), Seq::empty())
            &&& new.text@.len() == 0
            &&& new.tool_calls == old.tool_calls
            &&& new.finish == old.finish && new.usage == old.usage
        },
        StreamEvent::ToolCallBegin { .. } | StreamEvent::ToolCallDelta { .. } => s is Quiet && new == old,
        StreamEvent::ToolCallEnd { call, .. } => {
            &&& s is Quiet
            &&& new.parts@.len() > 0
            &&& new.parts@.last() == AssistantPart::ToolCall(call)
            &&& text_closed(old.parts@, old.text, new.parts@.drop_last(), Seq::empty())
            &&& new.text@.len() == 0
            &&& new.tool_calls@.len() == old.tool_calls@.len() + 1
            &&& new.tool_calls@.drop_last() == old.tool_calls@
            &&& new.tool_calls@.last().id@ == call.id@ && new.tool_calls@.last().name@ == call.name@
                && new.tool_calls@.last().arguments@ == call.arguments@ && pair_views(
                new.tool_calls@.last().metadata@,
            ) == pair_views(call.metadata@)
            &&& new.finish == old.finish && new.usage == old.usage
        },
        StreamEvent::Finish { reason, usage } => {
            &&& s is Quiet
            &&& new.finish == reason
            &&& new.usage == match usage {
                Some(u) => added_usage(old.usage, u),
                None => old.usage,
            }
            &&& new.parts == old.parts && new.text == old.text
            &&& new.tool_calls == old.tool_calls
        },
        StreamEvent::Error(m) => s matches StreamStep::Failed(AgentEvent::Error { error }) && error == m
            && new == old,
    }
}

/// Follows one stream event: text is gathered (and shown); a finished text
/// item closes the gathered text with its metadata; reasoning is shown and,
/// once finished, added after the text so far; a finished tool call is
/// added after the text so far and remembered; the finish records the
/// reason and adds the usage; an error ends the turn. Calls that begin or
/// stream arguments change nothing.
pub fn on_stream_event(pass: &mut PassState, event: StreamEvent) -> (s: StreamStep)
    requires
        event matches StreamEvent::Finish { usage: Some(u), .. } ==> usage_fits_spec(old(pass).usage, u),
    ensures
        stream_followed(*old(pass), event, *final(pass), s),
{
    match event {
        StreamEvent::TextDelta(d) => {
            let ghost before = *pass;
            push_str(&mut pass.text, d.as_str());
            assert(pass.parts == before.parts);
            StreamStep::Emit(AgentEvent::TextDelta { delta: d })
        },
        StreamEvent::TextDone { metadata } => {
            close_text(pass, metadata);
            StreamStep::Quiet
        },
        StreamEvent::ReasoningDelta(d) => StreamStep::Emit(AgentEvent::ReasoningDelta { delta: d }),
        StreamEvent::ReasoningDone(p) => {
            let m: Vec<(String, String)> = Vec::new();
            assert(pair_views(m@) =~= Seq::<(Seq<char>, Seq<char>)>::empty());
            close_text(pass, m);
            let ghost mid = pass.parts@;
            pass.parts.push(AssistantPart::Reasoning(p));
            assert(pass.parts@.drop_last() == mid);
            StreamStep::Quiet
        },
        StreamEvent::ToolCallBegin { .. } => StreamStep::Quiet,
        StreamEvent::ToolCallDelta { .. } => StreamStep::Quiet,
        StreamEvent::ToolCallEnd { call, .. } => {
            let m: Vec<(String, String)> = Vec::new();
            assert(pair_views(m@) =~= Seq::<(Seq<char>, Seq<char>)>::empty());
            close_text(pass, m);
            let ghost mid = pass.parts@;
            let ghost calls = pass.tool_calls@;
            pass.tool_calls.push(copy_call(&call));
            assert(pass.tool_calls@.drop_last() == calls);
            pass.parts.push(AssistantPart::ToolCall(call));
            assert(pass.parts@.drop_last() == mid);
            StreamStep::Quiet
        },
        StreamEvent::Finish { reason, usage } => {
            pass.finish = reason;
            match usage {
                Some(u) => {
                    pass.usage = add_usage(pass.usage, u);
                },
                None => {},
            }
            StreamStep::Quiet
        },
        StreamEvent::Error(m) => StreamStep::Failed(AgentEvent::Error { error: m }),
    }
}

/// How a pass ends.
pub enum PassEnd {
    /// The turn is over: tell the interface this (its usage).
    Complete(AgentEvent),
    /// Run these tool calls, in order, then generate again.
    RunTools(Vec<ToolCallPart>),
}

/// How closing a pass records the assistant message and what it decides: see `end_pass`.
pub open spec fn pass_ended(pass: PassState, old_ms: Vec<Message>, new_ms: Vec<Message>, r: (PassEnd, Usage)) -> bool {
    &&& (r.1 == pass.usage)
    &&& (({
        let shown = if pass.text@.len() == 0 {
            pass.parts@.len()
        } else {
            pass.parts@.len() + 1
        };
        &&& shown == 0 ==> new_ms@ == old_ms@
        &&& shown > 0 ==> new_ms@.len() == old_ms@.len() + 1 && new_ms@.drop_last()
            == old_ms@ && (new_ms@.last() matches Message::Assistant(ps) && ps@.len() == shown
            && text_closed(pass.parts@, pass.text, ps@, Seq::empty()))
    }))
    &&& ((pass.finish != FinishReason::ToolCalls || pass.tool_calls@.len() == 0) ==> (r.0 matches PassEnd::Complete(
        AgentEvent::TurnComplete { usage },
    ) && usage == pass.usage))
    &&& ((pass.finish == FinishReason::ToolCalls && pass.tool_calls@.len() > 0) ==> (r.0 matches PassEnd::RunTools(calls)
        && calls == pass.tool_calls))
}

/// Ends a pass once the stream is over: the gathered text is closed, the
/// parts (if any) become an assistant message, and the turn ends unless the
/// model finished for tool calls and called some.
pub fn end_pass(pass: PassState, messages: &mut Vec<Message>) -> (r: (PassEnd, Usage))
    ensures
        pass_ended(pass, *old(messages), *final(messages), r),
{
    let mut pass = pass;
    let m: Vec<(String, String)> = Vec::new();
    assert(pair_views(m@) =~= Seq::<(Seq<char>, Seq<char>)>::empty());
    close_text(&mut pass, m);
    let PassState { parts, text: _, tool_calls, finish, usage } = pass;
    if parts.len() > 0 {
        messages.push(Message::Assistant(parts));
        assert(messages@.drop_last() =~= old(messages)@);
    }
    if finish != FinishReason::ToolCalls || tool_calls.len() == 0 {
        (PassEnd::Complete(AgentEvent::TurnComplete { usage }), usage)
    } else {
        (PassEnd::RunTools(tool_calls), usage)
    }
}

// ---------------------------------------------------------------------------
// How tool calls were shown, kept in the conversation
// ---------------------------------------------------------------------------

/// The part is the tool call with this id.
pub open spec fn is_call_of(p: AssistantPart, id: Seq<char>) -> bool {
    match p {
        AssistantPart::ToolCall(c) => c.id@ == id,
        _ => false,
    }
}

/// The index of the first part that is the call with this id.
pub open spec fn first_call_of(ps: Seq<AssistantPart>, id: Seq<char>) -> Option<int>
    decreases ps.len(),
{
    if ps.len() == 0 {
        None
    } else {
        match first_call_of(ps.drop_last(), id) {
            Some(j) => Some(j),
            None => if is_call_of(ps.last(), id) {
                Some(ps.len() - 1)
            } else {
                None
            },
        }
    }
}

/// Where the call with this id is kept: the last assistant message that
/// holds it, and the first of its parts that is the call.
pub open spec fn call_position(ms: Seq<Message>, id: Seq<char>) -> Option<(int, int)>
    decreases ms.len(),
{
    if ms.len() == 0 {
        None
    } else {
        match (match ms.last() {
            Message::Assistant(ps) => first_call_of(ps@, id),
            _ => None,
        }) {
            Some(j) => Some((ms.len() - 1, j)),
            None => call_position(ms.drop_last(), id),
        }
    }
}

/// The call at a position (if it is one).
pub open spec fn call_at(ms: Seq<Message>, i: int, j: int) -> Option<ToolCallPart> {
    match ms[i] {
        Message::Assistant(ps) => match ps@[j] {
            AssistantPart::ToolCall(c) => Some(c),
            _ => None,
        },
        _ => None,
    }
}

/// The messages `new` are `old` with the call at `(i, j)` now shown as `d`:
/// every other message and part, and the call's other fields, are kept.
pub open spec fn call_redisplayed(old: Seq<Message>, new: Seq<Message>, i: int, j: int, d: DisplayPartView) -> bool {
    &&& new.len() == old.len()
    &&& forall|k: int| 0 <= k < old.len() && k != i ==> new[k] == old[k]
    &&& (old[i] matches Message::Assistant(ps) && new[i] matches Message::Assistant(qs) && qs@.len() == ps@.len()
        && (forall|k: int| 0 <= k < ps@.len() && k != j ==> qs@[k] == ps@[k]))
    &&& (call_at(old, i, j) matches Some(c) && call_at(new, i, j) matches Some(c2) && c2.id == c.id && c2.name
        == c.name && c2.arguments == c.arguments && c2.metadata == c.metadata && opt_display_view(c2.display)
        == Some(d))
}

/// A call's display once it started with this title and body: a result
/// already shown is kept.
pub open spec fn started_display(d: Option<DisplayPartView>, title: Seq<char>, body: Option<BodyView>) -> DisplayPartView {
    match d {
        Some(x) => (title, body, x.2),
        None => (title, body, None),
    }
}

/// A call's display once it finished with this result: a call never shown
/// is titled with its name.
pub open spec fn finished_display(
    d: Option<DisplayPartView>,
    name: Seq<char>,
    result: (Seq<char>, Option<BodyView>),
) -> DisplayPartView {
    match d {
        Some(x) => (x.0, x.1, Some(result)),
        None => (name, None, Some(result)),
    }
}

proof fn lemma_first_call_of(ps: Seq<AssistantPart>, id: Seq<char>)
    ensures
        first_call_of(ps, id) matches Some(j) ==> 0 <= j < ps.len() && is_call_of(ps[j], id),
        first_call_of(ps, id) is None ==> forall|k: int| 0 <= k < ps.len() ==> !is_call_of(#[trigger] ps[k], id),
    decreases ps.len(),
{
    if ps.len() > 0 {
        lemma_first_call_of(ps.drop_last(), id);
        assert forall|k: int| 0 <= k < ps.len() - 1 implies #[trigger] ps[k] == ps.drop_last()[k] by {}
    }
}

proof fn lemma_call_position(ms: Seq<Message>, id: Seq<char>)
    ensures
        call_position(ms, id) matches Some((i, j)) ==> 0 <= i < ms.len() && (ms[i] matches Message::Assistant(ps)
            && 0 <= j < ps@.len() && is_call_of(ps@[j], id)),
    decreases ms.len(),
{
    if ms.len() > 0 {
        lemma_call_position(ms.drop_last(), id);
        if let Message::Assistant(ps) = ms.last() {
            lemma_first_call_of(ps@, id);
        }
    }
}

proof fn lemma_first_call_prefix(ps: Seq<AssistantPart>, id: Seq<char>, k: int)
    requires
        0 <= k <= ps.len(),
        first_call_of(ps.take(k), id) is Some,
    ensures
        first_call_of(ps, id) == first_call_of(ps.take(k), id),
    decreases ps.len(),
{
    if k == ps.len() {
        assert(ps.take(k) == ps);
    } else {
        assert(ps.drop_last().take(k) == ps.take(k));
        lemma_first_call_prefix(ps.drop_last(), id, k);
    }
}

/// The first part of `ps` that is the call with this id.
fn find_part(ps: &Vec<AssistantPart>, id: &String) -> (r: Option<usize>)
    ensures
        r matches Some(j) ==> first_call_of(ps@, id@) == Some(j as int),
        r is None ==> first_call_of(ps@, id@) is None,
{
    let mut j: usize = 0;
    assert(ps@.take(0) =~= Seq::<AssistantPart>::empty());
    while j < ps.len()
        invariant
            j <= ps.len(),
            first_call_of(ps@.take(j as int), id@) is None,
        decreases ps.len() - j,
    {
        assert(ps@.take(j + 1).drop_last() == ps@.take(j as int));
        assert(ps@.take(j + 1).last() == ps@[j as int]);
        if let AssistantPart::ToolCall(c) = &ps[j] {
            if c.id == *id {
                proof {
                    lemma_first_call_prefix(ps@, id@, j + 1);
                }
                return Some(j);
            }
        }
        j = j + 1;
    }
    assert(ps@.take(ps.len() as int) == ps@);
    None
}

/// Where the call with this id is kept.
fn find_call(messages: &Vec<Message>, id: &String) -> (r: Option<(usize, usize)>)
    ensures
        r matches Some((i, j)) ==> call_position(messages@, id@) == Some((i as int, j as int)),
        r is None ==> call_position(messages@, id@) is None,
{
    let mut i: usize = messages.len();
    assert(messages@.take(i as int) == messages@);
    while i > 0
        invariant
            i <= messages.len(),
            call_position(messages@, id@) == call_position(messages@.take(i as int), id@),
        decreases i,
    {
        let k = i - 1;
        assert(messages@.take(i as int).drop_last() == messages@.take(k as int));
        assert(messages@.take(i as int).last() == messages@[k as int]);
        if let Message::Assistant(ps) = &messages[k] {
            if let Some(j) = find_part(ps, id) {
                return Some((k, j));
            }
        }
        i = k;
    }
    assert(messages@.take(0) =~= Seq::<Message>::empty());
    None
}

/// Shows the call with this id, where the conversation keeps it, as started
/// with this display (a result already shown stays). Without such a call
/// nothing changes.
pub fn record_call_start(messages: &mut Vec<Message>, id: &str, display: &ToolCallDisplay)
    ensures
        match call_position(old(messages)@, id@) {
            None => final(messages)@ == old(messages)@,
            Some((i, j)) => call_at(old(messages)@, i, j) matches Some(c) && call_redisplayed(
                old(messages)@,
                final(messages)@,
                i,
                j,
                started_display(opt_display_view(c.display), display.title@, opt_body_view(display.body)),
            ),
        },
{
    proof {
        lemma_call_position(messages@, id@);
    }
    let ghost before = messages@;
    let key = id.to_owned();
    match find_call(messages, &key) {
        None => {},
        Some((i, j)) => {
            let m = messages.remove(i);
            match m {
                Message::Assistant(mut ps) => {
                    let ghost ps0 = ps@;
                    let p = ps.remove(j);
                    match p {
                        AssistantPart::ToolCall(mut c) => {
                            let ghost c0 = c;
                            let result = match c.display.take() {
                                Some(d) => d.result,
                                None => None,
                            };
                            c.display = Some(
                                ToolCallDisplayPart {
                                    title: display.title.clone(),
                                    description: copy_body(&display.body),
                                    result,
                                },
                            );
                            ps.insert(j, AssistantPart::ToolCall(c));
                            assert(ps@ == ps0.update(j as int, AssistantPart::ToolCall(c)));
                        },
                        other => {
                            ps.insert(j, other);
                        },
                    }
                    messages.insert(i, Message::Assistant(ps));
                    assert(messages@ == before.update(i as int, Message::Assistant(ps)));
                },
                other => {
                    messages.insert(i, other);
                },
            }
        },
    }
}

/// Shows the call with this id, where the conversation keeps it, as
/// finished with this result; a call never shown gets a display titled
/// with its name. Without such a call nothing changes.
pub fn record_call_result(messages: &mut Vec<Message>, id: &str, result: &ToolResultDisplay)
    ensures
        match call_position(old(messages)@, id@) {
            None => final(messages)@ == old(messages)@,
            Some((i, j)) => call_at(old(messages)@, i, j) matches Some(c) && call_redisplayed(
                old(messages)@,
                final(messages)@,
                i,
                j,
                finished_display(opt_display_view(c.display), c.name@, (result.title@, opt_body_view(result.body))),
            ),
        },
{
    proof {
        lemma_call_position(messages@, id@);
    }
    let ghost before = messages@;
    let key = id.to_owned();
    match find_call(messages, &key) {
        None => {},
        Some((i, j)) => {
            let m = messages.remove(i);
            match m {
                Message::Assistant(mut ps) => {
                    let ghost ps0 = ps@;
                    let p = ps.remove(j);
                    match p {
                        AssistantPart::ToolCall(mut c) => {
                            let shown = match c.display.take() {
                                Some(d) => ToolCallDisplayPart {
                                    title: d.title,
                                    description: d.description,
                                    result: Some(copy_result_display(result)),
                                },
                                None => ToolCallDisplayPart {
                                    title: c.name.clone(),
                                    description: None,
                                    result: Some(copy_result_display(result)),
                                },
                            };
                            c.display = Some(shown);
                            ps.insert(j, AssistantPart::ToolCall(c));
                            assert(ps@ == ps0.update(j as int, AssistantPart::ToolCall(c)));
                        },
                        other => {
                            ps.insert(j, other);
                        },
                    }
                    messages.insert(i, Message::Assistant(ps));
                    assert(messages@ == before.update(i as int, Message::Assistant(ps)));
                },
                other => {
                    messages.insert(i, other);
                },
            }
        },
    }
}

/// The messages `new` are `old` with the call with this id shown as
/// `shown` makes its display, where the conversation keeps the call; the
/// same messages when it keeps none.
pub open spec fn redisplayed_by(
    old: Seq<Message>,
    new: Seq<Message>,
    id: Seq<char>,
    shown: spec_fn(ToolCallPart) -> DisplayPartView,
) -> bool {
    match call_position(old, id) {
        None => new == old,
        Some((i, j)) => call_at(old, i, j) matches Some(c) && call_redisplayed(old, new, i, j, shown(c)),
    }
}

/// What a prepared tool call shows when it starts; the conversation keeps
/// that display with the call.
pub fn tool_started(messages: &mut Vec<Message>, call: &ToolCallPart, display: ToolCallDisplay) -> (e: AgentEvent)
    ensures
        e matches AgentEvent::ToolCallStart { id, display: d } && id@ == call.id@ && d == display,
        redisplayed_by(
            old(messages)@,
            final(messages)@,
            call.id@,
            |c: ToolCallPart| started_display(opt_display_view(c.display), display.title@, opt_body_view(display.body)),
        ),
{
    record_call_start(messages, call.id.as_str(), &display);
    AgentEvent::ToolCallStart { id: call.id.clone(), display }
}

/// What a tool gave: how to show its result, and the text the model reads.
pub struct ToolRun {
    pub display: ToolResultDisplay,
    pub llm_output: String,
}

/// The text of a failed tool call: `tool error: ` and the reason.
pub open spec fn tool_error_text(reason: Seq<char>) -> Seq<char> {
    "tool error: "@ + reason
}

/// The result display of a failed tool call: titled `error`, with the
/// error text.
pub open spec fn error_result(reason: Seq<char>) -> (Seq<char>, Option<BodyView>) {
    ("error"@, Some(BodyView::Text(tool_error_text(reason))))
}

/// How a tool call's outcome is recorded and shown: see `tool_finished`.
pub open spec fn tool_recorded(old_ms: Vec<Message>, new_ms: Vec<Message>, call: ToolCallPart, outcome: Result<ToolRun, String>, e: AgentEvent) -> bool {
    &&& (new_ms@.len() == old_ms@.len() + 1)
    &&& (match outcome {
        Ok(run) => {
            &&& e matches AgentEvent::ToolCallDone { id, display } && id@ == call.id@ && display == run.display
            &&& redisplayed_by(
                old_ms@,
                new_ms@.drop_last(),
                call.id@,
                |c: ToolCallPart| finished_display(
                    opt_display_view(c.display),
                    c.name@,
                    (run.display.title@, opt_body_view(run.display.body)),
                ),
            )
            &&& new_ms@.last() matches Message::Tool(ps) && ps@.len() == 1 && ps@[0].tool_call_id@ == call.id@
                && ps@[0].content@ == run.llm_output@
        },
        Err(reason) => {
            &&& e matches AgentEvent::ToolCallDone { id, display } && id@ == call.id@ && display.title@ == "error"@
                && (display.body matches Some(DisplayBody::Text(t)) && t@ == tool_error_text(reason@))
            &&& redisplayed_by(
                old_ms@,
                new_ms@.drop_last(),
                call.id@,
                |c: ToolCallPart| finished_display(opt_display_view(c.display), c.name@, error_result(reason@)),
            )
            &&& new_ms@.last() matches Message::Tool(ps) && ps@.len() == 1 && ps@[0].tool_call_id@ == call.id@
                && ps@[0].content@ == tool_error_text(reason@)
        },
    })
}

/// Records a tool call's outcome (`Err`: it could not be prepared or it
/// failed): the conversation keeps how its result was shown with the call,
/// and the model reads the tool's output, or the error text, as the call's
/// result; the interface is shown the result, or an `error` line with the
/// error text.
pub fn tool_finished(messages: &mut Vec<Message>, call: &ToolCallPart, outcome: Result<ToolRun, String>) -> (e: AgentEvent)
    ensures
        tool_recorded(*old(messages), *final(messages), *call, outcome, e),
{
    match outcome {
        Ok(run) => {
            record_call_result(messages, call.id.as_str(), &run.display);
            let ghost mid = messages@;
            messages.push(tool_result_message(call.id.as_str(), run.llm_output.as_str()));
            assert(messages@.drop_last() == mid);
            AgentEvent::ToolCallDone { id: call.id.clone(), display: run.display }
        },
        Err(reason) => {
            let mut text = String::new();
            push_str(&mut text, "tool error: ");
            push_str(&mut text, reason.as_str());
            let display = ToolResultDisplay { title: "error".to_owned(), body: Some(DisplayBody::Text(text.clone())) };
            record_call_result(messages, call.id.as_str(), &display);
            let ghost mid = messages@;
            messages.push(tool_result_message(call.id.as_str(), text.as_str()));
            assert(messages@.drop_last() == mid);
            AgentEvent::ToolCallDone { id: call.id.clone(), display }
        },
    }
}

/// The reason given when the model calls a tool the agent does not have.
pub fn unknown_tool_reason(name: &str) -> (r: String)
    ensures
        r@ == "unknown tool: "@ + name@,
{
    let mut r = String::new();
    push_str(&mut r, "unknown tool: ");
    push_str(&mut r, name);
    r
}

} // verus!
