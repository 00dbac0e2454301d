//! A request of the Responses API built from a provider-independent request:
//! the conversation becomes input items (the last system message becomes the
//! instructions), and the tools, tool choice and reasoning options carry over.

use vstd::prelude::*;

use crate::auth::{lookup, pair_views};
use crate::conversation::{
    lookup_meta, set_meta, AssistantPart, GenerateRequest, Message, ToolChoice, ToolResultPart, UserPart,
};
use crate::openai::{OpenAIConfig, OpenAIRequestExt, ReasoningEffort, ReasoningSummary, Role};
use crate::openai_events::{ReasoningPart, ReasoningSummaryPart, ToolCallPart};
use crate::registry::put_key;
use crate::text::push_str;

verus! {

// ---------------------------------------------------------------------------
// Wire types of a request
// ---------------------------------------------------------------------------

/// A content part of an input message.
pub enum InputContent {
    InputText { text: String },
    InputImage { url: String },
    /// Text the assistant answered earlier.
    OutputText { text: String },
}

/// An item of a request's input.
pub enum InputItem {
    Message { id: Option<String>, role: Role, content: Vec<InputContent> },
    Reasoning { id: String, summary: Vec<ReasoningSummaryPart>, encrypted_content: Option<String> },
    FunctionCall { id: String, call_id: String, name: String, arguments: String },
    FunctionCallOutput { call_id: String, output: String },
}

/// A function tool offered to the model.
pub struct OpenAITool {
    pub name: String,
    pub description: String,
    /// The JSON schema of its input, as JSON text.
    pub parameters: String,
    pub strict: bool,
}

/// The `tool_choice` field when it is sent.
#[derive(Debug, Clone, PartialEq, Eq)]
pub enum WireToolChoice {
    /// `"none"`.
    NoTool,
    /// `"required"`.
    Required,
    /// `{"type": "function", "name": ...}`.
    Function(String),
}

/// The `reasoning` field.
pub struct ReasoningConfig {
    pub effort: Option<String>,
    pub summary: Option<String>,
}

/// A Responses API request. Sampling settings, which are floating-point
/// numbers, are added by the caller.
pub struct OpenAIRequest {
    pub model: String,
    pub input: Vec<InputItem>,
    pub stream: bool,
    pub store: Option<bool>,
    pub response_includes: Vec<String>,
    pub instructions: Option<String>,
    pub max_output_tokens: Option<u32>,
    pub tools: Vec<OpenAITool>,
    pub tool_choice: Option<WireToolChoice>,
    pub reasoning: Option<ReasoningConfig>,
}

// ---------------------------------------------------------------------------
// Views
// ---------------------------------------------------------------------------

pub enum ContentView {
    InputText(Seq<char>),
    InputImage(Seq<char>),
    OutputText(Seq<char>),
}

pub enum ItemView {
    Message(Option<Seq<char>>, Role, Seq<ContentView>),
    Reasoning(Seq<char>, Seq<Seq<char>>, Option<Seq<char>>),
    FunctionCall(Seq<char>, Seq<char>, Seq<char>, Seq<char>),
    FunctionCallOutput(Seq<char>, Seq<char>),
}

pub open spec fn opt_view(o: Option<String>) -> Option<Seq<char>> {
    match o {
        Some(s) => Some(s@),
        None => None,
    }
}

pub open spec fn content_view(c: InputContent) -> ContentView {
    match c {
        InputContent::InputText { text } => ContentView::InputText(text@),
        InputContent::InputImage { url } => ContentView::InputImage(url@),
        InputContent::OutputText { text } => ContentView::OutputText(text@),
    }
}

pub open spec fn contents_view(v: Seq<InputContent>) -> Seq<ContentView> {
    v.map_values(|c: InputContent| content_view(c))
}

pub open spec fn summary_texts(v: Seq<ReasoningSummaryPart>) -> Seq<Seq<char>> {
    v.map_values(|p: ReasoningSummaryPart| match p {
        ReasoningSummaryPart::SummaryText { text } => text@,
    })
}

pub open spec fn item_view(i: InputItem) -> ItemView {
    match i {
        InputItem::Message { id, role, content } => ItemView::Message(opt_view(id), role, contents_view(content@)),
        InputItem::Reasoning { id, summary, encrypted_content } => ItemView::Reasoning(
            id@,
            summary_texts(summary@),
            opt_view(encrypted_content),
        ),
        InputItem::FunctionCall { id, call_id, name, arguments } => ItemView::FunctionCall(
            id@,
            call_id@,
            name@,
            arguments@,
        ),
        InputItem::FunctionCallOutput { call_id, output } => ItemView::FunctionCallOutput(call_id@, output@),
    }
}

pub open spec fn items_view(v: Seq<InputItem>) -> Seq<ItemView> {
    v.map_values(|i: InputItem| item_view(i))
}

// ---------------------------------------------------------------------------
// What the conversation becomes
// ---------------------------------------------------------------------------

/// The metadata value under a key.
pub open spec fn meta_of(m: Seq<(String, String)>, k: Seq<char>) -> Option<Seq<char>> {
    lookup(pair_views(m), k)
}

/// The contents of a user message.
pub open spec fn user_contents(ps: Seq<UserPart>) -> Seq<ContentView> {
    ps.map_values(|p: UserPart| match p {
        UserPart::Text(t) => ContentView::InputText(t@),
        UserPart::Image(u) => ContentView::InputImage(u@),
    })
}

/// The items of a tool message: one output per result.
pub open spec fn tool_outputs(ps: Seq<ToolResultPart>) -> Seq<ItemView> {
    ps.map_values(|p: ToolResultPart| ItemView::FunctionCallOutput(p.tool_call_id@, p.content@))
}

/// The item of a reasoning part: its item id (empty when unknown), its text
/// as the one summary part, and its encrypted content.
pub open spec fn reasoning_item(r: ReasoningPart) -> ItemView {
    ItemView::Reasoning(
        match meta_of(r.metadata@, "openai:item_id"@) {
            Some(x) => x,
            None => Seq::empty(),
        },
        match r.text {
            Some(t) => seq![t@],
            None => Seq::empty(),
        },
        meta_of(r.metadata@, "openai:encrypted_content"@),
    )
}

/// The item of a tool call: its item id (the call id when unknown), call id,
/// name and arguments.
pub open spec fn call_item(tc: ToolCallPart) -> ItemView {
    ItemView::FunctionCall(
        match meta_of(tc.metadata@, "openai:item_id"@) {
            Some(x) => x,
            None => tc.id@,
        },
        tc.id@,
        tc.name@,
        tc.arguments@,
    )
}

/// Items so far, answer text waiting to become one assistant message, and
/// that message's item id.
pub type Batch = (Seq<ItemView>, Seq<ContentView>, Option<Seq<char>>);

/// The waiting text, if any, becomes an assistant message carrying the id.
pub open spec fn flushed(b: Batch) -> (Seq<ItemView>, Option<Seq<char>>) {
    if b.1.len() == 0 {
        (b.0, b.2)
    } else {
        (b.0.push(ItemView::Message(b.2, Role::Assistant, b.1)), None)
    }
}

/// The state after the parts of an assistant message: consecutive text
/// parts wait together (the id of the first that has one is kept); a
/// reasoning part or tool call closes them and adds its own item.
pub open spec fn batch(ps: Seq<AssistantPart>) -> Batch
    decreases ps.len(),
{
    if ps.len() == 0 {
        (Seq::empty(), Seq::empty(), None)
    } else {
        let b = batch(ps.drop_last());
        match ps.last() {
            AssistantPart::Text(t) => (
                b.0,
                b.1.push(ContentView::OutputText(t.text@)),
                if b.2 is None {
                    meta_of(t.metadata@, "openai:item_id"@)
                } else {
                    b.2
                },
            ),
            AssistantPart::Reasoning(r) => {
                let f = flushed(b);
                (f.0.push(reasoning_item(r)), Seq::empty(), f.1)
            },
            AssistantPart::ToolCall(tc) => {
                let f = flushed(b);
                (f.0.push(call_item(tc)), Seq::empty(), f.1)
            },
        }
    }
}

/// The items of an assistant message, in the order of its parts.
pub open spec fn assistant_items(ps: Seq<AssistantPart>) -> Seq<ItemView> {
    flushed(batch(ps)).0
}

/// The items of a message (a system message has none).
pub open spec fn message_items(m: Message) -> Seq<ItemView> {
    match m {
        Message::System(_) => Seq::empty(),
        Message::User(ps) => seq![ItemView::Message(None, Role::User, user_contents(ps@))],
        Message::Assistant(ps) => assistant_items(ps@),
        Message::Tool(ps) => tool_outputs(ps@),
    }
}

/// The input items of a conversation.
pub open spec fn input_items(ms: Seq<Message>) -> Seq<ItemView>
    decreases ms.len(),
{
    if ms.len() == 0 {
        Seq::empty()
    } else {
        input_items(ms.drop_last()) + message_items(ms.last())
    }
}

/// Text parts joined by newlines.
pub open spec fn joined(ps: Seq<String>) -> Seq<char>
    decreases ps.len(),
{
    if ps.len() == 0 {
        Seq::empty()
    } else if ps.len() == 1 {
        ps[0]@
    } else {
        joined(ps.drop_last()) + "\n"@ + ps.last()@
    }
}

/// The instructions of a conversation: its last system message's text.
pub open spec fn instructions_of(ms: Seq<Message>) -> Option<Seq<char>>
    decreases ms.len(),
{
    if ms.len() == 0 {
        None
    } else {
        match ms.last() {
            Message::System(ps) => Some(joined(ps@)),
            _ => instructions_of(ms.drop_last()),
        }
    }
}

// ---------------------------------------------------------------------------
// Building the request
// ---------------------------------------------------------------------------

fn copy_opt(o: &Option<String>) -> (r: Option<String>)
    ensures
        opt_view(r) == opt_view(*o),
{
    match o {
        Some(s) => Some(s.clone()),
        None => None,
    }
}

fn join_parts(ps: &Vec<String>) -> (s: String)
    ensures
        s@ == joined(ps@),
{
    let mut s = String::new();
    for i in 0..ps.len()
        invariant
            s@ == joined(ps@.take(i as int)),
    {
        let ghost t = ps@.take(i + 1);
        assert(t.drop_last() == ps@.take(i as int));
        if i > 0 {
            push_str(&mut s, "\n");
        }
        push_str(&mut s, ps[i].as_str());
        proof {
            if i == 0 {
                assert(ps@.take(0).len() == 0);
            }
        }
        assert(s@ =~= joined(t));
    }
    assert(ps@.take(ps.len() as int) == ps@);
    s
}

fn user_content(ps: &Vec<UserPart>) -> (c: Vec<InputContent>)
    ensures
        contents_view(c@) == user_contents(ps@),
{
    let mut c: Vec<InputContent> = Vec::new();
    for i in 0..ps.len()
        invariant
            contents_view(c@) == user_contents(ps@.take(i as int)),
    {
        let item = match &ps[i] {
            UserPart::Text(t) => InputContent::InputText { text: t.clone() },
            UserPart::Image(u) => InputContent::InputImage { url: u.clone() },
        };
        let ghost before = c@;
        c.push(item);
        assert(ps@.take(i + 1) == ps@.take(i as int).push(ps@[i as int]));
        assert(contents_view(c@) == contents_view(before).push(content_view(item)));
        assert(contents_view(c@) =~= user_contents(ps@.take(i + 1)));
    }
    assert(ps@.take(ps.len() as int) == ps@);
    c
}

fn push_items(out: &mut Vec<InputItem>, more: Vec<InputItem>)
    ensures
        items_view(final(out)@) == items_view(old(out)@) + items_view(more@),
{
    let ghost given = more@;
    let mut more = more;
    let ghost start = old(out)@;
    out.append(&mut more);
    assert(items_view(out@) =~= items_view(start) + items_view(given));
}

/// Closes the waiting text into an assistant message.
fn flush_batch(items: &mut Vec<InputItem>, buf: &mut Vec<InputContent>, id: &mut Option<String>)
    ensures
        (items_view(final(items)@), opt_view(*final(id))) == flushed(
            (items_view(old(items)@), contents_view(old(buf)@), opt_view(*old(id))),
        ),
        final(buf)@.len() == 0,
{
    if buf.len() > 0 {
        let mut content: Vec<InputContent> = Vec::new();
        std::mem::swap(&mut content, buf);
        let taken = id.take();
        let ghost before = items@;
        items.push(InputItem::Message { id: taken, role: Role::Assistant, content });
        assert(items_view(items@) =~= items_view(before).push(
            ItemView::Message(opt_view(*old(id)), Role::Assistant, contents_view(old(buf)@)),
        ));
    } else {
        assert(contents_view(buf@).len() == 0);
    }
}

fn reasoning_input(r: &ReasoningPart) -> (i: InputItem)
    ensures
        item_view(i) == reasoning_item(*r),
{
    let id = match lookup_meta(&r.metadata, "openai:item_id") {
        Some(x) => x,
        None => String::new(),
    };
    let mut summary: Vec<ReasoningSummaryPart> = Vec::new();
    match &r.text {
        Some(t) => summary.push(ReasoningSummaryPart::SummaryText { text: t.clone() }),
        None => {},
    }
    let encrypted_content = lookup_meta(&r.metadata, "openai:encrypted_content");
    let i = InputItem::Reasoning { id, summary, encrypted_content };
    assert(summary_texts(summary@) =~= match r.text {
        Some(t) => seq![t@],
        None => Seq::<Seq<char>>::empty(),
    });
    i
}

fn call_input(tc: &ToolCallPart) -> (i: InputItem)
    ensures
        item_view(i) == call_item(*tc),
{
    let id = match lookup_meta(&tc.metadata, "openai:item_id") {
        Some(x) => x,
        None => tc.id.clone(),
    };
    InputItem::FunctionCall { id, call_id: tc.id.clone(), name: tc.name.clone(), arguments: tc.arguments.clone() }
}

/// The items of an assistant message's parts.
fn assistant_input(ps: &Vec<AssistantPart>) -> (items: Vec<InputItem>)
    ensures
        items_view(items@) == assistant_items(ps@),
{
    let mut items: Vec<InputItem> = Vec::new();
    let mut buf: Vec<InputContent> = Vec::new();
    let mut id: Option<String> = None;
    for i in 0..ps.len()
        invariant
            (items_view(items@), contents_view(buf@), opt_view(id)) == batch(ps@.take(i as int)),
    {
        let ghost t = ps@.take(i + 1);
        assert(t.drop_last() == ps@.take(i as int));
        assert(t.last() == ps@[i as int]);
        match &ps[i] {
            AssistantPart::Text(tp) => {
                if id.is_none() {
                    id = lookup_meta(&tp.metadata, "openai:item_id");
                }
                let ghost before = buf@;
                buf.push(InputContent::OutputText { text: tp.text.clone() });
                assert(contents_view(buf@) =~= contents_view(before).push(ContentView::OutputText(tp.text@)));
            },
            AssistantPart::Reasoning(r) => {
                flush_batch(&mut items, &mut buf, &mut id);
                let ghost before = items@;
                items.push(reasoning_input(r));
                assert(items_view(items@) =~= items_view(before).push(reasoning_item(*r)));
                assert(contents_view(buf@) =~= Seq::<ContentView>::empty());
            },
            AssistantPart::ToolCall(tc) => {
                flush_batch(&mut items, &mut buf, &mut id);
                let ghost before = items@;
                items.push(call_input(tc));
                assert(items_view(items@) =~= items_view(before).push(call_item(*tc)));
                assert(contents_view(buf@) =~= Seq::<ContentView>::empty());
            },
        }
    }
    assert(ps@.take(ps.len() as int) == ps@);
    flush_batch(&mut items, &mut buf, &mut id);
    items
}

fn tool_input(ps: &Vec<ToolResultPart>) -> (items: Vec<InputItem>)
    ensures
        items_view(items@) == tool_outputs(ps@),
{
    let mut items: Vec<InputItem> = Vec::new();
    for i in 0..ps.len()
        invariant
            items_view(items@) == tool_outputs(ps@.take(i as int)),
    {
        let item = InputItem::FunctionCallOutput { call_id: ps[i].tool_call_id.clone(), output: ps[i].content.clone() };
        let ghost before = items@;
        items.push(item);
        assert(ps@.take(i + 1) == ps@.take(i as int).push(ps@[i as int]));
        assert(items_view(items@) == items_view(before).push(item_view(item)));
        assert(items_view(items@) =~= tool_outputs(ps@.take(i + 1)));
    }
    assert(ps@.take(ps.len() as int) == ps@);
    items
}

/// The input items and instructions of a conversation.
pub fn conversation_input(messages: &Vec<Message>) -> (r: (Vec<InputItem>, Option<String>))
    ensures
        items_view(r.0@) == input_items(messages@),
        opt_view(r.1) == instructions_of(messages@),
{
    let mut input: Vec<InputItem> = Vec::new();
    let mut instructions: Option<String> = None;
    for i in 0..messages.len()
        invariant
            items_view(input@) == input_items(messages@.take(i as int)),
            opt_view(instructions) == instructions_of(messages@.take(i as int)),
    {
        let ghost t = messages@.take(i + 1);
        assert(t.drop_last() == messages@.take(i as int));
        assert(t.last() == messages@[i as int]);
        match &messages[i] {
            Message::System(ps) => {
                instructions = Some(join_parts(ps));
                assert(items_view(input@) =~= input_items(messages@.take(i as int)) + Seq::<ItemView>::empty());
            },
            Message::User(ps) => {
                let content = user_content(ps);
                let ghost before = input@;
                input.push(InputItem::Message { id: None, role: Role::User, content });
                assert(items_view(input@) =~= items_view(before) + seq![
                    ItemView::Message(None, Role::User, user_contents(ps@)),
                ]);
            },
            Message::Assistant(ps) => {
                let more = assistant_input(ps);
                push_items(&mut input, more);
            },
            Message::Tool(ps) => {
                let more = tool_input(ps);
                push_items(&mut input, more);
            },
        }
    }
    assert(messages@.take(messages.len() as int) == messages@);
    (input, instructions)
}

/// The wire form of a tool choice (`None`: the field is left out, which means
/// automatic).
pub open spec fn wire_choice(c: ToolChoice) -> Option<WireToolChoice> {
    match c {
        ToolChoice::Auto => None,
        ToolChoice::Disabled => Some(WireToolChoice::NoTool),
        ToolChoice::Required => Some(WireToolChoice::Required),
        ToolChoice::Tool(n) => Some(WireToolChoice::Function(n)),
    }
}

fn wire_tool_choice(c: &ToolChoice) -> (r: Option<WireToolChoice>)
    ensures
        match *c {
            ToolChoice::Tool(n) => r matches Some(WireToolChoice::Function(x)) && x@ == n@,
            _ => r == wire_choice(*c),
        },
{
    match c {
        ToolChoice::Auto => None,
        ToolChoice::Disabled => Some(WireToolChoice::NoTool),
        ToolChoice::Required => Some(WireToolChoice::Required),
        ToolChoice::Tool(n) => Some(WireToolChoice::Function(n.clone())),
    }
}

/// The Responses API request for `model_id`: the conversation's items and
/// instructions, streaming, the configured `store` and encrypted-reasoning
/// `include`, the token limit, the tools (not strict), the tool choice, and
/// the reasoning options the request's metadata sets.
pub fn to_openai_request(model_id: &str, req: &GenerateRequest, config: &OpenAIConfig) -> (r: OpenAIRequest)
    ensures
        r.model@ == model_id@,
        items_view(r.input@) == input_items(req.messages@),
        opt_view(r.instructions) == instructions_of(req.messages@),
        r.stream,
        r.store == config.response_store,
        config.include_reasoning_encrypted_content ==> r.response_includes@.len() == 1 && r.response_includes@[0]@
            == "reasoning.encrypted_content"@,
        !config.include_reasoning_encrypted_content ==> r.response_includes@.len() == 0,
        r.max_output_tokens == req.max_tokens,
        r.tools@.len() == req.tools@.len(),
        forall|i: int|
            0 <= i < r.tools@.len() ==> (#[trigger] r.tools@[i]).name@ == req.tools@[i].name@ && r.tools@[i].description@
                == req.tools@[i].description@ && r.tools@[i].parameters@ == req.tools@[i].parameters@ && !r.tools@[i].strict,
        match req.tool_choice {
            ToolChoice::Tool(n) => r.tool_choice matches Some(WireToolChoice::Function(x)) && x@ == n@,
            _ => r.tool_choice == wire_choice(req.tool_choice),
        },
        ({
            let effort = meta_of(req.metadata@, "reasoning_effort"@);
            let summary = meta_of(req.metadata@, "reasoning_summary"@);
            if effort is Some || summary is Some {
                r.reasoning matches Some(c) && opt_view(c.effort) == effort && opt_view(c.summary) == summary
            } else {
                r.reasoning is None
            }
        }),
{
    let (input, instructions) = conversation_input(&req.messages);
    let mut tools: Vec<OpenAITool> = Vec::new();
    for i in 0..req.tools.len()
        invariant
            tools@.len() == i,
            forall|k: int|
                0 <= k < i ==> (#[trigger] tools@[k]).name@ == req.tools@[k].name@ && tools@[k].description@
                    == req.tools@[k].description@ && tools@[k].parameters@ == req.tools@[k].parameters@
                    && !tools@[k].strict,
    {
        let t = &req.tools[i];
        tools.push(
            OpenAITool {
                name: t.name.clone(),
                description: t.description.clone(),
                parameters: t.parameters.clone(),
                strict: false,
            },
        );
    }
    let mut includes: Vec<String> = Vec::new();
    if config.include_reasoning_encrypted_content {
        includes.push("reasoning.encrypted_content".to_owned());
    }
    let effort = lookup_meta(&req.metadata, "reasoning_effort");
    let summary = lookup_meta(&req.metadata, "reasoning_summary");
    let reasoning = if effort.is_some() || summary.is_some() {
        Some(ReasoningConfig { effort, summary })
    } else {
        None
    };
    OpenAIRequest {
        model: model_id.to_owned(),
        input,
        stream: true,
        store: config.response_store,
        response_includes: includes,
        instructions,
        max_output_tokens: req.max_tokens,
        tools,
        tool_choice: wire_tool_choice(&req.tool_choice),
        reasoning,
    }
}

impl OpenAIRequestExt for GenerateRequest {
    /// Sets `reasoning_effort` in the metadata.
    fn reasoning_effort(&mut self, effort: ReasoningEffort)
        ensures
            pair_views(final(self).metadata@) == put_key(
                pair_views(old(self).metadata@),
                "reasoning_effort"@,
                match effort {
                    ReasoningEffort::Disabled => "none"@,
                    ReasoningEffort::Minimal => "minimal"@,
                    ReasoningEffort::Low => "low"@,
                    ReasoningEffort::Medium => "medium"@,
                    ReasoningEffort::High => "high"@,
                },
            ),
            final(self).messages == old(self).messages,
            final(self).tools == old(self).tools,
            final(self).tool_choice == old(self).tool_choice,
            final(self).max_tokens == old(self).max_tokens,
    {
        set_meta(&mut self.metadata, "reasoning_effort", effort.as_str());
    }

    /// Sets `reasoning_summary` in the metadata.
    fn reasoning_summary(&mut self, summary: ReasoningSummary)
        ensures
            pair_views(final(self).metadata@) == put_key(
                pair_views(old(self).metadata@),
                "reasoning_summary"@,
                match summary {
                    ReasoningSummary::Auto => "auto"@,
                    ReasoningSummary::Concise => "concise"@,
                    ReasoningSummary::Detailed => "detailed"@,
                },
            ),
            final(self).messages == old(self).messages,
            final(self).tools == old(self).tools,
            final(self).tool_choice == old(self).tool_choice,
            final(self).max_tokens == old(self).max_tokens,
    {
        set_meta(&mut self.metadata, "reasoning_summary", summary.as_str());
    }
}

} // verus!
