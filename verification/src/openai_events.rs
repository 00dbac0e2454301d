//! The events of a streamed Responses API reply and the mapper that turns
//! them into the stream events a caller consumes. Which payload an event
//! carries is decided here from its name; reading the payload's JSON is the
//! caller's part.

use vstd::prelude::*;

use crate::conversation::ToolCallDisplayPart;
use crate::registry::{key_index, lemma_key_index_is, lookup_key, position, put_key};

verus! {

// ---------------------------------------------------------------------------
// Wire types of the events
// ---------------------------------------------------------------------------

pub struct OutputTokensDetails {
    pub reasoning_tokens: Option<u32>,
}

pub struct InputTokensDetails {
    pub cached_tokens: Option<u32>,
}

/// Token counts of a response.
pub struct UsageObject {
    pub input_tokens: u32,
    pub output_tokens: u32,
    pub output_tokens_details: Option<OutputTokensDetails>,
    pub input_tokens_details: Option<InputTokensDetails>,
}

/// A response as streamed events describe it.
pub struct ResponseObject {
    pub id: String,
    pub status: String,
    pub usage: Option<UsageObject>,
}

/// An output item that started.
pub enum OutputItem {
    Reasoning { id: String },
    Message { id: String },
    FunctionCall { id: String, name: String, call_id: String },
    Unknown,
}

pub struct OutputItemAdded {
    pub item: OutputItem,
}

pub struct OutputTextDelta {
    pub delta: String,
}

pub struct ReasoningSummaryTextDelta {
    pub delta: String,
}

pub struct FunctionCallArgumentsDelta {
    pub delta: String,
}

/// A part of a reasoning item's summary.
pub enum ReasoningSummaryPart {
    SummaryText { text: String },
}

/// An output item that finished.
pub enum OutputItemComplete {
    Reasoning { id: String, summary: Vec<ReasoningSummaryPart>, encrypted_content: Option<String> },
    Message { id: String },
    FunctionCall { id: String, call_id: String, name: String, arguments: String },
    Unknown,
}

pub struct OutputItemDone {
    pub item: OutputItemComplete,
}

pub struct ResponseCompleted {
    pub response: ResponseObject,
}

// ---------------------------------------------------------------------------
// Event names
// ---------------------------------------------------------------------------

/// Which payload an event carries.
#[derive(Debug, Clone, Copy, PartialEq, Eq, Structural)]
pub enum SseKind {
    OutputTextDelta,
    OutputItemAdded,
    ReasoningSummaryTextDelta,
    FunctionCallArgumentsDelta,
    OutputItemDone,
    ResponseCompleted,
    Error,
    /// Events the stream does not need (`response.created`, part and
    /// summary boundaries, and the like).
    Ignored,
}

/// The payload an event of this name carries.
pub open spec fn kind_of_name(name: Seq<char>) -> SseKind {
    if name == "response.output_text.delta"@ {
        SseKind::OutputTextDelta
    } else if name == "response.output_item.added"@ {
        SseKind::OutputItemAdded
    } else if name == "response.reasoning_summary_text.delta"@ {
        SseKind::ReasoningSummaryTextDelta
    } else if name == "response.function_call_arguments.delta"@ {
        SseKind::FunctionCallArgumentsDelta
    } else if name == "response.output_item.done"@ {
        SseKind::OutputItemDone
    } else if name == "response.completed"@ {
        SseKind::ResponseCompleted
    } else if name == "error"@ {
        SseKind::Error
    } else {
        SseKind::Ignored
    }
}

/// The payload an event named `event_type` carries.
pub fn sse_kind(event_type: &str) -> (k: SseKind)
    ensures
        k == kind_of_name(event_type@),
{
    let n = event_type.to_owned();
    if n == "response.output_text.delta".to_owned() {
        SseKind::OutputTextDelta
    } else if n == "response.output_item.added".to_owned() {
        SseKind::OutputItemAdded
    } else if n == "response.reasoning_summary_text.delta".to_owned() {
        SseKind::ReasoningSummaryTextDelta
    } else if n == "response.function_call_arguments.delta".to_owned() {
        SseKind::FunctionCallArgumentsDelta
    } else if n == "response.output_item.done".to_owned() {
        SseKind::OutputItemDone
    } else if n == "response.completed".to_owned() {
        SseKind::ResponseCompleted
    } else if n == "error".to_owned() {
        SseKind::Error
    } else {
        SseKind::Ignored
    }
}

/// An event with its payload read.
pub enum SseEvent {
    OutputTextDelta(OutputTextDelta),
    OutputItemAdded(OutputItemAdded),
    ReasoningSummaryTextDelta(ReasoningSummaryTextDelta),
    FunctionCallArgumentsDelta(FunctionCallArgumentsDelta),
    OutputItemDone(OutputItemDone),
    ResponseCompleted(ResponseCompleted),
    /// An error event, with its raw data.
    Error(String),
    Ignored,
}

// ---------------------------------------------------------------------------
// Stream events
// ---------------------------------------------------------------------------

/// Why a response ended.
#[derive(Debug, Clone, Copy, PartialEq, Eq, Structural)]
pub enum FinishReason {
    Stop,
    ToolCalls,
}

/// Token usage of a response.
#[derive(Debug, Clone, Copy)]
pub struct Usage {
    pub input_tokens: u32,
    pub output_tokens: u32,
    pub reasoning_tokens: Option<u32>,
    pub cached_tokens: Option<u32>,
}

/// A finished tool call.
pub struct ToolCallPart {
    pub id: String,
    pub name: String,
    pub arguments: String,
    pub metadata: Vec<(String, String)>,
    /// How the call was shown, once the agent ran it.
    pub display: Option<ToolCallDisplayPart>,
}

/// A finished reasoning item.
pub struct ReasoningPart {
    pub text: Option<String>,
    pub metadata: Vec<(String, String)>,
}

/// What the stream reports.
pub enum StreamEvent {
    TextDelta(String),
    ReasoningDelta(String),
    ToolCallBegin { index: usize, id: String, name: String },
    ToolCallDelta { index: usize, arguments_delta: String },
    ReasoningDone(ReasoningPart),
    TextDone { metadata: Vec<(String, String)> },
    ToolCallEnd { index: usize, call: ToolCallPart },
    Finish { reason: FinishReason, usage: Option<Usage> },
    Error(String),
}

pub type Pairs = Seq<(Seq<char>, Seq<char>)>;

/// A stream event as values.
pub enum EventView {
    TextDelta(Seq<char>),
    ReasoningDelta(Seq<char>),
    ToolCallBegin(nat, Seq<char>, Seq<char>),
    ToolCallDelta(nat, Seq<char>),
    ReasoningDone(Option<Seq<char>>, Pairs),
    TextDone(Pairs),
    ToolCallEnd(nat, Seq<char>, Seq<char>, Seq<char>, Pairs),
    Finish(FinishReason, Option<Usage>),
    Error(Seq<char>),
}

pub open spec fn pairs_view(v: Seq<(String, String)>) -> Pairs {
    v.map_values(|p: (String, String)| (p.0@, p.1@))
}

pub open spec fn opt_view(o: Option<String>) -> Option<Seq<char>> {
    match o {
        Some(s) => Some(s@),
        None => None,
    }
}

pub open spec fn event_view(e: StreamEvent) -> EventView {
    match e {
        StreamEvent::TextDelta(d) => EventView::TextDelta(d@),
        StreamEvent::ReasoningDelta(d) => EventView::ReasoningDelta(d@),
        StreamEvent::ToolCallBegin { index, id, name } => EventView::ToolCallBegin(index as nat, id@, name@),
        StreamEvent::ToolCallDelta { index, arguments_delta } => EventView::ToolCallDelta(index as nat, arguments_delta@),
        StreamEvent::ReasoningDone(p) => EventView::ReasoningDone(opt_view(p.text), pairs_view(p.metadata@)),
        StreamEvent::TextDone { metadata } => EventView::TextDone(pairs_view(metadata@)),
        StreamEvent::ToolCallEnd { index, call } => EventView::ToolCallEnd(
            index as nat,
            call.id@,
            call.name@,
            call.arguments@,
            pairs_view(call.metadata@),
        ),
        StreamEvent::Finish { reason, usage } => EventView::Finish(reason, usage),
        StreamEvent::Error(s) => EventView::Error(s@),
    }
}

pub open spec fn opt_event_view(e: Option<StreamEvent>) -> Option<EventView> {
    match e {
        Some(x) => Some(event_view(x)),
        None => None,
    }
}

// ---------------------------------------------------------------------------
// The mapper
// ---------------------------------------------------------------------------

/// What the mapper remembers: the index the next tool call gets, the index
/// of each function call item, whether a tool call was seen, and the
/// reasoning and message items in progress.
pub struct MapperView {
    pub next_index: nat,
    pub ids: Seq<(Seq<char>, usize)>,
    pub has_tool_calls: bool,
    pub reasoning_id: Option<Seq<char>>,
    pub message_id: Option<Seq<char>>,
}

/// The metadata naming an output item.
pub open spec fn item_meta(id: Seq<char>) -> Pairs {
    seq![("openai:item_id"@, id)]
}

/// The text of the first part of a summary.
pub open spec fn first_summary(parts: Seq<ReasoningSummaryPart>) -> Option<Seq<char>> {
    if parts.len() == 0 {
        None
    } else {
        match parts[0] {
            ReasoningSummaryPart::SummaryText { text } => Some(text@),
        }
    }
}

/// The usage a response reports.
pub open spec fn usage_of(u: Option<UsageObject>) -> Option<Usage> {
    match u {
        Some(u) => Some(
            Usage {
                input_tokens: u.input_tokens,
                output_tokens: u.output_tokens,
                reasoning_tokens: match u.output_tokens_details {
                    Some(d) => d.reasoning_tokens,
                    None => None,
                },
                cached_tokens: match u.input_tokens_details {
                    Some(d) => d.cached_tokens,
                    None => None,
                },
            },
        ),
        None => None,
    }
}

/// What one event does: the mapper's next state and the stream event it
/// reports, if any. A function call that starts takes the next index (under
/// its item id); argument deltas go to the latest call; a finished call is
/// reported under the index of its item (0 when unknown); the response ends
/// for tool calls when any call was seen.
pub open spec fn step(m: MapperView, e: SseEvent) -> (MapperView, Option<EventView>) {
    match e {
        SseEvent::OutputTextDelta(d) => (m, Some(EventView::TextDelta(d.delta@))),
        SseEvent::OutputItemAdded(a) => match a.item {
            OutputItem::Reasoning { id } => (MapperView { reasoning_id: Some(id@), ..m }, None),
            OutputItem::Message { id } => (MapperView { message_id: Some(id@), ..m }, None),
            OutputItem::FunctionCall { id, name, call_id } => (
                MapperView {
                    next_index: m.next_index + 1,
                    ids: put_key(m.ids, id@, m.next_index as usize),
                    has_tool_calls: true,
                    ..m
                },
                Some(EventView::ToolCallBegin(m.next_index, call_id@, name@)),
            ),
            OutputItem::Unknown => (m, None),
        },
        SseEvent::ReasoningSummaryTextDelta(d) => (m, Some(EventView::ReasoningDelta(d.delta@))),
        SseEvent::FunctionCallArgumentsDelta(d) => (
            m,
            Some(EventView::ToolCallDelta(if m.next_index == 0 { 0 } else { (m.next_index - 1) as nat }, d.delta@)),
        ),
        SseEvent::OutputItemDone(d) => match d.item {
            OutputItemComplete::Reasoning { id, summary, encrypted_content } => (
                MapperView { reasoning_id: None, ..m },
                Some(EventView::ReasoningDone(first_summary(summary@), item_meta(id@) + match encrypted_content {
                    Some(c) => seq![("openai:encrypted_content"@, c@)],
                    None => Seq::empty(),
                })),
            ),
            OutputItemComplete::Message { id } => (MapperView { message_id: None, ..m }, Some(EventView::TextDone(item_meta(id@)))),
            OutputItemComplete::FunctionCall { id, call_id, name, arguments } => (
                m,
                Some(EventView::ToolCallEnd(
                    match lookup_key(m.ids, id@) {
                        Some(i) => i as nat,
                        None => 0,
                    },
                    call_id@,
                    name@,
                    arguments@,
                    item_meta(id@),
                )),
            ),
            OutputItemComplete::Unknown => (m, None),
        },
        SseEvent::ResponseCompleted(c) => (
            m,
            Some(EventView::Finish(
                if m.has_tool_calls {
                    FinishReason::ToolCalls
                } else {
                    FinishReason::Stop
                },
                usage_of(c.response.usage),
            )),
        ),
        SseEvent::Error(s) => (m, Some(EventView::Error(s@))),
        SseEvent::Ignored => (m, None),
    }
}

/// Maps the events of one response, keeping track of its tool calls.
pub struct EventMapper {
    tool_call_index: usize,
    id_to_index: Vec<(String, usize)>,
    has_tool_calls: bool,
    current_reasoning_id: Option<String>,
    current_message_id: Option<String>,
}

pub open spec fn ids_view(v: Seq<(String, usize)>) -> Seq<(Seq<char>, usize)> {
    v.map_values(|p: (String, usize)| (p.0@, p.1))
}

impl View for EventMapper {
    type V = MapperView;

    closed spec fn view(&self) -> MapperView {
        MapperView {
            next_index: self.tool_call_index as nat,
            ids: ids_view(self.id_to_index@),
            has_tool_calls: self.has_tool_calls,
            reasoning_id: opt_view(self.current_reasoning_id),
            message_id: opt_view(self.current_message_id),
        }
    }
}

fn meta_pair(key: &str, value: String) -> (p: (String, String))
    ensures
        p.0@ == key@,
        p.1@ == value@,
{
    (key.to_owned(), value)
}

fn item_metadata(id: String) -> (m: Vec<(String, String)>)
    ensures
        pairs_view(m@) == item_meta(id@),
{
    let mut m: Vec<(String, String)> = Vec::new();
    m.push(meta_pair("openai:item_id", id));
    assert(pairs_view(m@) =~= item_meta(id@));
    m
}

fn reasoning_done(id: String, summary: Vec<ReasoningSummaryPart>, encrypted_content: Option<String>) -> (e: StreamEvent)
    ensures
        event_view(e) == EventView::ReasoningDone(first_summary(summary@), item_meta(id@) + match encrypted_content {
            Some(c) => seq![("openai:encrypted_content"@, c@)],
            None => Seq::empty(),
        }),
{
    let text = if summary.len() > 0 {
        match &summary[0] {
            ReasoningSummaryPart::SummaryText { text } => Some(text.clone()),
        }
    } else {
        None
    };
    let mut metadata = item_metadata(id);
    let ghost first = pairs_view(metadata@);
    let ghost extra = match encrypted_content {
        Some(ref c) => seq![("openai:encrypted_content"@, c@)],
        None => Seq::<(Seq<char>, Seq<char>)>::empty(),
    };
    match encrypted_content {
        Some(c) => metadata.push(meta_pair("openai:encrypted_content", c)),
        None => {},
    }
    assert(pairs_view(metadata@) =~= first + extra);
    StreamEvent::ReasoningDone(ReasoningPart { text, metadata })
}

impl EventMapper {
    /// A mapper at the start of a response.
    pub fn new() -> (m: EventMapper)
        ensures
            m@ == (MapperView {
                next_index: 0,
                ids: Seq::empty(),
                has_tool_calls: false,
                reasoning_id: None,
                message_id: None,
            }),
    {
        let m = EventMapper {
            tool_call_index: 0,
            id_to_index: Vec::new(),
            has_tool_calls: false,
            current_reasoning_id: None,
            current_message_id: None,
        };
        assert(ids_view(m.id_to_index@) =~= Seq::empty());
        m
    }

    /// Whether another function call can still be numbered.
    pub fn can_number_call(&self) -> (b: bool)
        ensures
            b == (self@.next_index < usize::MAX),
    {
        self.tool_call_index < usize::MAX
    }

    /// The index recorded for a function call item.
    fn index_of(&self, id: &String) -> (r: usize)
        ensures
            r as nat == match lookup_key(self@.ids, id@) {
                Some(i) => i as nat,
                None => 0,
            },
    {
        let pos = position(&self.id_to_index, id);
        let ghost ids = self@.ids;
        proof {
            match pos {
                Some(i) => {
                    assert forall|j: int| 0 <= j < i implies (#[trigger] ids[j]).0 != id@ by {
                        assert(ids[j].0 == self.id_to_index@[j].0@);
                    }
                    lemma_key_index_is(ids, id@, Some(i as int));
                },
                None => {
                    assert forall|j: int| 0 <= j < ids.len() implies (#[trigger] ids[j]).0 != id@ by {
                        assert(ids[j].0 == self.id_to_index@[j].0@);
                    }
                    lemma_key_index_is(ids, id@, None);
                },
            }
        }
        match pos {
            Some(i) => self.id_to_index[i].1,
            None => 0,
        }
    }

    /// Records the index of a function call item, replacing an earlier one.
    fn record_index(&mut self, id: String, index: usize)
        ensures
            final(self)@ == (MapperView { ids: put_key(old(self)@.ids, id@, index), ..old(self)@ }),
    {
        let ghost ids = self@.ids;
        let pos = position(&self.id_to_index, &id);
        proof {
            match pos {
                Some(i) => {
                    assert forall|j: int| 0 <= j < i implies (#[trigger] ids[j]).0 != id@ by {
                        assert(ids[j].0 == self.id_to_index@[j].0@);
                    }
                    lemma_key_index_is(ids, id@, Some(i as int));
                },
                None => {
                    assert forall|j: int| 0 <= j < ids.len() implies (#[trigger] ids[j]).0 != id@ by {
                        assert(ids[j].0 == self.id_to_index@[j].0@);
                    }
                    lemma_key_index_is(ids, id@, None);
                },
            }
        }
        match pos {
            Some(i) => {
                self.id_to_index.set(i, (id, index));
                assert(ids_view(self.id_to_index@) =~= put_key(ids, id@, index));
            },
            None => {
                self.id_to_index.push((id, index));
                assert(ids_view(self.id_to_index@) =~= put_key(ids, id@, index));
            },
        }
    }

    /// Maps one event: the stream event it reports, if any. Numbering a new
    /// function call needs a free index.
    pub fn map_event(&mut self, event: SseEvent) -> (r: Option<StreamEvent>)
        requires
            event matches SseEvent::OutputItemAdded(a) && a.item is FunctionCall ==> old(self)@.next_index < usize::MAX,
        ensures
            (final(self)@, opt_event_view(r)) == step(old(self)@, event),
    {
        match event {
            SseEvent::OutputTextDelta(d) => Some(StreamEvent::TextDelta(d.delta)),
            SseEvent::OutputItemAdded(a) => match a.item {
                OutputItem::Reasoning { id } => {
                    self.current_reasoning_id = Some(id);
                    None
                },
                OutputItem::Message { id } => {
                    self.current_message_id = Some(id);
                    None
                },
                OutputItem::FunctionCall { id, name, call_id } => {
                    let index = self.tool_call_index;
                    self.tool_call_index = index + 1;
                    self.record_index(id, index);
                    self.has_tool_calls = true;
                    Some(StreamEvent::ToolCallBegin { index, id: call_id, name })
                },
                OutputItem::Unknown => None,
            },
            SseEvent::ReasoningSummaryTextDelta(d) => Some(StreamEvent::ReasoningDelta(d.delta)),
            SseEvent::FunctionCallArgumentsDelta(d) => {
                let index = self.tool_call_index.saturating_sub(1);
                Some(StreamEvent::ToolCallDelta { index, arguments_delta: d.delta })
            },
            SseEvent::OutputItemDone(d) => match d.item {
                OutputItemComplete::Reasoning { id, summary, encrypted_content } => {
                    self.current_reasoning_id = None;
                    Some(reasoning_done(id, summary, encrypted_content))
                },
                OutputItemComplete::Message { id } => {
                    self.current_message_id = None;
                    Some(StreamEvent::TextDone { metadata: item_metadata(id) })
                },
                OutputItemComplete::FunctionCall { id, call_id, name, arguments } => {
                    let index = self.index_of(&id);
                    let metadata = item_metadata(id);
                    Some(StreamEvent::ToolCallEnd { index, call: ToolCallPart { id: call_id, name, arguments, metadata, display: None } })
                },
                OutputItemComplete::Unknown => None,
            },
            SseEvent::ResponseCompleted(c) => {
                let usage = match c.response.usage {
                    Some(u) => Some(
                        Usage {
                            input_tokens: u.input_tokens,
                            output_tokens: u.output_tokens,
                            reasoning_tokens: match u.output_tokens_details {
                                Some(d) => d.reasoning_tokens,
                                None => None,
                            },
                            cached_tokens: match u.input_tokens_details {
                                Some(d) => d.cached_tokens,
                                None => None,
                            },
                        },
                    ),
                    None => None,
                };
                let reason = if self.has_tool_calls {
                    FinishReason::ToolCalls
                } else {
                    FinishReason::Stop
                };
                Some(StreamEvent::Finish { reason, usage })
            },
            SseEvent::Error(s) => Some(StreamEvent::Error(s)),
            SseEvent::Ignored => None,
        }
    }
}

/// A function call that finishes is reported under the index its start was
/// given, and argument deltas in between go to that same index.
pub proof fn law_call_keeps_its_index(
    m: MapperView,
    added: OutputItemAdded,
    delta: FunctionCallArgumentsDelta,
    done: OutputItemDone,
)
    requires
        m.next_index < usize::MAX,
        added.item matches OutputItem::FunctionCall { id: a, .. } && done.item matches OutputItemComplete::FunctionCall {
            id: b,
            ..
        } && a@ == b@,
    ensures
        ({
            let (m1, begin) = step(m, SseEvent::OutputItemAdded(added));
            let (m2, between) = step(m1, SseEvent::FunctionCallArgumentsDelta(delta));
            let (_, end) = step(m2, SseEvent::OutputItemDone(done));
            &&& begin matches Some(EventView::ToolCallBegin(i, _, _))
            &&& between matches Some(EventView::ToolCallDelta(k, _)) && k == i
            &&& end matches Some(EventView::ToolCallEnd(j, _, _, _, _)) && j == i
        }),
{
    match added.item {
        OutputItem::FunctionCall { id, .. } => {
            crate::registry::lemma_put_key(m.ids, id@, m.next_index as usize);
        },
        _ => {},
    }
}

/// The mapper's state after a run of events.
pub open spec fn run(m: MapperView, es: Seq<SseEvent>) -> MapperView
    decreases es.len(),
{
    if es.len() == 0 {
        m
    } else {
        step(run(m, es.drop_last()), es.last()).0
    }
}

/// The event starts a function call.
pub open spec fn starts_call(e: SseEvent) -> bool {
    e matches SseEvent::OutputItemAdded(a) && a.item is FunctionCall
}

/// The event starts a function call of item `id`.
pub open spec fn starts_call_of(e: SseEvent, id: Seq<char>) -> bool {
    e matches SseEvent::OutputItemAdded(a) && (a.item matches OutputItem::FunctionCall { id: x, .. } && x@ == id)
}

/// The number of function calls a run starts.
pub open spec fn calls_started(es: Seq<SseEvent>) -> nat
    decreases es.len(),
{
    if es.len() == 0 {
        0
    } else {
        calls_started(es.drop_last()) + if starts_call(es.last()) {
            1nat
        } else {
            0nat
        }
    }
}

/// The state of a fresh mapper.
pub open spec fn fresh() -> MapperView {
    MapperView { next_index: 0, ids: Seq::empty(), has_tool_calls: false, reasoning_id: None, message_id: None }
}

proof fn lemma_run_counts(m: MapperView, es: Seq<SseEvent>)
    ensures
        run(m, es).next_index == m.next_index + calls_started(es),
        run(m, es).has_tool_calls == (m.has_tool_calls || calls_started(es) > 0),
    decreases es.len(),
{
    if es.len() > 0 {
        lemma_run_counts(m, es.drop_last());
    }
}

proof fn lemma_put_other_key<V>(s: Seq<(Seq<char>, V)>, k2: Seq<char>, v: V, k: Seq<char>)
    requires
        k2 != k,
    ensures
        lookup_key(put_key(s, k2, v), k) == lookup_key(s, k),
{
    crate::registry::lemma_key_index(s, k);
    crate::registry::lemma_key_index(s, k2);
    let t = put_key(s, k2, v);
    match key_index(s, k) {
        Some(i) => {
            assert forall|j: int| 0 <= j < i implies (#[trigger] t[j]).0 != k by {
                assert(s[j].0 != k);
            }
            lemma_key_index_is(t, k, Some(i));
        },
        None => {
            assert forall|j: int| 0 <= j < t.len() implies (#[trigger] t[j]).0 != k by {
                if j < s.len() {
                    assert(s[j].0 != k);
                }
            }
            lemma_key_index_is(t, k, None);
        },
    }
}

proof fn lemma_run_keeps_index(m: MapperView, es: Seq<SseEvent>, id: Seq<char>)
    requires
        forall|i: int| 0 <= i < es.len() ==> !starts_call_of(#[trigger] es[i], id),
    ensures
        lookup_key(run(m, es).ids, id) == lookup_key(m.ids, id),
    decreases es.len(),
{
    if es.len() > 0 {
        let pre = es.drop_last();
        assert forall|i: int| 0 <= i < pre.len() implies !starts_call_of(#[trigger] pre[i], id) by {
            assert(pre[i] == es[i]);
        }
        lemma_run_keeps_index(m, pre, id);
        assert(!starts_call_of(es[es.len() - 1], id));
        match es.last() {
            SseEvent::OutputItemAdded(a) => match a.item {
                OutputItem::FunctionCall { id: x, .. } => {
                    lemma_put_other_key(run(m, pre).ids, x@, run(m, pre).next_index as usize, id);
                },
                _ => {},
            },
            _ => {},
        }
    }
}

/// Over a response, the k-th function call that starts gets index k - 1
/// (counting from a fresh mapper); when it finishes, and no later call
/// started under the same item id, it is reported under that same index;
/// and the response ends for tool calls exactly when some call started.
pub proof fn law_calls_keep_their_index_over_a_run(
    before: Seq<SseEvent>,
    added: OutputItemAdded,
    between: Seq<SseEvent>,
    done: OutputItemDone,
    completed: ResponseCompleted,
)
    requires
        calls_started(before) < usize::MAX,
        added.item matches OutputItem::FunctionCall { id: a, .. } && done.item matches OutputItemComplete::FunctionCall {
            id: b,
            ..
        } && a@ == b@,
        forall|i: int|
            0 <= i < between.len() ==> !starts_call_of(#[trigger] between[i], match added.item {
                OutputItem::FunctionCall { id, .. } => id@,
                _ => Seq::empty(),
            }),
    ensures
        ({
            let m0 = run(fresh(), before);
            let (m1, begin) = step(m0, SseEvent::OutputItemAdded(added));
            let m2 = run(m1, between);
            let (_, end) = step(m2, SseEvent::OutputItemDone(done));
            &&& begin matches Some(EventView::ToolCallBegin(i, _, _)) && i == calls_started(before)
            &&& end matches Some(EventView::ToolCallEnd(j, _, _, _, _)) && j == calls_started(before)
            &&& step(m2, SseEvent::ResponseCompleted(completed)).1 == Some(
                EventView::Finish(FinishReason::ToolCalls, usage_of(completed.response.usage)),
            )
        }),
{
    let m0 = run(fresh(), before);
    lemma_run_counts(fresh(), before);
    match added.item {
        OutputItem::FunctionCall { id, .. } => {
            let m1 = step(m0, SseEvent::OutputItemAdded(added)).0;
            crate::registry::lemma_put_key(m0.ids, id@, m0.next_index as usize);
            lemma_run_keeps_index(m1, between, id@);
            lemma_run_counts(m1, between);
        },
        _ => {},
    }
}

/// A response ends for tool calls exactly when a function call started in
/// it (counting from a fresh mapper).
pub proof fn law_finish_reason_follows_calls(events: Seq<SseEvent>, completed: ResponseCompleted)
    ensures
        step(run(fresh(), events), SseEvent::ResponseCompleted(completed)).1 == Some(
            EventView::Finish(
                if calls_started(events) > 0 {
                    FinishReason::ToolCalls
                } else {
                    FinishReason::Stop
                },
                usage_of(completed.response.usage),
            ),
        ),
{
    lemma_run_counts(fresh(), events);
}

} // verus!

