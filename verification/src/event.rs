//! How tool invocations and results are shown to the user.

use vstd::prelude::*;

use crate::openai_events::Usage;

verus! {

/// Structured content for display.
pub enum DisplayBody {
    /// Plain text.
    Text(String),
    /// Code with an optional language hint.
    Code { language: Option<String>, content: String },
    /// A unified diff.
    Diff(String),
}

/// How to display a tool invocation (the input side).
pub struct ToolCallDisplay {
    /// Short summary, e.g. "Read src/main.rs".
    pub title: String,
    /// Optional expanded content.
    pub body: Option<DisplayBody>,
}

/// How to display a tool result (the output side).
pub struct ToolResultDisplay {
    /// Short summary, e.g. "55 lines".
    pub title: String,
    /// Optional expanded content.
    pub body: Option<DisplayBody>,
}

/// The contents of a display body.
pub enum BodyView {
    Text(Seq<char>),
    Code(Option<Seq<char>>, Seq<char>),
    Diff(Seq<char>),
}

pub open spec fn body_view(b: DisplayBody) -> BodyView {
    match b {
        DisplayBody::Text(t) => BodyView::Text(t@),
        DisplayBody::Code { language, content } => BodyView::Code(
            match language {
                Some(l) => Some(l@),
                None => None,
            },
            content@,
        ),
        DisplayBody::Diff(d) => BodyView::Diff(d@),
    }
}

pub open spec fn opt_body_view(b: Option<DisplayBody>) -> Option<BodyView> {
    match b {
        Some(x) => Some(body_view(x)),
        None => None,
    }
}

/// A copy of a display body.
pub fn copy_body(b: &Option<DisplayBody>) -> (r: Option<DisplayBody>)
    ensures
        opt_body_view(r) == opt_body_view(*b),
{
    match b {
        Some(DisplayBody::Text(t)) => Some(DisplayBody::Text(t.clone())),
        Some(DisplayBody::Code { language, content }) => Some(
            DisplayBody::Code {
                language: match language {
                    Some(l) => Some(l.clone()),
                    None => None,
                },
                content: content.clone(),
            },
        ),
        Some(DisplayBody::Diff(d)) => Some(DisplayBody::Diff(d.clone())),
        None => None,
    }
}

/// A copy of a result display.
pub fn copy_result_display(d: &ToolResultDisplay) -> (r: ToolResultDisplay)
    ensures
        r.title@ == d.title@,
        opt_body_view(r.body) == opt_body_view(d.body),
{
    ToolResultDisplay { title: d.title.clone(), body: copy_body(&d.body) }
}

/// What the agent tells the interface as a turn runs.
pub enum AgentEvent {
    /// The user's message was recorded.
    UserMessage { content: String },
    /// A piece of answer text.
    TextDelta { delta: String },
    /// A piece of reasoning text.
    ReasoningDelta { delta: String },
    /// A tool call started.
    ToolCallStart { id: String, display: ToolCallDisplay },
    /// A tool call finished.
    ToolCallDone { id: String, display: ToolResultDisplay },
    /// The turn finished, with the tokens it used.
    TurnComplete { usage: Usage },
    /// The turn failed.
    Error { error: String },
}

/// A tool's return value, which knows the text the model sees of it.
pub trait ToolOutput {
    /// The text the model sees as the tool result.
    fn to_llm(&self) -> String;
}

} // verus!
