//! A turn as a state machine: the caller feeds it what happened (a stream
//! event, the stream's end, a tool prepared or run) and is told what to show
//! and what to do next (send a request, go on streaming, prepare or run the
//! next tool, or stop). Sending requests, awaiting streams and running tools
//! stay with the caller.

use vstd::prelude::*;

use crate::agent_loop::{
    begin_turn, copy_call, end_pass, new_pass, on_stream_event, pass_ended, redisplayed_by,
    started_display, stream_followed, tool_finished, tool_recorded, tool_started, turn_begun, usage_fits_spec,
    PassEnd, PassState, StreamStep, ToolRun,
};
use crate::auth::pair_views;
use crate::conversation::{opt_display_view, Message};
use crate::event::{opt_body_view, AgentEvent, ToolCallDisplay};
use crate::openai_events::{FinishReason, StreamEvent, ToolCallPart, Usage};

verus! {

/// Where a turn stands.
pub enum TurnPhase {
    /// The model is answering: its stream is followed.
    Generating,
    /// The model asked for tools: `calls[next]` is being prepared, or run
    /// once `running`.
    Tools { calls: Vec<ToolCallPart>, next: usize, running: bool },
    /// The turn is over.
    Done,
}

/// A turn: the conversation, the pass being streamed (whose usage is the
/// turn's so far), and where the turn stands.
pub struct Turn {
    pub messages: Vec<Message>,
    pub pass: PassState,
    pub phase: TurnPhase,
}

/// What happened.
pub enum TurnEvent {
    /// An event of the model's stream.
    Stream(StreamEvent),
    /// The model's stream ended.
    StreamEnded,
    /// The next call was prepared (its display) or could not be.
    ToolPrepared(Result<ToolCallDisplay, String>),
    /// The prepared call ran, or failed.
    ToolRan(Result<ToolRun, String>),
}

/// What the caller does next.
pub enum TurnWork {
    /// Send a request with the conversation and feed its stream.
    Generate,
    /// Go on feeding the stream.
    Stream,
    /// Prepare this call and report it.
    Prepare(ToolCallPart),
    /// Run the prepared call and report its outcome.
    Run,
    /// The turn is over.
    Stop,
    /// The event does not belong where the turn stands; nothing changed.
    Ignored,
}

/// What to show, and what to do next.
pub struct TurnStep {
    pub tell: Option<AgentEvent>,
    pub work: TurnWork,
}

/// A call list is only ever positioned on one of its calls.
pub open spec fn turn_wf(t: Turn) -> bool {
    t.phase matches TurnPhase::Tools { calls, next, .. } ==> next < calls@.len()
}

pub open spec fn is_done(t: Turn) -> bool {
    t.phase is Done
}

/// The event ends the turn: it completed, or failed.
pub open spec fn ends_turn(e: Option<AgentEvent>) -> bool {
    e matches Some(AgentEvent::TurnComplete { .. }) || e matches Some(AgentEvent::Error { .. })
}

/// A step keeps to the turn's life: it tells an ending event exactly when
/// the turn ends with it, and once over a turn stays over and tells
/// nothing.
pub open spec fn step_respects(done_before: bool, tell: Option<AgentEvent>, done_after: bool) -> bool {
    &&& ends_turn(tell) <==> (!done_before && done_after)
    &&& done_before ==> done_after && tell is None
}

pub open spec fn zero_usage() -> Usage {
    Usage { input_tokens: 0, output_tokens: 0, reasoning_tokens: None, cached_tokens: None }
}

/// A pass that has gathered nothing yet.
pub open spec fn fresh_pass(p: PassState, usage: Usage) -> bool {
    &&& p.parts@.len() == 0 && p.text@.len() == 0 && p.tool_calls@.len() == 0
    &&& p.finish == FinishReason::Stop && p.usage == usage
}

/// `c` is a copy of `d`.
pub open spec fn same_call(c: ToolCallPart, d: ToolCallPart) -> bool {
    &&& c.id@ == d.id@ && c.name@ == d.name@ && c.arguments@ == d.arguments@
    &&& pair_views(c.metadata@) == pair_views(d.metadata@)
    &&& opt_display_view(c.display) == opt_display_view(d.display)
}

/// Starts a turn: records the user's message (after the workspace
/// instructions on the first turn), tells the interface, and asks for a
/// request.
pub fn start_turn(messages: Vec<Message>, agents_md: &mut Option<String>, content: &str) -> (r: (Turn, TurnStep))
    ensures
        turn_begun(messages@, *old(agents_md), r.0.messages@, *final(agents_md), content@),
        r.0.phase is Generating,
        fresh_pass(r.0.pass, zero_usage()),
        r.1.tell matches Some(AgentEvent::UserMessage { content: c }) && c@ == content@,
        r.1.work is Generate,
{
    let mut messages = messages;
    let e = begin_turn(&mut messages, agents_md, content);
    let pass = new_pass(Usage { input_tokens: 0, output_tokens: 0, reasoning_tokens: None, cached_tokens: None });
    (Turn { messages, pass, phase: TurnPhase::Generating }, TurnStep { tell: Some(e), work: TurnWork::Generate })
}

/// The phase and work once `calls[next]` is finished: prepare the next call,
/// or, after the last, ask the model again.
pub open spec fn advanced(calls: Vec<ToolCallPart>, next: usize, new: Turn, s: TurnStep) -> bool {
    if next + 1 < calls@.len() {
        &&& new.phase == (TurnPhase::Tools { calls, next: (next + 1) as usize, running: false })
        &&& s.work matches TurnWork::Prepare(c) && same_call(c, calls@[next + 1])
    } else {
        new.phase is Generating && s.work is Generate
    }
}

/// A step while tools run: a prepared call starts (its display is kept with
/// the call and shown); a call that could not be prepared, or that ran,
/// is recorded and shown, and the turn moves on.
pub open spec fn tools_step(
    old: Turn,
    calls: Vec<ToolCallPart>,
    next: usize,
    running: bool,
    event: TurnEvent,
    new: Turn,
    s: TurnStep,
) -> bool {
    let call = calls@[next as int];
    if !running && (event matches TurnEvent::ToolPrepared(Ok(_))) {
        let display = event->ToolPrepared_0->Ok_0;
        &&& s.tell matches Some(AgentEvent::ToolCallStart { id, display: d }) && id@ == call.id@ && d == display
        &&& redisplayed_by(
            old.messages@,
            new.messages@,
            call.id@,
            |c: ToolCallPart| started_display(opt_display_view(c.display), display.title@, opt_body_view(display.body)),
        )
        &&& new.phase == (TurnPhase::Tools { calls, next, running: true }) && s.work is Run
        &&& new.pass == old.pass
    } else if !running && (event matches TurnEvent::ToolPrepared(Err(_))) {
        &&& s.tell matches Some(e) && tool_recorded(
            old.messages,
            new.messages,
            call,
            Err(event->ToolPrepared_0->Err_0),
            e,
        )
        &&& advanced(calls, next, new, s) && new.pass == old.pass
    } else if running && (event is ToolRan) {
        &&& s.tell matches Some(e) && tool_recorded(old.messages, new.messages, call, event->ToolRan_0, e)
        &&& advanced(calls, next, new, s) && new.pass == old.pass
    } else {
        new == old && s.tell is None && s.work is Ignored
    }
}

fn advance(turn: &mut Turn, calls: Vec<ToolCallPart>, next: usize, e: AgentEvent) -> (s: TurnStep)
    requires
        next < calls.len(),
    ensures
        final(turn).messages == old(turn).messages,
        final(turn).pass == old(turn).pass,
        s.tell == Some(e),
        advanced(calls, next, *final(turn), s),
{
    if next + 1 < calls.len() {
        let c = copy_call(&calls[next + 1]);
        turn.phase = TurnPhase::Tools { calls, next: next + 1, running: false };
        TurnStep { tell: Some(e), work: TurnWork::Prepare(c) }
    } else {
        turn.phase = TurnPhase::Generating;
        TurnStep { tell: Some(e), work: TurnWork::Generate }
    }
}

/// A step while the model answers: a stream event is followed as
/// `on_stream_event` does (an error ends the turn); the stream's end closes
/// the pass as `end_pass` does and completes the turn or starts its calls.
pub open spec fn generating_step(old: Turn, event: TurnEvent, new: Turn, s: TurnStep) -> bool {
    match event {
        TurnEvent::Stream(ev) => new.messages == old.messages && exists|ss: StreamStep|
            #[trigger] stream_followed(old.pass, ev, new.pass, ss) && match ss {
                StreamStep::Emit(e) => s.tell == Some(e) && s.work is Stream && new.phase is Generating,
                StreamStep::Quiet => s.tell is None && s.work is Stream && new.phase is Generating,
                StreamStep::Failed(e) => s.tell == Some(e) && new.phase is Done,
            },
        TurnEvent::StreamEnded => exists|r: (PassEnd, Usage)|
            #[trigger] pass_ended(old.pass, old.messages, new.messages, r) && match r.0 {
                PassEnd::Complete(e) => s.tell == Some(e) && new.phase is Done,
                PassEnd::RunTools(calls) => {
                    &&& s.tell is None
                    &&& new.phase == (TurnPhase::Tools { calls, next: 0, running: false })
                    &&& fresh_pass(new.pass, r.1)
                    &&& s.work matches TurnWork::Prepare(c) && same_call(c, calls@[0])
                },
            },
        _ => new == old && s.tell is None && s.work is Ignored,
    }
}

/// Takes one step of a turn. While the model answers, each stream event is
/// followed as `on_stream_event` does (a stream error ends the turn), and
/// the stream's end closes the pass as `end_pass` does: the turn completes,
/// or its calls are prepared and run one by one, in order, each shown when
/// it starts and when it finishes, after which the model is asked again.
/// An ending event (completion or error) is told exactly once, as the last
/// thing the turn tells.
pub fn agent_step(turn: &mut Turn, event: TurnEvent) -> (s: TurnStep)
    requires
        turn_wf(*old(turn)),
        old(turn).phase is Generating ==> (event matches TurnEvent::Stream(
            StreamEvent::Finish { usage: Some(u), .. },
        ) ==> usage_fits_spec(old(turn).pass.usage, u)),
    ensures
        turn_wf(*final(turn)),
        step_respects(is_done(*old(turn)), s.tell, is_done(*final(turn))),
        s.work is Stop <==> is_done(*final(turn)),
        old(turn).phase is Done ==> *final(turn) == *old(turn),
        old(turn).phase is Generating ==> generating_step(*old(turn), event, *final(turn), s),
        old(turn).phase matches TurnPhase::Tools { calls, next, running } ==> tools_step(
            *old(turn),
            calls,
            next,
            running,
            event,
            *final(turn),
            s,
        ),
{
    let ghost ev0 = event;
    let ghost t0 = *turn;
    let mut phase = TurnPhase::Done;
    std::mem::swap(&mut phase, &mut turn.phase);
    match phase {
        TurnPhase::Done => TurnStep { tell: None, work: TurnWork::Stop },
        TurnPhase::Generating => match event {
            TurnEvent::Stream(ev) => {
                let ss = on_stream_event(&mut turn.pass, ev);
                let ghost g = ss;
                match ss {
                    StreamStep::Emit(e) => {
                        turn.phase = TurnPhase::Generating;
                        assert(stream_followed(old(turn).pass, ev, turn.pass, g));
                        let st = TurnStep { tell: Some(e), work: TurnWork::Stream };
                        assert(generating_step(t0, ev0, *turn, st));
                        st
                    },
                    StreamStep::Quiet => {
                        turn.phase = TurnPhase::Generating;
                        assert(stream_followed(old(turn).pass, ev, turn.pass, g));
                        let st = TurnStep { tell: None, work: TurnWork::Stream };
                        assert(generating_step(t0, ev0, *turn, st));
                        st
                    },
                    StreamStep::Failed(e) => {
                        assert(stream_followed(old(turn).pass, ev, turn.pass, g));
                        let st = TurnStep { tell: Some(e), work: TurnWork::Stop };
                        assert(generating_step(t0, ev0, *turn, st));
                        st
                    },
                }
            },
            TurnEvent::StreamEnded => {
                let mut pass = new_pass(turn.pass.usage);
                std::mem::swap(&mut pass, &mut turn.pass);
                let r = end_pass(pass, &mut turn.messages);
                let ghost gr = r;
                assert(pass_ended(old(turn).pass, old(turn).messages, turn.messages, gr));
                let (end, usage) = r;
                turn.pass = new_pass(usage);
                match end {
                    PassEnd::Complete(e) => {
                        let st = TurnStep { tell: Some(e), work: TurnWork::Stop };
                        assert(pass_ended(t0.pass, t0.messages, turn.messages, gr));
                        assert(generating_step(t0, ev0, *turn, st));
                        st
                    },
                    PassEnd::RunTools(calls) => {
                        let first = copy_call(&calls[0]);
                        turn.phase = TurnPhase::Tools { calls, next: 0, running: false };
                        let st = TurnStep { tell: None, work: TurnWork::Prepare(first) };
                        assert(pass_ended(t0.pass, t0.messages, turn.messages, gr));
                        assert(generating_step(t0, ev0, *turn, st));
                        st
                    },
                }
            },
            other => {
                turn.phase = TurnPhase::Generating;
                let st = TurnStep { tell: None, work: TurnWork::Ignored };
                assert(generating_step(t0, ev0, *turn, st));
                st
            },
        },
        TurnPhase::Tools { calls, next, running } => {
            if !running {
                match event {
                    TurnEvent::ToolPrepared(Ok(display)) => {
                        let e = tool_started(&mut turn.messages, &calls[next], display);
                        turn.phase = TurnPhase::Tools { calls, next, running: true };
                        TurnStep { tell: Some(e), work: TurnWork::Run }
                    },
                    TurnEvent::ToolPrepared(Err(reason)) => {
                        let e = tool_finished(&mut turn.messages, &calls[next], Err(reason));
                        advance(turn, calls, next, e)
                    },
                    other => {
                        turn.phase = TurnPhase::Tools { calls, next, running };
                        TurnStep { tell: None, work: TurnWork::Ignored }
                    },
                }
            } else {
                match event {
                    TurnEvent::ToolRan(outcome) => {
                        let e = tool_finished(&mut turn.messages, &calls[next], outcome);
                        advance(turn, calls, next, e)
                    },
                    other => {
                        turn.phase = TurnPhase::Tools { calls, next, running };
                        TurnStep { tell: None, work: TurnWork::Ignored }
                    },
                }
            }
        },
    }
}

proof fn lemma_done_stays(done: Seq<bool>, tells: Seq<Option<AgentEvent>>, a: int, b: int)
    requires
        done.len() == tells.len() + 1,
        forall|k: int| 0 <= k < tells.len() ==> step_respects(done[k], #[trigger] tells[k], done[k + 1]),
        0 <= a <= b < done.len(),
        done[a],
    ensures
        done[b],
    decreases b - a,
{
    if a < b {
        assert(step_respects(done[a], tells[a], done[a + 1]));
        lemma_done_stays(done, tells, a + 1, b);
    }
}

proof fn lemma_turn_ends_somewhere(done: Seq<bool>, tells: Seq<Option<AgentEvent>>, n: int)
    requires
        done.len() == tells.len() + 1,
        forall|k: int| 0 <= k < tells.len() ==> step_respects(done[k], #[trigger] tells[k], done[k + 1]),
        !done[0],
        0 <= n < done.len(),
        done[n],
    ensures
        exists|k: int| 0 <= k < n && ends_turn(#[trigger] tells[k]),
    decreases n,
{
    if done[n - 1] {
        lemma_turn_ends_somewhere(done, tells, n - 1);
    } else {
        assert(step_respects(done[n - 1], tells[n - 1], done[n]));
        assert(ends_turn(tells[n - 1]));
    }
}

/// Over any run of steps of a started turn (`done[k]`: whether the turn is
/// over before step `k`; `tells[k]`: what step `k` tells), the turn tells an
/// ending event (completion or error) at most once and nothing after it, and
/// it has told one exactly when the run leaves the turn over. So a failed
/// turn never also completes, and a completed one says nothing more.
pub proof fn law_turn_ends_once(done: Seq<bool>, tells: Seq<Option<AgentEvent>>)
    requires
        done.len() == tells.len() + 1,
        !done[0],
        forall|k: int| 0 <= k < tells.len() ==> step_respects(done[k], #[trigger] tells[k], done[k + 1]),
    ensures
        forall|a: int, b: int| 0 <= a < b < tells.len() && ends_turn(#[trigger] tells[a]) ==> #[trigger] tells[b] is None,
        done.last() <==> exists|k: int| 0 <= k < tells.len() && ends_turn(#[trigger] tells[k]),
{
    assert forall|a: int, b: int| 0 <= a < b < tells.len() && ends_turn(#[trigger] tells[a]) implies #[trigger] tells[b]
        is None by {
        assert(step_respects(done[a], tells[a], done[a + 1]));
        lemma_done_stays(done, tells, a + 1, b);
        assert(step_respects(done[b], tells[b], done[b + 1]));
    }
    if done.last() {
        lemma_turn_ends_somewhere(done, tells, done.len() - 1);
    }
    if exists|k: int| 0 <= k < tells.len() && ends_turn(#[trigger] tells[k]) {
        let k = choose|k: int| 0 <= k < tells.len() && ends_turn(#[trigger] tells[k]);
        assert(step_respects(done[k], tells[k], done[k + 1]));
        lemma_done_stays(done, tells, k + 1, done.len() - 1);
    }
}

} // verus!
