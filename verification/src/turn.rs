//! The background task of one turn, as a state machine.
//!
//! The task itself talks to the backend and may suspend there. What it
//! decides between two such calls is `TurnTask::step`: given what the backend
//! answered, it says which inbox messages to emit and what to ask next.

use vstd::prelude::*;
use vstd::utf8::encode_utf8;
use crate::event::{StreamMsg, StreamMsgView, msgs_view};
use crate::memory::{merge_memory_with_final, reconcile, snapshot_view};
use crate::message::{ChatMessage, ChatMessageView, ToolCall, ToolCallView, calls_view};

verus! {

/// Buffered text of at least this many bytes is flushed at once.
pub const MIN_CHARS: usize = 64;

/// Buffered text is flushed once this many nanoseconds have passed since the
/// last flush.
pub const MAX_LATENCY_NANOS: u64 = 16_000_000;

/// Where a turn stands.
#[derive(Clone, Copy, Debug, PartialEq, Eq, Structural)]
pub enum TurnPhase {
    /// The streaming call was made and has not answered yet.
    AwaitingStream,
    /// The stream is open and chunks are being consumed.
    Streaming,
    /// The one-shot call was made and has not answered yet.
    AwaitingReply,
    /// All text was emitted; the backend's history is being queried.
    AwaitingHistory,
    /// The terminal message was emitted.
    Finished,
}

/// What the task has to do next.
#[derive(Clone, Copy, Debug, PartialEq, Eq, Structural)]
pub enum TurnAction {
    /// Make the streaming call.
    OpenStream,
    /// Receive the next chunk of the open stream.
    NextChunk,
    /// Make the one-shot call.
    CallOneShot,
    /// Ask the backend for its current history.
    QueryHistory,
    /// Nothing: the turn is over.
    Stop,
}

/// One increment of a streamed answer.
#[derive(Clone, Debug, PartialEq, Eq)]
pub struct StreamDelta {
    pub content: Option<String>,
    pub tool_calls: Option<Vec<ToolCall>>,
}

/// A [`StreamDelta`] as a mathematical value.
pub struct StreamDeltaView {
    pub content: Option<Seq<char>>,
    pub tool_calls: Option<Seq<ToolCallView>>,
}

impl View for StreamDelta {
    type V = StreamDeltaView;

    open spec fn view(&self) -> StreamDeltaView {
        StreamDeltaView {
            content: match self.content {
                Some(t) => Some(t@),
                None => None,
            },
            tool_calls: match self.tool_calls {
                Some(c) => Some(calls_view(c@)),
                None => None,
            },
        }
    }
}

/// What the backend answered to the last action.
#[derive(Clone, Debug, PartialEq, Eq)]
pub enum TurnEvent {
    /// The streaming call returned a stream; `now` is the clock at that moment.
    StreamOpened { now: u64 },
    /// The streaming call was refused.
    StreamRejected,
    /// The stream delivered an increment; `now` is the clock at that moment.
    Chunk { delta: StreamDelta, now: u64 },
    /// The stream broke.
    StreamFailed { error: String },
    /// The stream ended cleanly.
    StreamEnded,
    /// The one-shot call returned this text.
    Replied { text: String },
    /// The one-shot call failed.
    ReplyFailed { error: String },
    /// The backend's current history, if it tracks one.
    History { memory: Option<Vec<ChatMessage>> },
}

/// A [`TurnEvent`] as a mathematical value.
pub enum TurnEventView {
    StreamOpened { now: u64 },
    StreamRejected,
    Chunk { delta: StreamDeltaView, now: u64 },
    StreamFailed { error: Seq<char> },
    StreamEnded,
    Replied { text: Seq<char> },
    ReplyFailed { error: Seq<char> },
    History { memory: Option<Seq<ChatMessageView>> },
}

impl View for TurnEvent {
    type V = TurnEventView;

    open spec fn view(&self) -> TurnEventView {
        match *self {
            TurnEvent::StreamOpened { now } => TurnEventView::StreamOpened { now },
            TurnEvent::StreamRejected => TurnEventView::StreamRejected,
            TurnEvent::Chunk { delta, now } => TurnEventView::Chunk { delta: delta@, now },
            TurnEvent::StreamFailed { error } => TurnEventView::StreamFailed { error: error@ },
            TurnEvent::StreamEnded => TurnEventView::StreamEnded,
            TurnEvent::Replied { text } => TurnEventView::Replied { text: text@ },
            TurnEvent::ReplyFailed { error } => TurnEventView::ReplyFailed { error: error@ },
            TurnEvent::History { memory } => TurnEventView::History {
                memory: snapshot_view(memory),
            },
        }
    }
}

/// The state of a turn as a mathematical value.
pub struct TurnState {
    /// The session the turn belongs to.
    pub entity: u64,
    pub phase: TurnPhase,
    /// All assistant text the turn has produced so far.
    pub text: Seq<char>,
    /// The part of `text` that was not emitted yet.
    pub buf: Seq<char>,
    /// The clock at the last flush.
    pub last_flush: u64,
}

/// The outcome of one step: the next state, what to do next, and the
/// messages to put into the inbox, in order.
pub struct Step {
    pub next: TurnState,
    pub action: TurnAction,
    pub msgs: Seq<StreamMsgView>,
}

/// The state a turn starts in.
pub open spec fn initial_state(entity: u64, stream: bool) -> TurnState {
    TurnState {
        entity,
        phase: if stream {
            TurnPhase::AwaitingStream
        } else {
            TurnPhase::AwaitingReply
        },
        text: Seq::empty(),
        buf: Seq::empty(),
        last_flush: 0,
    }
}

/// The action a phase is waiting on.
pub open spec fn pending_action(phase: TurnPhase) -> TurnAction {
    match phase {
        TurnPhase::AwaitingStream => TurnAction::OpenStream,
        TurnPhase::Streaming => TurnAction::NextChunk,
        TurnPhase::AwaitingReply => TurnAction::CallOneShot,
        TurnPhase::AwaitingHistory => TurnAction::QueryHistory,
        TurnPhase::Finished => TurnAction::Stop,
    }
}

/// Time passed between two clock readings; none if the clock went backwards.
pub open spec fn elapsed(now: u64, since: u64) -> int {
    if now >= since {
        now - since
    } else {
        0
    }
}

/// A rule for coalescing: buffered text leaves once it has `min_bytes` bytes
/// or has waited `max_wait` nanoseconds.
pub struct Coalescing {
    pub min_bytes: nat,
    pub max_wait: nat,
}

/// The rule that turns follow.
pub open spec fn standard() -> Coalescing {
    Coalescing { min_bytes: MIN_CHARS as nat, max_wait: MAX_LATENCY_NANOS as nat }
}

/// Whether buffered text has to leave now: it is long enough, or it has
/// waited long enough.
pub open spec fn flush_due(rule: Coalescing, buf: Seq<char>, now: u64, last_flush: u64) -> bool {
    encode_utf8(buf).len() >= rule.min_bytes || elapsed(now, last_flush) >= rule.max_wait
}

/// The message that carries the buffered text, if there is any.
pub open spec fn flush_msgs(entity: u64, buf: Seq<char>) -> Seq<StreamMsgView> {
    if buf.len() > 0 {
        seq![StreamMsgView::Delta { entity, text: buf }]
    } else {
        Seq::empty()
    }
}

/// The final text of a turn: absent when the turn produced none.
pub open spec fn final_text_of(text: Seq<char>) -> Option<Seq<char>> {
    if text.len() > 0 {
        Some(text)
    } else {
        None
    }
}

/// The text an increment adds; empty where it carries none.
pub open spec fn delta_content(delta: StreamDeltaView) -> Seq<char> {
    match delta.content {
        Some(t) => t,
        None => Seq::empty(),
    }
}

/// The message for the tool calls of an increment, if it carries any.
pub open spec fn tool_msgs(entity: u64, delta: StreamDeltaView) -> Seq<StreamMsgView> {
    match delta.tool_calls {
        Some(calls) if calls.len() > 0 => seq![StreamMsgView::Tool { entity, calls }],
        _ => Seq::empty(),
    }
}

/// A step on an increment of the stream. New text joins the buffer, which is
/// flushed when due; tool calls leave at once, after the text of the same
/// increment.
pub open spec fn chunk_step(
    rule: Coalescing,
    s: TurnState,
    delta: StreamDeltaView,
    now: u64,
) -> Step {
    let added = delta_content(delta);
    let buf = s.buf + added;
    let flush = added.len() > 0 && flush_due(rule, buf, now, s.last_flush);
    Step {
        next: TurnState {
            text: s.text + added,
            buf: if flush {
                Seq::empty()
            } else {
                buf
            },
            last_flush: if flush {
                now
            } else {
                s.last_flush
            },
            ..s
        },
        action: TurnAction::NextChunk,
        msgs: (if flush {
            seq![StreamMsgView::Delta { entity: s.entity, text: buf }]
        } else {
            Seq::empty()
        }) + tool_msgs(s.entity, delta),
    }
}

/// The step of a turn that coalesces by `rule`: from its state and the
/// backend's answer to the next state, the next action and the messages to
/// emit.
///
/// An answer that the current phase is not waiting for changes nothing and
/// emits nothing.
pub open spec fn step_under(rule: Coalescing, s: TurnState, event: TurnEventView) -> Step {
    match (s.phase, event) {
        (TurnPhase::AwaitingStream, TurnEventView::StreamOpened { now }) => Step {
            next: TurnState { phase: TurnPhase::Streaming, last_flush: now, ..s },
            action: TurnAction::NextChunk,
            msgs: seq![StreamMsgView::Begin { entity: s.entity }],
        },
        (TurnPhase::AwaitingStream, TurnEventView::StreamRejected) => Step {
            next: TurnState { phase: TurnPhase::AwaitingReply, ..s },
            action: TurnAction::CallOneShot,
            msgs: Seq::empty(),
        },
        (TurnPhase::Streaming, TurnEventView::Chunk { delta, now }) => chunk_step(
            rule,
            s,
            delta,
            now,
        ),
        (TurnPhase::Streaming, TurnEventView::StreamFailed { error }) => Step {
            next: TurnState { phase: TurnPhase::Finished, buf: Seq::empty(), ..s },
            action: TurnAction::Stop,
            msgs: flush_msgs(s.entity, s.buf).push(
                StreamMsgView::Error { entity: s.entity, error },
            ),
        },
        (TurnPhase::Streaming, TurnEventView::StreamEnded) => Step {
            next: TurnState { phase: TurnPhase::AwaitingHistory, buf: Seq::empty(), ..s },
            action: TurnAction::QueryHistory,
            msgs: flush_msgs(s.entity, s.buf),
        },
        (TurnPhase::AwaitingReply, TurnEventView::Replied { text }) => Step {
            next: TurnState { phase: TurnPhase::AwaitingHistory, text, buf: Seq::empty(), ..s },
            action: TurnAction::QueryHistory,
            msgs: seq![StreamMsgView::Begin { entity: s.entity }] + flush_msgs(s.entity, text),
        },
        (TurnPhase::AwaitingReply, TurnEventView::ReplyFailed { error }) => Step {
            next: TurnState { phase: TurnPhase::Finished, ..s },
            action: TurnAction::Stop,
            msgs: seq![StreamMsgView::Error { entity: s.entity, error }],
        },
        (TurnPhase::AwaitingHistory, TurnEventView::History { memory }) => Step {
            next: TurnState { phase: TurnPhase::Finished, ..s },
            action: TurnAction::Stop,
            msgs: seq![
                StreamMsgView::Done {
                    entity: s.entity,
                    final_text: final_text_of(s.text),
                    memory: reconcile(memory, final_text_of(s.text)),
                },
            ],
        },
        _ => Step { next: s, action: pending_action(s.phase), msgs: Seq::empty() },
    }
}

/// The step of a turn, under the standard rule for coalescing.
pub open spec fn step_spec(s: TurnState, event: TurnEventView) -> Step {
    step_under(standard(), s, event)
}

/// The background task of one turn.
#[derive(Clone, Debug, PartialEq, Eq)]
pub struct TurnTask {
    entity: u64,
    phase: TurnPhase,
    text: String,
    buf: String,
    last_flush: u64,
}

impl View for TurnTask {
    type V = TurnState;

    closed spec fn view(&self) -> TurnState {
        TurnState {
            entity: self.entity,
            phase: self.phase,
            text: self.text@,
            buf: self.buf@,
            last_flush: self.last_flush,
        }
    }
}

impl TurnTask {
    /// A task for a turn of `entity`, with the first action to take: the
    /// streaming call where `stream` is set, the one-shot call otherwise.
    pub fn new(entity: u64, stream: bool) -> (out: (TurnTask, TurnAction))
        ensures
            out.0@ == initial_state(entity, stream),
            out.1 == pending_action(initial_state(entity, stream).phase),
    {
        let phase = if stream {
            TurnPhase::AwaitingStream
        } else {
            TurnPhase::AwaitingReply
        };
        let action = if stream {
            TurnAction::OpenStream
        } else {
            TurnAction::CallOneShot
        };
        (TurnTask { entity, phase, text: String::new(), buf: String::new(), last_flush: 0 }, action)
    }

    /// The session the turn belongs to.
    pub fn entity(&self) -> (entity: u64)
        ensures
            entity == self@.entity,
    {
        self.entity
    }

    /// Where the turn stands.
    pub fn phase(&self) -> (phase: TurnPhase)
        ensures
            phase == self@.phase,
    {
        self.phase
    }

    /// Takes the buffered text out as a message, if there is any.
    fn flush(&mut self, msgs: &mut Vec<StreamMsg>)
        ensures
            final(self)@ == (TurnState { buf: Seq::empty(), ..old(self)@ }),
            msgs_view(final(msgs)@) == msgs_view(old(msgs)@) + flush_msgs(
                old(self)@.entity,
                old(self)@.buf,
            ),
    {
        if !self.buf.as_str().is_empty() {
            let mut chunk = String::new();
            std::mem::swap(&mut self.buf, &mut chunk);
            msgs.push(StreamMsg::Delta { entity: self.entity, text: chunk });
            assert(msgs_view(msgs@) =~= msgs_view(old(msgs)@) + flush_msgs(
                old(self)@.entity,
                old(self)@.buf,
            ));
        } else {
            assert(self.buf@ =~= Seq::empty());
            assert(msgs_view(msgs@) =~= msgs_view(old(msgs)@) + flush_msgs(
                old(self)@.entity,
                old(self)@.buf,
            ));
        }
    }

    /// Takes in one increment of the stream.
    fn take_chunk(&mut self, delta: StreamDelta, now: u64, msgs: &mut Vec<StreamMsg>)
        requires
            old(msgs)@.len() == 0,
        ensures
            final(self)@ == chunk_step(standard(), old(self)@, delta@, now).next,
            msgs_view(final(msgs)@) == chunk_step(standard(), old(self)@, delta@, now).msgs,
    {
        let StreamDelta { content, tool_calls } = delta;
        if let Some(txt) = content {
            if !txt.as_str().is_empty() {
                self.text.append(txt.as_str());
                self.buf.append(txt.as_str());
                let waited = if now >= self.last_flush {
                    now - self.last_flush
                } else {
                    0
                };
                if self.buf.as_str().as_bytes().len() >= MIN_CHARS || waited >= MAX_LATENCY_NANOS {
                    self.flush(msgs);
                    self.last_flush = now;
                }
            } else {
                assert(self.text@ + txt@ =~= self.text@);
                assert(self.buf@ + txt@ =~= self.buf@);
            }
        } else {
            assert(self.text@ + Seq::<char>::empty() =~= self.text@);
            assert(self.buf@ + Seq::<char>::empty() =~= self.buf@);
        }
        let ghost before = msgs_view(msgs@);
        if let Some(calls) = tool_calls {
            if calls.len() > 0 {
                msgs.push(StreamMsg::Tool { entity: self.entity, calls });
            }
        }
        assert(msgs_view(msgs@) =~= before + tool_msgs(old(self)@.entity, delta@));
    }

    /// Advances the turn by what the backend answered. Returns what to do
    /// next and the messages to put into the inbox, in order.
    pub fn step(&mut self, event: TurnEvent) -> (out: (TurnAction, Vec<StreamMsg>))
        ensures
            final(self)@ == step_spec(old(self)@, event@).next,
            out.0 == step_spec(old(self)@, event@).action,
            msgs_view(out.1@) == step_spec(old(self)@, event@).msgs,
    {
        let mut msgs: Vec<StreamMsg> = Vec::new();
        let ghost expected = step_spec(self@, event@);
        let action = match (self.phase, event) {
            (TurnPhase::AwaitingStream, TurnEvent::StreamOpened { now }) => {
                msgs.push(StreamMsg::Begin { entity: self.entity });
                self.phase = TurnPhase::Streaming;
                self.last_flush = now;
                TurnAction::NextChunk
            },
            (TurnPhase::AwaitingStream, TurnEvent::StreamRejected) => {
                self.phase = TurnPhase::AwaitingReply;
                TurnAction::CallOneShot
            },
            (TurnPhase::Streaming, TurnEvent::Chunk { delta, now }) => {
                self.take_chunk(delta, now, &mut msgs);
                TurnAction::NextChunk
            },
            (TurnPhase::Streaming, TurnEvent::StreamFailed { error }) => {
                self.flush(&mut msgs);
                msgs.push(StreamMsg::Error { entity: self.entity, error });
                self.phase = TurnPhase::Finished;
                TurnAction::Stop
            },
            (TurnPhase::Streaming, TurnEvent::StreamEnded) => {
                self.flush(&mut msgs);
                self.phase = TurnPhase::AwaitingHistory;
                TurnAction::QueryHistory
            },
            (TurnPhase::AwaitingReply, TurnEvent::Replied { text }) => {
                msgs.push(StreamMsg::Begin { entity: self.entity });
                if !text.as_str().is_empty() {
                    msgs.push(StreamMsg::Delta { entity: self.entity, text: text.clone() });
                }
                self.text = text;
                self.buf = String::new();
                self.phase = TurnPhase::AwaitingHistory;
                TurnAction::QueryHistory
            },
            (TurnPhase::AwaitingReply, TurnEvent::ReplyFailed { error }) => {
                msgs.push(StreamMsg::Error { entity: self.entity, error });
                self.phase = TurnPhase::Finished;
                TurnAction::Stop
            },
            (TurnPhase::AwaitingHistory, TurnEvent::History { memory }) => {
                let final_text = if self.text.as_str().is_empty() {
                    None
                } else {
                    Some(self.text.clone())
                };
                let memory = match &final_text {
                    Some(t) => merge_memory_with_final(memory, Some(t.as_str())),
                    None => merge_memory_with_final(memory, None),
                };
                msgs.push(StreamMsg::Done { entity: self.entity, final_text, memory });
                self.phase = TurnPhase::Finished;
                TurnAction::Stop
            },
            (TurnPhase::AwaitingStream, _) => TurnAction::OpenStream,
            (TurnPhase::Streaming, _) => TurnAction::NextChunk,
            (TurnPhase::AwaitingReply, _) => TurnAction::CallOneShot,
            (TurnPhase::AwaitingHistory, _) => TurnAction::QueryHistory,
            (TurnPhase::Finished, _) => TurnAction::Stop,
        };
        assert(msgs_view(msgs@) =~= expected.msgs);
        (action, msgs)
    }
}

} // verus!
