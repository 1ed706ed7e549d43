//! Bridges conversational-AI turns that run in the background into a
//! synchronous tick loop.
//!
//! A host attaches a request to a session. Intake dispatches it once, as a
//! background task that talks to a backend and may suspend there. The task
//! puts tagged messages into a bounded inbox and never waits for room. Each
//! tick takes a bounded number of messages out of the inbox, coalesces the
//! text of each session and announces the result to the host.
//!
//! - [`message`], [`event`]: the data that is exchanged, with its views.
//! - [`providers`]: the registry of backends, with its default entry.
//! - [`intake`]: sessions, requests, and their dispatch.
//! - [`turn`]: the background task of one turn, as a state machine.
//! - [`memory`]: repair of a history snapshot with the turn's final text.
//! - [`inbox`]: the channel between the tasks and the tick loop.
//! - [`drain`]: what one tick announces for the messages it took out.
//! - [`trace`], [`ticks`]: what holds of all a turn emits, and of all the
//!   host observes.
//! - [`queue`]: what the ticks take out of an inbox that nothing else
//!   touches, and what they leave.

pub mod message;
pub mod memory;
pub mod event;
pub mod turn;
pub mod trace;
pub mod drain;
pub mod ticks;
pub mod inbox;
pub mod queue;
pub mod providers;
pub mod intake;

pub use drain::aggregate;
pub use event::{
    ChatCompletedEvt, ChatDeltaEvt, ChatErrorEvt, ChatEvent, ChatStarted, ChatToolCallsEvt,
    StreamMsg,
};
pub use inbox::{
    advance, deliver, drain_stream_inbox, take_batch, take_one, StreamInbox, INBOX_CAPACITY,
    MAX_PER_FRAME,
};
pub use intake::{
    dispatch_turn, send_user_text, spawn_chat_requests, ChatRequest, ChatSession, Dispatch,
    PendingTurn,
};
pub use memory::merge_memory_with_final;
pub use message::{ChatMessage, ChatRole, FunctionCall, ImageMime, MessageType, ToolCall};
pub use providers::Providers;
pub use turn::{
    StreamDelta, TurnAction, TurnEvent, TurnPhase, TurnTask, MAX_LATENCY_NANOS, MIN_CHARS,
};
