//! What travels from a background turn to the tick loop, and what the tick
//! loop announces to the host.

use vstd::prelude::*;
use crate::message::{ChatMessage, ChatMessageView, ToolCall, ToolCallView, calls_view};
use crate::memory::{snapshot_view, text_view};

verus! {

/// A turn was dispatched for `entity`.
#[derive(Clone, Debug, PartialEq, Eq)]
pub struct ChatStarted {
    pub entity: u64,
}

/// Text the assistant produced for `entity` since the last announcement.
#[derive(Clone, Debug, PartialEq, Eq)]
pub struct ChatDeltaEvt {
    pub entity: u64,
    pub text: String,
}

/// Tool calls the backend asked for during the turn of `entity`.
#[derive(Clone, Debug, PartialEq, Eq)]
pub struct ChatToolCallsEvt {
    pub entity: u64,
    pub calls: Vec<ToolCall>,
}

/// The turn of `entity` ended normally.
#[derive(Clone, Debug, PartialEq, Eq)]
pub struct ChatCompletedEvt {
    pub entity: u64,
    /// The whole assistant text of the turn, if it produced any.
    pub final_text: Option<String>,
    /// The backend's history after the turn, if it tracks one.
    pub memory: Option<Vec<ChatMessage>>,
}

/// The turn of `entity` failed.
#[derive(Clone, Debug, PartialEq, Eq)]
pub struct ChatErrorEvt {
    pub entity: u64,
    pub error: String,
}

/// One message in the inbox, tagged with the session it belongs to.
#[derive(Clone, Debug, PartialEq, Eq)]
pub enum StreamMsg {
    Begin { entity: u64 },
    Delta { entity: u64, text: String },
    Tool { entity: u64, calls: Vec<ToolCall> },
    Done { entity: u64, final_text: Option<String>, memory: Option<Vec<ChatMessage>> },
    Error { entity: u64, error: String },
}

/// A [`StreamMsg`] as a mathematical value.
pub enum StreamMsgView {
    Begin { entity: u64 },
    Delta { entity: u64, text: Seq<char> },
    Tool { entity: u64, calls: Seq<ToolCallView> },
    Done { entity: u64, final_text: Option<Seq<char>>, memory: Option<Seq<ChatMessageView>> },
    Error { entity: u64, error: Seq<char> },
}

impl View for StreamMsg {
    type V = StreamMsgView;

    open spec fn view(&self) -> StreamMsgView {
        match *self {
            StreamMsg::Begin { entity } => StreamMsgView::Begin { entity },
            StreamMsg::Delta { entity, text } => StreamMsgView::Delta { entity, text: text@ },
            StreamMsg::Tool { entity, calls } => StreamMsgView::Tool {
                entity,
                calls: calls_view(calls@),
            },
            StreamMsg::Done { entity, final_text, memory } => StreamMsgView::Done {
                entity,
                final_text: text_view(final_text),
                memory: snapshot_view(memory),
            },
            StreamMsg::Error { entity, error } => StreamMsgView::Error { entity, error: error@ },
        }
    }
}

impl StreamMsgView {
    /// The session the message belongs to.
    pub open spec fn entity(self) -> u64 {
        match self {
            StreamMsgView::Begin { entity } => entity,
            StreamMsgView::Delta { entity, .. } => entity,
            StreamMsgView::Tool { entity, .. } => entity,
            StreamMsgView::Done { entity, .. } => entity,
            StreamMsgView::Error { entity, .. } => entity,
        }
    }

    /// Whether the message ends its turn.
    pub open spec fn is_terminal(self) -> bool {
        self is Done || self is Error
    }
}

/// The views of a list of inbox messages, entry by entry.
pub open spec fn msgs_view(msgs: Seq<StreamMsg>) -> Seq<StreamMsgView> {
    Seq::new(msgs.len(), |i: int| msgs[i]@)
}

/// One announcement to the host.
#[derive(Clone, Debug, PartialEq, Eq)]
pub enum ChatEvent {
    Delta(ChatDeltaEvt),
    ToolCalls(ChatToolCallsEvt),
    Completed(ChatCompletedEvt),
    Error(ChatErrorEvt),
}

/// A [`ChatEvent`] as a mathematical value.
pub enum ChatEventView {
    Delta { entity: u64, text: Seq<char> },
    ToolCalls { entity: u64, calls: Seq<ToolCallView> },
    Completed { entity: u64, final_text: Option<Seq<char>>, memory: Option<Seq<ChatMessageView>> },
    Error { entity: u64, error: Seq<char> },
}

impl View for ChatEvent {
    type V = ChatEventView;

    open spec fn view(&self) -> ChatEventView {
        match *self {
            ChatEvent::Delta(e) => ChatEventView::Delta { entity: e.entity, text: e.text@ },
            ChatEvent::ToolCalls(e) => ChatEventView::ToolCalls {
                entity: e.entity,
                calls: calls_view(e.calls@),
            },
            ChatEvent::Completed(e) => ChatEventView::Completed {
                entity: e.entity,
                final_text: text_view(e.final_text),
                memory: snapshot_view(e.memory),
            },
            ChatEvent::Error(e) => ChatEventView::Error { entity: e.entity, error: e.error@ },
        }
    }
}

impl ChatEventView {
    /// The session the announcement is about.
    pub open spec fn entity(self) -> u64 {
        match self {
            ChatEventView::Delta { entity, .. } => entity,
            ChatEventView::ToolCalls { entity, .. } => entity,
            ChatEventView::Completed { entity, .. } => entity,
            ChatEventView::Error { entity, .. } => entity,
        }
    }

    /// Whether the announcement ends its turn.
    pub open spec fn is_terminal(self) -> bool {
        self is Completed || self is Error
    }
}

/// The views of a list of announcements, entry by entry.
pub open spec fn events_view(events: Seq<ChatEvent>) -> Seq<ChatEventView> {
    Seq::new(events.len(), |i: int| events[i]@)
}

} // verus!
