//! Request intake: every pending request becomes one dispatched turn.

use vstd::prelude::*;
use crate::event::ChatStarted;
use crate::message::{ChatMessage, ChatRole, text_message};
use crate::providers::Providers;
use crate::turn::{TurnAction, TurnTask, initial_state, pending_action};

verus! {

/// One conversation: which backend it talks to and how it wants its answers.
#[derive(Clone, Debug, Default, PartialEq, Eq)]
pub struct ChatSession {
    /// The key of a registered backend; the default backend where absent.
    pub key: Option<String>,
    /// Whether answers are streamed or delivered in one piece.
    pub stream: bool,
}

impl ChatSession {
    /// The key of the session as a mathematical value.
    pub open spec fn key_view(self) -> Option<Seq<char>> {
        match self.key {
            Some(k) => Some(k@),
            None => None,
        }
    }
}

/// The new messages of the next turn of a session. The backend keeps the
/// history; a request holds only what is new.
#[derive(Clone, Debug, PartialEq, Eq)]
pub struct ChatRequest {
    pub messages: Vec<ChatMessage>,
}

/// The request that sends `text` as a single user message.
pub fn send_user_text(text: String) -> (request: ChatRequest)
    ensures
        request.messages@.len() == 1,
        request.messages@[0]@ == text_message(ChatRole::User, text@),
{
    let mut messages: Vec<ChatMessage> = Vec::new();
    messages.push(ChatMessage::user(text));
    ChatRequest { messages }
}

/// A session with a request that waits to be dispatched.
#[derive(Clone, Debug, PartialEq, Eq)]
pub struct PendingTurn {
    pub entity: u64,
    pub session: ChatSession,
    pub request: ChatRequest,
}

/// A turn that was dispatched: the announcement for the host, and what its
/// background task starts with.
pub struct Dispatch<'a, P> {
    pub started: ChatStarted,
    /// The backend the turn talks to.
    pub provider: &'a P,
    /// The messages to hand to the backend.
    pub messages: Vec<ChatMessage>,
    /// The task in its first state.
    pub task: TurnTask,
    /// The first thing the task has to do.
    pub action: TurnAction,
}

/// Whether `dispatch` is the turn that `pending` asks for, with the backend
/// that `providers` resolves its key to.
pub open spec fn dispatches<P>(
    providers: Providers<P>,
    pending: PendingTurn,
    dispatch: Dispatch<'_, P>,
) -> bool {
    &&& dispatch.started.entity == pending.entity
    &&& *dispatch.provider == providers.resolve(pending.session.key_view())
    &&& dispatch.messages == pending.request.messages
    &&& dispatch.task@ == initial_state(pending.entity, pending.session.stream)
    &&& dispatch.action == pending_action(dispatch.task@.phase)
}

/// Dispatches one pending request.
pub fn dispatch_turn<'a, P>(providers: &'a Providers<P>, pending: PendingTurn) -> (dispatch:
    Dispatch<'a, P>)
    ensures
        dispatches(*providers, pending, dispatch),
{
    let PendingTurn { entity, session, request } = pending;
    let provider = providers.get(session.key.as_ref());
    let (task, action) = TurnTask::new(entity, session.stream);
    Dispatch { started: ChatStarted { entity }, provider, messages: request.messages, task, action }
}

/// Dispatches every pending request: one turn each, in the order given. A key
/// that names no registered backend selects the default one, so every request
/// is dispatched.
pub fn spawn_chat_requests<'a, P>(providers: &'a Providers<P>, pending: Vec<PendingTurn>) -> (turns:
    Vec<Dispatch<'a, P>>)
    ensures
        turns@.len() == pending@.len(),
        forall|i: int|
            0 <= i < pending@.len() ==> dispatches(*providers, pending@[i], #[trigger] turns@[i]),
{
    let mut turns: Vec<Dispatch<'a, P>> = Vec::new();
    let mut n: usize = 0;
    let total = pending.len();
    for request in it: pending.into_iter()
        invariant
            n == it.index(),
            it.seq() == pending@,
            total == pending@.len(),
            turns@.len() == n,
            forall|i: int|
                0 <= i < n ==> dispatches(*providers, pending@[i], #[trigger] turns@[i]),
    {
        let turn = dispatch_turn(providers, request);
        turns.push(turn);
        n += 1;
    }
    turns
}

} // verus!
