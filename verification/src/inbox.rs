//! The delivery inbox: a bounded channel from the background turns, which
//! push without ever blocking, to the tick loop, which polls.

use vstd::prelude::*;
use crate::drain::{aggregate, aggregate_spec};
use crate::event::{ChatEvent, StreamMsg, StreamMsgView, events_view, msgs_view};
use crate::turn::{TurnAction, TurnEvent, TurnTask, step_spec};

verus! {

/// How many messages the inbox holds before it turns new ones away.
pub const INBOX_CAPACITY: usize = 2048;

/// How many messages one tick takes out of the inbox at most.
pub const MAX_PER_FRAME: usize = 512;

/// `flume::Sender`, the producing end of a channel. Nothing inside it is
/// visible to the verifier.
#[verifier::external_type_specification]
#[verifier::external_body]
#[verifier::reject_recursive_types(T)]
pub struct ExSender<T>(flume::Sender<T>);

/// `flume::Receiver`, the consuming end of a channel. Nothing inside it is
/// visible to the verifier.
#[verifier::external_type_specification]
#[verifier::external_body]
#[verifier::reject_recursive_types(T)]
pub struct ExReceiver<T>(flume::Receiver<T>);

/// `flume::TrySendError`, the reason a push was turned away, with the message.
#[verifier::external_type_specification]
#[verifier::external_body]
#[verifier::reject_recursive_types(T)]
pub struct ExTrySendError<T>(flume::TrySendError<T>);

/// The capacity that the channel behind `tx` was made with, as
/// `flume::Sender::capacity` reports it: absent for a channel without a
/// bound.
pub uninterp spec fn sender_limit(tx: flume::Sender<StreamMsg>) -> Option<usize>;

/// The capacity that the channel behind `rx` was made with, as
/// `flume::Receiver::capacity` reports it: absent for a channel without a
/// bound.
pub uninterp spec fn receiver_limit(rx: flume::Receiver<StreamMsg>) -> Option<usize>;

/// `flume::bounded` makes a channel that holds at most `cap` messages and
/// returns its two ends. The claim: both ends report `cap` as the channel's
/// capacity.
#[verifier::external_body]
fn bounded_channel(cap: usize) -> (ends: (flume::Sender<StreamMsg>, flume::Receiver<StreamMsg>))
    ensures
        sender_limit(ends.0) == Some(cap),
        receiver_limit(ends.1) == Some(cap),
{
    flume::bounded(cap)
}

/// `Clone` of `flume::Sender` gives another handle to the same channel. The
/// claim: the new handle reports the same capacity.
#[verifier::external_body]
fn another_sender(tx: &flume::Sender<StreamMsg>) -> (other: flume::Sender<StreamMsg>)
    ensures
        sender_limit(other) == sender_limit(*tx),
{
    tx.clone()
}

/// `flume::Receiver::capacity` reports the capacity the channel was made
/// with. The claim: it is the channel's limit, whatever the channel holds.
#[verifier::external_body]
fn channel_capacity(rx: &flume::Receiver<StreamMsg>) -> (cap: Option<usize>)
    ensures
        cap == receiver_limit(*rx),
{
    rx.capacity()
}

/// `flume::Sender::try_send` offers a message to the channel without
/// waiting. Whether the channel takes it depends on what the channel holds at
/// that moment and on whether the other end still exists, so nothing is
/// claimed of the result.
pub assume_specification<T>[ flume::Sender::<T>::try_send ](
    tx: &flume::Sender<T>,
    msg: T,
) -> (sent: Result<(), flume::TrySendError<T>>);

/// `flume::Receiver::try_recv` takes the oldest message out of the channel
/// without waiting, and gives none where the channel is empty or no sender
/// is left. Other threads fill the channel meanwhile, so nothing is claimed
/// of the result. Before it looks for a message the call adds one to the
/// channel's capacity, so a channel made with the largest capacity there is
/// is left out.
#[verifier::external_body]
fn poll(rx: &flume::Receiver<StreamMsg>) -> (polled: Option<StreamMsg>)
    requires
        receiver_limit(*rx) != Some(usize::MAX),
{
    rx.try_recv().ok()
}

/// The two ends of the channel between the background turns and the tick
/// loop.
pub struct StreamInbox {
    tx: flume::Sender<StreamMsg>,
    rx: flume::Receiver<StreamMsg>,
}

impl StreamInbox {
    #[verifier::type_invariant]
    spec fn made_with_capacity(self) -> bool {
        &&& sender_limit(self.tx) == Some(INBOX_CAPACITY)
        &&& receiver_limit(self.rx) == Some(INBOX_CAPACITY)
    }

    /// How many messages the inbox holds at most.
    pub closed spec fn limit(self) -> Option<usize> {
        receiver_limit(self.rx)
    }

    /// A new inbox that holds at most `INBOX_CAPACITY` messages.
    pub fn new() -> (inbox: StreamInbox)
        ensures
            inbox.limit() == Some(INBOX_CAPACITY),
    {
        let (tx, rx) = bounded_channel(INBOX_CAPACITY);
        StreamInbox { tx, rx }
    }

    /// How many messages the inbox holds at most.
    pub fn capacity(&self) -> (cap: Option<usize>)
        ensures
            cap == self.limit(),
            cap == Some(INBOX_CAPACITY),
    {
        proof {
            use_type_invariant(self);
        }
        channel_capacity(&self.rx)
    }

    /// A producing end for a background turn.
    pub fn sender(&self) -> (tx: flume::Sender<StreamMsg>)
        ensures
            sender_limit(tx) == self.limit(),
            sender_limit(tx) == Some(INBOX_CAPACITY),
    {
        proof {
            use_type_invariant(self);
        }
        another_sender(&self.tx)
    }

    /// The consuming end, for the tick loop.
    pub fn receiver(&self) -> (rx: &flume::Receiver<StreamMsg>)
        ensures
            receiver_limit(*rx) == self.limit(),
            receiver_limit(*rx) == Some(INBOX_CAPACITY),
    {
        proof {
            use_type_invariant(self);
        }
        &self.rx
    }

    /// Takes messages out of this inbox, oldest first, until it is empty or
    /// `MAX_PER_FRAME` were taken. What is left stays queued for the next
    /// tick.
    pub fn take_batch(&self) -> (batch: Vec<StreamMsg>)
        ensures
            batch@.len() <= MAX_PER_FRAME,
    {
        proof {
            use_type_invariant(self);
        }
        take_batch(&self.rx)
    }

    /// One tick of the consumer on this inbox: takes at most `MAX_PER_FRAME`
    /// messages out and returns the announcements for them.
    pub fn drain(&self) -> (events: Vec<ChatEvent>)
        ensures
            exists|batch: Seq<StreamMsgView>|
                batch.len() <= MAX_PER_FRAME && events_view(events@) == #[trigger] aggregate_spec(
                    batch,
                ),
    {
        proof {
            use_type_invariant(self);
        }
        drain_stream_inbox(&self.rx)
    }
}

impl Default for StreamInbox {
    fn default() -> (inbox: StreamInbox)
        ensures
            inbox.limit() == Some(INBOX_CAPACITY),
    {
        StreamInbox::new()
    }
}

/// Offers `msg` to the inbox and says whether the inbox took it. A full
/// inbox drops the message; the producer never waits.
fn push_inbox(tx: &flume::Sender<StreamMsg>, msg: StreamMsg) -> (accepted: bool) {
    tx.try_send(msg).is_ok()
}

/// Offers each of `msgs` to the inbox, in order. Returns how many the inbox
/// took.
pub fn deliver(tx: &flume::Sender<StreamMsg>, msgs: Vec<StreamMsg>) -> (accepted: usize)
    ensures
        accepted <= msgs@.len(),
{
    let mut accepted: usize = 0;
    let mut n: usize = 0;
    let total = msgs.len();
    for msg in it: msgs.into_iter()
        invariant
            n == it.index(),
            it.seq().len() == total,
            accepted <= n,
    {
        if push_inbox(tx, msg) {
            accepted += 1;
        }
        n += 1;
    }
    accepted
}

/// Advances `task` by what the backend answered and offers the messages of
/// that step to the inbox. Returns what the task has to do next.
pub fn advance(task: &mut TurnTask, event: TurnEvent, tx: &flume::Sender<StreamMsg>) -> (action:
    TurnAction)
    ensures
        final(task)@ == step_spec(old(task)@, event@).next,
        action == step_spec(old(task)@, event@).action,
{
    let (action, msgs) = task.step(event);
    deliver(tx, msgs);
    action
}

/// The batch after one poll: with the polled message at its end, or as it
/// was where the poll gave none.
pub open spec fn batch_after<M>(batch: Seq<M>, polled: Option<M>) -> Seq<M> {
    match polled {
        Some(msg) => batch.push(msg),
        None => batch,
    }
}

/// Whether a tick polls again after a poll: the poll gave a message, and the
/// batch with that message is still short of `MAX_PER_FRAME`.
pub open spec fn polls_again<M>(batch: Seq<M>, polled: Option<M>) -> bool {
    polled is Some && batch_after(batch, polled).len() < MAX_PER_FRAME
}

/// Takes in what one poll of the inbox gave: a message joins the end of
/// `batch`. Says whether to poll again: not after an empty poll, and not once
/// the batch holds `MAX_PER_FRAME` messages.
pub fn take_one(batch: &mut Vec<StreamMsg>, polled: Option<StreamMsg>) -> (again: bool)
    requires
        old(batch)@.len() < MAX_PER_FRAME,
    ensures
        final(batch)@ == batch_after(old(batch)@, polled),
        again == polls_again(old(batch)@, polled),
{
    match polled {
        Some(msg) => {
            batch.push(msg);
            batch.len() < MAX_PER_FRAME
        },
        None => false,
    }
}

/// Takes messages out of the inbox, oldest first, until it is empty or
/// `MAX_PER_FRAME` were taken. What is left stays queued for the next tick.
pub fn take_batch(rx: &flume::Receiver<StreamMsg>) -> (batch: Vec<StreamMsg>)
    requires
        receiver_limit(*rx) != Some(usize::MAX),
    ensures
        batch@.len() <= MAX_PER_FRAME,
{
    let mut batch: Vec<StreamMsg> = Vec::new();
    let mut again = true;
    while again
        invariant
            receiver_limit(*rx) != Some(usize::MAX),
            batch@.len() <= MAX_PER_FRAME,
            again ==> batch@.len() < MAX_PER_FRAME,
        decreases MAX_PER_FRAME - batch@.len() + (if again { 1int } else { 0int }),
    {
        let polled = poll(rx);
        again = take_one(&mut batch, polled);
    }
    batch
}

/// One tick of the consumer: takes at most `MAX_PER_FRAME` messages out of
/// the inbox and returns the announcements for them.
pub fn drain_stream_inbox(rx: &flume::Receiver<StreamMsg>) -> (events: Vec<ChatEvent>)
    requires
        receiver_limit(*rx) != Some(usize::MAX),
    ensures
        exists|batch: Seq<StreamMsgView>|
            batch.len() <= MAX_PER_FRAME && events_view(events@) == #[trigger] aggregate_spec(
                batch,
            ),
{
    let batch = take_batch(rx);
    let ghost taken = msgs_view(batch@);
    let events = aggregate(batch);
    assert(events_view(events@) == aggregate_spec(taken));
    events
}

} // verus!
