//! The inbox as a queue that no producer touches while the ticks run: what
//! each tick takes out of it, and what it leaves for the next one.
//!
//! A tick polls the inbox and hands each answer to `take_one`. Here the
//! answers are those of a queue: its oldest message, or none once it is
//! empty.

use vstd::prelude::*;
use crate::drain::{
    aggregate_spec, completed_events, delta_entities, delta_events, error_events, tool_events,
};
use crate::event::{ChatEventView, StreamMsgView};
use crate::inbox::{MAX_PER_FRAME, batch_after, polls_again};
use crate::ticks::joined;

verus! {

/// The outcome of a tick on a queue: the batch it took, and what it left.
pub struct Tick<M> {
    pub batch: Seq<M>,
    pub left: Seq<M>,
}

/// What a poll of `queue` gives: its oldest message, or none where it is
/// empty.
pub open spec fn oldest<M>(queue: Seq<M>) -> Option<M> {
    if queue.len() > 0 {
        Some(queue.first())
    } else {
        None
    }
}

/// What a poll of `queue` leaves in it.
pub open spec fn rest<M>(queue: Seq<M>) -> Seq<M> {
    if queue.len() > 0 {
        queue.drop_first()
    } else {
        queue
    }
}

/// A tick that has gathered `batch` so far and goes on polling `queue`
/// until a poll says not to poll again.
pub open spec fn fill<M>(batch: Seq<M>, queue: Seq<M>) -> Tick<M>
    decreases queue.len(),
{
    if polls_again(batch, oldest(queue)) {
        fill(batch_after(batch, oldest(queue)), rest(queue))
    } else {
        Tick { batch: batch_after(batch, oldest(queue)), left: rest(queue) }
    }
}

/// One tick on `queue`.
pub open spec fn tick<M>(queue: Seq<M>) -> Tick<M> {
    fill(Seq::empty(), queue)
}

/// What is left of `queue` after `n` ticks.
pub open spec fn left_after<M>(queue: Seq<M>, n: nat) -> Seq<M>
    decreases n,
{
    if n == 0 {
        queue
    } else {
        tick(left_after(queue, (n - 1) as nat)).left
    }
}

/// The batches that the first `n` ticks take out of `queue`, in order.
pub open spec fn batches<M>(queue: Seq<M>, n: nat) -> Seq<Seq<M>> {
    Seq::new(n, |k: int| tick(left_after(queue, k as nat)).batch)
}

/// How many of `len` queued messages are gone after `n` ticks.
pub open spec fn gone(len: nat, n: nat) -> int {
    if n * MAX_PER_FRAME <= len {
        n * MAX_PER_FRAME
    } else {
        len as int
    }
}

/// A tick that has room for more takes the oldest messages of the queue, as
/// many as it has room for, in their order, and leaves the others as they
/// were.
pub proof fn lemma_fill_takes_the_oldest<M>(batch: Seq<M>, queue: Seq<M>)
    requires
        batch.len() < MAX_PER_FRAME,
    ensures
        ({
            let room = MAX_PER_FRAME - batch.len();
            let k = if queue.len() <= room {
                queue.len() as int
            } else {
                room
            };
            &&& fill(batch, queue).batch == batch + queue.take(k)
            &&& fill(batch, queue).left == queue.skip(k)
        }),
    decreases queue.len(),
{
    let room = MAX_PER_FRAME - batch.len();
    let k = if queue.len() <= room {
        queue.len() as int
    } else {
        room
    };
    if queue.len() == 0 {
        assert(batch + queue.take(0) =~= batch);
        assert(queue.skip(0) =~= queue);
    } else {
        let taken = batch.push(queue.first());
        let others = queue.drop_first();
        if taken.len() < MAX_PER_FRAME {
            lemma_fill_takes_the_oldest(taken, others);
            assert(taken + others.take(k - 1) =~= batch + queue.take(k));
            assert(others.skip(k - 1) =~= queue.skip(k));
        } else {
            assert(taken =~= batch + queue.take(1));
            assert(others =~= queue.skip(1));
        }
    }
}

/// One tick takes the oldest messages of the queue, `MAX_PER_FRAME` of them
/// or all where there are fewer, in their order, and leaves the others
/// queued in their order: none is lost and none is taken twice.
pub proof fn theorem_tick_takes_the_oldest<M>(queue: Seq<M>)
    ensures
        tick(queue).batch == queue.take(gone(queue.len(), 1)),
        tick(queue).left == queue.skip(gone(queue.len(), 1)),
        tick(queue).batch.len() == gone(queue.len(), 1),
        tick(queue).batch + tick(queue).left == queue,
{
    lemma_fill_takes_the_oldest(Seq::<M>::empty(), queue);
    let k = gone(queue.len(), 1);
    assert(Seq::<M>::empty() + queue.take(k) =~= queue.take(k));
    assert(queue.take(k) + queue.skip(k) =~= queue);
}

/// After `n` ticks the oldest `n` times `MAX_PER_FRAME` messages are gone,
/// or all where there were fewer; the others are queued in their order.
pub proof fn theorem_ticks_leave_the_rest<M>(queue: Seq<M>, n: nat)
    ensures
        left_after(queue, n) == queue.skip(gone(queue.len(), n)),
    decreases n,
{
    if n == 0 {
        assert(queue.skip(0) =~= queue);
    } else {
        let m = (n - 1) as nat;
        theorem_ticks_leave_the_rest(queue, m);
        let before = left_after(queue, m);
        theorem_tick_takes_the_oldest(before);
        assert(before.skip(gone(before.len(), 1)) =~= queue.skip(gone(queue.len(), n)));
    }
}

/// The tick after `n` others takes the messages that stand in the queue
/// from place `n` times `MAX_PER_FRAME` on, at most `MAX_PER_FRAME` of them,
/// in their order.
pub proof fn theorem_each_tick_takes_the_next<M>(queue: Seq<M>, n: nat)
    ensures
        batches(queue, n + 1)[n as int] == queue.subrange(
            gone(queue.len(), n),
            gone(queue.len(), n + 1),
        ),
{
    theorem_ticks_leave_the_rest(queue, n);
    let before = left_after(queue, n);
    theorem_tick_takes_the_oldest(before);
    assert(before.take(gone(before.len(), 1)) =~= queue.subrange(
        gone(queue.len(), n),
        gone(queue.len(), n + 1),
    ));
}

/// The batches of the first `n` ticks, put together, are the messages that
/// are gone from the queue after these ticks, in the order they had there.
pub proof fn theorem_batches_join_to_the_queue(queue: Seq<StreamMsgView>, n: nat)
    ensures
        joined(batches(queue, n)) == queue.take(gone(queue.len(), n)),
        joined(batches(queue, n)) + left_after(queue, n) == queue,
    decreases n,
{
    let k = gone(queue.len(), n);
    if n == 0 {
        assert(batches(queue, 0) =~= Seq::<Seq<StreamMsgView>>::empty());
        assert(queue.take(0) =~= Seq::<StreamMsgView>::empty());
    } else {
        let m = (n - 1) as nat;
        theorem_batches_join_to_the_queue(queue, m);
        theorem_each_tick_takes_the_next(queue, m);
        assert(batches(queue, n).drop_last() =~= batches(queue, m));
        assert(batches(queue, n).last() == batches(queue, m + 1)[m as int]);
        assert(queue.take(gone(queue.len(), m)) + queue.subrange(gone(queue.len(), m), k)
            =~= queue.take(k));
    }
    theorem_ticks_leave_the_rest(queue, n);
    assert(queue.take(k) + queue.skip(k) =~= queue);
}

/// Of a queue of more than `MAX_PER_FRAME` but at most twice as many
/// messages, the first tick takes the oldest `MAX_PER_FRAME` in order, the
/// second takes all the others in order, and nothing is left.
pub proof fn theorem_two_ticks_empty_a_queue_of_up_to_two_batches<M>(queue: Seq<M>)
    requires
        MAX_PER_FRAME < queue.len() <= 2 * MAX_PER_FRAME,
    ensures
        tick(queue).batch == queue.take(MAX_PER_FRAME as int),
        tick(queue).left == queue.skip(MAX_PER_FRAME as int),
        tick(tick(queue).left).batch == queue.skip(MAX_PER_FRAME as int),
        tick(tick(queue).left).batch.len() == queue.len() - MAX_PER_FRAME,
        tick(tick(queue).left).left.len() == 0,
{
    theorem_tick_takes_the_oldest(queue);
    let others = queue.skip(MAX_PER_FRAME as int);
    theorem_tick_takes_the_oldest(others);
    assert(others.take(others.len() as int) =~= others);
}

/// Begin messages announce nothing.
pub proof fn lemma_begins_announce_nothing(msgs: Seq<StreamMsgView>)
    requires
        forall|i: int| 0 <= i < msgs.len() ==> (#[trigger] msgs[i]) is Begin,
    ensures
        aggregate_spec(msgs) == Seq::<ChatEventView>::empty(),
        delta_entities(msgs).len() == 0,
        tool_events(msgs).len() == 0,
        completed_events(msgs).len() == 0,
        error_events(msgs).len() == 0,
    decreases msgs.len(),
{
    if msgs.len() > 0 {
        let front = msgs.drop_last();
        assert forall|i: int| 0 <= i < front.len() implies (#[trigger] front[i]) is Begin by {
            assert(front[i] == msgs[i]);
        }
        lemma_begins_announce_nothing(front);
        assert(msgs.last() == msgs[msgs.len() - 1]);
    }
    assert(aggregate_spec(msgs) =~= Seq::<ChatEventView>::empty());
}

/// The completion that a done message announces.
pub open spec fn completion_of(msg: StreamMsgView) -> ChatEventView {
    ChatEventView::Completed {
        entity: msg.entity(),
        final_text: msg->final_text,
        memory: msg->memory,
    }
}

/// A batch of done messages announces one completion for each, in the order
/// of the batch, and nothing else.
pub proof fn lemma_dones_announce_in_order(msgs: Seq<StreamMsgView>)
    requires
        forall|i: int| 0 <= i < msgs.len() ==> (#[trigger] msgs[i]) is Done,
    ensures
        aggregate_spec(msgs) == Seq::new(msgs.len(), |i: int| completion_of(msgs[i])),
        delta_entities(msgs).len() == 0,
        tool_events(msgs).len() == 0,
        error_events(msgs).len() == 0,
        completed_events(msgs) == Seq::new(msgs.len(), |i: int| completion_of(msgs[i])),
    decreases msgs.len(),
{
    let announced = Seq::new(msgs.len(), |i: int| completion_of(msgs[i]));
    if msgs.len() > 0 {
        let front = msgs.drop_last();
        assert forall|i: int| 0 <= i < front.len() implies (#[trigger] front[i]) is Done by {
            assert(front[i] == msgs[i]);
        }
        lemma_dones_announce_in_order(front);
        assert(msgs.last() == msgs[msgs.len() - 1]);
        assert(completed_events(msgs) =~= announced);
    } else {
        assert(completed_events(msgs) =~= announced);
    }
    assert(aggregate_spec(msgs) =~= announced);
}

/// Begin messages count toward the cap though they announce nothing: a tick
/// on a queue that starts with `MAX_PER_FRAME` begin messages announces
/// nothing and leaves all that follows them queued.
pub proof fn theorem_begins_count_toward_the_cap(queue: Seq<StreamMsgView>)
    requires
        queue.len() >= MAX_PER_FRAME,
        forall|i: int| 0 <= i < MAX_PER_FRAME ==> (#[trigger] queue[i]) is Begin,
    ensures
        aggregate_spec(tick(queue).batch) == Seq::<ChatEventView>::empty(),
        tick(queue).left == queue.skip(MAX_PER_FRAME as int),
{
    theorem_tick_takes_the_oldest(queue);
    let batch = queue.take(MAX_PER_FRAME as int);
    assert forall|i: int| 0 <= i < batch.len() implies (#[trigger] batch[i]) is Begin by {
        assert(batch[i] == queue[i]);
    }
    lemma_begins_announce_nothing(batch);
}

} // verus!
