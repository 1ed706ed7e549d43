//! What the host observes over several ticks, however the inbox's contents
//! are cut into the batches that the ticks take out.

use vstd::prelude::*;
use crate::drain::{
    aggregate_spec, completed_events, delta_entities, delta_events, delta_for, entity_text,
    error_events, lemma_absent_entity_has_no_text, lemma_delta_entities_distinct, tool_events,
};
use crate::event::{ChatEventView, StreamMsgView};
use crate::trace::{
    lemma_entity_text_push, run, theorem_deltas_carry_accumulated_text,
    theorem_one_terminal_message_last,
};
use crate::turn::{Coalescing, TurnEventView, initial_state};

verus! {

/// The messages of several batches, in the order in which they were taken
/// out of the inbox.
pub open spec fn joined(batches: Seq<Seq<StreamMsgView>>) -> Seq<StreamMsgView>
    decreases batches.len(),
{
    if batches.len() == 0 {
        Seq::empty()
    } else {
        joined(batches.drop_last()) + batches.last()
    }
}

/// What the host observes when each of `batches` is announced by one tick.
pub open spec fn observed(batches: Seq<Seq<StreamMsgView>>) -> Seq<ChatEventView>
    decreases batches.len(),
{
    if batches.len() == 0 {
        Seq::empty()
    } else {
        observed(batches.drop_last()) + aggregate_spec(batches.last())
    }
}

/// The text `event` announces for `entity`: its own if it announces text of
/// that session, none otherwise.
pub open spec fn text_of(event: ChatEventView, entity: u64) -> Seq<char> {
    match event {
        ChatEventView::Delta { entity: e, text } if e == entity => text,
        _ => Seq::empty(),
    }
}

/// All text announced for `entity` in `events`, concatenated in order.
pub open spec fn announced_text(events: Seq<ChatEventView>, entity: u64) -> Seq<char>
    decreases events.len(),
{
    if events.len() == 0 {
        Seq::empty()
    } else {
        announced_text(events.drop_last(), entity) + text_of(events.last(), entity)
    }
}

/// The messages of `entity` in `msgs`, in order.
pub open spec fn of_entity(msgs: Seq<StreamMsgView>, entity: u64) -> Seq<StreamMsgView>
    decreases msgs.len(),
{
    if msgs.len() == 0 {
        Seq::empty()
    } else {
        let before = of_entity(msgs.drop_last(), entity);
        if msgs.last().entity() == entity {
            before.push(msgs.last())
        } else {
            before
        }
    }
}

/// Whether some delta of `entity` comes after a terminal message of `entity`.
pub open spec fn delta_follows_terminal(msgs: Seq<StreamMsgView>, entity: u64) -> bool {
    exists|i: int, j: int|
        0 <= i < j < msgs.len() && (#[trigger] msgs[i]).is_terminal() && msgs[i].entity() == entity
            && (#[trigger] msgs[j]) is Delta && msgs[j].entity() == entity
}

/// Whether some text of `entity` is announced after its completion or failure.
pub open spec fn text_follows_terminal(events: Seq<ChatEventView>, entity: u64) -> bool {
    exists|i: int, j: int|
        0 <= i < j < events.len() && (#[trigger] events[i]).is_terminal() && events[i].entity()
            == entity && (#[trigger] events[j]) is Delta && events[j].entity() == entity
}

/// Whether a terminal message of `entity` is among `msgs`.
pub open spec fn has_terminal(msgs: Seq<StreamMsgView>, entity: u64) -> bool {
    exists|i: int|
        0 <= i < msgs.len() && (#[trigger] msgs[i]).is_terminal() && msgs[i].entity() == entity
}

/// Whether a delta of `entity` is among `msgs`.
pub open spec fn has_delta(msgs: Seq<StreamMsgView>, entity: u64) -> bool {
    exists|i: int|
        0 <= i < msgs.len() && (#[trigger] msgs[i]) is Delta && msgs[i].entity() == entity
}

/// The delta text of a concatenation is the concatenation of the delta texts.
pub proof fn lemma_entity_text_concat(a: Seq<StreamMsgView>, b: Seq<StreamMsgView>, entity: u64)
    ensures
        entity_text(a + b, entity) == entity_text(a, entity) + entity_text(b, entity),
    decreases b.len(),
{
    if b.len() == 0 {
        assert(a + b =~= a);
        assert(entity_text(a, entity) + Seq::<char>::empty() =~= entity_text(a, entity));
    } else {
        lemma_entity_text_concat(a, b.drop_last(), entity);
        assert((a + b).drop_last() =~= a + b.drop_last());
        assert((entity_text(a, entity) + entity_text(b.drop_last(), entity)) + delta_for(
            b.last(),
            entity,
        ) =~= entity_text(a, entity) + (entity_text(b.drop_last(), entity) + delta_for(
            b.last(),
            entity,
        )));
    }
}

/// Appending an announcement appends the text it announces for the session.
proof fn lemma_announced_text_push(events: Seq<ChatEventView>, event: ChatEventView, entity: u64)
    ensures
        announced_text(events.push(event), entity) == announced_text(events, entity) + text_of(
            event,
            entity,
        ),
{
    assert(events.push(event).drop_last() =~= events);
}

/// The announced text of a concatenation is the concatenation of the
/// announced texts.
pub proof fn lemma_announced_text_concat(a: Seq<ChatEventView>, b: Seq<ChatEventView>, entity: u64)
    ensures
        announced_text(a + b, entity) == announced_text(a, entity) + announced_text(b, entity),
    decreases b.len(),
{
    if b.len() == 0 {
        assert(a + b =~= a);
        assert(announced_text(a, entity) + Seq::<char>::empty() =~= announced_text(a, entity));
    } else {
        lemma_announced_text_concat(a, b.drop_last(), entity);
        assert((a + b).drop_last() =~= a + b.drop_last());
        assert((announced_text(a, entity) + announced_text(b.drop_last(), entity)) + text_of(
            b.last(),
            entity,
        ) =~= announced_text(a, entity) + (announced_text(b.drop_last(), entity) + text_of(
            b.last(),
            entity,
        )));
    }
}

/// Every tool announcement stems from a tool message; none announces text.
proof fn lemma_tool_events(msgs: Seq<StreamMsgView>, entity: u64)
    ensures
        forall|k: int|
            0 <= k < tool_events(msgs).len() ==> (#[trigger] tool_events(msgs)[k]) is ToolCalls,
        announced_text(tool_events(msgs), entity) == Seq::<char>::empty(),
    decreases msgs.len(),
{
    if msgs.len() > 0 {
        lemma_tool_events(msgs.drop_last(), entity);
        let before = tool_events(msgs.drop_last());
        if msgs.last() is Tool {
            lemma_announced_text_push(before, tool_events(msgs).last(), entity);
            assert(Seq::<char>::empty() + Seq::<char>::empty() =~= Seq::<char>::empty());
        }
    }
}

/// Every completion announcement stems from a done message of the same
/// session; none announces text.
proof fn lemma_completed_events(msgs: Seq<StreamMsgView>, entity: u64)
    ensures
        forall|k: int|
            0 <= k < completed_events(msgs).len() ==> (#[trigger] completed_events(msgs)[k])
                is Completed && has_terminal(msgs, completed_events(msgs)[k].entity()),
        announced_text(completed_events(msgs), entity) == Seq::<char>::empty(),
    decreases msgs.len(),
{
    if msgs.len() > 0 {
        let front = msgs.drop_last();
        lemma_completed_events(front, entity);
        let before = completed_events(front);
        if msgs.last() is Done {
            lemma_announced_text_push(before, completed_events(msgs).last(), entity);
            assert(Seq::<char>::empty() + Seq::<char>::empty() =~= Seq::<char>::empty());
        }
        assert forall|k: int| 0 <= k < completed_events(msgs).len() implies has_terminal(
            msgs,
            (#[trigger] completed_events(msgs)[k]).entity(),
        ) by {
            let e = completed_events(msgs)[k].entity();
            if k < before.len() {
                assert(has_terminal(front, before[k].entity()));
                let i = choose|i: int|
                    0 <= i < front.len() && (#[trigger] front[i]).is_terminal() && front[i].entity()
                        == e;
                assert(msgs[i].is_terminal() && msgs[i].entity() == e);
            } else {
                assert(msgs[msgs.len() - 1].is_terminal() && msgs[msgs.len() - 1].entity() == e);
            }
        }
    }
}

/// Every failure announcement stems from an error message of the same
/// session; none announces text.
proof fn lemma_error_events(msgs: Seq<StreamMsgView>, entity: u64)
    ensures
        forall|k: int|
            0 <= k < error_events(msgs).len() ==> (#[trigger] error_events(msgs)[k]) is Error
                && has_terminal(msgs, error_events(msgs)[k].entity()),
        announced_text(error_events(msgs), entity) == Seq::<char>::empty(),
    decreases msgs.len(),
{
    if msgs.len() > 0 {
        let front = msgs.drop_last();
        lemma_error_events(front, entity);
        let before = error_events(front);
        if msgs.last() is Error {
            lemma_announced_text_push(before, error_events(msgs).last(), entity);
            assert(Seq::<char>::empty() + Seq::<char>::empty() =~= Seq::<char>::empty());
        }
        assert forall|k: int| 0 <= k < error_events(msgs).len() implies has_terminal(
            msgs,
            (#[trigger] error_events(msgs)[k]).entity(),
        ) by {
            let e = error_events(msgs)[k].entity();
            if k < before.len() {
                assert(has_terminal(front, before[k].entity()));
                let i = choose|i: int|
                    0 <= i < front.len() && (#[trigger] front[i]).is_terminal() && front[i].entity()
                        == e;
                assert(msgs[i].is_terminal() && msgs[i].entity() == e);
            } else {
                assert(msgs[msgs.len() - 1].is_terminal() && msgs[msgs.len() - 1].entity() == e);
            }
        }
    }
}

/// Every session with announced text has a delta among the messages.
proof fn lemma_delta_entities_have_deltas(msgs: Seq<StreamMsgView>)
    ensures
        forall|k: int|
            0 <= k < delta_entities(msgs).len() ==> has_delta(
                msgs,
                #[trigger] delta_entities(msgs)[k],
            ),
    decreases msgs.len(),
{
    if msgs.len() > 0 {
        let front = msgs.drop_last();
        lemma_delta_entities_have_deltas(front);
        let before = delta_entities(front);
        assert forall|k: int| 0 <= k < delta_entities(msgs).len() implies has_delta(
            msgs,
            #[trigger] delta_entities(msgs)[k],
        ) by {
            let e = delta_entities(msgs)[k];
            if k < before.len() {
                assert(has_delta(front, before[k]));
                let i = choose|i: int|
                    0 <= i < front.len() && (#[trigger] front[i]) is Delta && front[i].entity()
                        == e;
                assert(msgs[i] is Delta && msgs[i].entity() == e);
            } else {
                assert(msgs[msgs.len() - 1] is Delta && msgs[msgs.len() - 1].entity() == e);
            }
        }
    }
}

/// The first `k` text announcements of a batch announce, for `entity`, all of
/// its text if the session is among them and nothing otherwise.
proof fn lemma_delta_events_prefix(msgs: Seq<StreamMsgView>, entity: u64, k: int)
    requires
        0 <= k <= delta_entities(msgs).len(),
    ensures
        announced_text(delta_events(msgs).take(k), entity) == if delta_entities(msgs).take(
            k,
        ).contains(entity) {
            entity_text(msgs, entity)
        } else {
            Seq::<char>::empty()
        },
    decreases k,
{
    let sessions = delta_entities(msgs);
    let events = delta_events(msgs);
    if k == 0 {
        assert(events.take(0) =~= Seq::<ChatEventView>::empty());
        assert(sessions.take(0) =~= Seq::<u64>::empty());
    } else {
        lemma_delta_events_prefix(msgs, entity, k - 1);
        lemma_delta_entities_distinct(msgs);
        assert(events.take(k) =~= events.take(k - 1).push(events[k - 1]));
        assert(sessions.take(k) =~= sessions.take(k - 1).push(sessions[k - 1]));
        lemma_announced_text_push(events.take(k - 1), events[k - 1], entity);
        let text = entity_text(msgs, entity);
        if sessions.take(k - 1).contains(entity) {
            let shorter = sessions.take(k - 1);
            let i = choose|i: int| 0 <= i < shorter.len() && shorter[i] == entity;
            assert(sessions[i] == entity);
            assert(sessions.take(k)[i] == entity);
            assert(sessions[k - 1] != entity);
            assert(text + Seq::<char>::empty() =~= text);
        } else if sessions[k - 1] == entity {
            assert(sessions.take(k)[k - 1] == entity);
            assert(Seq::<char>::empty() + text =~= text);
        } else {
            assert(!sessions.take(k).contains(entity)) by {
                if sessions.take(k).contains(entity) {
                    let longer = sessions.take(k);
                    let i = choose|i: int| 0 <= i < longer.len() && longer[i] == entity;
                    assert(sessions.take(k - 1)[i] == entity);
                }
            }
            assert(Seq::<char>::empty() + Seq::<char>::empty() =~= Seq::<char>::empty());
        }
    }
}

/// One tick announces for a session exactly the delta text that its batch
/// holds for that session.
pub proof fn lemma_tick_announces_entity_text(msgs: Seq<StreamMsgView>, entity: u64)
    ensures
        announced_text(aggregate_spec(msgs), entity) == entity_text(msgs, entity),
{
    let sessions = delta_entities(msgs);
    lemma_delta_events_prefix(msgs, entity, sessions.len() as int);
    assert(delta_events(msgs).take(sessions.len() as int) =~= delta_events(msgs));
    assert(sessions.take(sessions.len() as int) =~= sessions);
    if !sessions.contains(entity) {
        lemma_absent_entity_has_no_text(msgs, entity);
    }
    lemma_tool_events(msgs, entity);
    lemma_completed_events(msgs, entity);
    lemma_error_events(msgs, entity);
    let d = delta_events(msgs);
    let t = tool_events(msgs);
    let c = completed_events(msgs);
    let e = error_events(msgs);
    lemma_announced_text_concat(d, t, entity);
    lemma_announced_text_concat(d + t, c, entity);
    lemma_announced_text_concat(d + t + c, e, entity);
    let text = entity_text(msgs, entity);
    assert(((text + Seq::<char>::empty()) + Seq::<char>::empty()) + Seq::<char>::empty() =~= text);
}

/// Over any number of ticks the host is told, for each session, exactly the
/// delta text that went through the inbox for it, in arrival order: where
/// the ticks cut the stream of messages makes no difference.
pub proof fn theorem_ticks_conserve_text(batches: Seq<Seq<StreamMsgView>>, entity: u64)
    ensures
        announced_text(observed(batches), entity) == entity_text(joined(batches), entity),
    decreases batches.len(),
{
    if batches.len() > 0 {
        theorem_ticks_conserve_text(batches.drop_last(), entity);
        lemma_tick_announces_entity_text(batches.last(), entity);
        lemma_announced_text_concat(
            observed(batches.drop_last()),
            aggregate_spec(batches.last()),
            entity,
        );
        lemma_entity_text_concat(joined(batches.drop_last()), batches.last(), entity);
    }
}

/// The delta text of a session does not depend on the messages of other
/// sessions that arrive in between.
pub proof fn lemma_entity_text_ignores_others(msgs: Seq<StreamMsgView>, entity: u64)
    ensures
        entity_text(msgs, entity) == entity_text(of_entity(msgs, entity), entity),
    decreases msgs.len(),
{
    if msgs.len() > 0 {
        lemma_entity_text_ignores_others(msgs.drop_last(), entity);
        let before = of_entity(msgs.drop_last(), entity);
        if msgs.last().entity() == entity {
            lemma_entity_text_push(before, msgs.last(), entity);
        } else {
            assert(entity_text(msgs.drop_last(), entity) + Seq::<char>::empty() =~= entity_text(
                msgs.drop_last(),
                entity,
            ));
        }
    }
}

/// The messages of a session within the first `n` messages are the first of
/// its messages overall.
proof fn lemma_of_entity_prefix(msgs: Seq<StreamMsgView>, entity: u64, n: int)
    requires
        0 <= n <= msgs.len(),
    ensures
        of_entity(msgs.take(n), entity).len() <= of_entity(msgs, entity).len(),
        of_entity(msgs.take(n), entity) == of_entity(msgs, entity).take(
            of_entity(msgs.take(n), entity).len() as int,
        ),
    decreases msgs.len() - n,
{
    let all = of_entity(msgs, entity);
    if n == msgs.len() {
        assert(msgs.take(n) =~= msgs);
        assert(all.take(all.len() as int) =~= all);
    } else {
        lemma_of_entity_prefix(msgs, entity, n + 1);
        let longer = of_entity(msgs.take(n + 1), entity);
        let shorter = of_entity(msgs.take(n), entity);
        assert(msgs.take(n + 1).drop_last() =~= msgs.take(n));
        assert(shorter =~= longer.take(shorter.len() as int));
        assert(shorter =~= all.take(shorter.len() as int));
    }
}

/// A message of a session keeps its place among the messages of that
/// session: what came before it still comes before it.
proof fn lemma_of_entity_keeps_order(msgs: Seq<StreamMsgView>, entity: u64, i: int, j: int)
    requires
        0 <= i < j < msgs.len(),
        msgs[i].entity() == entity,
        msgs[j].entity() == entity,
    ensures
        ({
            let ri = of_entity(msgs.take(i), entity).len() as int;
            let rj = of_entity(msgs.take(j), entity).len() as int;
            &&& 0 <= ri < rj < of_entity(msgs, entity).len()
            &&& of_entity(msgs, entity)[ri] == msgs[i]
            &&& of_entity(msgs, entity)[rj] == msgs[j]
        }),
{
    let all = of_entity(msgs, entity);
    let upto_i = of_entity(msgs.take(i + 1), entity);
    let upto_j = of_entity(msgs.take(j + 1), entity);
    assert(msgs.take(i + 1).drop_last() =~= msgs.take(i));
    assert(msgs.take(j + 1).drop_last() =~= msgs.take(j));
    lemma_of_entity_prefix(msgs, entity, i + 1);
    lemma_of_entity_prefix(msgs, entity, j + 1);
    assert(all.take(upto_i.len() as int)[upto_i.len() - 1] == msgs[i]);
    assert(all.take(upto_j.len() as int)[upto_j.len() - 1] == msgs[j]);
    assert(msgs.take(j).take(i + 1) =~= msgs.take(i + 1));
    lemma_of_entity_prefix(msgs.take(j), entity, i + 1);
}

/// A completion or failure that one tick announces stems from a terminal
/// message of that session in the tick's batch.
proof fn lemma_terminal_event_has_message(msgs: Seq<StreamMsgView>, k: int)
    requires
        0 <= k < aggregate_spec(msgs).len(),
        aggregate_spec(msgs)[k].is_terminal(),
    ensures
        has_terminal(msgs, aggregate_spec(msgs)[k].entity()),
        k >= delta_events(msgs).len(),
{
    let entity = aggregate_spec(msgs)[k].entity();
    lemma_tool_events(msgs, entity);
    lemma_completed_events(msgs, entity);
    lemma_error_events(msgs, entity);
    let d = delta_events(msgs);
    let t = tool_events(msgs);
    let c = completed_events(msgs);
    let e = error_events(msgs);
    if k < d.len() {
        assert(aggregate_spec(msgs)[k] == d[k]);
    } else if k < d.len() + t.len() {
        assert(aggregate_spec(msgs)[k] == t[k - d.len()]);
    } else if k < d.len() + t.len() + c.len() {
        assert(aggregate_spec(msgs)[k] == c[k - d.len() - t.len()]);
    } else {
        assert(aggregate_spec(msgs)[k] == e[k - d.len() - t.len() - c.len()]);
    }
}

/// Text that one tick announces stems from a delta of that session in the
/// tick's batch, and the tick announces it before any completion or failure.
proof fn lemma_delta_event_has_message(msgs: Seq<StreamMsgView>, k: int)
    requires
        0 <= k < aggregate_spec(msgs).len(),
        aggregate_spec(msgs)[k] is Delta,
    ensures
        has_delta(msgs, aggregate_spec(msgs)[k].entity()),
        k < delta_events(msgs).len(),
{
    let entity = aggregate_spec(msgs)[k].entity();
    lemma_tool_events(msgs, entity);
    lemma_completed_events(msgs, entity);
    lemma_error_events(msgs, entity);
    lemma_delta_entities_have_deltas(msgs);
    let d = delta_events(msgs);
    let t = tool_events(msgs);
    let c = completed_events(msgs);
    let e = error_events(msgs);
    if k < d.len() {
        assert(aggregate_spec(msgs)[k] == d[k]);
        assert(has_delta(msgs, delta_entities(msgs)[k]));
    } else if k < d.len() + t.len() {
        assert(aggregate_spec(msgs)[k] == t[k - d.len()]);
    } else if k < d.len() + t.len() + c.len() {
        assert(aggregate_spec(msgs)[k] == c[k - d.len() - t.len()]);
    } else {
        assert(aggregate_spec(msgs)[k] == e[k - d.len() - t.len() - c.len()]);
    }
}

/// A completion or failure that the host has observed stems from a terminal
/// message of that session in one of the batches.
proof fn lemma_observed_terminal_has_message(batches: Seq<Seq<StreamMsgView>>, k: int)
    requires
        0 <= k < observed(batches).len(),
        observed(batches)[k].is_terminal(),
    ensures
        has_terminal(joined(batches), observed(batches)[k].entity()),
    decreases batches.len(),
{
    if batches.len() > 0 {
        let entity = observed(batches)[k].entity();
        let earlier = observed(batches.drop_last());
        let front = joined(batches.drop_last());
        let all = joined(batches);
        if k < earlier.len() {
            assert(observed(batches)[k] == earlier[k]);
            lemma_observed_terminal_has_message(batches.drop_last(), k);
            let i = choose|i: int|
                0 <= i < front.len() && (#[trigger] front[i]).is_terminal() && front[i].entity()
                    == entity;
            assert(all[i] == front[i]);
        } else {
            let last = batches.last();
            assert(observed(batches)[k] == aggregate_spec(last)[k - earlier.len()]);
            lemma_terminal_event_has_message(last, k - earlier.len());
            let i = choose|i: int|
                0 <= i < last.len() && (#[trigger] last[i]).is_terminal() && last[i].entity()
                    == entity;
            assert(all[front.len() + i] == last[i]);
        }
    }
}

/// If no delta of a session follows a terminal message of that session in
/// the inbox, then the host is never told text of that session after it was
/// told that the session's turn completed or failed, however the ticks cut
/// the stream of messages into batches.
pub proof fn theorem_no_text_after_terminal(batches: Seq<Seq<StreamMsgView>>, entity: u64)
    requires
        !delta_follows_terminal(joined(batches), entity),
    ensures
        !text_follows_terminal(observed(batches), entity),
    decreases batches.len(),
{
    if batches.len() > 0 {
        let earlier = observed(batches.drop_last());
        let front = joined(batches.drop_last());
        let last = batches.last();
        let all = joined(batches);
        let events = observed(batches);
        assert(!delta_follows_terminal(front, entity)) by {
            if delta_follows_terminal(front, entity) {
                let (i, j) = choose|i: int, j: int|
                    0 <= i < j < front.len() && (#[trigger] front[i]).is_terminal()
                        && front[i].entity() == entity && (#[trigger] front[j]) is Delta
                        && front[j].entity() == entity;
                assert(all[i] == front[i] && all[j] == front[j]);
            }
        }
        theorem_no_text_after_terminal(batches.drop_last(), entity);
        if text_follows_terminal(events, entity) {
            let (i, j) = choose|i: int, j: int|
                0 <= i < j < events.len() && (#[trigger] events[i]).is_terminal()
                    && events[i].entity() == entity && (#[trigger] events[j]) is Delta
                    && events[j].entity() == entity;
            if j < earlier.len() {
                assert(earlier[i] == events[i] && earlier[j] == events[j]);
            } else {
                assert(events[j] == aggregate_spec(last)[j - earlier.len()]);
                lemma_delta_event_has_message(last, j - earlier.len());
                let q = choose|q: int|
                    0 <= q < last.len() && (#[trigger] last[q]) is Delta && last[q].entity()
                        == entity;
                assert(all[front.len() + q] == last[q]);
                if i < earlier.len() {
                    assert(earlier[i] == events[i]);
                    lemma_observed_terminal_has_message(batches.drop_last(), i);
                    let p = choose|p: int|
                        0 <= p < front.len() && (#[trigger] front[p]).is_terminal()
                            && front[p].entity() == entity;
                    assert(all[p] == front[p]);
                } else {
                    assert(events[i] == aggregate_spec(last)[i - earlier.len()]);
                    lemma_terminal_event_has_message(last, i - earlier.len());
                }
            }
        }
    }
}

/// The whole way of one turn's text. Let a turn of `entity` coalesce by any
/// rule, take any answers and reach its end, let the inbox hand its messages
/// on in order, mixed in any way with those of other sessions, and let the
/// ticks cut what arrives into any batches. Then the text that the host is
/// told for `entity`, put together, is the text that the turn accumulated.
pub proof fn theorem_observed_text_is_accumulated_text(
    rule: Coalescing,
    entity: u64,
    stream: bool,
    events: Seq<TurnEventView>,
    batches: Seq<Seq<StreamMsgView>>,
)
    requires
        of_entity(joined(batches), entity) == run(
            rule,
            initial_state(entity, stream),
            events,
        ).emitted,
        ({
            let phase = run(rule, initial_state(entity, stream), events).state.phase;
            phase is AwaitingHistory || phase is Finished
        }),
    ensures
        announced_text(observed(batches), entity) == run(
            rule,
            initial_state(entity, stream),
            events,
        ).state.text,
{
    theorem_ticks_conserve_text(batches, entity);
    lemma_entity_text_ignores_others(joined(batches), entity);
    theorem_deltas_carry_accumulated_text(rule, entity, stream, events);
}

/// Whether `part` is what is left of `whole` after some of its members were
/// dropped: the k-th member of `part` is the member of `whole` at `at[k]`,
/// and the members of `part` stand in the order they have in `whole`.
pub open spec fn kept_from(
    part: Seq<StreamMsgView>,
    whole: Seq<StreamMsgView>,
    at: Seq<int>,
) -> bool {
    &&& at.len() == part.len()
    &&& forall|k: int|
        0 <= k < part.len() ==> 0 <= #[trigger] at[k] < whole.len() && whole[at[k]] == part[k]
    &&& forall|k: int, l: int| 0 <= k < l < part.len() ==> #[trigger] at[k] < #[trigger] at[l]
}

/// The whole way of one turn's end. Let a turn of `entity` take any
/// answers, let the inbox hand on those of its messages that it did not
/// drop, in order and mixed in any way with those of other sessions, and let
/// the ticks cut what arrives into any batches. Then the host is never told
/// text of `entity` after it was told that the turn completed or failed.
pub proof fn theorem_no_text_observed_after_turn_ends(
    rule: Coalescing,
    entity: u64,
    stream: bool,
    events: Seq<TurnEventView>,
    batches: Seq<Seq<StreamMsgView>>,
    at: Seq<int>,
)
    requires
        kept_from(
            of_entity(joined(batches), entity),
            run(rule, initial_state(entity, stream), events).emitted,
            at,
        ),
    ensures
        !text_follows_terminal(observed(batches), entity),
{
    let all = joined(batches);
    let arrived = of_entity(all, entity);
    let emitted = run(rule, initial_state(entity, stream), events).emitted;
    theorem_one_terminal_message_last(rule, entity, stream, events);
    assert(!delta_follows_terminal(all, entity)) by {
        if delta_follows_terminal(all, entity) {
            let (i, j) = choose|i: int, j: int|
                0 <= i < j < all.len() && (#[trigger] all[i]).is_terminal() && all[i].entity()
                    == entity && (#[trigger] all[j]) is Delta && all[j].entity() == entity;
            lemma_of_entity_keeps_order(all, entity, i, j);
            let ri = of_entity(all.take(i), entity).len() as int;
            let rj = of_entity(all.take(j), entity).len() as int;
            assert(emitted[at[ri]] == arrived[ri]);
            assert(emitted[at[rj]] == arrived[rj]);
            assert(at[ri] < at[rj]);
            assert(emitted[at[ri]].is_terminal());
            assert(emitted[at[rj]] is Delta);
        }
    }
    theorem_no_text_after_terminal(batches, entity);
}

} // verus!
