//! The consumer side of the inbox: what one tick announces for the messages
//! it took out.

use vstd::prelude::*;
use crate::event::{
    ChatCompletedEvt, ChatDeltaEvt, ChatErrorEvt, ChatEvent, ChatEventView, ChatToolCallsEvt,
    StreamMsg, StreamMsgView, events_view, msgs_view,
};

verus! {

/// The text `msg` adds for `entity`: its own if it is a delta of that
/// session, none otherwise.
pub open spec fn delta_for(msg: StreamMsgView, entity: u64) -> Seq<char> {
    match msg {
        StreamMsgView::Delta { entity: e, text } if e == entity => text,
        _ => Seq::empty(),
    }
}

/// All delta text of `entity` in `msgs`, concatenated in arrival order.
pub open spec fn entity_text(msgs: Seq<StreamMsgView>, entity: u64) -> Seq<char>
    decreases msgs.len(),
{
    if msgs.len() == 0 {
        Seq::empty()
    } else {
        entity_text(msgs.drop_last(), entity) + delta_for(msgs.last(), entity)
    }
}

/// The sessions that have a delta in `msgs`, each once, in the order in which
/// their first delta arrived.
pub open spec fn delta_entities(msgs: Seq<StreamMsgView>) -> Seq<u64>
    decreases msgs.len(),
{
    if msgs.len() == 0 {
        Seq::empty()
    } else {
        let before = delta_entities(msgs.drop_last());
        match msgs.last() {
            StreamMsgView::Delta { entity, .. } if !before.contains(entity) => before.push(entity),
            _ => before,
        }
    }
}

/// One announcement of appended text per session in `delta_entities`, with
/// all of that session's text.
pub open spec fn delta_events(msgs: Seq<StreamMsgView>) -> Seq<ChatEventView> {
    let entities = delta_entities(msgs);
    Seq::new(
        entities.len(),
        |k: int| ChatEventView::Delta { entity: entities[k], text: entity_text(msgs, entities[k]) },
    )
}

/// The tool-call announcements of `msgs`, one per tool message, in arrival
/// order.
pub open spec fn tool_events(msgs: Seq<StreamMsgView>) -> Seq<ChatEventView>
    decreases msgs.len(),
{
    if msgs.len() == 0 {
        Seq::empty()
    } else {
        let before = tool_events(msgs.drop_last());
        match msgs.last() {
            StreamMsgView::Tool { entity, calls } => before.push(
                ChatEventView::ToolCalls { entity, calls },
            ),
            _ => before,
        }
    }
}

/// The completion announcements of `msgs`, one per done message, in arrival
/// order.
pub open spec fn completed_events(msgs: Seq<StreamMsgView>) -> Seq<ChatEventView>
    decreases msgs.len(),
{
    if msgs.len() == 0 {
        Seq::empty()
    } else {
        let before = completed_events(msgs.drop_last());
        match msgs.last() {
            StreamMsgView::Done { entity, final_text, memory } => before.push(
                ChatEventView::Completed { entity, final_text, memory },
            ),
            _ => before,
        }
    }
}

/// The failure announcements of `msgs`, one per error message, in arrival
/// order.
pub open spec fn error_events(msgs: Seq<StreamMsgView>) -> Seq<ChatEventView>
    decreases msgs.len(),
{
    if msgs.len() == 0 {
        Seq::empty()
    } else {
        let before = error_events(msgs.drop_last());
        match msgs.last() {
            StreamMsgView::Error { entity, error } => before.push(
                ChatEventView::Error { entity, error },
            ),
            _ => before,
        }
    }
}

/// What one tick announces for the messages it took out of the inbox: first
/// the appended text, coalesced per session; then the tool calls; then the
/// completions; then the failures. Begin messages announce nothing.
pub open spec fn aggregate_spec(msgs: Seq<StreamMsgView>) -> Seq<ChatEventView> {
    delta_events(msgs) + tool_events(msgs) + completed_events(msgs) + error_events(msgs)
}

/// A session without a delta in `msgs` has no delta text there.
pub proof fn lemma_absent_entity_has_no_text(msgs: Seq<StreamMsgView>, entity: u64)
    requires
        !delta_entities(msgs).contains(entity),
    ensures
        entity_text(msgs, entity) == Seq::<char>::empty(),
    decreases msgs.len(),
{
    if msgs.len() > 0 {
        let before = delta_entities(msgs.drop_last());
        assert(!before.contains(entity)) by {
            if before.contains(entity) {
                let k = choose|k: int| 0 <= k < before.len() && before[k] == entity;
                assert(delta_entities(msgs)[k] == entity);
            }
        }
        lemma_absent_entity_has_no_text(msgs.drop_last(), entity);
        match msgs.last() {
            StreamMsgView::Delta { entity: e, .. } => {
                if e == entity {
                    assert(delta_entities(msgs).last() == entity);
                }
            },
            _ => {},
        }
    }
}

/// No session occurs twice in `delta_entities`.
pub proof fn lemma_delta_entities_distinct(msgs: Seq<StreamMsgView>)
    ensures
        forall|i: int, j: int|
            0 <= i < j < delta_entities(msgs).len() ==> delta_entities(msgs)[i] != delta_entities(
                msgs,
            )[j],
    decreases msgs.len(),
{
    if msgs.len() > 0 {
        lemma_delta_entities_distinct(msgs.drop_last());
        let before = delta_entities(msgs.drop_last());
        let now = delta_entities(msgs);
        assert forall|i: int, j: int| 0 <= i < j < now.len() implies now[i] != now[j] by {
            if j == before.len() {
                assert(!before.contains(now[j]));
                assert(before[i] == now[i]);
            }
        }
    }
}

/// The position of `entity` among the sessions collected so far.
fn find_entity(deltas: &Vec<ChatDeltaEvt>, entity: u64) -> (found: Option<usize>)
    ensures
        match found {
            Some(k) => k < deltas.len() && deltas[k as int].entity == entity,
            None => forall|k: int| 0 <= k < deltas.len() ==> deltas[k].entity != entity,
        },
{
    let mut k: usize = 0;
    while k < deltas.len()
        invariant
            k <= deltas.len(),
            forall|j: int| 0 <= j < k ==> deltas[j].entity != entity,
        decreases deltas.len() - k,
    {
        if deltas[k].entity == entity {
            return Some(k);
        }
        k += 1;
    }
    None
}

/// Whether `deltas` holds, for the messages `seen`, each session with a delta
/// once and in order of first arrival, with all of its text.
spec fn collects(deltas: Seq<ChatDeltaEvt>, seen: Seq<StreamMsgView>) -> bool {
    &&& deltas.len() == delta_entities(seen).len()
    &&& forall|k: int|
        0 <= k < deltas.len() ==> (#[trigger] deltas[k]).entity == delta_entities(seen)[k]
            && deltas[k].text@ == entity_text(seen, delta_entities(seen)[k])
}

/// Turns the messages taken out of the inbox in one tick into announcements.
///
/// All text of a session is announced once, concatenated in arrival order,
/// and before any completion or failure of this tick.
pub fn aggregate(drained: Vec<StreamMsg>) -> (events: Vec<ChatEvent>)
    ensures
        events_view(events@) == aggregate_spec(msgs_view(drained@)),
{
    let ghost all = msgs_view(drained@);
    let mut deltas: Vec<ChatDeltaEvt> = Vec::new();
    let mut tools: Vec<ChatEvent> = Vec::new();
    let mut dones: Vec<ChatEvent> = Vec::new();
    let mut errs: Vec<ChatEvent> = Vec::new();
    let mut n: usize = 0;
    let total = drained.len();
    for msg in it: drained.into_iter()
        invariant
            n == it.index(),
            total == drained@.len(),
            it.seq() == drained@,
            all == msgs_view(drained@),
            collects(deltas@, all.take(n as int)),
            events_view(tools@) == tool_events(all.take(n as int)),
            events_view(dones@) == completed_events(all.take(n as int)),
            events_view(errs@) == error_events(all.take(n as int)),
    {
        let ghost seen = all.take(n as int);
        let ghost next = all.take(n as int + 1);
        assert(next.drop_last() =~= seen);
        assert(next.last() == msg@);
        match msg {
            StreamMsg::Begin { .. } => {},
            StreamMsg::Delta { entity, text } => {
                match find_entity(&deltas, entity) {
                    Some(k) => {
                        let ghost earlier = deltas@;
                        deltas[k].text.append(text.as_str());
                        proof {
                            lemma_delta_entities_distinct(seen);
                        }
                        let ghost sessions = delta_entities(seen);
                        assert(earlier[k as int].entity == entity);
                        assert(sessions[k as int] == entity);
                        assert(delta_entities(next) == sessions);
                        assert forall|j: int| 0 <= j < deltas@.len() && j != k implies entity_text(
                            next,
                            sessions[j],
                        ) == entity_text(seen, sessions[j]) by {
                            assert(sessions[j] != entity);
                            assert(entity_text(seen, sessions[j]) + Seq::<char>::empty()
                                =~= entity_text(seen, sessions[j]));
                        }
                        assert forall|j: int| 0 <= j < deltas@.len() && j != k implies deltas@[j]
                            == earlier[j] by {}
                    },
                    None => {
                        assert(!delta_entities(seen).contains(entity)) by {
                            if delta_entities(seen).contains(entity) {
                                let j = choose|j: int|
                                    0 <= j < delta_entities(seen).len() && delta_entities(seen)[j]
                                        == entity;
                                assert(deltas@[j].entity == entity);
                            }
                        }
                        proof {
                            lemma_absent_entity_has_no_text(seen, entity);
                        }
                        deltas.push(ChatDeltaEvt { entity, text });
                    },
                }
            },
            StreamMsg::Tool { entity, calls } => {
                tools.push(ChatEvent::ToolCalls(ChatToolCallsEvt { entity, calls }));
                assert(events_view(tools@) =~= tool_events(next));
            },
            StreamMsg::Done { entity, final_text, memory } => {
                dones.push(ChatEvent::Completed(ChatCompletedEvt { entity, final_text, memory }));
                assert(events_view(dones@) =~= completed_events(next));
            },
            StreamMsg::Error { entity, error } => {
                errs.push(ChatEvent::Error(ChatErrorEvt { entity, error }));
                assert(events_view(errs@) =~= error_events(next));
            },
        }
        n += 1;
    }
    assert(all.take(n as int) =~= all);
    let mut events: Vec<ChatEvent> = Vec::new();
    let ghost collected = deltas@;
    let count = deltas.len();
    let mut k: usize = 0;
    for delta in it: deltas.into_iter()
        invariant
            k == it.index(),
            it.seq() == collected,
            collected.len() == count,
            collects(collected, all),
            events_view(events@) == delta_events(all).take(k as int),
    {
        let ghost earlier = events@;
        assert(delta == collected[k as int]);
        assert(ChatEvent::Delta(delta)@ == delta_events(all)[k as int]);
        events.push(ChatEvent::Delta(delta));
        assert(events_view(events@) =~= events_view(earlier).push(delta_events(all)[k as int]));
        assert(events_view(events@) =~= delta_events(all).take(k as int + 1));
        k += 1;
    }
    assert(delta_events(all).take(k as int) =~= delta_events(all));
    let ghost a = events@;
    let ghost b = tools@;
    let ghost c = dones@;
    let ghost d = errs@;
    events.append(&mut tools);
    events.append(&mut dones);
    events.append(&mut errs);
    assert(events_view(events@) =~= events_view(a) + events_view(b) + events_view(c) + events_view(
        d,
    ));
    events
}

} // verus!
