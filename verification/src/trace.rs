//! What holds of everything a turn emits, whatever the backend answers and
//! whatever the rule by which the turn coalesces its text.

use vstd::prelude::*;
use crate::drain::{delta_for, entity_text};
use crate::event::StreamMsgView;
use crate::turn::{
    Coalescing, StreamDeltaView, TurnEventView, TurnPhase, TurnState, delta_content,
    final_text_of, initial_state, step_under,
};

verus! {

/// A turn after some answers: its state, and all it has emitted so far.
pub struct Trace {
    pub state: TurnState,
    pub emitted: Seq<StreamMsgView>,
}

/// The turn that starts in `start`, coalesces by `rule` and takes the
/// answers `events` one after the other.
pub open spec fn run(rule: Coalescing, start: TurnState, events: Seq<TurnEventView>) -> Trace
    decreases events.len(),
{
    if events.len() == 0 {
        Trace { state: start, emitted: Seq::empty() }
    } else {
        let before = run(rule, start, events.drop_last());
        let step = step_under(rule, before.state, events.last());
        Trace { state: step.next, emitted: before.emitted + step.msgs }
    }
}

/// The text of a sequence of increments, concatenated in order.
pub open spec fn contents(deltas: Seq<StreamDeltaView>) -> Seq<char>
    decreases deltas.len(),
{
    if deltas.len() == 0 {
        Seq::empty()
    } else {
        contents(deltas.drop_last()) + delta_content(deltas.last())
    }
}

/// The answers of a stream that delivers `deltas`, the k-th at clock
/// reading `clock[k]`.
pub open spec fn chunk_events(deltas: Seq<StreamDeltaView>, clock: Seq<u64>) -> Seq<TurnEventView> {
    Seq::new(deltas.len(), |k: int| TurnEventView::Chunk { delta: deltas[k], now: clock[k] })
}

/// What every trace of a turn of `entity` satisfies.
pub open spec fn well_formed(trace: Trace, entity: u64) -> bool {
    let state = trace.state;
    let emitted = trace.emitted;
    &&& state.entity == entity
    &&& forall|i: int| 0 <= i < emitted.len() ==> (#[trigger] emitted[i]).entity() == entity
    &&& entity_text(emitted, entity) + state.buf == state.text
    &&& (state.phase is AwaitingStream || state.phase is AwaitingReply) ==> emitted.len() == 0
        && state.text.len() == 0
    &&& (state.phase is AwaitingHistory || state.phase is Finished) ==> state.buf.len() == 0
    &&& forall|i: int|
        0 <= i < emitted.len() && (#[trigger] emitted[i]).is_terminal() ==> state.phase is Finished
            && i == emitted.len() - 1
    &&& state.phase is Finished ==> emitted.len() > 0 && emitted.last().is_terminal()
    &&& forall|i: int| 0 <= i < emitted.len() && (#[trigger] emitted[i]) is Begin ==> i == 0
    &&& (state.phase is Streaming || state.phase is AwaitingHistory) ==> emitted.len() > 0
    &&& emitted.len() > 0 ==> emitted[0] is Begin || emitted[0] is Error
    &&& emitted.len() > 0 && emitted.last() is Done ==> emitted.last()->final_text == final_text_of(
        state.text,
    )
}

/// Appending a message appends the text it carries for the session.
pub proof fn lemma_entity_text_push(msgs: Seq<StreamMsgView>, msg: StreamMsgView, entity: u64)
    ensures
        entity_text(msgs.push(msg), entity) == entity_text(msgs, entity) + delta_for(msg, entity),
{
    assert(msgs.push(msg).drop_last() =~= msgs);
}

/// One step keeps a trace well formed.
proof fn lemma_step_keeps_well_formed(
    rule: Coalescing,
    trace: Trace,
    event: TurnEventView,
    entity: u64,
)
    requires
        well_formed(trace, entity),
    ensures
        well_formed(
            Trace {
                state: step_under(rule, trace.state, event).next,
                emitted: trace.emitted + step_under(rule, trace.state, event).msgs,
            },
            entity,
        ),
{
    let s = trace.state;
    let step = step_under(rule, s, event);
    let out = trace.emitted + step.msgs;
    let text_before = entity_text(trace.emitted, entity);
    assert(s.buf.len() == 0 ==> s.buf =~= Seq::<char>::empty());
    if step.msgs.len() == 0 {
        assert(out =~= trace.emitted);
        match (s.phase, event) {
            (TurnPhase::Streaming, TurnEventView::Chunk { delta, now }) => {
                assert(text_before + (s.buf + delta_content(delta)) =~= (text_before + s.buf)
                    + delta_content(delta));
            },
            (TurnPhase::Streaming, TurnEventView::StreamEnded) => {
                assert(text_before + Seq::<char>::empty() =~= text_before + s.buf);
            },
            _ => {},
        }
    } else if step.msgs.len() == 1 {
        let m = step.msgs[0];
        assert(out =~= trace.emitted.push(m));
        lemma_entity_text_push(trace.emitted, m, entity);
        match (s.phase, event) {
            (TurnPhase::Streaming, TurnEventView::Chunk { delta, now }) => {
                let added = delta_content(delta);
                if m is Delta {
                    assert((text_before + (s.buf + added)) + Seq::<char>::empty() =~= (text_before
                        + s.buf) + added);
                } else {
                    assert((text_before + Seq::<char>::empty()) + (s.buf + added) =~= (text_before
                        + s.buf) + added);
                }
            },
            (TurnPhase::Streaming, TurnEventView::StreamFailed { error }) => {
                assert((text_before + Seq::<char>::empty()) + Seq::<char>::empty() =~= text_before
                    + s.buf);
            },
            (TurnPhase::Streaming, TurnEventView::StreamEnded) => {
                assert((text_before + s.buf) + Seq::<char>::empty() =~= text_before + s.buf);
            },
            (TurnPhase::AwaitingStream, TurnEventView::StreamOpened { now }) => {
                assert(text_before + Seq::<char>::empty() =~= text_before);
            },
            (TurnPhase::AwaitingReply, TurnEventView::Replied { text }) => {
                assert(text.len() == 0);
                assert(trace.emitted =~= Seq::empty());
                assert((text_before + Seq::<char>::empty()) + Seq::<char>::empty() =~= text);
            },
            (TurnPhase::AwaitingReply, TurnEventView::ReplyFailed { error }) => {
                assert(text_before + Seq::<char>::empty() =~= text_before);
            },
            (TurnPhase::AwaitingHistory, TurnEventView::History { memory }) => {
                assert(text_before + Seq::<char>::empty() =~= text_before);
            },
            _ => {},
        }
    } else {
        assert(step.msgs.len() == 2);
        let m0 = step.msgs[0];
        let m1 = step.msgs[1];
        assert(out =~= trace.emitted.push(m0).push(m1));
        lemma_entity_text_push(trace.emitted, m0, entity);
        lemma_entity_text_push(trace.emitted.push(m0), m1, entity);
        match (s.phase, event) {
            (TurnPhase::Streaming, TurnEventView::Chunk { delta, now }) => {
                let added = delta_content(delta);
                assert(((text_before + (s.buf + added)) + Seq::<char>::empty()) + Seq::<
                    char,
                >::empty() =~= (text_before + s.buf) + added);
            },
            (TurnPhase::Streaming, TurnEventView::StreamFailed { error }) => {
                assert(((text_before + s.buf) + Seq::<char>::empty()) + Seq::<char>::empty()
                    =~= text_before + s.buf);
            },
            (TurnPhase::AwaitingReply, TurnEventView::Replied { text }) => {
                assert(trace.emitted =~= Seq::empty());
                assert(((text_before + Seq::<char>::empty()) + text) + Seq::<char>::empty()
                    =~= text);
            },
            _ => {},
        }
    }
}

/// Every trace of a turn is well formed.
pub proof fn lemma_run_well_formed(
    rule: Coalescing,
    entity: u64,
    stream: bool,
    events: Seq<TurnEventView>,
)
    ensures
        well_formed(run(rule, initial_state(entity, stream), events), entity),
    decreases events.len(),
{
    if events.len() == 0 {
        assert(entity_text(Seq::<StreamMsgView>::empty(), entity) + Seq::<char>::empty()
            =~= Seq::<char>::empty());
    } else {
        lemma_run_well_formed(rule, entity, stream, events.drop_last());
        lemma_step_keeps_well_formed(
            rule,
            run(rule, initial_state(entity, stream), events.drop_last()),
            events.last(),
            entity,
        );
    }
}

/// Whatever the backend answers and whatever the thresholds for coalescing,
/// the text a turn has emitted as deltas plus the text it still buffers is
/// all the text it has accumulated. Once the turn has asked for the history
/// or has finished, nothing is buffered: the deltas carry the accumulated
/// text exactly.
pub proof fn theorem_deltas_carry_accumulated_text(
    rule: Coalescing,
    entity: u64,
    stream: bool,
    events: Seq<TurnEventView>,
)
    ensures
        ({
            let trace = run(rule, initial_state(entity, stream), events);
            &&& entity_text(trace.emitted, entity) + trace.state.buf == trace.state.text
            &&& (trace.state.phase is AwaitingHistory || trace.state.phase is Finished)
                ==> entity_text(trace.emitted, entity) == trace.state.text
        }),
{
    lemma_run_well_formed(rule, entity, stream, events);
    let trace = run(rule, initial_state(entity, stream), events);
    if trace.state.phase is AwaitingHistory || trace.state.phase is Finished {
        assert(trace.state.buf =~= Seq::<char>::empty());
        assert(entity_text(trace.emitted, entity) + Seq::<char>::empty() =~= entity_text(
            trace.emitted,
            entity,
        ));
    }
}

/// A turn emits at most one terminal message, it emits it last, and it has
/// emitted one exactly when it has finished. So no delta follows the done or
/// error message of a turn.
pub proof fn theorem_one_terminal_message_last(
    rule: Coalescing,
    entity: u64,
    stream: bool,
    events: Seq<TurnEventView>,
)
    ensures
        ({
            let trace = run(rule, initial_state(entity, stream), events);
            &&& trace.state.phase is Finished <==> trace.emitted.len() > 0
                && trace.emitted.last().is_terminal()
            &&& forall|i: int|
                0 <= i < trace.emitted.len() - 1 ==> !(#[trigger] trace.emitted[i]).is_terminal()
            &&& forall|i: int, j: int|
                0 <= i < j < trace.emitted.len() && (#[trigger] trace.emitted[i]).is_terminal()
                    ==> !((#[trigger] trace.emitted[j]) is Delta)
            &&& forall|i: int|
                0 <= i < trace.emitted.len() ==> (#[trigger] trace.emitted[i]).entity() == entity
        }),
{
    lemma_run_well_formed(rule, entity, stream, events);
}

/// A turn announces its beginning at most once and before anything else:
/// the first message of a turn is its begin message, or the error of a turn
/// that failed before it began.
pub proof fn theorem_begin_comes_first(
    rule: Coalescing,
    entity: u64,
    stream: bool,
    events: Seq<TurnEventView>,
)
    ensures
        ({
            let trace = run(rule, initial_state(entity, stream), events);
            &&& forall|i: int|
                0 <= i < trace.emitted.len() && (#[trigger] trace.emitted[i]) is Begin ==> i == 0
            &&& trace.emitted.len() > 0 ==> trace.emitted[0] is Begin || trace.emitted[0] is Error
        }),
{
    lemma_run_well_formed(rule, entity, stream, events);
}

/// The final text that a done message reports is the text that the deltas
/// before it carry together; it is absent exactly when they carry none.
pub proof fn theorem_done_reports_the_delta_text(
    rule: Coalescing,
    entity: u64,
    stream: bool,
    events: Seq<TurnEventView>,
)
    ensures
        ({
            let trace = run(rule, initial_state(entity, stream), events);
            trace.emitted.len() > 0 && trace.emitted.last() is Done
                ==> trace.emitted.last()->final_text == final_text_of(
                entity_text(trace.emitted, entity),
            )
        }),
{
    lemma_run_well_formed(rule, entity, stream, events);
    theorem_deltas_carry_accumulated_text(rule, entity, stream, events);
}

/// The trace of a stream that opens, delivers `deltas` and ends cleanly.
pub open spec fn streamed(
    rule: Coalescing,
    entity: u64,
    opened: u64,
    deltas: Seq<StreamDeltaView>,
    clock: Seq<u64>,
) -> Trace {
    run(
        rule,
        initial_state(entity, true),
        seq![TurnEventView::StreamOpened { now: opened }] + chunk_events(deltas, clock) + seq![
            TurnEventView::StreamEnded,
        ],
    )
}

/// While a stream is open, the accumulated text is the text of the
/// increments taken so far.
proof fn lemma_streaming_accumulates(
    rule: Coalescing,
    entity: u64,
    opened: u64,
    deltas: Seq<StreamDeltaView>,
    clock: Seq<u64>,
)
    requires
        clock.len() == deltas.len(),
    ensures
        ({
            let trace = run(
                rule,
                initial_state(entity, true),
                seq![TurnEventView::StreamOpened { now: opened }] + chunk_events(deltas, clock),
            );
            trace.state.phase is Streaming && trace.state.text == contents(deltas)
        }),
    decreases deltas.len(),
{
    let head = seq![TurnEventView::StreamOpened { now: opened }];
    let events = head + chunk_events(deltas, clock);
    if deltas.len() == 0 {
        assert(events =~= head);
        assert(events.drop_last() =~= Seq::<TurnEventView>::empty());
        let first = run(rule, initial_state(entity, true), events.drop_last());
        assert(first.state == initial_state(entity, true));
    } else {
        let fewer = deltas.drop_last();
        let earlier = clock.drop_last();
        lemma_streaming_accumulates(rule, entity, opened, fewer, earlier);
        assert(events.drop_last() =~= head + chunk_events(fewer, earlier));
        assert(events.last() == TurnEventView::Chunk { delta: deltas.last(), now: clock.last() });
    }
}

/// The deltas of a stream that ends cleanly carry exactly the text of its
/// increments: neither where the backend cuts the text into increments, nor
/// when the increments arrive, nor the thresholds for coalescing change what
/// the deltas say together.
pub proof fn theorem_stream_text_is_independent_of_cuts_and_clock(
    rule: Coalescing,
    entity: u64,
    opened: u64,
    deltas: Seq<StreamDeltaView>,
    clock: Seq<u64>,
)
    requires
        clock.len() == deltas.len(),
    ensures
        entity_text(streamed(rule, entity, opened, deltas, clock).emitted, entity) == contents(
            deltas,
        ),
        streamed(rule, entity, opened, deltas, clock).state.text == contents(deltas),
        streamed(rule, entity, opened, deltas, clock).state.phase is AwaitingHistory,
{
    let head = seq![TurnEventView::StreamOpened { now: opened }];
    let body = head + chunk_events(deltas, clock);
    let events = body + seq![TurnEventView::StreamEnded];
    lemma_streaming_accumulates(rule, entity, opened, deltas, clock);
    assert(events.drop_last() =~= body);
    assert(events.last() == TurnEventView::StreamEnded);
    theorem_deltas_carry_accumulated_text(rule, entity, true, events);
}

} // verus!
