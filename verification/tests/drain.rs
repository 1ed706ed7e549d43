use bevy_llm::{
    advance, aggregate, deliver, drain_stream_inbox, take_batch, take_one, ChatCompletedEvt,
    ChatDeltaEvt, ChatErrorEvt, ChatEvent, ChatMessage, ChatRole, ChatToolCallsEvt, FunctionCall,
    MessageType, StreamDelta, StreamInbox, StreamMsg, ToolCall, TurnAction, TurnEvent, TurnTask,
    INBOX_CAPACITY, MAX_PER_FRAME,
};

fn said(role: ChatRole, text: &str) -> ChatMessage {
    ChatMessage { role, message_type: MessageType::Text, content: text.to_string() }
}

fn delta(entity: u64, text: &str) -> StreamMsg {
    StreamMsg::Delta { entity, text: text.to_string() }
}

fn done(entity: u64, text: &str) -> StreamMsg {
    StreamMsg::Done { entity, final_text: Some(text.to_string()), memory: None }
}

fn call(id: &str) -> ToolCall {
    ToolCall {
        id: id.to_string(),
        call_type: "function".to_string(),
        function: FunctionCall { name: "spawn".to_string(), arguments: "{}".to_string() },
    }
}

fn appended(entity: u64, text: &str) -> ChatEvent {
    ChatEvent::Delta(ChatDeltaEvt { entity, text: text.to_string() })
}

fn completed(entity: u64, text: &str) -> ChatEvent {
    ChatEvent::Completed(ChatCompletedEvt {
        entity,
        final_text: Some(text.to_string()),
        memory: None,
    })
}

fn text_chunk(text: &str, now: u64) -> TurnEvent {
    TurnEvent::Chunk {
        delta: StreamDelta { content: Some(text.to_string()), tool_calls: None },
        now,
    }
}

fn announced_text(events: &[ChatEvent], entity: u64) -> String {
    let mut all = String::new();
    for ev in events {
        if let ChatEvent::Delta(d) = ev {
            if d.entity == entity {
                all.push_str(&d.text);
            }
        }
    }
    all
}

#[test]
fn limits_have_their_documented_values() {
    assert_eq!(INBOX_CAPACITY, 2048);
    assert_eq!(MAX_PER_FRAME, 512);
}

#[test]
fn inbox_holds_at_most_its_capacity() {
    assert_eq!(StreamInbox::new().capacity(), Some(2048));
    assert_eq!(StreamInbox::default().capacity(), Some(INBOX_CAPACITY));
    assert_eq!(StreamInbox::new().sender().capacity(), Some(INBOX_CAPACITY));
}

#[test]
fn aggregate_of_nothing_is_nothing() {
    assert_eq!(aggregate(Vec::new()), Vec::new());
}

#[test]
fn aggregate_ignores_begin() {
    assert_eq!(aggregate(vec![StreamMsg::Begin { entity: 1 }]), Vec::new());
}

#[test]
fn aggregate_coalesces_text_per_session_in_arrival_order() {
    let history = vec![said(ChatRole::User, "hi")];
    let events = aggregate(vec![
        StreamMsg::Begin { entity: 1 },
        delta(1, "a"),
        delta(2, "x"),
        StreamMsg::Tool { entity: 1, calls: vec![call("c1")] },
        delta(1, "b"),
        StreamMsg::Done {
            entity: 2,
            final_text: Some("x".to_string()),
            memory: Some(history.clone()),
        },
        StreamMsg::Error { entity: 1, error: "boom".to_string() },
        delta(3, "q"),
        StreamMsg::Tool { entity: 3, calls: vec![call("c2"), call("c3")] },
        delta(2, "y"),
    ]);
    assert_eq!(
        events,
        vec![
            appended(1, "ab"),
            appended(2, "xy"),
            appended(3, "q"),
            ChatEvent::ToolCalls(ChatToolCallsEvt { entity: 1, calls: vec![call("c1")] }),
            ChatEvent::ToolCalls(ChatToolCallsEvt {
                entity: 3,
                calls: vec![call("c2"), call("c3")]
            }),
            ChatEvent::Completed(ChatCompletedEvt {
                entity: 2,
                final_text: Some("x".to_string()),
                memory: Some(history),
            }),
            ChatEvent::Error(ChatErrorEvt { entity: 1, error: "boom".to_string() }),
        ]
    );
}

#[test]
fn aggregate_announces_text_before_completion_of_the_same_tick() {
    let events = aggregate(vec![done(1, "first"), delta(1, "late"), done(2, "other")]);
    assert_eq!(events, vec![appended(1, "late"), completed(1, "first"), completed(2, "other")]);
}

#[test]
fn aggregate_keeps_an_empty_delta() {
    let events = aggregate(vec![delta(5, "")]);
    assert_eq!(events, vec![appended(5, "")]);
}

#[test]
fn aggregate_emits_each_terminal_message_individually() {
    let events = aggregate(vec![
        done(1, "a"),
        StreamMsg::Error { entity: 1, error: "e1".to_string() },
        done(1, "b"),
        StreamMsg::Error { entity: 2, error: "e2".to_string() },
    ]);
    assert_eq!(
        events,
        vec![
            completed(1, "a"),
            completed(1, "b"),
            ChatEvent::Error(ChatErrorEvt { entity: 1, error: "e1".to_string() }),
            ChatEvent::Error(ChatErrorEvt { entity: 2, error: "e2".to_string() }),
        ]
    );
}

#[test]
fn messages_for_an_unknown_session_are_tolerated() {
    let events = aggregate(vec![delta(u64::MAX, "stale"), done(u64::MAX, "stale")]);
    assert_eq!(events, vec![appended(u64::MAX, "stale"), completed(u64::MAX, "stale")]);
}

#[test]
fn three_chunks_in_one_tick_are_one_announcement_before_done() {
    let inbox = StreamInbox::new();
    let tx = inbox.sender();
    let (mut task, mut action) = TurnTask::new(11, true);
    assert_eq!(action, TurnAction::OpenStream);
    let answers = vec![
        TurnEvent::StreamOpened { now: 0 },
        text_chunk("Hel", 1_000_000),
        text_chunk("lo wo", 2_000_000),
        text_chunk("rld!", 3_000_000),
        TurnEvent::StreamEnded,
        TurnEvent::History { memory: None },
    ];
    for answer in answers {
        action = advance(&mut task, answer, &tx);
    }
    assert_eq!(action, TurnAction::Stop);

    let events = drain_stream_inbox(inbox.receiver());
    assert_eq!(events, vec![appended(11, "Hello world!"), completed(11, "Hello world!")]);
    assert!(drain_stream_inbox(inbox.receiver()).is_empty());
}

#[test]
fn six_hundred_messages_take_two_ticks_in_order() {
    let inbox = StreamInbox::new();
    let tx = inbox.sender();
    for i in 0..600u64 {
        assert_eq!(deliver(&tx, vec![done(i, &format!("turn {i}"))]), 1);
    }

    let first = drain_stream_inbox(inbox.receiver());
    assert_eq!(first.len(), 512);
    for (i, ev) in first.iter().enumerate() {
        assert_eq!(*ev, completed(i as u64, &format!("turn {i}")));
    }

    let second = drain_stream_inbox(inbox.receiver());
    assert_eq!(second.len(), 88);
    for (i, ev) in second.iter().enumerate() {
        let n = 512 + i;
        assert_eq!(*ev, completed(n as u64, &format!("turn {n}")));
    }

    assert!(drain_stream_inbox(inbox.receiver()).is_empty());
}

#[test]
fn take_batch_stops_at_the_cap_and_leaves_the_rest_queued() {
    let inbox = StreamInbox::new();
    let tx = inbox.sender();
    for i in 0..513u64 {
        assert_eq!(deliver(&tx, vec![StreamMsg::Begin { entity: i }]), 1);
    }
    let batch = take_batch(inbox.receiver());
    assert_eq!(batch.len(), MAX_PER_FRAME);
    assert_eq!(batch[0], StreamMsg::Begin { entity: 0 });
    assert_eq!(batch[511], StreamMsg::Begin { entity: 511 });
    assert_eq!(inbox.receiver().len(), 1);
    let rest = take_batch(inbox.receiver());
    assert_eq!(rest, vec![StreamMsg::Begin { entity: 512 }]);
    assert!(take_batch(inbox.receiver()).is_empty());
}

#[test]
fn take_batch_of_an_empty_inbox_is_empty() {
    let inbox = StreamInbox::new();
    assert!(take_batch(inbox.receiver()).is_empty());
    assert!(drain_stream_inbox(inbox.receiver()).is_empty());
}

#[test]
fn full_inbox_drops_the_message_without_blocking() {
    let inbox = StreamInbox::new();
    let tx = inbox.sender();
    for i in 0..INBOX_CAPACITY as u64 {
        assert_eq!(deliver(&tx, vec![StreamMsg::Begin { entity: i }]), 1);
    }
    assert_eq!(deliver(&tx, vec![StreamMsg::Begin { entity: 9_999 }]), 0);
    assert_eq!(inbox.receiver().len(), INBOX_CAPACITY);

    let mut seen = Vec::new();
    loop {
        let batch = take_batch(inbox.receiver());
        if batch.is_empty() {
            break;
        }
        seen.extend(batch);
    }
    assert_eq!(seen.len(), INBOX_CAPACITY);
    assert_eq!(seen[0], StreamMsg::Begin { entity: 0 });
    assert_eq!(seen[INBOX_CAPACITY - 1], StreamMsg::Begin { entity: INBOX_CAPACITY as u64 - 1 });
    assert_eq!(deliver(&tx, vec![StreamMsg::Begin { entity: 9_999 }]), 1);
}

#[test]
fn deliver_counts_what_the_inbox_took() {
    let inbox = StreamInbox::new();
    let tx = inbox.sender();
    let accepted = deliver(&tx, vec![delta(1, "a"), delta(1, "b"), done(1, "ab")]);
    assert_eq!(accepted, 3);
    assert_eq!(take_batch(inbox.receiver()), vec![delta(1, "a"), delta(1, "b"), done(1, "ab")]);

    for i in 0..(INBOX_CAPACITY as u64 - 1) {
        assert_eq!(deliver(&tx, vec![StreamMsg::Begin { entity: i }]), 1);
    }
    let accepted = deliver(&tx, vec![delta(1, "kept"), delta(1, "dropped")]);
    assert_eq!(accepted, 1);
    assert_eq!(deliver(&tx, Vec::new()), 0);
}

#[test]
fn push_after_the_consumer_is_gone_fails_silently() {
    let inbox = StreamInbox::new();
    let tx = inbox.sender();
    drop(inbox);
    assert_eq!(deliver(&tx, vec![StreamMsg::Begin { entity: 1 }]), 0);
    assert_eq!(deliver(&tx, vec![delta(1, "a")]), 0);
}

#[test]
fn text_is_conserved_across_ticks() {
    let inbox = StreamInbox::new();
    let tx = inbox.sender();
    let mut sent = String::new();
    for i in 0..700u64 {
        let piece = format!("<{i}>");
        sent.push_str(&piece);
        assert_eq!(deliver(&tx, vec![delta(1, &piece)]), 1);
        assert_eq!(deliver(&tx, vec![delta(2, "z")]), 1);
    }
    assert_eq!(deliver(&tx, vec![done(1, &sent)]), 1);

    let mut observed = Vec::new();
    let mut ticks = 0;
    loop {
        let events = drain_stream_inbox(inbox.receiver());
        if events.is_empty() {
            break;
        }
        ticks += 1;
        observed.extend(events);
    }
    assert_eq!(ticks, 3);
    assert_eq!(announced_text(&observed, 1), sent);
    assert_eq!(announced_text(&observed, 2), "z".repeat(700));

    let completion = observed.iter().position(|ev| matches!(ev, ChatEvent::Completed(_))).unwrap();
    for ev in observed[completion..].iter() {
        if let ChatEvent::Delta(d) = ev {
            assert_ne!(d.entity, 1);
        }
    }
}

#[test]
fn interleaved_turns_keep_their_own_text() {
    let inbox = StreamInbox::new();
    let tx = inbox.sender();
    let (mut a, _) = TurnTask::new(1, true);
    let (mut b, _) = TurnTask::new(2, false);
    advance(&mut a, TurnEvent::StreamOpened { now: 0 }, &tx);
    advance(&mut a, text_chunk("one ", 20_000_000), &tx);
    advance(&mut b, TurnEvent::Replied { text: "other".to_string() }, &tx);
    advance(&mut a, text_chunk("two", 40_000_000), &tx);
    advance(&mut b, TurnEvent::History { memory: None }, &tx);
    advance(&mut a, TurnEvent::StreamFailed { error: "cut".to_string() }, &tx);

    let events = drain_stream_inbox(inbox.receiver());
    assert_eq!(
        events,
        vec![
            appended(1, "one two"),
            appended(2, "other"),
            completed(2, "other"),
            ChatEvent::Error(ChatErrorEvt { entity: 1, error: "cut".to_string() }),
        ]
    );
}

#[test]
fn several_senders_reach_the_same_inbox() {
    let inbox = StreamInbox::new();
    let senders = vec![inbox.sender(), inbox.sender(), inbox.sender(), inbox.sender()];
    for (entity, tx) in senders.iter().enumerate() {
        let entity = entity as u64;
        let (mut task, _) = TurnTask::new(entity, false);
        advance(&mut task, TurnEvent::Replied { text: format!("reply {entity}") }, tx);
        advance(&mut task, TurnEvent::History { memory: None }, tx);
    }
    drop(senders);
    let events = drain_stream_inbox(inbox.receiver());
    assert_eq!(events.len(), 8);
    for entity in 0..4u64 {
        assert_eq!(announced_text(&events, entity), format!("reply {entity}"));
        assert!(events.contains(&completed(entity, &format!("reply {entity}"))));
    }
}

#[test]
fn take_one_appends_the_polled_message_and_polls_again() {
    let mut batch = vec![delta(1, "a")];
    assert!(take_one(&mut batch, Some(done(1, "a"))));
    assert_eq!(batch, vec![delta(1, "a"), done(1, "a")]);
}

#[test]
fn take_one_stops_after_an_empty_poll() {
    let mut batch = vec![delta(1, "a")];
    assert!(!take_one(&mut batch, None));
    assert_eq!(batch, vec![delta(1, "a")]);
    let mut empty: Vec<StreamMsg> = Vec::new();
    assert!(!take_one(&mut empty, None));
    assert!(empty.is_empty());
}

#[test]
fn take_one_stops_when_the_batch_reaches_the_cap() {
    let mut batch: Vec<StreamMsg> = Vec::new();
    for i in 0..(MAX_PER_FRAME as u64 - 1) {
        assert!(take_one(&mut batch, Some(StreamMsg::Begin { entity: i })));
    }
    assert_eq!(batch.len(), MAX_PER_FRAME - 1);
    assert!(!take_one(&mut batch, Some(StreamMsg::Begin { entity: 511 })));
    assert_eq!(batch.len(), MAX_PER_FRAME);
    assert_eq!(batch[511], StreamMsg::Begin { entity: 511 });
    assert_eq!(batch[0], StreamMsg::Begin { entity: 0 });
}

#[test]
fn begin_messages_count_toward_the_cap() {
    let inbox = StreamInbox::new();
    let tx = inbox.sender();
    for _ in 0..MAX_PER_FRAME {
        assert_eq!(deliver(&tx, vec![StreamMsg::Begin { entity: 7 }]), 1);
    }
    assert_eq!(deliver(&tx, vec![done(7, "x")]), 1);

    assert!(inbox.drain().is_empty());
    assert_eq!(inbox.receiver().len(), 1);
    assert_eq!(inbox.drain(), vec![completed(7, "x")]);
    assert_eq!(inbox.receiver().len(), 0);
}

#[test]
fn inbox_drains_itself_like_its_receiver() {
    let inbox = StreamInbox::new();
    let tx = inbox.sender();
    for i in 0..600u64 {
        assert_eq!(deliver(&tx, vec![done(i, &format!("{i}"))]), 1);
    }
    let first = inbox.drain();
    assert_eq!(first.len(), 512);
    for (i, ev) in first.iter().enumerate() {
        assert_eq!(*ev, completed(i as u64, &format!("{i}")));
    }
    assert_eq!(inbox.receiver().len(), 88);
    let second = inbox.take_batch();
    assert_eq!(second.len(), 88);
    for (i, msg) in second.iter().enumerate() {
        let n = 512 + i;
        assert_eq!(*msg, done(n as u64, &format!("{n}")));
    }
    assert!(inbox.take_batch().is_empty());
    assert!(inbox.drain().is_empty());
}
