use bevy_llm::{
    ChatMessage, ChatRole, FunctionCall, MessageType, StreamDelta, StreamMsg, ToolCall,
    TurnAction, TurnEvent, TurnPhase, TurnTask, MAX_LATENCY_NANOS, MIN_CHARS,
};

fn said(role: ChatRole, text: &str) -> ChatMessage {
    ChatMessage { role, message_type: MessageType::Text, content: text.to_string() }
}

fn text_chunk(text: &str, now: u64) -> TurnEvent {
    TurnEvent::Chunk {
        delta: StreamDelta { content: Some(text.to_string()), tool_calls: None },
        now,
    }
}

fn call(id: &str) -> ToolCall {
    ToolCall {
        id: id.to_string(),
        call_type: "function".to_string(),
        function: FunctionCall { name: "spawn".to_string(), arguments: "{}".to_string() },
    }
}

fn delta(entity: u64, text: &str) -> StreamMsg {
    StreamMsg::Delta { entity, text: text.to_string() }
}

fn delta_text(msgs: &[StreamMsg]) -> String {
    let mut all = String::new();
    for m in msgs {
        if let StreamMsg::Delta { text, .. } = m {
            all.push_str(text);
        }
    }
    all
}

fn run_stream(entity: u64, chunks: &[(&str, u64)]) -> Vec<StreamMsg> {
    let (mut task, _) = TurnTask::new(entity, true);
    let mut emitted = Vec::new();
    emitted.extend(task.step(TurnEvent::StreamOpened { now: 0 }).1);
    for (text, now) in chunks {
        emitted.extend(task.step(text_chunk(text, *now)).1);
    }
    emitted.extend(task.step(TurnEvent::StreamEnded).1);
    emitted.extend(task.step(TurnEvent::History { memory: None }).1);
    assert_eq!(task.phase(), TurnPhase::Finished);
    emitted
}

#[test]
fn thresholds_have_their_documented_values() {
    assert_eq!(MIN_CHARS, 64);
    assert_eq!(MAX_LATENCY_NANOS, 16_000_000);
}

#[test]
fn new_task_asks_for_the_stream_when_streaming() {
    let (task, action) = TurnTask::new(5, true);
    assert_eq!(action, TurnAction::OpenStream);
    assert_eq!(task.phase(), TurnPhase::AwaitingStream);
    assert_eq!(task.entity(), 5);
}

#[test]
fn new_task_asks_for_one_shot_when_not_streaming() {
    let (task, action) = TurnTask::new(5, false);
    assert_eq!(action, TurnAction::CallOneShot);
    assert_eq!(task.phase(), TurnPhase::AwaitingReply);
}

#[test]
fn rejected_stream_falls_back_to_one_shot() {
    let h: u64 = 42;
    let (mut task, action) = TurnTask::new(h, true);
    assert_eq!(action, TurnAction::OpenStream);

    let (action, msgs) = task.step(TurnEvent::StreamRejected);
    assert_eq!(action, TurnAction::CallOneShot);
    assert!(msgs.is_empty());

    let mut emitted = Vec::new();
    let (action, msgs) = task.step(TurnEvent::Replied { text: "fallback answer".to_string() });
    assert_eq!(action, TurnAction::QueryHistory);
    emitted.extend(msgs);
    let (action, msgs) = task.step(TurnEvent::History { memory: None });
    assert_eq!(action, TurnAction::Stop);
    emitted.extend(msgs);

    assert_eq!(
        emitted,
        vec![
            StreamMsg::Begin { entity: h },
            delta(h, "fallback answer"),
            StreamMsg::Done {
                entity: h,
                final_text: Some("fallback answer".to_string()),
                memory: None
            },
        ]
    );
    let begins = emitted.iter().filter(|m| matches!(m, StreamMsg::Begin { .. })).count();
    let dones = emitted.iter().filter(|m| matches!(m, StreamMsg::Done { .. })).count();
    assert_eq!(begins, 1);
    assert_eq!(dones, 1);
    assert_eq!(delta_text(&emitted), "fallback answer");
}

#[test]
fn rejected_stream_then_failed_one_shot_reports_the_failure() {
    let (mut task, _) = TurnTask::new(1, true);
    task.step(TurnEvent::StreamRejected);
    let (action, msgs) = task.step(TurnEvent::ReplyFailed { error: "no route".to_string() });
    assert_eq!(action, TurnAction::Stop);
    assert_eq!(msgs, vec![StreamMsg::Error { entity: 1, error: "no route".to_string() }]);
    assert_eq!(task.phase(), TurnPhase::Finished);
}

#[test]
fn one_shot_reply_is_begun_delivered_and_completed_with_history() {
    let (mut task, _) = TurnTask::new(3, false);
    let (action, msgs) = task.step(TurnEvent::Replied { text: "there".to_string() });
    assert_eq!(action, TurnAction::QueryHistory);
    assert_eq!(msgs, vec![StreamMsg::Begin { entity: 3 }, delta(3, "there")]);
    assert_eq!(task.phase(), TurnPhase::AwaitingHistory);

    let history = vec![said(ChatRole::User, "hi")];
    let (action, msgs) = task.step(TurnEvent::History { memory: Some(history) });
    assert_eq!(action, TurnAction::Stop);
    assert_eq!(
        msgs,
        vec![StreamMsg::Done {
            entity: 3,
            final_text: Some("there".to_string()),
            memory: Some(vec![
                said(ChatRole::User, "hi"),
                said(ChatRole::Assistant, "there"),
            ]),
        }]
    );
}

#[test]
fn history_that_already_ends_with_the_answer_is_kept() {
    let (mut task, _) = TurnTask::new(3, false);
    task.step(TurnEvent::Replied { text: "there".to_string() });
    let history = vec![
        said(ChatRole::User, "hi"),
        said(ChatRole::Assistant, "there"),
    ];
    let (_, msgs) = task.step(TurnEvent::History { memory: Some(history.clone()) });
    assert_eq!(
        msgs,
        vec![StreamMsg::Done {
            entity: 3,
            final_text: Some("there".to_string()),
            memory: Some(history)
        }]
    );
}

#[test]
fn empty_history_is_absent_in_done() {
    let (mut task, _) = TurnTask::new(3, false);
    task.step(TurnEvent::Replied { text: "there".to_string() });
    let (_, msgs) = task.step(TurnEvent::History { memory: Some(Vec::new()) });
    assert_eq!(
        msgs,
        vec![StreamMsg::Done { entity: 3, final_text: Some("there".to_string()), memory: None }]
    );
}

#[test]
fn empty_one_shot_reply_is_valid_and_has_no_delta() {
    let (mut task, _) = TurnTask::new(3, false);
    let (action, msgs) = task.step(TurnEvent::Replied { text: String::new() });
    assert_eq!(action, TurnAction::QueryHistory);
    assert_eq!(msgs, vec![StreamMsg::Begin { entity: 3 }]);
    let history = vec![said(ChatRole::User, "hi")];
    let (_, msgs) = task.step(TurnEvent::History { memory: Some(history.clone()) });
    assert_eq!(msgs, vec![StreamMsg::Done { entity: 3, final_text: None, memory: Some(history) }]);
}

#[test]
fn one_shot_failure_emits_only_the_error() {
    let (mut task, _) = TurnTask::new(8, false);
    let (action, msgs) = task.step(TurnEvent::ReplyFailed { error: "timeout".to_string() });
    assert_eq!(action, TurnAction::Stop);
    assert_eq!(msgs, vec![StreamMsg::Error { entity: 8, error: "timeout".to_string() }]);
    assert_eq!(task.phase(), TurnPhase::Finished);
}

#[test]
fn opened_stream_emits_begin() {
    let (mut task, _) = TurnTask::new(2, true);
    let (action, msgs) = task.step(TurnEvent::StreamOpened { now: 10 });
    assert_eq!(action, TurnAction::NextChunk);
    assert_eq!(msgs, vec![StreamMsg::Begin { entity: 2 }]);
    assert_eq!(task.phase(), TurnPhase::Streaming);
}

#[test]
fn buffer_is_flushed_at_sixty_four_bytes() {
    let (mut task, _) = TurnTask::new(2, true);
    task.step(TurnEvent::StreamOpened { now: 0 });
    let first = "a".repeat(63);
    let (action, msgs) = task.step(text_chunk(&first, 1));
    assert_eq!(action, TurnAction::NextChunk);
    assert!(msgs.is_empty());
    let (_, msgs) = task.step(text_chunk("b", 2));
    let mut expected = first.clone();
    expected.push('b');
    assert_eq!(expected.len(), 64);
    assert_eq!(msgs, vec![delta(2, &expected)]);
    let (_, msgs) = task.step(TurnEvent::StreamEnded);
    assert!(msgs.is_empty());
}

#[test]
fn large_chunk_is_flushed_at_once() {
    let (mut task, _) = TurnTask::new(2, true);
    task.step(TurnEvent::StreamOpened { now: 0 });
    let big = "x".repeat(200);
    let (_, msgs) = task.step(text_chunk(&big, 0));
    assert_eq!(msgs, vec![delta(2, &big)]);
}

#[test]
fn buffer_length_counts_bytes() {
    let (mut task, _) = TurnTask::new(2, true);
    task.step(TurnEvent::StreamOpened { now: 0 });
    let accents = "é".repeat(32);
    assert_eq!(accents.chars().count(), 32);
    assert_eq!(accents.len(), 64);
    let (_, msgs) = task.step(text_chunk(&accents, 1));
    assert_eq!(msgs, vec![delta(2, &accents)]);

    let (mut task, _) = TurnTask::new(2, true);
    task.step(TurnEvent::StreamOpened { now: 0 });
    let fewer = "é".repeat(31);
    let (_, msgs) = task.step(text_chunk(&fewer, 1));
    assert!(msgs.is_empty());
}

#[test]
fn buffer_is_flushed_after_sixteen_milliseconds() {
    let (mut task, _) = TurnTask::new(2, true);
    task.step(TurnEvent::StreamOpened { now: 0 });
    let (_, msgs) = task.step(text_chunk("a", 15_999_999));
    assert!(msgs.is_empty());
    let (_, msgs) = task.step(text_chunk("b", 16_000_000));
    assert_eq!(msgs, vec![delta(2, "ab")]);
    let (_, msgs) = task.step(text_chunk("c", 31_999_999));
    assert!(msgs.is_empty());
    let (_, msgs) = task.step(text_chunk("d", 32_000_000));
    assert_eq!(msgs, vec![delta(2, "cd")]);
}

#[test]
fn latency_is_measured_from_the_opening_of_the_stream() {
    let (mut task, _) = TurnTask::new(2, true);
    task.step(TurnEvent::StreamOpened { now: 1_000_000_000 });
    let (_, msgs) = task.step(text_chunk("a", 1_015_999_999));
    assert!(msgs.is_empty());
    let (_, msgs) = task.step(text_chunk("b", 1_016_000_000));
    assert_eq!(msgs, vec![delta(2, "ab")]);
}

#[test]
fn clock_that_goes_backwards_counts_as_no_time_passed() {
    let (mut task, _) = TurnTask::new(2, true);
    task.step(TurnEvent::StreamOpened { now: 100_000_000 });
    let (_, msgs) = task.step(text_chunk("a", 50));
    assert!(msgs.is_empty());
    let (_, msgs) = task.step(TurnEvent::StreamEnded);
    assert_eq!(msgs, vec![delta(2, "a")]);
}

#[test]
fn chunk_without_text_never_flushes() {
    let (mut task, _) = TurnTask::new(2, true);
    task.step(TurnEvent::StreamOpened { now: 0 });
    task.step(text_chunk("a", 1));
    let late = 10 * MAX_LATENCY_NANOS;
    let (_, msgs) = task.step(text_chunk("", late));
    assert!(msgs.is_empty());
    let (_, msgs) = task.step(TurnEvent::Chunk {
        delta: StreamDelta { content: None, tool_calls: None },
        now: late,
    });
    assert!(msgs.is_empty());
    let (_, msgs) = task.step(text_chunk("b", late));
    assert_eq!(msgs, vec![delta(2, "ab")]);
}

#[test]
fn tool_calls_leave_at_once_after_the_text_of_their_chunk() {
    let (mut task, _) = TurnTask::new(6, true);
    task.step(TurnEvent::StreamOpened { now: 0 });
    let big = "x".repeat(64);
    let (action, msgs) = task.step(TurnEvent::Chunk {
        delta: StreamDelta { content: Some(big.clone()), tool_calls: Some(vec![call("c1")]) },
        now: 1,
    });
    assert_eq!(action, TurnAction::NextChunk);
    assert_eq!(msgs, vec![delta(6, &big), StreamMsg::Tool { entity: 6, calls: vec![call("c1")] }]);
}

#[test]
fn tool_calls_are_not_held_back_by_buffered_text() {
    let (mut task, _) = TurnTask::new(6, true);
    task.step(TurnEvent::StreamOpened { now: 0 });
    let (_, msgs) = task.step(TurnEvent::Chunk {
        delta: StreamDelta {
            content: Some("short".to_string()),
            tool_calls: Some(vec![call("c1"), call("c2")]),
        },
        now: 1,
    });
    assert_eq!(msgs, vec![StreamMsg::Tool { entity: 6, calls: vec![call("c1"), call("c2")] }]);
    let (_, msgs) = task.step(TurnEvent::StreamEnded);
    assert_eq!(msgs, vec![delta(6, "short")]);
}

#[test]
fn empty_tool_call_list_is_not_emitted() {
    let (mut task, _) = TurnTask::new(6, true);
    task.step(TurnEvent::StreamOpened { now: 0 });
    let (_, msgs) = task.step(TurnEvent::Chunk {
        delta: StreamDelta { content: None, tool_calls: Some(Vec::new()) },
        now: 1,
    });
    assert!(msgs.is_empty());
}

#[test]
fn stream_failure_flushes_partial_text_before_the_error() {
    let (mut task, _) = TurnTask::new(4, true);
    task.step(TurnEvent::StreamOpened { now: 0 });
    task.step(text_chunk("partial", 1));
    let (action, msgs) = task.step(TurnEvent::StreamFailed { error: "boom".to_string() });
    assert_eq!(action, TurnAction::Stop);
    assert_eq!(
        msgs,
        vec![delta(4, "partial"), StreamMsg::Error { entity: 4, error: "boom".to_string() }]
    );
    assert_eq!(task.phase(), TurnPhase::Finished);
}

#[test]
fn stream_failure_with_empty_buffer_emits_only_the_error() {
    let (mut task, _) = TurnTask::new(4, true);
    task.step(TurnEvent::StreamOpened { now: 0 });
    let (_, msgs) = task.step(TurnEvent::StreamFailed { error: "boom".to_string() });
    assert_eq!(msgs, vec![StreamMsg::Error { entity: 4, error: "boom".to_string() }]);
}

#[test]
fn clean_stream_end_flushes_then_completes_with_all_text() {
    let emitted = run_stream(7, &[("Hel", 1_000_000), ("lo wo", 2_000_000), ("rld!", 3_000_000)]);
    assert_eq!(
        emitted,
        vec![
            StreamMsg::Begin { entity: 7 },
            delta(7, "Hello world!"),
            StreamMsg::Done {
                entity: 7,
                final_text: Some("Hello world!".to_string()),
                memory: None
            },
        ]
    );
}

#[test]
fn stream_without_text_completes_without_final_text() {
    let emitted = run_stream(7, &[]);
    assert_eq!(
        emitted,
        vec![
            StreamMsg::Begin { entity: 7 },
            StreamMsg::Done { entity: 7, final_text: None, memory: None },
        ]
    );
}

#[test]
fn streamed_history_is_repaired_with_the_accumulated_text() {
    let (mut task, _) = TurnTask::new(7, true);
    task.step(TurnEvent::StreamOpened { now: 0 });
    task.step(text_chunk("the", 1));
    task.step(text_chunk("re", 2));
    let (action, _) = task.step(TurnEvent::StreamEnded);
    assert_eq!(action, TurnAction::QueryHistory);
    let history = vec![said(ChatRole::User, "hi")];
    let (_, msgs) = task.step(TurnEvent::History { memory: Some(history) });
    assert_eq!(
        msgs,
        vec![StreamMsg::Done {
            entity: 7,
            final_text: Some("there".to_string()),
            memory: Some(vec![
                said(ChatRole::User, "hi"),
                said(ChatRole::Assistant, "there"),
            ]),
        }]
    );
}

#[test]
fn delta_text_does_not_depend_on_cuts_or_clock() {
    let slow = run_stream(
        1,
        &[("Hel", 20_000_000), ("lo wo", 40_000_000), ("rld!", 60_000_000)],
    );
    let fast = run_stream(1, &[("Hello", 1), (" world!", 2)]);
    let single = run_stream(1, &[("Hello world!", 0)]);
    let letters: Vec<(String, u64)> = "Hello world!"
        .chars()
        .enumerate()
        .map(|(i, c)| (c.to_string(), (i as u64) * 9_000_000))
        .collect();
    let letters_ref: Vec<(&str, u64)> = letters.iter().map(|(s, t)| (s.as_str(), *t)).collect();
    let by_letter = run_stream(1, &letters_ref);
    assert_eq!(delta_text(&slow), "Hello world!");
    assert_eq!(delta_text(&fast), "Hello world!");
    assert_eq!(delta_text(&single), "Hello world!");
    assert_eq!(delta_text(&by_letter), "Hello world!");
    assert_eq!(
        slow,
        vec![
            StreamMsg::Begin { entity: 1 },
            delta(1, "Hel"),
            delta(1, "lo wo"),
            delta(1, "rld!"),
            StreamMsg::Done {
                entity: 1,
                final_text: Some("Hello world!".to_string()),
                memory: None
            },
        ]
    );
}

#[test]
fn long_stream_emits_all_text_in_order() {
    let piece = "0123456789";
    let chunks: Vec<(&str, u64)> = (0..100).map(|i| (piece, i as u64)).collect();
    let emitted = run_stream(1, &chunks);
    assert_eq!(delta_text(&emitted), piece.repeat(100));
    let deltas = emitted.iter().filter(|m| matches!(m, StreamMsg::Delta { .. })).count();
    assert_eq!(deltas, 15);
    for m in emitted.iter() {
        if let StreamMsg::Delta { text, .. } = m {
            assert!(!text.is_empty());
        }
    }
}

#[test]
fn nothing_is_emitted_after_the_terminal_message() {
    let (mut task, _) = TurnTask::new(4, true);
    task.step(TurnEvent::StreamOpened { now: 0 });
    task.step(text_chunk("a", 1));
    task.step(TurnEvent::StreamFailed { error: "boom".to_string() });
    let before = task.clone();
    let late = vec![
        text_chunk("late", 2),
        TurnEvent::StreamEnded,
        TurnEvent::StreamOpened { now: 3 },
        TurnEvent::Replied { text: "late".to_string() },
        TurnEvent::History { memory: None },
        TurnEvent::StreamFailed { error: "again".to_string() },
    ];
    for event in late {
        let (action, msgs) = task.step(event);
        assert_eq!(action, TurnAction::Stop);
        assert!(msgs.is_empty());
        assert_eq!(task, before);
    }
}

#[test]
fn exactly_one_terminal_message_and_it_is_last() {
    let runs = vec![
        run_stream(1, &[("abc", 1)]),
        run_stream(1, &[]),
        run_stream(1, &[("a", 1), ("b", 20_000_000), ("c", 40_000_001)]),
    ];
    for emitted in runs {
        let terminals = emitted
            .iter()
            .filter(|m| matches!(m, StreamMsg::Done { .. } | StreamMsg::Error { .. }))
            .count();
        assert_eq!(terminals, 1);
        assert!(matches!(emitted.last(), Some(StreamMsg::Done { .. })));
    }
}

#[test]
fn answer_that_the_phase_does_not_wait_for_changes_nothing() {
    let (mut task, _) = TurnTask::new(4, true);
    let start = task.clone();
    let (action, msgs) = task.step(TurnEvent::StreamEnded);
    assert_eq!(action, TurnAction::OpenStream);
    assert!(msgs.is_empty());
    assert_eq!(task, start);
    let (action, msgs) = task.step(TurnEvent::Replied { text: "x".to_string() });
    assert_eq!(action, TurnAction::OpenStream);
    assert!(msgs.is_empty());

    task.step(TurnEvent::StreamOpened { now: 0 });
    let (action, msgs) = task.step(TurnEvent::History { memory: None });
    assert_eq!(action, TurnAction::NextChunk);
    assert!(msgs.is_empty());
    let (action, msgs) = task.step(TurnEvent::StreamRejected);
    assert_eq!(action, TurnAction::NextChunk);
    assert!(msgs.is_empty());

    task.step(TurnEvent::StreamEnded);
    let (action, msgs) = task.step(text_chunk("x", 1));
    assert_eq!(action, TurnAction::QueryHistory);
    assert!(msgs.is_empty());

    let (mut one_shot, _) = TurnTask::new(4, false);
    let (action, msgs) = one_shot.step(TurnEvent::StreamOpened { now: 0 });
    assert_eq!(action, TurnAction::CallOneShot);
    assert!(msgs.is_empty());
}

#[test]
fn all_messages_of_a_turn_carry_its_entity() {
    let emitted = run_stream(77, &[("abc", 1), ("def", 30_000_000)]);
    for m in emitted {
        let entity = match m {
            StreamMsg::Begin { entity } => entity,
            StreamMsg::Delta { entity, .. } => entity,
            StreamMsg::Tool { entity, .. } => entity,
            StreamMsg::Done { entity, .. } => entity,
            StreamMsg::Error { entity, .. } => entity,
        };
        assert_eq!(entity, 77);
    }
}
