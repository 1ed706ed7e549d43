use bevy_llm::{merge_memory_with_final, ChatMessage, ChatRole, ImageMime, MessageType};

fn said(role: ChatRole, text: &str) -> ChatMessage {
    ChatMessage { role, message_type: MessageType::Text, content: text.to_string() }
}

fn user(text: &str) -> ChatMessage {
    said(ChatRole::User, text)
}

fn assistant(text: &str) -> ChatMessage {
    said(ChatRole::Assistant, text)
}

#[test]
fn reconcile_appends_missing_assistant_message() {
    let merged = merge_memory_with_final(Some(vec![user("hi")]), Some("there"));
    assert_eq!(merged, Some(vec![user("hi"), assistant("there")]));
}

#[test]
fn reconcile_twice_appends_once() {
    let once = merge_memory_with_final(Some(vec![user("hi")]), Some("there"));
    let twice = merge_memory_with_final(once.clone(), Some("there"));
    assert_eq!(twice, once);
    assert_eq!(twice, Some(vec![user("hi"), assistant("there")]));
}

#[test]
fn reconcile_absent_snapshot_stays_absent() {
    assert_eq!(merge_memory_with_final(None, Some("there")), None);
    assert_eq!(merge_memory_with_final(None, None), None);
}

#[test]
fn reconcile_empty_snapshot_becomes_absent() {
    assert_eq!(merge_memory_with_final(Some(Vec::new()), Some("there")), None);
    assert_eq!(merge_memory_with_final(Some(Vec::new()), None), None);
}

#[test]
fn reconcile_without_final_text_keeps_snapshot() {
    let snapshot = vec![user("hi"), assistant("old")];
    assert_eq!(merge_memory_with_final(Some(snapshot.clone()), None), Some(snapshot.clone()));
    assert_eq!(merge_memory_with_final(Some(snapshot.clone()), Some("")), Some(snapshot));
}

#[test]
fn reconcile_appends_when_last_is_user_with_same_text() {
    let merged = merge_memory_with_final(Some(vec![user("there")]), Some("there"));
    assert_eq!(merged, Some(vec![user("there"), assistant("there")]));
}

#[test]
fn reconcile_appends_when_last_assistant_text_differs() {
    let merged = merge_memory_with_final(Some(vec![user("hi"), assistant("the")]), Some("there"));
    assert_eq!(merged, Some(vec![user("hi"), assistant("the"), assistant("there")]));
}

#[test]
fn reconcile_appends_after_system_message() {
    let system = said(ChatRole::System, "there");
    let merged = merge_memory_with_final(Some(vec![system.clone()]), Some("there"));
    assert_eq!(merged, Some(vec![system, assistant("there")]));
}

#[test]
fn message_constructors_set_role_and_content() {
    assert_eq!(ChatMessage::user("a".to_string()), user("a"));
    assert_eq!(ChatMessage::assistant("b".to_string()), assistant("b"));
}

#[test]
fn reconcile_compares_role_and_text_only() {
    let with_calls = ChatMessage {
        role: ChatRole::Assistant,
        message_type: MessageType::ToolUse(Vec::new()),
        content: "there".to_string(),
    };
    let snapshot = vec![user("hi"), with_calls];
    let merged = merge_memory_with_final(Some(snapshot.clone()), Some("there"));
    assert_eq!(merged, Some(snapshot));
}

#[test]
fn reconcile_carries_attachments_through() {
    let picture = ChatMessage {
        role: ChatRole::User,
        message_type: MessageType::Image { mime: ImageMime::PNG, bytes: vec![1, 2, 3] },
        content: "look".to_string(),
    };
    let merged = merge_memory_with_final(Some(vec![picture.clone()]), Some("nice"));
    assert_eq!(merged, Some(vec![picture, assistant("nice")]));
}
