//! Repair of a history snapshot that may lag the turn that just finished.

use vstd::prelude::*;
use crate::message::{ChatMessage, ChatMessageView, ChatRole, messages_view, text_message};

verus! {

/// The entry that records `text` as said by the assistant.
pub open spec fn assistant_entry(text: Seq<char>) -> ChatMessageView {
    text_message(ChatRole::Assistant, text)
}

/// Whether `snapshot` already ends with an assistant message that says
/// exactly `text`.
pub open spec fn ends_with_assistant(snapshot: Seq<ChatMessageView>, text: Seq<char>) -> bool {
    snapshot.len() > 0 && snapshot.last().role == ChatRole::Assistant && snapshot.last().content
        == text
}

/// The repaired snapshot: absent when nothing was tracked, extended by the
/// assistant's final text when the snapshot does not end with it yet, and
/// otherwise the snapshot itself.
pub open spec fn reconcile(
    snapshot: Option<Seq<ChatMessageView>>,
    final_text: Option<Seq<char>>,
) -> Option<Seq<ChatMessageView>> {
    match snapshot {
        Some(entries) if entries.len() > 0 => match final_text {
            Some(text) if text.len() > 0 && !ends_with_assistant(entries, text) => Some(
                entries.push(assistant_entry(text)),
            ),
            _ => Some(entries),
        },
        _ => None,
    }
}

/// The view of an optional snapshot.
pub open spec fn snapshot_view(snapshot: Option<Vec<ChatMessage>>) -> Option<Seq<ChatMessageView>> {
    match snapshot {
        Some(entries) => Some(messages_view(entries@)),
        None => None,
    }
}

/// The view of an optional text.
pub open spec fn text_view(text: Option<String>) -> Option<Seq<char>> {
    match text {
        Some(t) => Some(t@),
        None => None,
    }
}

/// Makes sure a history snapshot includes the text the assistant just produced.
///
/// A backend may record a turn in its history only after the turn has ended,
/// so a snapshot taken right away can miss the final assistant message.
pub fn merge_memory_with_final(mem: Option<Vec<ChatMessage>>, final_text: Option<&str>) -> (merged:
    Option<Vec<ChatMessage>>)
    ensures
        snapshot_view(merged) == reconcile(
            snapshot_view(mem),
            match final_text {
                Some(t) => Some(t@),
                None => None,
            },
        ),
{
    let mut entries = match mem {
        Some(m) => m,
        None => { return None; },
    };
    if entries.len() == 0 {
        return None;
    }
    let ghost before = entries@;
    if let Some(t) = final_text {
        if !t.is_empty() {
            let text = t.to_owned();
            let last = &entries[entries.len() - 1];
            let present = last.role == ChatRole::Assistant && last.content == text;
            if !present {
                entries.push(ChatMessage::assistant(text));
                assert(messages_view(entries@) =~= messages_view(before).push(assistant_entry(t@)));
            }
        }
    }
    Some(entries)
}

/// Repairing a snapshot a second time with the same final text changes
/// nothing: the first repair already ends with that text, so no duplicate
/// entry is appended.
pub proof fn lemma_reconcile_idempotent(
    snapshot: Option<Seq<ChatMessageView>>,
    final_text: Option<Seq<char>>,
)
    ensures
        reconcile(reconcile(snapshot, final_text), final_text) == reconcile(snapshot, final_text),
{
}

/// A snapshot that already ends with the assistant's final text is returned
/// as it is.
pub proof fn lemma_reconcile_keeps_reconciled(entries: Seq<ChatMessageView>, text: Seq<char>)
    requires
        ends_with_assistant(entries, text),
    ensures
        reconcile(Some(entries), Some(text)) == Some(entries),
{
}

/// An absent or empty snapshot stays absent, whatever the final text.
pub proof fn lemma_reconcile_never_fabricates(
    snapshot: Option<Seq<ChatMessageView>>,
    final_text: Option<Seq<char>>,
)
    requires
        snapshot is None || snapshot->0.len() == 0,
    ensures
        reconcile(snapshot, final_text) is None,
{
}

} // verus!
