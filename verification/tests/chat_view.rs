use lexwisp::chat::ChatAttachment;
use lexwisp::chat_state::ChatState;
use lexwisp::chat_view::{composer_draft, follow_snapshot, TranscriptUpdate};
use lexwisp::ids::{AttemptId, ConversationId, MessageId};

#[test]
fn the_composer_sends_text_attachments_or_context() {
    assert!(composer_draft(true, "   ".into(), Vec::new(), None).is_none());
    assert!(composer_draft(false, "hi".into(), Vec::new(), None).is_none());
    let (input, attachments) = composer_draft(true, String::new(), Vec::new(), Some((42, None))).expect("context sends");
    assert_eq!(input, "");
    assert!(attachments.is_empty());
    let note = ChatAttachment::text("a1".into(), "notes.txt".into(), "text".into());
    let (input, attachments) =
        composer_draft(true, "hi".into(), vec![note], Some((1700, Some("picked".into())))).expect("sends");
    assert_eq!(input, "hi");
    assert_eq!(attachments.len(), 2);
    assert_eq!(attachments[0].id(), "a1");
    assert_eq!(attachments[1].id(), "selection-1700");
    assert_eq!(attachments[1].name(), "Selected text");
}

#[test]
fn the_transcript_follows_newer_snapshots_only() {
    let first = ConversationId::new();
    let (mut state, _) = ChatState::new(Vec::new(), first.clone());
    let start = state.snapshot();
    state
        .prepare(&first, "hello", Vec::new(), false, 8192, MessageId::new(), MessageId::new(), AttemptId::new())
        .expect("prepares");
    let sent = state.snapshot();
    assert_eq!(follow_snapshot(&start, &sent), Some((TranscriptUpdate::Append(sent.messages.len()), start.title != sent.title)));
    assert_eq!(follow_snapshot(&sent, &start), None);
    state.add_conversation(ConversationId::new());
    let other = state.snapshot();
    assert_eq!(follow_snapshot(&sent, &other), Some((TranscriptUpdate::Reset(0), true)));
}
