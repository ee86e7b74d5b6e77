use lexwisp::chat::{ChatError, ChatMessageSnapshot, ChatMessageStatus, ChatModelPreference, PersistedChatConversation};
use lexwisp::chat_state::{normalized_title, ChatState};
use lexwisp::command::SurfaceKind;
use lexwisp::execution::{ExecutionSnapshot, ExecutionStatus, StorageState};
use lexwisp::ids::{AttemptId, ConversationId, InvocationId, MessageId};
use lexwisp::plugin::PluginId;
use lexwisp::provider::ProviderId;

fn record(title: &str, order: u64, favorite: bool, text: &str) -> PersistedChatConversation {
    PersistedChatConversation {
        id: ConversationId::new(),
        title: title.into(),
        model_preference: ChatModelPreference::Fast,
        favorite,
        messages: vec![ChatMessageSnapshot {
            id: MessageId::new(),
            is_user: true,
            content: text.into(),
            attachments: Vec::new(),
            status: ChatMessageStatus::Submitted,
            ordinal: 0,
            attempt_id: None,
            reply_to_user_id: None,
        }],
        updated_order: order,
    }
}

fn run_snapshot(
    conversation: &ConversationId,
    assistant: &MessageId,
    invocation: &InvocationId,
    sequence: u64,
    status: ExecutionStatus,
    output: &str,
) -> ExecutionSnapshot {
    ExecutionSnapshot {
        invocation_id: invocation.clone(),
        plugin_id: PluginId::parse("org.lexwisp.chat").expect("plugin ID"),
        plugin_generation: 1,
        conversation_id: conversation.clone(),
        user_message_id: MessageId::new(),
        assistant_message_id: assistant.clone(),
        provider_id: ProviderId::parse("fixture").expect("provider ID"),
        model_id: "fixture".into(),
        sequence,
        text_version: sequence,
        status,
        output: output.into(),
        error: None,
        storage: StorageState::Saved,
        retention_generation: 0,
    }
}

#[test]
fn an_empty_history_starts_with_a_new_chat() {
    let fresh = ConversationId::new();
    let (state, created) = ChatState::new(Vec::new(), fresh.clone());
    assert!(created);
    let shown = state.snapshot();
    assert_eq!(shown.conversation_id.as_str(), fresh.as_str());
    assert_eq!(shown.title, "New chat");
    assert_eq!(shown.status_text, "Ready");
    assert_eq!(shown.conversations.len(), 1);
    assert!(shown.can_send && !shown.can_stop && !shown.can_retry);
}

#[test]
fn the_most_recent_conversation_opens_and_lists_first() {
    let older = record("Older", 5, false, "first");
    let newer = record("Newer", 9, true, "second");
    let newer_id = newer.id.clone();
    let (mut state, created) = ChatState::new(vec![older, newer], ConversationId::new());
    assert!(!created);
    let shown = state.snapshot();
    assert_eq!(shown.conversation_id.as_str(), newer_id.as_str());
    assert_eq!(shown.status_text, "Restored");
    let titles: Vec<&str> = shown.conversations.iter().map(|c| c.title()).collect();
    assert_eq!(titles, ["Newer", "Older"]);
    assert!(shown.can_retry);

    let added = ConversationId::new();
    state.add_conversation(added.clone());
    let shown = state.snapshot();
    assert_eq!(shown.conversation_id.as_str(), added.as_str());
    assert_eq!(shown.conversations[0].id().as_str(), added.as_str());
    assert_eq!(shown.conversations[0].updated_order(), 11);
}

#[test]
fn titles_are_trimmed_bounded_and_not_empty() {
    assert_eq!(normalized_title("  Hello  ").expect("title"), "Hello");
    assert!(matches!(normalized_title("   "), Err(ChatError::Failed(m)) if m == "conversation title cannot be empty"));
    assert_eq!(normalized_title(&"é".repeat(200)).expect("title").chars().count(), 120);
    let (mut state, _) = ChatState::new(vec![record("A", 1, false, "x"), record("B", 2, false, "y")], ConversationId::new());
    let before = state.snapshot();
    state.rename_open(normalized_title(" Renamed ").expect("title"));
    let after = state.snapshot();
    assert_eq!(after.title, "Renamed");
    assert_eq!(after.generation, before.generation + 1);
    assert_eq!(after.conversations[0].title(), "Renamed");
}

#[test]
fn switching_favorites_and_search() {
    let work = record("Work notes", 1, false, "Quarterly REPORT draft");
    let home = record("Home", 2, true, "groceries");
    let work_id = work.id.clone();
    let (mut state, _) = ChatState::new(vec![work, home], ConversationId::new());
    assert!(matches!(state.switch_to(&ConversationId::new()), Err(ChatError::ConversationNotFound)));
    state.switch_to(&work_id).expect("known conversation");
    assert_eq!(state.snapshot().title, "Work notes");
    let found = state.search("  report ", false);
    assert_eq!(found.len(), 1);
    assert_eq!(found[0].title(), "Work notes");
    assert_eq!(state.search("", true).len(), 1);
    assert_eq!(state.search("", false).len(), 2);
    state.set_favorite(&work_id, true).expect("known conversation");
    assert_eq!(state.search("", true).len(), 2);
    assert!(state.search("nothing like it", false).is_empty());
    state.set_model_preference(ChatModelPreference::Smart);
    assert!(matches!(state.snapshot().model_preference, ChatModelPreference::Smart));
}

#[test]
fn removing_conversations_opens_the_latest_or_a_new_one() {
    let a = record("A", 3, false, "x");
    let b = record("B", 7, false, "y");
    let (a_id, b_id) = (a.id.clone(), b.id.clone());
    let (mut state, _) = ChatState::new(vec![a, b], ConversationId::new());
    assert!(state.running_invocation(&b_id).is_none());
    let (_, created) = state.remove_conversation(&b_id, ConversationId::new());
    assert!(!created);
    assert_eq!(state.snapshot().conversation_id.as_str(), a_id.as_str());
    let fresh = ConversationId::new();
    let (_, created) = state.remove_conversation(&a_id, fresh.clone());
    assert!(created);
    let shown = state.snapshot();
    assert_eq!(shown.conversation_id.as_str(), fresh.as_str());
    assert_eq!(shown.title, "New chat");
    assert_eq!(shown.conversations.len(), 1);
}

#[test]
fn a_prepared_attempt_follows_its_run() {
    let fresh = ConversationId::new();
    let (mut state, _) = ChatState::new(Vec::new(), fresh.clone());
    assert!(state.set_surface_visible(SurfaceKind::MainShell, true).is_some());
    assert!(matches!(
        state.prepare(&fresh, "   ", Vec::new(), false, 8192, MessageId::new(), MessageId::new(), AttemptId::new()),
        Err(ChatError::EmptyInput)
    ));
    assert!(matches!(
        state.prepare(&ConversationId::new(), "hi", Vec::new(), false, 8192, MessageId::new(), MessageId::new(), AttemptId::new()),
        Err(ChatError::ConversationNotFound)
    ));
    let assistant = MessageId::new();
    let (request, sent) = state
        .prepare(&fresh, " hello there ", Vec::new(), false, 8192, MessageId::new(), assistant.clone(), AttemptId::new())
        .unwrap_or_else(|error| panic!("{error:?}"));
    assert_eq!(request.input, "hello there");
    let sent = sent.expect("a visible surface gets the snapshot");
    assert_eq!(sent.title, "hello there");
    assert_eq!(sent.status_text, "Starting…");
    assert!(!sent.can_send);
    assert!(matches!(state.stop(), Err(ChatError::Busy)));

    let invocation = InvocationId::new();
    let running = state
        .observe(&run_snapshot(&fresh, &assistant, &invocation, 1, ExecutionStatus::Running, "par"))
        .expect("sent");
    assert_eq!(running.status_text, "Generating…");
    assert!(running.can_stop);
    assert_eq!(state.stop().expect("running").as_str(), invocation.as_str());
    assert!(state
        .observe(&run_snapshot(&fresh, &MessageId::new(), &invocation, 2, ExecutionStatus::Running, "other"))
        .is_none());
    let done = state
        .observe(&run_snapshot(&fresh, &assistant, &invocation, 3, ExecutionStatus::Completed, "partial answer"))
        .expect("sent");
    assert_eq!(done.status_text, "Answer complete");
    assert_eq!(done.messages.last().expect("reply").content, "partial answer");
    assert!(done.can_send && done.can_retry);
    let (id, text, attachments) = state.retry_draft().expect("something to retry");
    assert_eq!(id.as_str(), fresh.as_str());
    assert_eq!(text, "hello there");
    assert!(attachments.is_empty());
}

#[test]
fn a_run_that_cannot_start_fails_its_attempt() {
    let fresh = ConversationId::new();
    let (mut state, _) = ChatState::new(Vec::new(), fresh.clone());
    let assistant = MessageId::new();
    state
        .prepare(&fresh, "hello", Vec::new(), false, 8192, MessageId::new(), assistant.clone(), AttemptId::new())
        .unwrap_or_else(|error| panic!("{error:?}"));
    assert!(state.fail_to_start(&assistant, "no provider is configured".into()).is_none());
    let shown = state.snapshot();
    assert_eq!(shown.status_text, "no provider is configured");
    assert!(shown.can_send);
    assert_eq!(shown.messages.last().expect("attempt").status, ChatMessageStatus::FailedPartial);
    assert!(matches!(state.retry_draft(), Ok(_)));
}

#[test]
fn one_conversation_is_serial_while_two_can_prepare_in_parallel() {
    let first = ConversationId::new();
    let (mut state, _) = ChatState::new(Vec::new(), first.clone());
    state
        .prepare(&first, "first request", Vec::new(), false, 8192, MessageId::new(), MessageId::new(), AttemptId::new())
        .expect("first conversation prepares");
    assert!(matches!(
        state.prepare(&first, "competing request", Vec::new(), false, 8192, MessageId::new(), MessageId::new(), AttemptId::new()),
        Err(ChatError::Busy)
    ));

    let second = ConversationId::new();
    state.add_conversation(second.clone());
    state
        .prepare(&second, "independent request", Vec::new(), false, 8192, MessageId::new(), MessageId::new(), AttemptId::new())
        .expect("another conversation prepares independently");
}
