use lexwisp::chat::{
    assemble_context, AiRole, ChatAttachment, ChatError, ChatMessageSnapshot, ChatMessageStatus,
    ConversationState,
};
use lexwisp::ids::{AttemptId, ConversationId, MessageId};

fn user(content: &str, ordinal: u64) -> ChatMessageSnapshot {
    ChatMessageSnapshot {
        id: MessageId::new(),
        is_user: true,
        content: content.into(),
        attachments: Vec::new(),
        status: ChatMessageStatus::Submitted,
        ordinal,
        attempt_id: None,
        reply_to_user_id: None,
    }
}

fn reply(to: &ChatMessageSnapshot, content: &str, status: ChatMessageStatus, ordinal: u64) -> ChatMessageSnapshot {
    ChatMessageSnapshot {
        id: MessageId::new(),
        is_user: false,
        content: content.into(),
        attachments: Vec::new(),
        status,
        ordinal,
        attempt_id: Some(AttemptId::new()),
        reply_to_user_id: Some(to.id.clone()),
    }
}

#[test]
fn partial_attempts_do_not_enter_the_next_context() {
    let user_message = ChatMessageSnapshot {
        id: MessageId::new(),
        is_user: true,
        content: "question".into(),
        attachments: Vec::new(),
        status: ChatMessageStatus::Submitted,
        ordinal: 0,
        attempt_id: None,
        reply_to_user_id: None,
    };
    let partial = ChatMessageSnapshot {
        id: MessageId::new(),
        is_user: false,
        content: "partial answer".into(),
        attachments: Vec::new(),
        status: ChatMessageStatus::CancelledPartial,
        ordinal: 1,
        attempt_id: Some(AttemptId::new()),
        reply_to_user_id: Some(user_message.id.clone()),
    };
    let next = ChatMessageSnapshot {
        id: MessageId::new(),
        is_user: true,
        content: "next question".into(),
        attachments: Vec::new(),
        status: ChatMessageStatus::Submitted,
        ordinal: 2,
        attempt_id: None,
        reply_to_user_id: None,
    };
    let next_id = next.id.clone();
    let (context, _) = assemble_context(&vec![user_message, partial, next], &next_id, 8_192)
        .expect("context assembles");
    assert_eq!(context.len(), 2);
    assert!(context.iter().all(|message| message.role == AiRole::User));
}

#[test]
fn context_budget_removes_whole_old_rounds_and_never_truncates_current_input() {
    let old_user = ChatMessageSnapshot {
        id: MessageId::new(),
        is_user: true,
        content: "old".into(),
        attachments: Vec::new(),
        status: ChatMessageStatus::Submitted,
        ordinal: 0,
        attempt_id: None,
        reply_to_user_id: None,
    };
    let old_answer = ChatMessageSnapshot {
        id: MessageId::new(),
        is_user: false,
        content: "answer".into(),
        attachments: Vec::new(),
        status: ChatMessageStatus::Completed,
        ordinal: 1,
        attempt_id: Some(AttemptId::new()),
        reply_to_user_id: Some(old_user.id.clone()),
    };
    let current = ChatMessageSnapshot {
        id: MessageId::new(),
        is_user: true,
        content: "current".into(),
        attachments: Vec::new(),
        status: ChatMessageStatus::Submitted,
        ordinal: 2,
        attempt_id: None,
        reply_to_user_id: None,
    };
    let current_id = current.id.clone();
    let only_current = vec![current.clone()];

    let (context, removed) =
        assemble_context(&vec![old_user, old_answer, current], &current_id, 2)
            .expect("the current input fits after removing the old round");
    assert_eq!(removed, 1);
    assert_eq!(context.len(), 1);
    assert_eq!(context[0].content, "current");
    assert!(matches!(
        assemble_context(&only_current, &current_id, 1),
        Err(ChatError::ContextBudgetExceeded)
    ));
}

#[test]
fn the_latest_completed_reply_answers_its_round() {
    let first = user("q", 0);
    let early = reply(&first, "early", ChatMessageStatus::Completed, 1);
    let late = reply(&first, "late", ChatMessageStatus::Completed, 3);
    let failed = reply(&first, "broken", ChatMessageStatus::FailedPartial, 4);
    let current = user("now", 5);
    let current_id = current.id.clone();
    let (context, removed) =
        assemble_context(&vec![first, early, late, failed, current], &current_id, 100).unwrap();
    assert_eq!(removed, 0);
    let texts: Vec<&str> = context.iter().map(|m| m.content.as_str()).collect();
    assert_eq!(texts, vec!["q", "late", "now"]);
    assert_eq!(context[1].role, AiRole::Assistant);
}

#[test]
fn rounds_after_the_current_user_message_are_left_out() {
    let first = user("first", 0);
    let second = user("second", 1);
    let first_id = first.id.clone();
    let (context, _) = assemble_context(&vec![first, second], &first_id, 100).unwrap();
    assert_eq!(context.len(), 1);
    assert_eq!(context[0].content, "first");
}

#[test]
fn image_attachments_count_four_thousand_ninety_six_characters() {
    let mut current = user("hi", 0);
    current.attachments.push(ChatAttachment::image(
        "a".into(),
        "cat.png".into(),
        "image/png",
        vec![1, 2, 3],
    ));
    let id = current.id.clone();
    let messages = vec![current];
    assert!(matches!(
        assemble_context(&messages, &id, 1024),
        Err(ChatError::ContextBudgetExceeded)
    ));
    assert!(assemble_context(&messages, &id, 1025).is_ok());
}

#[test]
fn preparing_a_first_message_titles_the_conversation_and_starts_it() {
    let mut conversation = ConversationState::empty(ConversationId::new(), 1);
    let user_id = MessageId::new();
    let assistant_id = MessageId::new();
    let request = conversation
        .prepare(
            "  Hello there  ",
            Vec::new(),
            false,
            8192,
            7,
            user_id.clone(),
            assistant_id.clone(),
            AttemptId::new(),
        )
        .expect("prepares");
    assert_eq!(request.input, "Hello there");
    assert_eq!(request.conversation_title, "Hello there");
    assert_eq!(request.user_message_id, user_id);
    assert_eq!(request.assistant_message_id, assistant_id);
    assert_eq!(request.reply_to_user_id, user_id);
    assert_eq!((request.user_ordinal, request.assistant_ordinal), (0, 1));
    assert_eq!(request.messages.len(), 1);
    assert_eq!(conversation.messages.len(), 2);
    assert!(conversation.starting);
    assert_eq!(conversation.status_text, "Starting…");
    assert_eq!(conversation.updated_order, 7);
    assert!(conversation.context_notice.is_none());
}

#[test]
fn preparing_refuses_empty_input_busy_conversations_and_missing_retries() {
    let mut conversation = ConversationState::empty(ConversationId::new(), 1);
    let attempt = |c: &mut ConversationState, input: &str, regenerate: bool| {
        c.prepare(
            input,
            Vec::new(),
            regenerate,
            8192,
            2,
            MessageId::new(),
            MessageId::new(),
            AttemptId::new(),
        )
    };
    assert!(matches!(attempt(&mut conversation, "   ", false), Err(ChatError::EmptyInput)));
    assert!(matches!(attempt(&mut conversation, "again", true), Err(ChatError::NothingToRetry)));
    assert!(attempt(&mut conversation, "hi", false).is_ok());
    assert!(matches!(attempt(&mut conversation, "more", false), Err(ChatError::Busy)));
    assert_eq!(conversation.messages.len(), 2);
}

#[test]
fn a_long_first_message_gives_a_forty_eight_character_title() {
    let mut conversation = ConversationState::empty(ConversationId::new(), 1);
    let text = "x".repeat(60);
    let request = conversation
        .prepare(&text, Vec::new(), false, 8192, 2, MessageId::new(), MessageId::new(), AttemptId::new())
        .unwrap();
    assert_eq!(request.conversation_title.chars().count(), 48);
}
