//! Chat conversations: messages, attachments, and the assembly of the
//! context that is sent to the model under a budget.
use vstd::prelude::*;

use crate::ids::{AttemptId, ConversationId, InvocationId, MessageId};
use crate::execution::{ExecutionSnapshot, ExecutionStatus, StorageState};
use crate::text::{chars_of, copy_string};

verus! {

/// The estimated size, in characters, that an image attachment takes.
pub const IMAGE_ATTACHMENT_CHARS: usize = 4096;

/// The estimated number of characters in one token.
pub const ESTIMATED_CHARS_PER_TOKEN: usize = 4;

/// Where a chat message stands.
#[derive(Clone, Copy, Debug, PartialEq, Eq, Structural)]
pub enum ChatMessageStatus {
    Submitted,
    Generating,
    Completed,
    CancelledPartial,
    FailedPartial,
}

/// The model of an attachment's content.
pub enum AttachmentContentView {
    Text(Seq<char>),
    Image(Seq<char>, Seq<u8>),
}

/// What an attachment holds.
#[derive(Debug)]
pub enum ChatAttachmentContent {
    Text { text: String },
    Image { media_type: String, bytes: Vec<u8> },
}

impl View for ChatAttachmentContent {
    type V = AttachmentContentView;

    open spec fn view(&self) -> AttachmentContentView {
        match self {
            ChatAttachmentContent::Text { text } => AttachmentContentView::Text(text@),
            ChatAttachmentContent::Image { media_type, bytes } => AttachmentContentView::Image(
                media_type@,
                bytes@,
            ),
        }
    }
}

impl Clone for ChatAttachmentContent {
    fn clone(&self) -> (r: Self)
        ensures
            r@ == self@,
    {
        match self {
            ChatAttachmentContent::Text { text } => ChatAttachmentContent::Text {
                text: copy_string(text),
            },
            ChatAttachmentContent::Image { media_type, bytes } => ChatAttachmentContent::Image {
                media_type: copy_string(media_type),
                bytes: bytes.clone(),
            },
        }
    }
}

/// The model of an attachment.
pub struct AttachmentView {
    pub id: Seq<char>,
    pub name: Seq<char>,
    pub content: AttachmentContentView,
}

/// A file attached to a chat message.
#[derive(Debug)]
pub struct ChatAttachment {
    id: String,
    name: String,
    content: ChatAttachmentContent,
}

impl View for ChatAttachment {
    type V = AttachmentView;

    closed spec fn view(&self) -> AttachmentView {
        AttachmentView { id: self.id@, name: self.name@, content: self.content@ }
    }
}

impl Clone for ChatAttachment {
    fn clone(&self) -> (r: Self)
        ensures
            r@ == self@,
    {
        ChatAttachment {
            id: copy_string(&self.id),
            name: copy_string(&self.name),
            content: self.content.clone(),
        }
    }
}

impl ChatAttachment {
    /// A text attachment.
    pub fn text(id: String, name: String, text: String) -> (r: Self)
        ensures
            r@ == (AttachmentView {
                id: id@,
                name: name@,
                content: AttachmentContentView::Text(text@),
            }),
    {
        ChatAttachment { id, name, content: ChatAttachmentContent::Text { text } }
    }

    /// An image attachment of media type `media_type`.
    pub fn image(id: String, name: String, media_type: &str, bytes: Vec<u8>) -> (r: Self)
        ensures
            r@ == (AttachmentView {
                id: id@,
                name: name@,
                content: AttachmentContentView::Image(media_type@, bytes@),
            }),
    {
        ChatAttachment {
            id,
            name,
            content: ChatAttachmentContent::Image { media_type: media_type.to_owned(), bytes },
        }
    }

    /// The attachment's ID.
    pub fn id(&self) -> (r: &str)
        ensures
            r@ == self@.id,
    {
        self.id.as_str()
    }

    /// The attachment's file name.
    pub fn name(&self) -> (r: &str)
        ensures
            r@ == self@.name,
    {
        self.name.as_str()
    }

    /// What the attachment holds.
    pub fn content(&self) -> (r: &ChatAttachmentContent)
        ensures
            r@ == self@.content,
    {
        &self.content
    }
}

/// The estimated size of an attachment, in characters.
pub open spec fn attachment_chars(a: AttachmentView) -> nat {
    match a.content {
        AttachmentContentView::Text(t) => t.len(),
        AttachmentContentView::Image(_, _) => 4096,
    }
}

/// The estimated size of a list of attachments, in characters.
pub open spec fn attachments_chars(a: Seq<AttachmentView>) -> nat
    decreases a.len(),
{
    if a.len() == 0 {
        0
    } else {
        attachments_chars(a.drop_last()) + attachment_chars(a.last())
    }
}

/// The models of a list of attachments.
pub open spec fn attachments_view(a: Seq<ChatAttachment>) -> Seq<AttachmentView> {
    a.map_values(|x: ChatAttachment| x@)
}

/// Copies a list of attachments.
pub fn copy_attachments(a: &Vec<ChatAttachment>) -> (r: Vec<ChatAttachment>)
    ensures
        attachments_view(r@) == attachments_view(a@),
{
    let mut r: Vec<ChatAttachment> = Vec::new();
    let mut i: usize = 0;
    while i < a.len()
        invariant
            i <= a.len(),
            r@.len() == i,
            forall|j: int| 0 <= j < i ==> (#[trigger] r@[j])@ == a@[j]@,
        decreases a.len() - i,
    {
        r.push(a[i].clone());
        i += 1;
    }
    assert(attachments_view(r@) =~= attachments_view(a@));
    r
}

/// Which model a conversation asks for.
#[derive(Debug)]
pub enum ChatModelPreference {
    Fast,
    Smart,
    Model(String),
}

/// The model of a model preference.
pub enum ModelPreferenceView {
    Fast,
    Smart,
    Model(Seq<char>),
}

impl View for ChatModelPreference {
    type V = ModelPreferenceView;

    open spec fn view(&self) -> ModelPreferenceView {
        match self {
            ChatModelPreference::Fast => ModelPreferenceView::Fast,
            ChatModelPreference::Smart => ModelPreferenceView::Smart,
            ChatModelPreference::Model(m) => ModelPreferenceView::Model(m@),
        }
    }
}

impl Clone for ChatModelPreference {
    fn clone(&self) -> (r: Self)
        ensures
            r@ == self@,
    {
        match self {
            ChatModelPreference::Fast => ChatModelPreference::Fast,
            ChatModelPreference::Smart => ChatModelPreference::Smart,
            ChatModelPreference::Model(m) => ChatModelPreference::Model(copy_string(m)),
        }
    }
}

/// The model of a chat message.
pub struct MessageView {
    pub id: Seq<char>,
    pub is_user: bool,
    pub content: Seq<char>,
    pub attachments: Seq<AttachmentView>,
    pub status: ChatMessageStatus,
    pub ordinal: u64,
    pub attempt_id: Option<Seq<char>>,
    pub reply_to_user_id: Option<Seq<char>>,
}

/// A message of a conversation: the user's input, or one generation attempt
/// of the assistant that replies to a user message.
#[derive(Debug)]
pub struct ChatMessageSnapshot {
    pub id: MessageId,
    pub is_user: bool,
    pub content: String,
    pub attachments: Vec<ChatAttachment>,
    pub status: ChatMessageStatus,
    pub ordinal: u64,
    pub attempt_id: Option<AttemptId>,
    pub reply_to_user_id: Option<MessageId>,
}

impl View for ChatMessageSnapshot {
    type V = MessageView;

    open spec fn view(&self) -> MessageView {
        MessageView {
            id: self.id@,
            is_user: self.is_user,
            content: self.content@,
            attachments: attachments_view(self.attachments@),
            status: self.status,
            ordinal: self.ordinal,
            attempt_id: match self.attempt_id {
                Some(a) => Some(a@),
                None => None,
            },
            reply_to_user_id: match self.reply_to_user_id {
                Some(a) => Some(a@),
                None => None,
            },
        }
    }
}

impl Clone for ChatMessageSnapshot {
    fn clone(&self) -> (r: Self)
        ensures
            r@ == self@,
    {
        ChatMessageSnapshot {
            id: self.id.clone(),
            is_user: self.is_user,
            content: copy_string(&self.content),
            attachments: copy_attachments(&self.attachments),
            status: self.status,
            ordinal: self.ordinal,
            attempt_id: match &self.attempt_id {
                Some(a) => Some(a.clone()),
                None => None,
            },
            reply_to_user_id: match &self.reply_to_user_id {
                Some(a) => Some(a.clone()),
                None => None,
            },
        }
    }
}

/// The models of a list of messages.
pub open spec fn messages_view(m: Seq<ChatMessageSnapshot>) -> Seq<MessageView> {
    m.map_values(|x: ChatMessageSnapshot| x@)
}

/// Who wrote a message sent to the model.
#[derive(Clone, Copy, Debug, PartialEq, Eq, Structural)]
pub enum AiRole {
    System,
    User,
    Assistant,
}

/// The model of a message sent to the model.
pub struct AiMessageView {
    pub role: AiRole,
    pub content: Seq<char>,
    pub attachments: Seq<AttachmentView>,
}

/// A message sent to the model.
#[derive(Debug)]
pub struct AiMessage {
    pub role: AiRole,
    pub content: String,
    pub attachments: Vec<ChatAttachment>,
}

impl View for AiMessage {
    type V = AiMessageView;

    open spec fn view(&self) -> AiMessageView {
        AiMessageView {
            role: self.role,
            content: self.content@,
            attachments: attachments_view(self.attachments@),
        }
    }
}

/// The models of a list of model messages.
pub open spec fn ai_messages_view(m: Seq<AiMessage>) -> Seq<AiMessageView> {
    m.map_values(|x: AiMessage| x@)
}

/// The estimated size of a model message, in characters.
pub open spec fn ai_chars(m: AiMessageView) -> nat {
    m.content.len() + attachments_chars(m.attachments)
}

/// The estimated size of a chat message, in characters.
pub open spec fn message_chars(m: MessageView) -> nat {
    m.content.len() + attachments_chars(m.attachments)
}

/// The estimated size of a list of chat messages, in characters.
pub open spec fn messages_chars(m: Seq<MessageView>) -> nat
    decreases m.len(),
{
    if m.len() == 0 {
        0
    } else {
        messages_chars(m.drop_last()) + message_chars(m.last())
    }
}

/// The estimated size of a list of model messages, in characters.
pub open spec fn round_chars(r: Seq<AiMessageView>) -> nat
    decreases r.len(),
{
    if r.len() == 0 {
        0
    } else {
        round_chars(r.drop_last()) + ai_chars(r.last())
    }
}

/// The estimated size of several rounds, in characters.
pub open spec fn rounds_chars(rs: Seq<Seq<AiMessageView>>) -> nat
    decreases rs.len(),
{
    if rs.len() == 0 {
        0
    } else {
        rounds_chars(rs.drop_last()) + round_chars(rs.last())
    }
}

/// `m` is a completed assistant attempt replying to the user message `user`.
pub open spec fn completed_reply(m: MessageView, user: Seq<char>) -> bool {
    !m.is_user && m.reply_to_user_id == Some(user) && m.status == ChatMessageStatus::Completed
}

/// The index of the completed reply to `user` with the greatest ordinal;
/// among equal ordinals the last one.
pub open spec fn latest_reply(ms: Seq<MessageView>, user: Seq<char>) -> Option<int>
    decreases ms.len(),
{
    if ms.len() == 0 {
        None
    } else {
        let prev = latest_reply(ms.drop_last(), user);
        if completed_reply(ms.last(), user) {
            match prev {
                Some(p) => if ms[p].ordinal > ms.last().ordinal {
                    Some(p)
                } else {
                    Some(ms.len() - 1)
                },
                None => Some(ms.len() - 1),
            }
        } else {
            prev
        }
    }
}

/// The round that a user message opens: the user's message, then the
/// latest completed reply to it, if any.
pub open spec fn round_of(ms: Seq<MessageView>, user: MessageView) -> Seq<AiMessageView> {
    let first = AiMessageView {
        role: AiRole::User,
        content: user.content,
        attachments: user.attachments,
    };
    match latest_reply(ms, user.id) {
        Some(i) => seq![
            first,
            AiMessageView {
                role: AiRole::Assistant,
                content: ms[i].content,
                attachments: Seq::empty(),
            },
        ],
        None => seq![first],
    }
}

/// The rounds of the user messages of `ms.take(n)`, in order, stopping after
/// the one with ID `current`.
pub open spec fn rounds_of(ms: Seq<MessageView>, n: int, current: Seq<char>) -> Seq<
    Seq<AiMessageView>,
>
    decreases n,
{
    if n <= 0 {
        Seq::empty()
    } else {
        let before = rounds_of(ms, n - 1, current);
        if stops_before(ms, n - 1, current) || !ms[n - 1].is_user {
            before
        } else {
            before.push(round_of(ms, ms[n - 1]))
        }
    }
}

/// A user message with ID `current` occurs in `ms.take(n)`.
pub open spec fn stops_before(ms: Seq<MessageView>, n: int, current: Seq<char>) -> bool {
    exists|j: int| 0 <= j < n && ms[j].is_user && ms[j].id == current
}

/// How many of the oldest rounds must go for the rest to fit `budget`
/// characters, keeping at least one round.
pub open spec fn rounds_to_drop(rs: Seq<Seq<AiMessageView>>, budget: nat) -> nat
    decreases rs.len(),
{
    if rs.len() > 1 && rounds_chars(rs) > budget {
        1 + rounds_to_drop(rs.drop_first(), budget)
    } else {
        0
    }
}

/// The messages of several rounds, in order.
pub open spec fn flatten_rounds(rs: Seq<Seq<AiMessageView>>) -> Seq<AiMessageView>
    decreases rs.len(),
{
    if rs.len() == 0 {
        Seq::empty()
    } else {
        flatten_rounds(rs.drop_last()) + rs.last()
    }
}

/// The character budget of a token budget, at four characters per token,
/// saturating at the largest `usize`.
pub open spec fn budget_chars(budget_tokens: usize) -> nat {
    if budget_tokens * 4 > usize::MAX {
        usize::MAX as nat
    } else {
        (budget_tokens * 4) as nat
    }
}

/// What assembling the context gives: the messages and the number of whole
/// rounds removed, or `None` when the current round alone exceeds the budget.
pub open spec fn assembled(ms: Seq<MessageView>, current: Seq<char>, budget_tokens: usize) -> Option<
    (Seq<AiMessageView>, nat),
> {
    let rs = rounds_of(ms, ms.len() as int, current);
    let budget = budget_chars(budget_tokens);
    let current_chars = if rs.len() == 0 {
        0
    } else {
        round_chars(rs.last())
    };
    if current_chars > budget {
        None
    } else {
        let dropped = rounds_to_drop(rs, budget);
        Some((flatten_rounds(rs.skip(dropped as int)), dropped))
    }
}

/// Why a chat operation failed.
#[derive(Clone, Debug)]
pub enum ChatError {
    EmptyInput,
    Busy,
    NothingToRetry,
    ConversationNotFound,
    ContextBudgetExceeded,
    Failed(String),
}

/// The estimated size of a list of attachments, in characters.
fn estimated_attachments_chars(a: &Vec<ChatAttachment>) -> (r: usize)
    requires
        attachments_chars(attachments_view(a@)) <= usize::MAX,
    ensures
        r == attachments_chars(attachments_view(a@)),
{
    let ghost av = attachments_view(a@);
    let mut total: usize = 0;
    let mut i: usize = 0;
    while i < a.len()
        invariant
            i <= a.len(),
            av == attachments_view(a@),
            attachments_chars(av) <= usize::MAX,
            total == attachments_chars(av.take(i as int)),
        decreases a.len() - i,
    {
        proof {
            assert(av.take(i + 1).drop_last() =~= av.take(i as int));
            lemma_attachments_chars_prefix(av, i + 1);
        }
        let n = match a[i].content() {
            ChatAttachmentContent::Text { text } => text.as_str().unicode_len(),
            ChatAttachmentContent::Image { .. } => IMAGE_ATTACHMENT_CHARS,
        };
        assert(av[i as int] == a@[i as int]@);
        total = total + n;
        i += 1;
    }
    assert(av.take(a.len() as int) =~= av);
    total
}

/// A prefix of a list of attachments is no larger than the list.
proof fn lemma_attachments_chars_prefix(a: Seq<AttachmentView>, n: int)
    requires
        0 <= n <= a.len(),
    ensures
        attachments_chars(a.take(n)) <= attachments_chars(a),
    decreases a.len(),
{
    if n < a.len() {
        assert(a.drop_last().take(n) =~= a.take(n));
        lemma_attachments_chars_prefix(a.drop_last(), n);
    } else {
        assert(a.take(n) =~= a);
    }
}

/// The estimated size of a model message, in characters: its characters and
/// those of its text attachments, and 4096 for each image.
pub fn estimated_message_chars(message: &AiMessage) -> (r: usize)
    requires
        ai_chars(message@) <= usize::MAX,
    ensures
        r == ai_chars(message@),
{
    let n = message.content.as_str().unicode_len();
    let a = estimated_attachments_chars(&message.attachments);
    n + a
}

/// The model message for a user message.
fn user_ai_message(m: &ChatMessageSnapshot) -> (r: AiMessage)
    ensures
        r@ == (AiMessageView { role: AiRole::User, content: m@.content, attachments: m@.attachments }),
{
    AiMessage {
        role: AiRole::User,
        content: copy_string(&m.content),
        attachments: copy_attachments(&m.attachments),
    }
}

/// The index of the latest completed reply to `user`.
fn find_latest_reply(messages: &Vec<ChatMessageSnapshot>, user: &MessageId) -> (r: Option<usize>)
    ensures
        r matches Some(i) ==> i < messages@.len(),
        match r {
            Some(i) => latest_reply(messages_view(messages@), user@) == Some(i as int),
            None => latest_reply(messages_view(messages@), user@) is None,
        },
{
    let ghost ms = messages_view(messages@);
    let mut best: Option<usize> = None;
    let mut i: usize = 0;
    while i < messages.len()
        invariant
            i <= messages.len(),
            ms == messages_view(messages@),
            match best {
                Some(b) => latest_reply(ms.take(i as int), user@) == Some(b as int) && b < i,
                None => latest_reply(ms.take(i as int), user@) is None,
            },
        decreases messages.len() - i,
    {
        let m = &messages[i];
        proof {
            assert(ms.take(i + 1).drop_last() =~= ms.take(i as int));
            assert(ms.take(i + 1).last() == m@);
        }
        let reply = !m.is_user && m.status == ChatMessageStatus::Completed && match &m.reply_to_user_id {
            Some(to) => crate::text::str_eq(to.as_str(), user.as_str()),
            None => false,
        };
        if reply {
            match best {
                Some(b) => {
                    assert(ms.take(i + 1)[b as int] == messages@[b as int]@);
                    if messages[b].ordinal <= m.ordinal {
                        best = Some(i);
                    }
                },
                None => {
                    best = Some(i);
                },
            }
        }
        i += 1;
    }
    assert(ms.take(messages.len() as int) =~= ms);
    best
}

/// The rounds of `messages` up to the current user message.
fn collect_rounds(messages: &Vec<ChatMessageSnapshot>, current_user_id: &MessageId) -> (r: Vec<
    Vec<AiMessage>,
>)
    ensures
        rounds_view(r@) == rounds_of(
            messages_view(messages@),
            messages@.len() as int,
            current_user_id@,
        ),
{
    let ghost ms = messages_view(messages@);
    let mut rounds: Vec<Vec<AiMessage>> = Vec::new();
    let mut stopped = false;
    let mut i: usize = 0;
    assert(rounds_view(rounds@) =~= rounds_of(ms, 0, current_user_id@));
    while i < messages.len() && !stopped
        invariant
            i <= messages.len(),
            ms == messages_view(messages@),
            stopped == stops_before(ms, i as int, current_user_id@),
            rounds_view(rounds@) == rounds_of(ms, i as int, current_user_id@),
        decreases messages.len() - i,
    {
        let m = &messages[i];
        proof {
            assert(ms[i as int] == m@);
        }
        if m.is_user {
            let mut round: Vec<AiMessage> = Vec::new();
            round.push(user_ai_message(m));
            match find_latest_reply(messages, &m.id) {
                Some(k) => {
                    let reply = AiMessage {
                        role: AiRole::Assistant,
                        content: copy_string(&messages[k].content),
                        attachments: Vec::new(),
                    };
                    assert(reply@.attachments =~= Seq::<AttachmentView>::empty());
                    assert(ms[k as int] == messages@[k as int]@);
                    round.push(reply);
                },
                None => {},
            }
            assert(ai_messages_view(round@) =~= round_of(ms, ms[i as int]));
            let ghost before = rounds@;
            rounds.push(round);
            assert(rounds_view(rounds@) =~= rounds_view(before).push(round_of(ms, ms[i as int])));
            if crate::text::str_eq(m.id.as_str(), current_user_id.as_str()) {
                stopped = true;
            }
            assert(stopped == stops_before(ms, i + 1, current_user_id@)) by {
                if stops_before(ms, i + 1, current_user_id@) && !stopped {
                    let j = choose|j: int| 0 <= j < i + 1 && ms[j].is_user && ms[j].id == current_user_id@;
                    if j == i {
                    } else {
                        assert(stops_before(ms, i as int, current_user_id@));
                    }
                }
            }
        } else {
            assert(stops_before(ms, i + 1, current_user_id@) == stops_before(ms, i as int, current_user_id@)) by {
                if stops_before(ms, i + 1, current_user_id@) {
                    let j = choose|j: int| 0 <= j < i + 1 && ms[j].is_user && ms[j].id == current_user_id@;
                    assert(j != i);
                }
            }
        }
        i += 1;
    }
    proof {
        lemma_rounds_of_stop(ms, i as int, ms.len() as int, current_user_id@);
    }
    rounds
}

/// Once the current user message has been passed, no further round opens.
proof fn lemma_rounds_of_stop(ms: Seq<MessageView>, i: int, n: int, current: Seq<char>)
    requires
        0 <= i <= n <= ms.len(),
        i == n || stops_before(ms, i, current),
    ensures
        rounds_of(ms, n, current) == rounds_of(ms, i, current),
    decreases n - i,
{
    if n > i {
        lemma_rounds_of_stop(ms, i, n - 1, current);
        let j = choose|j: int| 0 <= j < i && ms[j].is_user && ms[j].id == current;
        assert(stops_before(ms, n - 1, current));
    }
}

/// The size of a round is the sum of its messages' sizes, counted from the
/// front.
proof fn lemma_round_chars_prefix(r: Seq<AiMessageView>, j: int)
    requires
        0 <= j < r.len(),
    ensures
        round_chars(r.take(j + 1)) == round_chars(r.take(j)) + ai_chars(r[j]),
        round_chars(r.take(j + 1)) <= round_chars(r),
    decreases r.len(),
{
    assert(r.take(j + 1).drop_last() =~= r.take(j));
    if j + 1 < r.len() {
        lemma_round_chars_prefix(r.drop_last(), j);
        assert(r.drop_last().take(j + 1) =~= r.take(j + 1));
        assert(r.drop_last().take(j) =~= r.take(j));
    } else {
        assert(r.take(j + 1) =~= r);
    }
}

/// A round is no larger than all rounds, and the rounds from the front
/// add up.
proof fn lemma_rounds_chars_prefix(rs: Seq<Seq<AiMessageView>>, k: int)
    requires
        0 <= k < rs.len(),
    ensures
        rounds_chars(rs.take(k + 1)) == rounds_chars(rs.take(k)) + round_chars(rs[k]),
        rounds_chars(rs.take(k + 1)) <= rounds_chars(rs),
    decreases rs.len(),
{
    assert(rs.take(k + 1).drop_last() =~= rs.take(k));
    if k + 1 < rs.len() {
        lemma_rounds_chars_prefix(rs.drop_last(), k);
        assert(rs.drop_last().take(k + 1) =~= rs.take(k + 1));
        assert(rs.drop_last().take(k) =~= rs.take(k));
    } else {
        assert(rs.take(k + 1) =~= rs);
    }
}

/// Removing the oldest round removes its size.
proof fn lemma_rounds_chars_cons(rs: Seq<Seq<AiMessageView>>)
    requires
        rs.len() > 0,
    ensures
        rounds_chars(rs) == round_chars(rs[0]) + rounds_chars(rs.drop_first()),
    decreases rs.len(),
{
    if rs.len() > 1 {
        lemma_rounds_chars_cons(rs.drop_last());
        assert(rs.drop_last().drop_first() =~= rs.drop_first().drop_last());
    } else {
        assert(rs.drop_first() =~= Seq::<Seq<AiMessageView>>::empty());
        assert(rs.drop_last() =~= Seq::<Seq<AiMessageView>>::empty());
    }
}

/// The size of a round, in characters.
fn round_size(round: &Vec<AiMessage>) -> (r: usize)
    requires
        round_chars(ai_messages_view(round@)) <= usize::MAX,
    ensures
        r == round_chars(ai_messages_view(round@)),
{
    let ghost rv = ai_messages_view(round@);
    let mut total: usize = 0;
    let mut j: usize = 0;
    assert(rv.take(0) =~= Seq::<AiMessageView>::empty());
    while j < round.len()
        invariant
            j <= round.len(),
            rv == ai_messages_view(round@),
            round_chars(rv) <= usize::MAX,
            total == round_chars(rv.take(j as int)),
        decreases round.len() - j,
    {
        proof {
            lemma_round_chars_prefix(rv, j as int);
            lemma_ai_chars_le_round(rv, j as int);
        }
        assert(rv[j as int] == round@[j as int]@);
        let n = estimated_message_chars(&round[j]);
        total = total + n;
        j += 1;
    }
    assert(rv.take(round.len() as int) =~= rv);
    total
}

/// One message is no larger than its round.
proof fn lemma_ai_chars_le_round(r: Seq<AiMessageView>, j: int)
    requires
        0 <= j < r.len(),
    ensures
        ai_chars(r[j]) <= round_chars(r),
    decreases r.len(),
{
    if j < r.len() - 1 {
        lemma_ai_chars_le_round(r.drop_last(), j);
    }
}

/// Copies a model message.
fn copy_ai_message(m: &AiMessage) -> (r: AiMessage)
    ensures
        r@ == m@,
{
    AiMessage { role: m.role, content: copy_string(&m.content), attachments: copy_attachments(&m.attachments) }
}

/// Assembles the context of the request that answers `current_user_id`: one
/// round per user message up to and including the current one (the user
/// message and its latest completed reply; partial attempts never enter),
/// then the oldest whole rounds are removed until the rest fits the budget
/// of `context_budget_tokens` tokens at four characters each. The current
/// round is never cut; when it alone exceeds the budget the result is
/// `ContextBudgetExceeded`. Returns the messages and the number of rounds
/// removed.
pub fn assemble_context(
    messages: &Vec<ChatMessageSnapshot>,
    current_user_id: &MessageId,
    context_budget_tokens: usize,
) -> (r: Result<(Vec<AiMessage>, usize), ChatError>)
    requires
        rounds_chars(
            rounds_of(messages_view(messages@), messages@.len() as int, current_user_id@),
        ) <= usize::MAX,
    ensures
        match assembled(messages_view(messages@), current_user_id@, context_budget_tokens) {
            Some((msgs, removed)) => r matches Ok((m, n)) && ai_messages_view(m@) == msgs && n
                == removed,
            None => r matches Err(ChatError::ContextBudgetExceeded),
        },
{
    let rounds = collect_rounds(messages, current_user_id);
    let ghost rs = rounds_view(rounds@);
    let budget = match context_budget_tokens.checked_mul(ESTIMATED_CHARS_PER_TOKEN) {
        Some(v) => v,
        None => usize::MAX,
    };
    assert(budget == budget_chars(context_budget_tokens));
    let mut sizes: Vec<usize> = Vec::new();
    let mut total: usize = 0;
    let mut k: usize = 0;
    assert(rs.take(0) =~= Seq::<Seq<AiMessageView>>::empty());
    while k < rounds.len()
        invariant
            k <= rounds.len(),
            rs == rounds_view(rounds@),
            rounds_chars(rs) <= usize::MAX,
            sizes@.len() == k,
            forall|j: int| 0 <= j < k ==> sizes@[j] == round_chars(#[trigger] rs[j]),
            total == rounds_chars(rs.take(k as int)),
        decreases rounds.len() - k,
    {
        proof {
            lemma_rounds_chars_prefix(rs, k as int);
            assert(rs[k as int] == ai_messages_view(rounds@[k as int]@));
        }
        let n = round_size(&rounds[k]);
        sizes.push(n);
        total = total + n;
        k += 1;
    }
    assert(rs.take(rounds.len() as int) =~= rs);
    let current_chars = if sizes.len() == 0 {
        0
    } else {
        sizes[sizes.len() - 1]
    };
    if current_chars > budget {
        return Err(ChatError::ContextBudgetExceeded);
    }
    let mut dropped: usize = 0;
    assert(rs.skip(0) =~= rs);
    while total > budget && rounds.len() - dropped > 1
        invariant
            dropped < rounds.len() || rounds.len() == 0,
            dropped <= rounds.len(),
            rs == rounds_view(rounds@),
            sizes@.len() == rounds.len(),
            forall|j: int| 0 <= j < rounds.len() ==> sizes@[j] == round_chars(#[trigger] rs[j]),
            total == rounds_chars(rs.skip(dropped as int)),
            rounds_to_drop(rs, budget as nat) == dropped + rounds_to_drop(rs.skip(dropped as int), budget as nat),
        decreases rounds.len() - dropped,
    {
        proof {
            let rest = rs.skip(dropped as int);
            lemma_rounds_chars_cons(rest);
            assert(rest[0] == rs[dropped as int]);
            assert(rest.drop_first() =~= rs.skip(dropped + 1));
        }
        total = total - sizes[dropped];
        dropped += 1;
    }
    proof {
        let rest = rs.skip(dropped as int);
        if rest.len() > 1 && rounds_chars(rest) > budget {
        }
        assert(rounds_to_drop(rest, budget as nat) == 0);
    }
    let mut out: Vec<AiMessage> = Vec::new();
    let ghost kept = rs.skip(dropped as int);
    let mut k = dropped;
    assert(kept.take(0) =~= Seq::<Seq<AiMessageView>>::empty());
    while k < rounds.len()
        invariant
            dropped <= k <= rounds.len(),
            rs == rounds_view(rounds@),
            kept == rs.skip(dropped as int),
            ai_messages_view(out@) == flatten_rounds(kept.take(k - dropped)),
        decreases rounds.len() - k,
    {
        let round = &rounds[k];
        let mut j: usize = 0;
        let ghost base = out@;
        let ghost rv = ai_messages_view(round@);
        assert(rv == rs[k as int]);
        while j < round.len()
            invariant
                j <= round.len(),
                rv == ai_messages_view(round@),
                ai_messages_view(out@) == ai_messages_view(base) + rv.take(j as int),
            decreases round.len() - j,
        {
            let ghost prev = out@;
            out.push(copy_ai_message(&round[j]));
            assert(ai_messages_view(out@) =~= ai_messages_view(prev).push(round@[j as int]@));
            assert(rv.take(j + 1) =~= rv.take(j as int).push(rv[j as int]));
            assert(ai_messages_view(out@) =~= ai_messages_view(base) + rv.take(j + 1));
            j += 1;
        }
        assert(rv.take(round.len() as int) =~= rv);
        assert(kept.take(k + 1 - dropped).drop_last() =~= kept.take(k - dropped));
        assert(kept.take(k + 1 - dropped).last() == rs[k as int]);
        k += 1;
    }
    assert(kept.take(rounds.len() - dropped) =~= kept);
    proof {
        if rs.len() > 0 {
            assert(rs.last() == rs[rs.len() - 1]);
        }
    }
    Ok((out, dropped))
}

/// The models of several rounds.
pub open spec fn rounds_view(rs: Seq<Vec<AiMessage>>) -> Seq<Seq<AiMessageView>> {
    rs.map_values(|r: Vec<AiMessage>| ai_messages_view(r@))
}

/// A conversation as the switcher lists it.
#[derive(Clone, Debug)]
pub struct ChatConversationSummary {
    id: ConversationId,
    title: String,
    model_preference: ChatModelPreference,
    active: bool,
    favorite: bool,
    updated_order: u64,
}

/// The model of a conversation summary.
pub struct SummaryView {
    pub id: Seq<char>,
    pub title: Seq<char>,
    pub model_preference: ModelPreferenceView,
    pub active: bool,
    pub favorite: bool,
    pub updated_order: u64,
}

impl View for ChatConversationSummary {
    type V = SummaryView;

    closed spec fn view(&self) -> SummaryView {
        SummaryView {
            id: self.id@,
            title: self.title@,
            model_preference: self.model_preference@,
            active: self.active,
            favorite: self.favorite,
            updated_order: self.updated_order,
        }
    }
}

impl ChatConversationSummary {
    /// The summary of a conversation.
    pub fn new(
        id: ConversationId,
        title: String,
        model_preference: ChatModelPreference,
        active: bool,
        favorite: bool,
        updated_order: u64,
    ) -> (r: Self)
        ensures
            r@ == (SummaryView {
                id: id@,
                title: title@,
                model_preference: model_preference@,
                active,
                favorite,
                updated_order,
            }),
    {
        ChatConversationSummary { id, title, model_preference, active, favorite, updated_order }
    }

    /// The conversation's ID.
    pub fn id(&self) -> (r: &ConversationId)
        ensures
            r@ == self@.id,
    {
        &self.id
    }

    /// The conversation's title.
    pub fn title(&self) -> (r: &str)
        ensures
            r@ == self@.title,
    {
        self.title.as_str()
    }

    /// Whether a response is being generated.
    pub fn active(&self) -> (r: bool)
        ensures
            r == self@.active,
    {
        self.active
    }

    /// Whether the conversation is a favorite.
    pub fn favorite(&self) -> (r: bool)
        ensures
            r == self@.favorite,
    {
        self.favorite
    }

    /// The recency order of the conversation; larger is more recent.
    pub fn updated_order(&self) -> (r: u64)
        ensures
            r == self@.updated_order,
    {
        self.updated_order
    }
}

/// A conversation as storage restores it.
#[derive(Clone, Debug)]
pub struct PersistedChatConversation {
    pub id: ConversationId,
    pub title: String,
    pub model_preference: ChatModelPreference,
    pub favorite: bool,
    pub messages: Vec<ChatMessageSnapshot>,
    pub updated_order: u64,
}

/// What the chat surface shows.
#[derive(Clone, Debug)]
pub struct ChatSnapshot {
    pub conversation_id: ConversationId,
    pub title: String,
    pub messages: Vec<ChatMessageSnapshot>,
    pub conversations: Vec<ChatConversationSummary>,
    pub model_preference: ChatModelPreference,
    pub active_invocation: Option<InvocationId>,
    pub generation: u64,
    pub status_text: String,
    pub can_send: bool,
    pub can_stop: bool,
    pub can_retry: bool,
    pub has_unsaved_result: bool,
    pub context_notice: Option<String>,
}

/// Copies a list of messages.
pub fn copy_messages(m: &Vec<ChatMessageSnapshot>) -> (r: Vec<ChatMessageSnapshot>)
    ensures
        messages_view(r@) == messages_view(m@),
{
    let mut r: Vec<ChatMessageSnapshot> = Vec::new();
    let mut i: usize = 0;
    while i < m.len()
        invariant
            i <= m.len(),
            r@.len() == i,
            forall|j: int| 0 <= j < i ==> (#[trigger] r@[j])@ == m@[j]@,
        decreases m.len() - i,
    {
        r.push(m[i].clone());
        i += 1;
    }
    assert(messages_view(r@) =~= messages_view(m@));
    r
}

/// The chat state of one conversation.
#[derive(Debug)]
pub struct ConversationState {
    pub id: ConversationId,
    pub title: String,
    pub model_preference: ChatModelPreference,
    pub favorite: bool,
    pub messages: Vec<ChatMessageSnapshot>,
    pub active_invocation: Option<InvocationId>,
    pub active_assistant: Option<MessageId>,
    pub last_execution_sequence: u64,
    pub starting: bool,
    pub status_text: String,
    pub has_unsaved_result: bool,
    pub context_notice: Option<String>,
    pub updated_order: u64,
}

/// The ordinal that the next message of `ms` takes: one past the largest,
/// saturating, or 0 for an empty conversation.
pub open spec fn next_ordinal_of(ms: Seq<MessageView>) -> u64
    decreases ms.len(),
{
    if ms.len() == 0 {
        0
    } else {
        let rest = next_ordinal_of(ms.drop_last());
        let mine = if ms.last().ordinal == u64::MAX {
            u64::MAX
        } else {
            (ms.last().ordinal + 1) as u64
        };
        if mine > rest {
            mine
        } else {
            rest
        }
    }
}

/// The index of the last user message of `ms`.
pub open spec fn last_user_index(ms: Seq<MessageView>) -> Option<int>
    decreases ms.len(),
{
    if ms.len() == 0 {
        None
    } else if ms.last().is_user {
        Some(ms.len() - 1)
    } else {
        last_user_index(ms.drop_last())
    }
}

/// The last user message lies within the list and is a user message.
pub proof fn lemma_last_user_index(ms: Seq<MessageView>)
    ensures
        last_user_index(ms) matches Some(i) ==> 0 <= i < ms.len() && ms[i].is_user,
    decreases ms.len(),
{
    if ms.len() > 0 && !ms.last().is_user {
        lemma_last_user_index(ms.drop_last());
    }
}

/// The ordinal the next message of `conversation` takes.
pub fn next_ordinal(conversation: &ConversationState) -> (r: u64)
    ensures
        r == next_ordinal_of(messages_view(conversation.messages@)),
{
    let ghost ms = messages_view(conversation.messages@);
    let mut r: u64 = 0;
    let mut i: usize = 0;
    assert(ms.take(0) =~= Seq::<MessageView>::empty());
    while i < conversation.messages.len()
        invariant
            i <= conversation.messages.len(),
            ms == messages_view(conversation.messages@),
            r == next_ordinal_of(ms.take(i as int)),
        decreases conversation.messages.len() - i,
    {
        assert(ms.take(i + 1).drop_last() =~= ms.take(i as int));
        assert(ms[i as int] == conversation.messages@[i as int]@);
        let o = conversation.messages[i].ordinal;
        let mine = if o == u64::MAX {
            u64::MAX
        } else {
            o + 1
        };
        if mine > r {
            r = mine;
        }
        i += 1;
    }
    assert(ms.take(conversation.messages.len() as int) =~= ms);
    r
}

/// The last user message of `conversation`, if any.
pub fn last_user_message(conversation: &ConversationState) -> (r: Option<&ChatMessageSnapshot>)
    ensures
        match last_user_index(messages_view(conversation.messages@)) {
            Some(i) => r matches Some(m) && m@ == conversation.messages@[i]@,
            None => r is None,
        },
{
    let ghost ms = messages_view(conversation.messages@);
    let mut i = conversation.messages.len();
    assert(ms.take(i as int) =~= ms);
    while i > 0
        invariant
            i <= conversation.messages.len(),
            ms == messages_view(conversation.messages@),
            last_user_index(ms) == last_user_index(ms.take(i as int)),
        decreases i,
    {
        assert(ms.take(i as int).drop_last() =~= ms.take(i - 1));
        assert(ms.take(i as int).last() == conversation.messages@[i - 1]@);
        if conversation.messages[i - 1].is_user {
            return Some(&conversation.messages[i - 1]);
        }
        i -= 1;
    }
    None
}

/// What the chat shows for an execution status.
pub open spec fn message_status_for(s: ExecutionStatus) -> ChatMessageStatus {
    match s {
        ExecutionStatus::Completed => ChatMessageStatus::Completed,
        ExecutionStatus::Cancelled => ChatMessageStatus::CancelledPartial,
        ExecutionStatus::Failed | ExecutionStatus::Interrupted => ChatMessageStatus::FailedPartial,
        _ => ChatMessageStatus::Generating,
    }
}

/// The status line for an execution snapshot.
pub open spec fn status_line_for(s: ExecutionStatus, storage: StorageState, error: Option<Seq<char>>) -> Seq<char> {
    match s {
        ExecutionStatus::Queued => "Queued"@,
        ExecutionStatus::Running => "Generating…"@,
        ExecutionStatus::Cancelling => "Stopping…"@,
        ExecutionStatus::Completed => if storage == StorageState::Pending {
            "Answer complete · saving…"@
        } else {
            "Answer complete"@
        },
        ExecutionStatus::Cancelled => "Stopped · partial answer kept"@,
        _ => match error {
            Some(e) => e,
            None => "Request failed · partial answer kept"@,
        },
    }
}

/// The status line for an execution snapshot.
fn status_line(snapshot: &ExecutionSnapshot) -> (r: String)
    ensures
        r@ == status_line_for(snapshot.status, snapshot.storage, crate::provider::opt_view(snapshot.error)),
{
    match snapshot.status {
        ExecutionStatus::Queued => "Queued".to_owned(),
        ExecutionStatus::Running => "Generating…".to_owned(),
        ExecutionStatus::Cancelling => "Stopping…".to_owned(),
        ExecutionStatus::Completed => if snapshot.storage == StorageState::Pending {
            "Answer complete · saving…".to_owned()
        } else {
            "Answer complete".to_owned()
        },
        ExecutionStatus::Cancelled => "Stopped · partial answer kept".to_owned(),
        _ => match &snapshot.error {
            Some(e) => copy_string(e),
            None => "Request failed · partial answer kept".to_owned(),
        },
    }
}

/// The message chat shows for execution status `s`.
fn message_status(s: ExecutionStatus) -> (r: ChatMessageStatus)
    ensures
        r == message_status_for(s),
{
    match s {
        ExecutionStatus::Completed => ChatMessageStatus::Completed,
        ExecutionStatus::Cancelled => ChatMessageStatus::CancelledPartial,
        ExecutionStatus::Failed | ExecutionStatus::Interrupted => ChatMessageStatus::FailedPartial,
        _ => ChatMessageStatus::Generating,
    }
}

/// `ms` with the first message of ID `id` given content `content` and
/// status `status`.
pub open spec fn with_message_output(ms: Seq<MessageView>, id: Seq<char>, content: Seq<char>, status: ChatMessageStatus) -> Seq<MessageView>
    decreases ms.len(),
{
    if ms.len() == 0 {
        ms
    } else if ms[0].id == id {
        ms.update(0, MessageView { content, status, ..ms[0] })
    } else {
        seq![ms[0]] + with_message_output(ms.drop_first(), id, content, status)
    }
}

/// Whether `c` takes the execution snapshot `s`: one of its current
/// attempt, newer than the last it took.
pub open spec fn accepts_execution(c: ConversationState, s: ExecutionSnapshot) -> bool {
    !((c.active_assistant matches Some(a) && a@ != s.assistant_message_id@) || s.sequence
        <= c.last_execution_sequence)
}

/// Whether `d` is `c` after taking the execution snapshot `s`: the attempt's
/// message shows the output, the status line follows the run, and the
/// conversation is busy while the run is.
pub open spec fn after_execution(c: ConversationState, d: ConversationState, s: ExecutionSnapshot) -> bool {
    &&& d.last_execution_sequence == s.sequence
    &&& !d.starting
    &&& (if crate::execution::terminal(s.status) {
        d.active_invocation is None
    } else {
        d.active_invocation matches Some(i) && i@ == s.invocation_id@
    })
    &&& messages_view(d.messages@) == with_message_output(
        messages_view(c.messages@),
        s.assistant_message_id@,
        s.output@,
        message_status_for(s.status),
    )
    &&& d.has_unsaved_result == (s.storage == StorageState::Unsaved)
    &&& d.status_text@ == status_line_for(s.status, s.storage, crate::provider::opt_view(s.error))
    &&& d.id == c.id
    &&& d.title == c.title
    &&& d.model_preference == c.model_preference
    &&& d.favorite == c.favorite
    &&& d.active_assistant == c.active_assistant
    &&& d.context_notice == c.context_notice
    &&& d.updated_order == c.updated_order
}

/// Gives the first message with ID `id` the content `content` and the
/// status `status`.
fn set_message_output(
    messages: &mut Vec<ChatMessageSnapshot>,
    id: &MessageId,
    content: &String,
    status: ChatMessageStatus,
)
    ensures
        messages_view(final(messages)@) == with_message_output(
            messages_view(old(messages)@),
            id@,
            content@,
            status,
        ),
{
    let ghost ms = messages_view(messages@);
    let mut i: usize = 0;
    assert(ms.take(0) + ms.skip(0) =~= ms);
    while i < messages.len()
        invariant
            i <= messages.len(),
            ms == messages_view(messages@),
            ms == messages_view(old(messages)@),
            with_message_output(ms, id@, content@, status) == ms.take(i as int)
                + with_message_output(ms.skip(i as int), id@, content@, status),
        decreases messages.len() - i,
    {
        assert(ms.skip(i as int)[0] == messages@[i as int]@);
        if crate::text::str_eq(messages[i].id.as_str(), id.as_str()) {
            let mut m = messages[i].clone();
            m.content = copy_string(content);
            m.status = status;
            let ghost mv = m@;
            messages.set(i, m);
            assert(with_message_output(ms.skip(i as int), id@, content@, status) == ms.skip(
                i as int,
            ).update(0, mv));
            assert(messages_view(messages@) =~= ms.take(i as int) + ms.skip(i as int).update(0, mv));
            return;
        }
        assert(ms.skip(i as int).drop_first() =~= ms.skip(i + 1));
        assert(ms.take(i as int) + (seq![ms[i as int]] + with_message_output(
            ms.skip(i + 1),
            id@,
            content@,
            status,
        )) =~= ms.take(i + 1) + with_message_output(ms.skip(i + 1), id@, content@, status));
        i += 1;
    }
    assert(ms.take(i as int) =~= ms);
    assert(ms.skip(i as int) =~= Seq::<MessageView>::empty());
}

impl ConversationState {
    /// A new empty conversation.
    pub fn empty(id: ConversationId, updated_order: u64) -> (r: Self)
        ensures
            r.id@ == id@,
            r.title@ == "New chat"@,
            r.model_preference@ == ModelPreferenceView::Fast,
            !r.favorite,
            r.messages@.len() == 0,
            r.active_invocation is None,
            r.active_assistant is None,
            r.last_execution_sequence == 0,
            !r.starting,
            r.status_text@ == "Ready"@,
            !r.has_unsaved_result,
            r.context_notice is None,
            r.updated_order == updated_order,
    {
        ConversationState {
            id,
            title: "New chat".to_owned(),
            model_preference: ChatModelPreference::Fast,
            favorite: false,
            messages: Vec::new(),
            active_invocation: None,
            active_assistant: None,
            last_execution_sequence: 0,
            starting: false,
            status_text: "Ready".to_owned(),
            has_unsaved_result: false,
            context_notice: None,
            updated_order,
        }
    }

    /// A conversation as storage restored it, idle.
    pub fn restored(record: PersistedChatConversation) -> (r: Self)
        ensures
            r.id@ == record.id@,
            r.title@ == record.title@,
            r.model_preference@ == record.model_preference@,
            r.favorite == record.favorite,
            messages_view(r.messages@) == messages_view(record.messages@),
            r.active_invocation is None,
            r.active_assistant is None,
            r.last_execution_sequence == 0,
            !r.starting,
            r.status_text@ == "Restored"@,
            !r.has_unsaved_result,
            r.context_notice is None,
            r.updated_order == record.updated_order,
    {
        ConversationState {
            id: record.id,
            title: record.title,
            model_preference: record.model_preference,
            favorite: record.favorite,
            messages: record.messages,
            active_invocation: None,
            active_assistant: None,
            last_execution_sequence: 0,
            starting: false,
            status_text: "Restored".to_owned(),
            has_unsaved_result: false,
            context_notice: None,
            updated_order: record.updated_order,
        }
    }

    /// The conversation as the switcher lists it; it is active while a
    /// request starts or runs.
    pub fn summary(&self) -> (r: ChatConversationSummary)
        ensures
            r@ == (SummaryView {
                id: self.id@,
                title: self.title@,
                model_preference: self.model_preference@,
                active: self.starting || self.active_invocation is Some,
                favorite: self.favorite,
                updated_order: self.updated_order,
            }),
    {
        ChatConversationSummary::new(
            self.id.clone(),
            copy_string(&self.title),
            self.model_preference.clone(),
            self.starting || self.active_invocation.is_some(),
            self.favorite,
            self.updated_order,
        )
    }

    /// Gives the first message with ID `id` the content `content` and the
    /// status `status`.
    pub fn replace_message(&mut self, id: &MessageId, content: &String, status: ChatMessageStatus)
        ensures
            messages_view(final(self).messages@) == with_message_output(
                messages_view(old(self).messages@),
                id@,
                content@,
                status,
            ),
            *final(self) == (ConversationState { messages: final(self).messages, ..*old(self) }),
    {
        set_message_output(&mut self.messages, id, content, status);
    }

    /// Applies an execution snapshot of the conversation's run, unless it
    /// belongs to another attempt or is not newer than the last one seen.
    /// Returns whether it was applied.
    pub fn apply_execution(&mut self, snapshot: &ExecutionSnapshot) -> (applied: bool)
        ensures
            applied == accepts_execution(*old(self), *snapshot),
            !applied ==> *final(self) == *old(self),
            applied ==> after_execution(*old(self), *final(self), *snapshot),
    {
        let foreign = match &self.active_assistant {
            Some(a) => !crate::text::str_eq(a.as_str(), snapshot.assistant_message_id.as_str()),
            None => false,
        };
        if foreign || snapshot.sequence <= self.last_execution_sequence {
            return false;
        }
        self.last_execution_sequence = snapshot.sequence;
        self.starting = false;
        self.active_invocation = if snapshot.status.is_terminal() {
            None
        } else {
            Some(snapshot.invocation_id.clone())
        };
        self.replace_message(&snapshot.assistant_message_id, &snapshot.output, message_status(snapshot.status));
        self.has_unsaved_result = snapshot.storage == StorageState::Unsaved;
        self.status_text = status_line(snapshot);
        true
    }
}

/// The request that starts one generation attempt of a conversation.
#[derive(Debug)]
pub struct ChatInvocationRequest {
    pub conversation_id: ConversationId,
    pub user_message_id: MessageId,
    pub assistant_message_id: MessageId,
    pub attempt_id: AttemptId,
    pub reply_to_user_id: MessageId,
    pub conversation_title: String,
    pub model_preference: ChatModelPreference,
    pub user_ordinal: u64,
    pub assistant_ordinal: u64,
    pub input: String,
    pub messages: Vec<AiMessage>,
}

/// One past `o`, saturating.
pub open spec fn ordinal_after(o: u64) -> u64 {
    if o == u64::MAX {
        u64::MAX
    } else {
        (o + 1) as u64
    }
}

/// A new user message.
pub open spec fn user_message(id: Seq<char>, content: Seq<char>, attachments: Seq<AttachmentView>, ordinal: u64) -> MessageView {
    MessageView {
        id,
        is_user: true,
        content,
        attachments,
        status: ChatMessageStatus::Submitted,
        ordinal,
        attempt_id: None,
        reply_to_user_id: None,
    }
}

/// A new assistant attempt replying to `reply_to`.
pub open spec fn assistant_message(id: Seq<char>, attempt: Seq<char>, reply_to: Seq<char>, ordinal: u64) -> MessageView {
    MessageView {
        id,
        is_user: false,
        content: Seq::empty(),
        attachments: Seq::empty(),
        status: ChatMessageStatus::Generating,
        ordinal,
        attempt_id: Some(attempt),
        reply_to_user_id: Some(reply_to),
    }
}

/// The user message a prepared attempt answers, as its ID and ordinal: the
/// new one, or on regeneration the last user message.
pub open spec fn answered_user(ms: Seq<MessageView>, regenerate: bool, user_id: Seq<char>) -> (Seq<char>, u64) {
    if regenerate {
        let u = ms[last_user_index(ms)->Some_0];
        (u.id, u.ordinal)
    } else {
        (user_id, next_ordinal_of(ms))
    }
}

/// The ordinal of a prepared assistant attempt.
pub open spec fn assistant_ordinal_of(ms: Seq<MessageView>, regenerate: bool) -> u64 {
    if regenerate {
        next_ordinal_of(ms)
    } else {
        ordinal_after(next_ordinal_of(ms))
    }
}

/// The messages of a conversation once an attempt is prepared: the new user
/// message (unless regenerating), then the new assistant attempt.
pub open spec fn proposed_messages(
    ms: Seq<MessageView>,
    input: Seq<char>,
    attachments: Seq<AttachmentView>,
    regenerate: bool,
    user_id: Seq<char>,
    assistant_id: Seq<char>,
    attempt_id: Seq<char>,
) -> Seq<MessageView> {
    let (uid, _) = answered_user(ms, regenerate, user_id);
    let assistant = assistant_message(
        assistant_id,
        attempt_id,
        uid,
        assistant_ordinal_of(ms, regenerate),
    );
    if regenerate {
        ms.push(assistant)
    } else {
        ms.push(user_message(user_id, input, attachments, next_ordinal_of(ms))).push(assistant)
    }
}

/// At most the first 48 characters of `s`.
pub open spec fn title_prefix(s: Seq<char>) -> Seq<char> {
    if s.len() <= 48 {
        s
    } else {
        s.take(48)
    }
}

/// The title of a conversation after its first message: the message's
/// first 48 characters, or without text the first attachment's name, or
/// `New chat`. Later messages and regenerations keep the title.
pub open spec fn prepared_title(
    old_title: Seq<char>,
    ms: Seq<MessageView>,
    input: Seq<char>,
    attachments: Seq<AttachmentView>,
    regenerate: bool,
) -> Seq<char> {
    if ms.len() == 0 && !regenerate {
        if input.len() == 0 {
            if attachments.len() > 0 {
                title_prefix(attachments[0].name)
            } else {
                "New chat"@
            }
        } else {
            title_prefix(input)
        }
    } else {
        old_title
    }
}

/// The notice shown when the budget removed older rounds.
pub open spec fn context_notice_for(removed: nat) -> Option<Seq<char>> {
    if removed > 0 {
        Some(
            "Estimated context budget removed "@ + crate::text::digits(removed)
                + " older complete round(s)."@,
        )
    } else {
        None
    }
}

/// Why preparing an attempt fails, if it does: no text and no attachments,
/// a request already starting or running, nothing to regenerate, or a
/// current round over the context budget.
pub open spec fn prepare_problem(
    c: ConversationState,
    input: Seq<char>,
    attachments: Seq<AttachmentView>,
    regenerate: bool,
    budget: usize,
    user_id: Seq<char>,
    assistant_id: Seq<char>,
    attempt_id: Seq<char>,
) -> Option<ChatError> {
    let ms = messages_view(c.messages@);
    if input.len() == 0 && attachments.len() == 0 {
        Some(ChatError::EmptyInput)
    } else if c.starting || c.active_invocation is Some {
        Some(ChatError::Busy)
    } else if regenerate && last_user_index(ms) is None {
        Some(ChatError::NothingToRetry)
    } else {
        let proposed = proposed_messages(
            ms,
            input,
            attachments,
            regenerate,
            user_id,
            assistant_id,
            attempt_id,
        );
        if assembled(proposed, answered_user(ms, regenerate, user_id).0, budget) is None {
            Some(ChatError::ContextBudgetExceeded)
        } else {
            None
        }
    }
}

/// At most the first 48 characters of `s`.
fn take_title(s: &str) -> (r: String)
    ensures
        r@ == title_prefix(s@),
{
    let v = chars_of(s);
    if v.len() <= 48 {
        copy_str(s)
    } else {
        let r = crate::text::string_from_range(&v, 0, 48);
        assert(v@.subrange(0, 48) =~= v@.take(48));
        r
    }
}

/// A copy of `s`.
fn copy_str(s: &str) -> (r: String)
    ensures
        r@ == s@,
{
    s.to_string()
}

/// The notice for `removed` rounds.
fn context_notice(removed: usize) -> (r: Option<String>)
    ensures
        match context_notice_for(removed as nat) {
            Some(n) => r matches Some(x) && x@ == n,
            None => r is None,
        },
{
    if removed > 0 {
        let d = crate::text::digits_text(removed as u64);
        let ds = crate::text::string_from_chars(&d);
        let a = crate::text::concat("Estimated context budget removed ", ds.as_str());
        Some(crate::text::concat(a.as_str(), " older complete round(s)."))
    } else {
        None
    }
}


/// Whether preparing an attempt of `c` stays within machine limits: the
/// estimated size of the proposed context fits in a `usize`.
pub open spec fn prepare_fits(
    c: ConversationState,
    input: Seq<char>,
    atts: Seq<AttachmentView>,
    regenerate: bool,
    uid: Seq<char>,
    aid: Seq<char>,
    tid: Seq<char>,
) -> bool {
    rounds_chars(
                rounds_of(
                    proposed_messages(
                        messages_view(c.messages@),
                        crate::text::trim(input),
                        atts,
                        regenerate,
                        uid,
                        aid,
                        tid,
                    ),
                    messages_view(c.messages@).len() + if regenerate {
                        1int
                    } else {
                        2int
                    },
                    answered_user(messages_view(c.messages@), regenerate, uid).0,
                ),
            ) <= usize::MAX
}

/// Whether preparing an attempt of `c` on `input` and `atts` gave `r` and
/// left the conversation as `d`.
pub open spec fn prepared(
    c: ConversationState,
    d: ConversationState,
    r: Result<ChatInvocationRequest, ChatError>,
    input: Seq<char>,
    atts: Seq<AttachmentView>,
    regenerate: bool,
    context_budget: usize,
    next_order: u64,
    uid: Seq<char>,
    aid: Seq<char>,
    tid: Seq<char>,
) -> bool {
    ({
                let ms = messages_view(c.messages@);
                let text = crate::text::trim(input);
                                let proposed = proposed_messages(
                    ms,
                    text,
                    atts,
                    regenerate,
                    uid,
                    aid,
                    tid,
                );
                let (uid, uord) = answered_user(ms, regenerate, uid);
                match prepare_problem(
                    c,
                    text,
                    atts,
                    regenerate,
                    context_budget,
                    uid,
                    aid,
                    tid,
                ) {
                    Some(e) => r == Err::<ChatInvocationRequest, ChatError>(e) && d
                        == c,
                    None => {
                        let (context, removed) = assembled(proposed, uid, context_budget)->Some_0;
                        let title = prepared_title(c.title@, ms, text, atts, regenerate);
                        &&& r matches Ok(req) && {
                            &&& req.conversation_id@ == c.id@
                            &&& req.user_message_id@ == uid
                            &&& req.assistant_message_id@ == aid
                            &&& req.attempt_id@ == tid
                            &&& req.reply_to_user_id@ == uid
                            &&& req.conversation_title@ == title
                            &&& req.model_preference@ == c.model_preference@
                            &&& req.user_ordinal == uord
                            &&& req.assistant_ordinal == assistant_ordinal_of(ms, regenerate)
                            &&& req.input@ == text
                            &&& ai_messages_view(req.messages@) == context
                        }
                        &&& messages_view(d.messages@) == proposed
                        &&& d.title@ == title
                        &&& d.active_assistant matches Some(a) && a@ == aid
                        &&& d.last_execution_sequence == 0
                        &&& d.starting
                        &&& d.status_text@ == "Starting…"@
                        &&& !d.has_unsaved_result
                        &&& match context_notice_for(removed) {
                            Some(n) => d.context_notice matches Some(x) && x@ == n,
                            None => d.context_notice is None,
                        }
                        &&& d.updated_order == next_order
                        &&& d.id == c.id
                        &&& d.model_preference == c.model_preference
                        &&& d.favorite == c.favorite
                        &&& d.active_invocation == c.active_invocation
                    },
                }
            })
}

impl ConversationState {
    /// Prepares a generation attempt: records the user's message (unless
    /// regenerating the last one) and a new assistant attempt, assembles the
    /// context within `context_budget` tokens and marks the conversation as
    /// starting. `user_id`, `assistant_id` and `attempt_id` are fresh IDs
    /// for the new messages; `next_order` is the conversation's new place in
    /// the switcher. On an error nothing changes.
    pub fn prepare(
        &mut self,
        input: &str,
        attachments: Vec<ChatAttachment>,
        regenerate: bool,
        context_budget: usize,
        next_order: u64,
        user_id: MessageId,
        assistant_id: MessageId,
        attempt_id: AttemptId,
    ) -> (r: Result<ChatInvocationRequest, ChatError>)
        requires
            prepare_fits(
                *old(self),
                input@,
                attachments_view(attachments@),
                regenerate,
                user_id@,
                assistant_id@,
                attempt_id@,
            ),
        ensures
            prepared(
                *old(self),
                *final(self),
                r,
                input@,
                attachments_view(attachments@),
                regenerate,
                context_budget,
                next_order,
                user_id@,
                assistant_id@,
                attempt_id@,
            ),
    {
        let text = crate::text::trim_str(input);
        if text.as_str().unicode_len() == 0 && attachments.len() == 0 {
            assert(attachments_view(attachments@).len() == 0);
            return Err(ChatError::EmptyInput);
        }
        assert(text@.len() != 0 || attachments_view(attachments@).len() != 0);
        if self.starting || self.active_invocation.is_some() {
            return Err(ChatError::Busy);
        }
        let ghost ms = messages_view(self.messages@);
        let first_name: Option<String> = if attachments.len() > 0 {
            Some(take_title(attachments[0].name()))
        } else {
            None
        };
        let ordinal = next_ordinal(self);
        let (uid, user_ordinal, new_user) = if regenerate {
            match last_user_message(self) {
                None => return Err(ChatError::NothingToRetry),
                Some(u) => {
                    proof {
                        lemma_last_user_index(ms);
                        let i = last_user_index(ms)->Some_0;
                        assert(ms[i] == self.messages@[i]@);
                        assert(u@ == ms[i]);
                    }
                    (u.id.clone(), u.ordinal, None)
                },
            }
        } else {
            let u = ChatMessageSnapshot {
                id: user_id.clone(),
                is_user: true,
                content: copy_string(&text),
                attachments,
                status: ChatMessageStatus::Submitted,
                ordinal,
                attempt_id: None,
                reply_to_user_id: None,
            };
            (user_id, ordinal, Some(u))
        };
        let assistant_ordinal = if regenerate {
            ordinal
        } else {
            user_ordinal.saturating_add(1)
        };
        let no_attachments: Vec<ChatAttachment> = Vec::new();
        assert(attachments_view(no_attachments@) =~= Seq::<AttachmentView>::empty());
        let no_content = String::new();
        assert(no_content@ =~= Seq::<char>::empty());
        let assistant = ChatMessageSnapshot {
            id: assistant_id.clone(),
            is_user: false,
            content: no_content,
            attachments: no_attachments,
            status: ChatMessageStatus::Generating,
            ordinal: assistant_ordinal,
            attempt_id: Some(attempt_id.clone()),
            reply_to_user_id: Some(uid.clone()),
        };
        let ghost atts = attachments_view(attachments@);
        let ghost uv = user_message(user_id@, text@, atts, ordinal);
        let ghost av = assistant_message(
            assistant_id@,
            attempt_id@,
            answered_user(ms, regenerate, user_id@).0,
            assistant_ordinal_of(ms, regenerate),
        );
        proof {
            if regenerate {
                assert(uid@ == answered_user(ms, regenerate, user_id@).0);
                assert(user_ordinal == answered_user(ms, regenerate, user_id@).1);
            } else {
                assert(new_user matches Some(u) && u@ == uv);
            }
        }
        assert(assistant@ == av);
        let mut proposed = copy_messages(&self.messages);
        match new_user {
            Some(u) => {
                proposed.push(u);
                assert(messages_view(proposed@) =~= ms.push(uv));
            },
            None => {},
        }
        let ghost before_assistant = messages_view(proposed@);
        proposed.push(assistant);
        assert(messages_view(proposed@) =~= before_assistant.push(av));
        let (messages, removed) = match assemble_context(&proposed, &uid, context_budget) {
            Ok(v) => v,
            Err(e) => return Err(e),
        };
        if self.messages.len() == 0 && !regenerate {
            self.title = if text.as_str().unicode_len() == 0 {
                match first_name {
                    Some(n) => n,
                    None => "New chat".to_string(),
                }
            } else {
                take_title(text.as_str())
            };
        }
        self.messages = proposed;
        self.active_assistant = Some(assistant_id.clone());
        self.last_execution_sequence = 0;
        self.starting = true;
        self.status_text = "Starting…".to_string();
        self.has_unsaved_result = false;
        self.context_notice = context_notice(removed);
        self.updated_order = next_order;
        Ok(
            ChatInvocationRequest {
                conversation_id: self.id.clone(),
                user_message_id: uid.clone(),
                assistant_message_id: assistant_id,
                attempt_id,
                reply_to_user_id: uid,
                conversation_title: copy_string(&self.title),
                model_preference: self.model_preference.clone(),
                user_ordinal,
                assistant_ordinal,
                input: text,
                messages,
            },
        )
    }
}

/// Fewer rounds are dropped than there are, when there are any.
proof fn lemma_rounds_to_drop_bound(rs: Seq<Seq<AiMessageView>>, budget: nat)
    ensures
        rs.len() > 0 ==> rounds_to_drop(rs, budget) < rs.len(),
        rs.len() == 0 ==> rounds_to_drop(rs, budget) == 0,
    decreases rs.len(),
{
    if rs.len() > 1 && rounds_chars(rs) > budget {
        lemma_rounds_to_drop_bound(rs.drop_first(), budget);
    }
}

/// Assembling a context keeps whole rounds: it drops some of the oldest
/// and keeps the rest in order, so the current round is always there in
/// full, at the end.
pub proof fn context_keeps_whole_rounds(ms: Seq<MessageView>, current: Seq<char>, budget: usize)
    requires
        assembled(ms, current, budget) is Some,
    ensures
        ({
            let rs = rounds_of(ms, ms.len() as int, current);
            let (out, n) = assembled(ms, current, budget)->Some_0;
            &&& out == flatten_rounds(rs.skip(n as int))
            &&& rs.len() > 0 ==> n < rs.len() && out.len() >= rs.last().len() && out.subrange(
                out.len() - rs.last().len(),
                out.len() as int,
            ) == rs.last()
        }),
{
    let rs = rounds_of(ms, ms.len() as int, current);
    let n = rounds_to_drop(rs, budget_chars(budget));
    lemma_rounds_to_drop_bound(rs, budget_chars(budget));
    if rs.len() > 0 {
        let kept = rs.skip(n as int);
        assert(kept.last() == rs.last());
        let out = flatten_rounds(kept);
        assert(out == flatten_rounds(kept.drop_last()) + kept.last());
        assert(out.subrange(out.len() - rs.last().len(), out.len() as int) =~= rs.last());
    }
}

/// An assistant message that came from a completed reply of `ms`.
pub open spec fn from_completed_reply(ms: Seq<MessageView>, m: AiMessageView) -> bool {
    m.role == AiRole::Assistant ==> exists|j: int|
        0 <= j < ms.len() && !(#[trigger] ms[j]).is_user && ms[j].status
            == ChatMessageStatus::Completed && ms[j].content == m.content
}

/// The latest reply lies within the list and is a completed reply.
proof fn lemma_latest_reply(ms: Seq<MessageView>, user: Seq<char>)
    ensures
        latest_reply(ms, user) matches Some(i) ==> 0 <= i < ms.len() && completed_reply(ms[i], user),
    decreases ms.len(),
{
    if ms.len() > 0 {
        lemma_latest_reply(ms.drop_last(), user);
    }
}

/// Every assistant message of a round is a completed reply.
proof fn lemma_round_of_completed(ms: Seq<MessageView>, u: MessageView)
    ensures
        forall|k: int|
            0 <= k < round_of(ms, u).len() ==> from_completed_reply(ms, #[trigger] round_of(ms, u)[k]),
{
    lemma_latest_reply(ms, u.id);
    if let Some(i) = latest_reply(ms, u.id) {
        assert forall|k: int| 0 <= k < round_of(ms, u).len() implies from_completed_reply(
            ms,
            #[trigger] round_of(ms, u)[k],
        ) by {
            if k == 1 {
                assert(!ms[i].is_user && ms[i].status == ChatMessageStatus::Completed);
            }
        }
    }
}

/// Every assistant message of every round is a completed reply.
proof fn lemma_rounds_of_completed(ms: Seq<MessageView>, n: int, current: Seq<char>)
    ensures
        forall|r: int, k: int|
            0 <= r < rounds_of(ms, n, current).len() && 0 <= k < rounds_of(ms, n, current)[r].len()
                ==> from_completed_reply(ms, #[trigger] rounds_of(ms, n, current)[r][k]),
    decreases n,
{
    if n > 0 {
        lemma_rounds_of_completed(ms, n - 1, current);
        let before = rounds_of(ms, n - 1, current);
        let now = rounds_of(ms, n, current);
        if !(stops_before(ms, n - 1, current) || !ms[n - 1].is_user) {
            lemma_round_of_completed(ms, ms[n - 1]);
            assert(now == before.push(round_of(ms, ms[n - 1])));
            assert forall|r: int, k: int| 0 <= r < now.len() && 0 <= k < now[r].len() implies from_completed_reply(
                ms,
                #[trigger] now[r][k],
            ) by {
                if r < before.len() {
                    assert(now[r] == before[r]);
                    assert(now[r][k] == before[r][k]);
                } else {
                    assert(now[r] == round_of(ms, ms[n - 1]));
                    assert(now[r][k] == round_of(ms, ms[n - 1])[k]);
                }
            }
        } else {
            assert(now == before);
            assert forall|r: int, k: int| 0 <= r < now.len() && 0 <= k < now[r].len() implies from_completed_reply(
                ms,
                #[trigger] now[r][k],
            ) by {
                assert(now[r][k] == before[r][k]);
            }
        }
    }
}

/// Flattening rounds whose assistant messages are completed replies keeps
/// it so.
proof fn lemma_flatten_completed(ms: Seq<MessageView>, rs: Seq<Seq<AiMessageView>>)
    requires
        forall|r: int, k: int|
            0 <= r < rs.len() && 0 <= k < rs[r].len() ==> from_completed_reply(ms, #[trigger] rs[r][k]),
    ensures
        forall|k: int|
            0 <= k < flatten_rounds(rs).len() ==> from_completed_reply(ms, #[trigger] flatten_rounds(rs)[k]),
    decreases rs.len(),
{
    if rs.len() > 0 {
        let t = rs.drop_last();
        assert forall|r: int, k: int| 0 <= r < t.len() && 0 <= k < t[r].len() implies from_completed_reply(
            ms,
            #[trigger] t[r][k],
        ) by {
            assert(t[r] == rs[r]);
        }
        lemma_flatten_completed(ms, t);
        let f = flatten_rounds(t);
        assert forall|k: int| 0 <= k < flatten_rounds(rs).len() implies from_completed_reply(
            ms,
            #[trigger] flatten_rounds(rs)[k],
        ) by {
            if k < f.len() {
                assert(flatten_rounds(rs)[k] == f[k]);
            } else {
                assert(flatten_rounds(rs)[k] == rs[rs.len() - 1][k - f.len()]);
            }
        }
    }
}

/// No partial attempt enters a context: every assistant message of an
/// assembled context is the content of a completed assistant message of
/// the conversation.
pub proof fn context_holds_only_completed_replies(ms: Seq<MessageView>, current: Seq<char>, budget: usize)
    requires
        assembled(ms, current, budget) is Some,
    ensures
        forall|k: int|
            0 <= k < assembled(ms, current, budget)->Some_0.0.len() ==> from_completed_reply(
                ms,
                #[trigger] assembled(ms, current, budget)->Some_0.0[k],
            ),
{
    let rs = rounds_of(ms, ms.len() as int, current);
    let n = rounds_to_drop(rs, budget_chars(budget));
    lemma_rounds_to_drop_bound(rs, budget_chars(budget));
    lemma_rounds_of_completed(ms, ms.len() as int, current);
    let kept = rs.skip(n as int);
    assert forall|r: int, k: int| 0 <= r < kept.len() && 0 <= k < kept[r].len() implies from_completed_reply(
        ms,
        #[trigger] kept[r][k],
    ) by {
        assert(kept[r] == rs[r + n]);
    }
    lemma_flatten_completed(ms, kept);
}

} // verus!
