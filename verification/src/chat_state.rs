//! The chat surface across conversations: which one is open, how the
//! switcher orders them, what a search finds, and how runs of each
//! conversation reach it. Saving conversations and running requests are the
//! caller's work; each operation says what to publish.
use vstd::prelude::*;

use crate::chat::{
    copy_attachments, copy_messages, last_user_index, last_user_message, lemma_last_user_index,
    messages_view, ChatAttachment, ChatConversationSummary, ChatError, ChatModelPreference,
    ChatSnapshot, ConversationState, MessageView, SummaryView,
};
use crate::command::SurfaceKind;
use crate::chat::{
    accepts_execution, after_execution, attachments_view, prepare_fits, prepared, AttachmentView,
    ChatInvocationRequest, ChatMessageSnapshot, ChatMessageStatus,
};
use crate::ids::AttemptId;
use crate::execution::ExecutionSnapshot;
use crate::ids::{ConversationId, InvocationId, MessageId};
use crate::provider::{copy_opt, opt_view};
use crate::text::{copy_string, str_eq, string_from_range, trim, trim_str};
use crate::text_action::id_text;
use crate::settings::{lemma_lex_lt_irreflexive, lemma_lex_lt_total, lemma_lex_lt_transitive, lex_less, lex_lt};
use crate::text::{chars_of, lowercase, to_lowercase};
use vstd::seq_lib::to_multiset_insert;

verus! {

/// Whether the switcher lists `a` before `b`: more recent first, then by
/// ID.
pub open spec fn listed_before(a: SummaryView, b: SummaryView) -> bool {
    a.updated_order > b.updated_order || (a.updated_order == b.updated_order && lex_lt(a.id, b.id))
}

/// Whether `s` is in switcher order.
pub open spec fn in_switcher_order(s: Seq<SummaryView>) -> bool {
    forall|i: int, j: int| 0 <= i < j < s.len() ==> !listed_before(#[trigger] s[j], #[trigger] s[i])
}

/// The models of a list of summaries.
pub open spec fn summaries_view(v: Seq<ChatConversationSummary>) -> Seq<SummaryView> {
    v.map_values(|s: ChatConversationSummary| s@)
}

proof fn lemma_listed_before_transitive(a: SummaryView, b: SummaryView, c: SummaryView)
    requires
        listed_before(a, b),
        listed_before(b, c),
    ensures
        listed_before(a, c),
{
    if a.updated_order == b.updated_order && b.updated_order == c.updated_order {
        lemma_lex_lt_transitive(a.id, b.id, c.id);
    }
}

proof fn lemma_listed_before_asymmetric(a: SummaryView, b: SummaryView)
    requires
        listed_before(a, b),
    ensures
        !listed_before(b, a),
{
    if listed_before(b, a) {
        lemma_listed_before_transitive(a, b, a);
        lemma_lex_lt_irreflexive(a.id);
    }
}

/// Whether the switcher lists `a` before `b`.
fn listed_first(a: &ChatConversationSummary, b: &ChatConversationSummary) -> (r: bool)
    ensures
        r == listed_before(a@, b@),
{
    if a.updated_order() != b.updated_order() {
        return a.updated_order() > b.updated_order();
    }
    let x = chars_of(a.id().as_str());
    let y = chars_of(b.id().as_str());
    lex_less(&x, &y)
}

/// The summaries in switcher order.
pub fn switcher_order(v: Vec<ChatConversationSummary>) -> (r: Vec<ChatConversationSummary>)
    ensures
        in_switcher_order(summaries_view(r@)),
        summaries_view(r@).to_multiset() == summaries_view(v@).to_multiset(),
        r@.len() == v@.len(),
{
    let ghost input = summaries_view(v@);
    let mut rest = v;
    let mut out: Vec<ChatConversationSummary> = Vec::new();
    let ghost mut taken: Seq<SummaryView> = Seq::empty();
    assert(input =~= taken + summaries_view(rest@));
    assert(summaries_view(out@) =~= taken);
    while rest.len() > 0
        invariant
            input == taken + summaries_view(rest@),
            in_switcher_order(summaries_view(out@)),
            summaries_view(out@).to_multiset() == taken.to_multiset(),
            out@.len() == taken.len(),
        decreases rest.len(),
    {
        let ghost r0 = summaries_view(rest@);
        let x = rest.remove(0);
        proof {
            assert(summaries_view(rest@) =~= r0.subrange(1, r0.len() as int));
            assert(x@ == r0[0]);
            assert(input =~= taken.push(x@) + summaries_view(rest@));
        }
        let mut p: usize = 0;
        let ghost ov = summaries_view(out@);
        while p < out.len() && !listed_first(&x, &out[p])
            invariant
                p <= out.len(),
                ov == summaries_view(out@),
                forall|k: int| 0 <= k < p ==> !listed_before(x@, #[trigger] ov[k]),
            decreases out.len() - p,
        {
            p += 1;
        }
        proof {
            assert forall|i: int, j: int|
                0 <= i < j < ov.len() + 1 implies !listed_before(
                #[trigger] ov.insert(p as int, x@)[j],
                #[trigger] ov.insert(p as int, x@)[i],
            ) by {
                let s = ov.insert(p as int, x@);
                if j < p {
                    assert(s[i] == ov[i] && s[j] == ov[j]);
                } else if j == p {
                    assert(s[i] == ov[i]);
                } else if i < p {
                    assert(s[i] == ov[i] && s[j] == ov[j - 1]);
                    assert(!listed_before(ov[j - 1], ov[i]));
                } else if i == p {
                    assert(s[j] == ov[j - 1]);
                    assert(p < ov.len());
                    assert(listed_before(x@, ov[p as int]));
                    if listed_before(ov[j - 1], x@) {
                        if j - 1 == p {
                            lemma_listed_before_asymmetric(x@, ov[p as int]);
                        } else {
                            lemma_listed_before_transitive(ov[j - 1], x@, ov[p as int]);
                        }
                    }
                } else {
                    assert(s[i] == ov[i - 1] && s[j] == ov[j - 1]);
                }
            }
            to_multiset_insert(ov, p as int, x@);
            vstd::seq_lib::to_multiset_build(taken, x@);
        }
        out.insert(p, x);
        proof {
            assert(summaries_view(out@) =~= ov.insert(p as int, x@));
            taken = taken.push(x@);
        }
    }
    assert(taken =~= input);
    out
}

/// How the switcher lists a conversation; it is active while a request
/// starts or runs.
pub open spec fn summary_of(c: ConversationState) -> SummaryView {
    SummaryView {
        id: c.id@,
        title: c.title@,
        model_preference: c.model_preference@,
        active: c.starting || c.active_invocation is Some,
        favorite: c.favorite,
        updated_order: c.updated_order,
    }
}

/// Whether a request of `c` starts or runs.
pub open spec fn busy(c: ConversationState) -> bool {
    c.starting || c.active_invocation is Some
}

/// The index of the conversation `id`.
pub open spec fn conv_index(cs: Seq<ConversationState>, id: Seq<char>) -> Option<int>
    decreases cs.len(),
{
    if cs.len() == 0 {
        None
    } else {
        match conv_index(cs.drop_last(), id) {
            Some(i) => Some(i),
            None => if cs.last().id@ == id {
                Some(cs.len() - 1)
            } else {
                None
            },
        }
    }
}

proof fn lemma_conv_index(cs: Seq<ConversationState>, id: Seq<char>)
    ensures
        match conv_index(cs, id) {
            Some(i) => 0 <= i < cs.len() && cs[i].id@ == id && forall|j: int|
                0 <= j < i ==> cs[j].id@ != id,
            None => forall|j: int| 0 <= j < cs.len() ==> cs[j].id@ != id,
        },
    decreases cs.len(),
{
    if cs.len() > 0 {
        lemma_conv_index(cs.drop_last(), id);
        assert(forall|j: int| 0 <= j < cs.len() - 1 ==> cs.drop_last()[j] == cs[j]);
    }
}

/// Conversation IDs are distinct.
pub open spec fn distinct_ids(cs: Seq<ConversationState>) -> bool {
    forall|i: int, j: int| 0 <= i < cs.len() && 0 <= j < cs.len() && i != j ==> cs[i].id@ != cs[j].id@
}

/// The model of the chat state: the open conversation, the conversations,
/// the last recency order handed out, the generation of what was published,
/// and the visible surfaces.
pub struct ChatStateView {
    pub active: Seq<char>,
    pub conversations: Seq<ConversationState>,
    pub next_order: u64,
    pub generation: u64,
    pub visible: Seq<SurfaceKind>,
}

/// The chat surface's state across conversations.
pub struct ChatState {
    active_conversation: ConversationId,
    conversations: Vec<ConversationState>,
    next_updated_order: u64,
    generation: u64,
    visible_surfaces: Vec<SurfaceKind>,
}

impl View for ChatState {
    type V = ChatStateView;

    closed spec fn view(&self) -> ChatStateView {
        ChatStateView {
            active: self.active_conversation@,
            conversations: self.conversations@,
            next_order: self.next_updated_order,
            generation: self.generation,
            visible: self.visible_surfaces@,
        }
    }
}

/// The open conversation of `v`.
pub open spec fn open_conversation(v: ChatStateView) -> ConversationState {
    v.conversations[conv_index(v.conversations, v.active)->0]
}

/// Whether `r` shows the chat state `v`: the open conversation, every
/// conversation in switcher order, and what the user may do.
pub open spec fn shows(r: ChatSnapshot, v: ChatStateView) -> bool {
    let c = open_conversation(v);
    &&& r.conversation_id@ == c.id@
    &&& r.title@ == c.title@
    &&& messages_view(r.messages@) == messages_view(c.messages@)
    &&& in_switcher_order(summaries_view(r.conversations@))
    &&& summaries_view(r.conversations@).to_multiset() == v.conversations.map_values(
        |x: ConversationState| summary_of(x),
    ).to_multiset()
    &&& r.model_preference@ == c.model_preference@
    &&& id_text(r.active_invocation) == id_text(c.active_invocation)
    &&& r.generation == v.generation
    &&& r.status_text@ == c.status_text@
    &&& r.can_send == !busy(c)
    &&& r.can_stop == c.active_invocation is Some
    &&& r.can_retry == (!busy(c) && last_user_index(messages_view(c.messages@)) is Some)
    &&& r.has_unsaved_result == c.has_unsaved_result
    &&& opt_view(r.context_notice) == opt_view(c.context_notice)
}

/// What publishing sends: the snapshot of `v` when a surface is visible.
pub open spec fn publishes(r: Option<ChatSnapshot>, v: ChatStateView) -> bool {
    if v.visible.len() > 0 {
        r matches Some(s) && shows(s, v)
    } else {
        r is None
    }
}

/// One more, saturating.
pub open spec fn next_u64(n: u64) -> u64 {
    if n == u64::MAX {
        n
    } else {
        (n + 1) as u64
    }
}

/// `v` published: one generation on.
pub open spec fn bump(v: ChatStateView) -> ChatStateView {
    ChatStateView { generation: next_u64(v.generation), ..v }
}

/// `v` with conversation `i` replaced by `c`, `c` the most recent.
pub open spec fn touched(v: ChatStateView, i: int, c: ConversationState) -> ChatStateView {
    let order = next_u64(v.next_order);
    ChatStateView {
        next_order: order,
        conversations: v.conversations.update(i, ConversationState { updated_order: order, ..c }),
        ..v
    }
}

/// A conversation title as entered: trimmed, at most 120 characters.
pub open spec fn title_text(title: Seq<char>) -> Seq<char> {
    let t = trim(title);
    if t.len() <= 120 {
        t
    } else {
        t.take(120)
    }
}

/// A conversation title as entered: trimmed, at most 120 characters; an
/// empty one is refused.
pub fn normalized_title(title: &str) -> (r: Result<String, ChatError>)
    ensures
        title_text(title@).len() == 0 ==> (r matches Err(ChatError::Failed(m)) && m@
            == "conversation title cannot be empty"@),
        title_text(title@).len() > 0 ==> (r matches Ok(t) && t@ == title_text(title@)),
{
    let t = trim_str(title);
    let chars = chars_of(t.as_str());
    let end = if chars.len() <= 120 {
        chars.len()
    } else {
        120
    };
    let r = string_from_range(&chars, 0, end);
    assert(r@ =~= title_text(title@));
    if end == 0 {
        return Err(ChatError::Failed("conversation title cannot be empty".to_owned()));
    }
    Ok(r)
}

/// Whether `c` is a new empty conversation `id` at recency `order`.
pub open spec fn is_new_conversation(c: ConversationState, id: Seq<char>, order: u64) -> bool {
    &&& c.id@ == id
    &&& c.title@ == "New chat"@
    &&& c.model_preference@ == crate::chat::ModelPreferenceView::Fast
    &&& !c.favorite
    &&& c.messages@.len() == 0
    &&& c.active_invocation is None
    &&& c.active_assistant is None
    &&& c.last_execution_sequence == 0
    &&& !c.starting
    &&& c.status_text@ == "Ready"@
    &&& !c.has_unsaved_result
    &&& c.context_notice is None
    &&& c.updated_order == order
}

/// The index of the most recent conversation, the last of equals.
pub open spec fn latest_index(cs: Seq<ConversationState>) -> int
    decreases cs.len(),
{
    if cs.len() <= 1 {
        0
    } else {
        let i = latest_index(cs.drop_last());
        if cs.last().updated_order >= cs[i].updated_order {
            cs.len() - 1
        } else {
            i
        }
    }
}

proof fn lemma_latest_index(cs: Seq<ConversationState>)
    requires
        cs.len() > 0,
    ensures
        0 <= latest_index(cs) < cs.len(),
        forall|j: int| 0 <= j < cs.len() ==> (#[trigger] cs[j]).updated_order <= cs[latest_index(cs)].updated_order,
    decreases cs.len(),
{
    if cs.len() > 1 {
        lemma_latest_index(cs.drop_last());
        assert(forall|j: int| 0 <= j < cs.len() - 1 ==> cs.drop_last()[j] == cs[j]);
    }
}

/// Conversation indexes depend on the IDs alone.
proof fn lemma_conv_index_ids(a: Seq<ConversationState>, b: Seq<ConversationState>, id: Seq<char>)
    requires
        a.len() == b.len(),
        forall|j: int| 0 <= j < a.len() ==> #[trigger] a[j].id@ == b[j].id@,
    ensures
        conv_index(a, id) == conv_index(b, id),
    decreases a.len(),
{
    if a.len() > 0 {
        lemma_conv_index_ids(a.drop_last(), b.drop_last(), id);
    }
}

/// Replacing a conversation by one of the same ID keeps IDs and indexes.
proof fn lemma_replace(cs: Seq<ConversationState>, i: int, c: ConversationState, id: Seq<char>)
    requires
        0 <= i < cs.len(),
        c.id@ == cs[i].id@,
    ensures
        cs.remove(i).insert(i, c) == cs.update(i, c),
        distinct_ids(cs) ==> distinct_ids(cs.update(i, c)),
        conv_index(cs.update(i, c), id) == conv_index(cs, id),
{
    assert(cs.remove(i).insert(i, c) =~= cs.update(i, c));
    lemma_conv_index_ids(cs, cs.update(i, c), id);
}

/// `ms` with the first message of ID `id` given status `status`.
pub open spec fn with_message_status(ms: Seq<MessageView>, id: Seq<char>, status: ChatMessageStatus) -> Seq<MessageView>
    decreases ms.len(),
{
    if ms.len() == 0 {
        ms
    } else if ms[0].id == id {
        ms.update(0, MessageView { status, ..ms[0] })
    } else {
        seq![ms[0]] + with_message_status(ms.drop_first(), id, status)
    }
}

/// Gives the first message with ID `id` the status `status`.
fn set_message_status(messages: &mut Vec<ChatMessageSnapshot>, id: &MessageId, status: ChatMessageStatus)
    ensures
        messages_view(final(messages)@) == with_message_status(messages_view(old(messages)@), id@, status),
{
    let ghost ms = messages_view(messages@);
    let mut i: usize = 0;
    assert(ms.take(0) + ms.skip(0) =~= ms);
    while i < messages.len()
        invariant
            i <= messages.len(),
            ms == messages_view(messages@),
            ms == messages_view(old(messages)@),
            with_message_status(ms, id@, status) == ms.take(i as int) + with_message_status(ms.skip(i as int), id@, status),
        decreases messages.len() - i,
    {
        assert(ms.skip(i as int)[0] == messages@[i as int]@);
        if str_eq(messages[i].id.as_str(), id.as_str()) {
            let mut m = messages[i].clone();
            m.status = status;
            let ghost mv = m@;
            messages.set(i, m);
            assert(with_message_status(ms.skip(i as int), id@, status) == ms.skip(i as int).update(0, mv));
            assert(messages_view(messages@) =~= ms.take(i as int) + ms.skip(i as int).update(0, mv));
            return;
        }
        assert(ms.skip(i as int).drop_first() =~= ms.skip(i + 1));
        assert(ms.take(i as int) + (seq![ms[i as int]] + with_message_status(ms.skip(i + 1), id@, status))
            =~= ms.take(i + 1) + with_message_status(ms.skip(i + 1), id@, status));
        i += 1;
    }
    assert(ms.take(i as int) =~= ms);
    assert(ms.skip(i as int) =~= Seq::<MessageView>::empty());
}

/// Whether `c` waits for the assistant message `id`.
pub open spec fn waits_for(c: ConversationState, id: Seq<char>) -> bool {
    c.active_assistant matches Some(a) && a@ == id
}

/// The index of the first conversation waiting for the assistant message
/// `id`.
pub open spec fn waiting_index(cs: Seq<ConversationState>, id: Seq<char>) -> Option<int>
    decreases cs.len(),
{
    if cs.len() == 0 {
        None
    } else {
        match waiting_index(cs.drop_last(), id) {
            Some(i) => Some(i),
            None => if waits_for(cs.last(), id) {
                Some(cs.len() - 1)
            } else {
                None
            },
        }
    }
}

proof fn lemma_waiting_index(cs: Seq<ConversationState>, id: Seq<char>)
    ensures
        match waiting_index(cs, id) {
            Some(i) => 0 <= i < cs.len() && waits_for(cs[i], id) && forall|j: int|
                0 <= j < i ==> !waits_for(#[trigger] cs[j], id),
            None => forall|j: int| 0 <= j < cs.len() ==> !waits_for(#[trigger] cs[j], id),
        },
    decreases cs.len(),
{
    if cs.len() > 0 {
        lemma_waiting_index(cs.drop_last(), id);
        assert(forall|j: int| 0 <= j < cs.len() - 1 ==> cs.drop_last()[j] == cs[j]);
    }
}

/// Removing a conversation of another ID keeps the conversation `a`.
proof fn lemma_remove_keeps(cs: Seq<ConversationState>, i: int, a: Seq<char>)
    requires
        0 <= i < cs.len(),
        cs[i].id@ != a,
        conv_index(cs, a) is Some,
    ensures
        conv_index(cs.remove(i), a) is Some,
{
    lemma_conv_index(cs, a);
    let j = conv_index(cs, a)->0;
    let r = cs.remove(i);
    let k = if j < i {
        j
    } else {
        j - 1
    };
    assert(r[k] == cs[j]);
    lemma_conv_index(r, a);
}

/// Removing a conversation keeps the IDs distinct.
proof fn lemma_remove_distinct(cs: Seq<ConversationState>, i: int)
    requires
        0 <= i < cs.len(),
        distinct_ids(cs),
    ensures
        distinct_ids(cs.remove(i)),
{
    let r = cs.remove(i);
    assert forall|a: int, b: int| 0 <= a < r.len() && 0 <= b < r.len() && a != b implies r[a].id@ != r[b].id@ by {
        let a2 = if a < i {
            a
        } else {
            a + 1
        };
        let b2 = if b < i {
            b
        } else {
            b + 1
        };
        assert(r[a] == cs[a2]);
        assert(r[b] == cs[b2]);
    }
}

/// Whether `needle` occurs in `hay`.
pub open spec fn contains_text(hay: Seq<char>, needle: Seq<char>) -> bool {
    exists|i: int| 0 <= i <= hay.len() - needle.len() && #[trigger] hay.subrange(i, i + needle.len()) == needle
}

/// Whether `needle` occurs in `hay`.
fn text_contains(hay: &Vec<char>, needle: &Vec<char>) -> (r: bool)
    ensures
        r == contains_text(hay@, needle@),
{
    if needle.len() > hay.len() {
        return false;
    }
    let mut i: usize = 0;
    while i <= hay.len() - needle.len()
        invariant
            needle.len() <= hay.len(),
            i <= hay.len() - needle.len() + 1,
            forall|k: int| 0 <= k < i ==> #[trigger] hay@.subrange(k, k + needle@.len()) != needle@,
        decreases hay.len() - needle.len() + 1 - i,
    {
        let mut j: usize = 0;
        while j < needle.len() && hay[i + j] == needle[j]
            invariant
                needle.len() <= hay.len(),
                i <= hay.len() - needle.len(),
                j <= needle.len(),
                forall|m: int| 0 <= m < j ==> hay@[i + m] == needle@[m],
            decreases needle.len() - j,
        {
            j += 1;
        }
        if j == needle.len() {
            assert(hay@.subrange(i as int, i + needle@.len()) =~= needle@);
            return true;
        }
        assert(hay@.subrange(i as int, i + needle@.len())[j as int] != needle@[j as int]);
        i += 1;
    }
    false
}

/// Whether a search for `query`, already in lower case, finds `c`: among
/// favorites when asked, and by its title or a message's text in lower case.
pub open spec fn found_by(c: ConversationState, query: Seq<char>, favorites_only: bool) -> bool {
    &&& !favorites_only || c.favorite
    &&& query.len() == 0 || contains_text(lowercase(c.title@), query) || exists|k: int|
        0 <= k < c.messages@.len() && contains_text(lowercase(#[trigger] c.messages@[k].content@), query)
}

/// Whether a search for `query` finds `c`.
fn finds(c: &ConversationState, query: &Vec<char>, favorites_only: bool) -> (r: bool)
    ensures
        r == found_by(*c, query@, favorites_only),
{
    if favorites_only && !c.favorite {
        return false;
    }
    if query.len() == 0 {
        return true;
    }
    let title = to_lowercase(c.title.as_str());
    if text_contains(&chars_of(title.as_str()), query) {
        return true;
    }
    let mut k: usize = 0;
    while k < c.messages.len()
        invariant
            k <= c.messages.len(),
            !favorites_only || c.favorite,
            query@.len() > 0,
            !contains_text(lowercase(c.title@), query@),
            forall|m: int| 0 <= m < k ==> !contains_text(lowercase(#[trigger] c.messages@[m].content@), query@),
        decreases c.messages.len() - k,
    {
        let content = to_lowercase(c.messages[k].content.as_str());
        if text_contains(&chars_of(content.as_str()), query) {
            assert(contains_text(lowercase(c.messages@[k as int].content@), query@));
            return true;
        }
        k += 1;
    }
    false
}

impl ChatState {
    /// The state's invariant: distinct conversations, the open one among
    /// them, and each visible surface once.
    pub closed spec fn well_formed(&self) -> bool {
        &&& distinct_ids(self@.conversations)
        &&& conv_index(self@.conversations, self@.active) is Some
        &&& self@.visible.no_duplicates()
    }

    /// Where the conversation `id` is.
    fn find(&self, id: &ConversationId) -> (r: Option<usize>)
        ensures
            r matches Some(i) ==> conv_index(self@.conversations, id@) == Some(i as int) && i
                < self@.conversations.len(),
            r is None ==> conv_index(self@.conversations, id@) is None,
    {
        proof {
            lemma_conv_index(self@.conversations, id@);
        }
        let mut i: usize = 0;
        while i < self.conversations.len()
            invariant
                i <= self.conversations.len(),
                match conv_index(self@.conversations, id@) {
                    Some(k) => 0 <= k < self@.conversations.len() && self@.conversations[k].id@
                        == id@,
                    None => forall|j: int|
                        0 <= j < self@.conversations.len() ==> self@.conversations[j].id@ != id@,
                },
                forall|j: int| 0 <= j < i ==> self@.conversations[j].id@ != id@,
                distinct_ids(self@.conversations) || true,
            decreases self.conversations.len() - i,
        {
            if str_eq(self.conversations[i].id.as_str(), id.as_str()) {
                proof {
                    lemma_conv_index(self@.conversations, id@);
                }
                return Some(i);
            }
            i += 1;
        }
        None
    }

    /// The snapshot of the chat state.
    pub fn snapshot(&self) -> (r: ChatSnapshot)
        requires
            self.well_formed(),
        ensures
            shows(r, self@),
    {
        proof {
            lemma_conv_index(self@.conversations, self@.active);
        }
        let i = match self.find(&self.active_conversation) {
            Some(i) => i,
            None => 0,
        };
        let c = &self.conversations[i];
        let ghost cs = self@.conversations;
        let ghost f = |x: ConversationState| summary_of(x);
        let mut summaries: Vec<ChatConversationSummary> = Vec::new();
        let mut k: usize = 0;
        while k < self.conversations.len()
            invariant
                k <= self.conversations.len(),
                cs == self@.conversations,
                f == (|x: ConversationState| summary_of(x)),
                summaries_view(summaries@) =~= cs.take(k as int).map_values(f),
            decreases self.conversations.len() - k,
        {
            let s = self.conversations[k].summary();
            let ghost before = summaries_view(summaries@);
            summaries.push(s);
            proof {
                assert(cs.take(k + 1) =~= cs.take(k as int).push(cs[k as int]));
                assert(cs.take(k + 1).map_values(f) =~= cs.take(k as int).map_values(f).push(
                    f(cs[k as int]),
                ));
                assert(summaries_view(summaries@) =~= before.push(s@));
            }
            k += 1;
        }
        assert(cs.take(k as int) =~= cs);
        let ordered = switcher_order(summaries);
        let active = c.starting || c.active_invocation.is_some();
        let retry = match last_user_message(c) {
            Some(_) => true,
            None => false,
        };
        ChatSnapshot {
            conversation_id: c.id.clone(),
            title: copy_string(&c.title),
            messages: copy_messages(&c.messages),
            conversations: ordered,
            model_preference: c.model_preference.clone(),
            active_invocation: match &c.active_invocation {
                Some(x) => Some(x.clone()),
                None => None,
            },
            generation: self.generation,
            status_text: copy_string(&c.status_text),
            can_send: !active,
            can_stop: c.active_invocation.is_some(),
            can_retry: !active && retry,
            has_unsaved_result: c.has_unsaved_result,
            context_notice: copy_opt(&c.context_notice),
        }
    }

    /// Moves one generation on; the snapshot to send when a surface is
    /// visible.
    fn publish(&mut self) -> (r: Option<ChatSnapshot>)
        requires
            old(self).well_formed(),
        ensures
            final(self).well_formed(),
            final(self)@ == bump(old(self)@),
            publishes(r, final(self)@),
    {
        self.generation = if self.generation == u64::MAX {
            self.generation
        } else {
            self.generation + 1
        };
        if self.visible_surfaces.len() > 0 {
            Some(self.snapshot())
        } else {
            None
        }
    }

    /// Takes conversation `i` out.
    fn take(&mut self, i: usize) -> (r: ConversationState)
        requires
            i < old(self)@.conversations.len(),
        ensures
            r == old(self)@.conversations[i as int],
            final(self)@ == (ChatStateView {
                conversations: old(self)@.conversations.remove(i as int),
                ..old(self)@
            }),
    {
        self.conversations.remove(i)
    }

    /// Puts `c` back at `i`.
    fn put(&mut self, i: usize, c: ConversationState)
        requires
            i <= old(self)@.conversations.len(),
        ensures
            final(self)@ == (ChatStateView {
                conversations: old(self)@.conversations.insert(i as int, c),
                ..old(self)@
            }),
    {
        self.conversations.insert(i, c);
    }

    /// Gives conversation `i` the next recency order.
    fn touch_at(&mut self, i: usize)
        requires
            old(self).well_formed(),
            i < old(self)@.conversations.len(),
        ensures
            final(self).well_formed(),
            final(self)@ == touched(old(self)@, i as int, old(self)@.conversations[i as int]),
    {
        self.next_updated_order = if self.next_updated_order == u64::MAX {
            self.next_updated_order
        } else {
            self.next_updated_order + 1
        };
        let ghost cs = self@.conversations;
        let mut c = self.take(i);
        c.updated_order = self.next_updated_order;
        proof {
            lemma_replace(cs, i as int, c, self@.active);
        }
        self.put(i, c);
    }

    /// A chat state over the restored conversations, the most recent one
    /// open; with none restored, a new conversation `fresh`, which the caller
    /// saves. Later records of an ID replace earlier ones.
    pub fn new(restored: Vec<crate::chat::PersistedChatConversation>, fresh: ConversationId) -> (r: (
        Self,
        bool,
    ))
        ensures
            r.0.well_formed(),
            r.0@.generation == 0,
            r.0@.visible.len() == 0,
            restored@.len() == 0 <==> r.1,
            r.1 ==> r.0@.conversations.len() == 1 && is_new_conversation(
                r.0@.conversations[0],
                fresh@,
                1,
            ) && r.0@.active == fresh@ && r.0@.next_order == 1,
            !r.1 ==> {
                let cs = r.0@.conversations;
                &&& cs.len() > 0
                &&& r.0@.active == cs[latest_index(cs)].id@
                &&& forall|j: int| 0 <= j < cs.len() ==> (#[trigger] cs[j]).updated_order <= r.0@.next_order
                &&& forall|k: int| 0 <= k < restored@.len() ==> conv_index(cs, #[trigger] restored@[k].id@) is Some
            },
    {
        let count = restored.len();
        let mut state = ChatState {
            active_conversation: fresh,
            conversations: Vec::new(),
            next_updated_order: 0,
            generation: 0,
            visible_surfaces: Vec::new(),
        };
        let ghost all = restored@;
        let ghost first = state@.active;
        let mut rest = restored;
        let mut n: usize = 0;
        while rest.len() > 0
            invariant
                all == restored@,
                all.len() == count,
                state@.active == first,
                n + rest@.len() == all.len(),
                state@.conversations.len() <= n,
                rest@ == all.subrange(n as int, all.len() as int),
                distinct_ids(state@.conversations),
                state@.visible.len() == 0,
                state@.generation == 0,
                state@.next_order == 0,
                forall|k: int| 0 <= k < n ==> conv_index(state@.conversations, #[trigger] all[k].id@) is Some,
                n > 0 ==> state@.conversations.len() > 0,
            decreases rest.len(),
        {
            let record = rest.remove(0);
            assert(record == all[n as int]);
            let c = ConversationState::restored(record);
            let ghost cs = state@.conversations;
            proof {
                lemma_conv_index(cs, c.id@);
            }
            match state.find(&c.id) {
                Some(i) => {
                    let _ = state.take(i);
                    proof {
                        lemma_replace(cs, i as int, c, c.id@);
                        assert forall|k: int| 0 <= k < n implies conv_index(cs.update(i as int, c), #[trigger] all[k].id@) is Some by {
                            lemma_replace(cs, i as int, c, all[k].id@);
                        }
                    }
                    state.put(i, c);
                },
                None => {
                    let ghost cv = c;
                    let len = state.conversations.len();
                    state.put(len, c);
                    proof {
                        assert(cs.insert(len as int, cv) =~= cs.push(cv));
                        assert forall|k: int| 0 <= k < n + 1 implies conv_index(cs.push(cv), #[trigger] all[k].id@) is Some by {
                            assert(cs.push(cv).drop_last() =~= cs);
                        }
                        assert forall|a: int, b: int|
                            0 <= a < cs.len() + 1 && 0 <= b < cs.len() + 1 && a != b implies cs.push(cv)[a].id@
                            != cs.push(cv)[b].id@ by {
                            if a < cs.len() && b < cs.len() {
                                assert(cs.push(cv)[a] == cs[a]);
                                assert(cs.push(cv)[b] == cs[b]);
                            } else if a < cs.len() {
                                assert(cs.push(cv)[a] == cs[a]);
                            } else {
                                assert(cs.push(cv)[b] == cs[b]);
                            }
                        }
                    }
                },
            }
            n += 1;
        }
        if state.conversations.len() == 0 {
            let c = ConversationState::empty(state.active_conversation.clone(), 1);
            state.conversations.push(c);
            state.next_updated_order = 1;
            proof {
                lemma_conv_index(state@.conversations, state@.active);
            }
            return (state, true);
        }
        let ghost cs = state@.conversations;
        proof {
            lemma_latest_index(cs);
        }
        let mut best: usize = 0;
        let mut i: usize = 1;
        while i < state.conversations.len()
            invariant
                cs == state@.conversations,
                cs.len() > 0,
                1 <= i <= cs.len(),
                best < i,
                best as int == latest_index(cs.take(i as int)),
                forall|j: int| 0 <= j < i ==> (#[trigger] cs[j]).updated_order <= cs[best as int].updated_order,
            decreases cs.len() - i,
        {
            proof {
                assert(cs.take(i + 1).drop_last() =~= cs.take(i as int));
                lemma_latest_index(cs.take(i as int));
                assert(cs.take(i as int)[best as int] == cs[best as int]);
            }
            if state.conversations[i].updated_order >= state.conversations[best].updated_order {
                best = i;
            }
            i += 1;
        }
        assert(cs.take(i as int) =~= cs);
        let top = state.conversations[best].updated_order;
        state.active_conversation = state.conversations[best].id.clone();
        state.next_updated_order = if top == u64::MAX {
            top
        } else {
            top + 1
        };
        proof {
            lemma_conv_index(cs, state@.active);
            if conv_index(cs, state@.active) is None {
                assert(cs[best as int].id@ == state@.active);
            }
        }
        (state, false)
    }

    /// Adds the new conversation `id`, which the caller saved, and opens it.
    pub fn add_conversation(&mut self, id: ConversationId) -> (r: Option<ChatSnapshot>)
        requires
            old(self).well_formed(),
        ensures
            final(self).well_formed(),
            ({
                let v = old(self)@;
                let order = next_u64(v.next_order);
                let w = final(self)@;
                &&& w.active == id@
                &&& w.next_order == order
                &&& w.generation == next_u64(v.generation)
                &&& w.visible == v.visible
                &&& match conv_index(v.conversations, id@) {
                    Some(i) => w.conversations.len() == v.conversations.len() && is_new_conversation(
                        w.conversations[i],
                        id@,
                        order,
                    ) && forall|j: int|
                        0 <= j < v.conversations.len() && j != i ==> #[trigger] w.conversations[j]
                            == v.conversations[j],
                    None => w.conversations.len() == v.conversations.len() + 1 && is_new_conversation(
                        w.conversations.last(),
                        id@,
                        order,
                    ) && w.conversations.drop_last() == v.conversations,
                }
            }),
            publishes(r, final(self)@),
    {
        self.next_updated_order = if self.next_updated_order == u64::MAX {
            self.next_updated_order
        } else {
            self.next_updated_order + 1
        };
        let c = ConversationState::empty(id.clone(), self.next_updated_order);
        let ghost cs = self@.conversations;
        proof {
            lemma_conv_index(cs, id@);
        }
        match self.find(&id) {
            Some(i) => {
                let _ = self.take(i);
                proof {
                    lemma_replace(cs, i as int, c, id@);
                }
                self.put(i, c);
            },
            None => {
                let ghost cv = c;
                let len = self.conversations.len();
                self.put(len, c);
                proof {
                    assert(cs.insert(len as int, cv) =~= cs.push(cv));
                    assert(cs.push(cv).drop_last() =~= cs);
                    assert forall|a: int, b: int|
                        0 <= a < cs.len() + 1 && 0 <= b < cs.len() + 1 && a != b implies cs.push(cv)[a].id@
                        != cs.push(cv)[b].id@ by {
                        if a < cs.len() && b < cs.len() {
                            assert(cs.push(cv)[a] == cs[a]);
                            assert(cs.push(cv)[b] == cs[b]);
                        } else if a < cs.len() {
                            assert(cs.push(cv)[a] == cs[a]);
                        } else {
                            assert(cs.push(cv)[b] == cs[b]);
                        }
                    }
                }
            },
        }
        self.active_conversation = id;
        proof {
            lemma_conv_index(self@.conversations, self@.active);
            if conv_index(self@.conversations, self@.active) is None {
                match conv_index(cs, self@.active) {
                    Some(i) => assert(self@.conversations[i].id@ == self@.active),
                    None => assert(self@.conversations.last().id@ == self@.active),
                }
            }
        }
        self.publish()
    }

    /// The index of the open conversation.
    fn open_index(&self) -> (r: usize)
        requires
            self.well_formed(),
        ensures
            conv_index(self@.conversations, self@.active) == Some(r as int),
            r < self@.conversations.len(),
    {
        match self.find(&self.active_conversation) {
            Some(i) => i,
            None => 0,
        }
    }

    /// Renames the open conversation to `title`, which the caller saved
    /// (see `normalized_title`), and makes it the most recent.
    pub fn rename_open(&mut self, title: String) -> (r: Option<ChatSnapshot>)
        requires
            old(self).well_formed(),
        ensures
            final(self).well_formed(),
            ({
                let v = old(self)@;
                let i = conv_index(v.conversations, v.active)->0;
                final(self)@ == bump(touched(v, i, ConversationState { title, ..v.conversations[i] }))
            }),
            publishes(r, final(self)@),
    {
        let i = self.open_index();
        let ghost v = self@;
        let mut c = self.take(i);
        c.title = title;
        proof {
            lemma_replace(v.conversations, i as int, c, v.active);
        }
        self.put(i, c);
        self.touch_at(i);
        proof {
            assert(self@.conversations =~= touched(v, i as int, c).conversations);
        }
        self.publish()
    }

    /// Gives the open conversation the model preference `preference`, which
    /// the caller saved, and makes it the most recent.
    pub fn set_model_preference(&mut self, preference: ChatModelPreference) -> (r: Option<ChatSnapshot>)
        requires
            old(self).well_formed(),
        ensures
            final(self).well_formed(),
            ({
                let v = old(self)@;
                let i = conv_index(v.conversations, v.active)->0;
                final(self)@ == bump(
                    touched(v, i, ConversationState { model_preference: preference, ..v.conversations[i] }),
                )
            }),
            publishes(r, final(self)@),
    {
        let i = self.open_index();
        let ghost v = self@;
        let mut c = self.take(i);
        c.model_preference = preference;
        proof {
            lemma_replace(v.conversations, i as int, c, v.active);
        }
        self.put(i, c);
        self.touch_at(i);
        proof {
            assert(self@.conversations =~= touched(v, i as int, c).conversations);
        }
        self.publish()
    }

    /// Opens the conversation `id`.
    pub fn switch_to(&mut self, id: &ConversationId) -> (r: Result<Option<ChatSnapshot>, ChatError>)
        requires
            old(self).well_formed(),
        ensures
            final(self).well_formed(),
            conv_index(old(self)@.conversations, id@) is None ==> (r matches Err(ChatError::ConversationNotFound) && final(self)@ == old(self)@),
            conv_index(old(self)@.conversations, id@) is Some ==> ({
                &&& final(self)@ == bump(ChatStateView { active: id@, ..old(self)@ })
                &&& r matches Ok(x) && publishes(x, final(self)@)
            }),
    {
        match self.find(id) {
            None => Err(ChatError::ConversationNotFound),
            Some(_) => {
                self.active_conversation = id.clone();
                Ok(self.publish())
            },
        }
    }

    /// Marks the conversation `id` as a favorite or not, as the caller
    /// saved it.
    pub fn set_favorite(&mut self, id: &ConversationId, favorite: bool) -> (r: Result<Option<ChatSnapshot>, ChatError>)
        requires
            old(self).well_formed(),
        ensures
            final(self).well_formed(),
            match conv_index(old(self)@.conversations, id@) {
                None => r matches Err(ChatError::ConversationNotFound) && final(self)@ == old(self)@,
                Some(i) => {
                    let v = old(self)@;
                    &&& final(self)@ == bump(ChatStateView {
                        conversations: v.conversations.update(i, ConversationState { favorite, ..v.conversations[i] }),
                        ..v
                    })
                    &&& r matches Ok(x) && publishes(x, final(self)@)
                },
            },
    {
        let i = match self.find(id) {
            None => {
                return Err(ChatError::ConversationNotFound);
            },
            Some(i) => i,
        };
        let ghost v = self@;
        let mut c = self.take(i);
        c.favorite = favorite;
        proof {
            lemma_replace(v.conversations, i as int, c, v.active);
        }
        self.put(i, c);
        Ok(self.publish())
    }

    /// The run of the conversation `id`, which deleting it cancels first.
    pub fn running_invocation(&self, id: &ConversationId) -> (r: Option<InvocationId>)
        ensures
            id_text(r) == match conv_index(self@.conversations, id@) {
                Some(i) => id_text(self@.conversations[i].active_invocation),
                None => None,
            },
    {
        match self.find(id) {
            None => None,
            Some(i) => match &self.conversations[i].active_invocation {
                Some(x) => Some(x.clone()),
                None => None,
            },
        }
    }

    /// The run of the open conversation, which stopping cancels; `Busy` when
    /// there is none.
    pub fn stop(&self) -> (r: Result<InvocationId, ChatError>)
        requires
            self.well_formed(),
        ensures
            match open_conversation(self@).active_invocation {
                Some(x) => r matches Ok(y) && y@ == x@,
                None => r matches Err(ChatError::Busy),
            },
    {
        let i = self.open_index();
        match &self.conversations[i].active_invocation {
            Some(x) => Ok(x.clone()),
            None => Err(ChatError::Busy),
        }
    }

    /// What retrying asks again: the open conversation's last user message,
    /// its text and attachments; `NothingToRetry` without one.
    pub fn retry_draft(&self) -> (r: Result<(ConversationId, String, Vec<ChatAttachment>), ChatError>)
        requires
            self.well_formed(),
        ensures
            ({
                let c = open_conversation(self@);
                let ms = messages_view(c.messages@);
                match last_user_index(ms) {
                    Some(k) => r matches Ok((id, text, atts)) && id@ == c.id@ && text@ == ms[k].content
                        && attachments_view(atts@) == ms[k].attachments,
                    None => r matches Err(ChatError::NothingToRetry),
                }
            }),
    {
        let i = self.open_index();
        let c = &self.conversations[i];
        proof {
            lemma_last_user_index(messages_view(c.messages@));
            if last_user_index(messages_view(c.messages@)) is Some {
                let k = last_user_index(messages_view(c.messages@))->0;
                assert(messages_view(c.messages@)[k] == c.messages@[k]@);
            }
        }
        match last_user_message(c) {
            Some(m) => Ok((c.id.clone(), copy_string(&m.content), copy_attachments(&m.attachments))),
            None => Err(ChatError::NothingToRetry),
        }
    }

    /// Removes the conversation `id`, which the caller deleted. With none
    /// left, a new conversation `fresh` opens, which the caller saves (the
    /// second result says so); when the open one goes, the most recent
    /// remaining one opens.
    pub fn remove_conversation(&mut self, id: &ConversationId, fresh: ConversationId) -> (r: (
        Option<ChatSnapshot>,
        bool,
    ))
        requires
            old(self).well_formed(),
        ensures
            final(self).well_formed(),
            publishes(r.0, final(self)@),
            ({
                let v = old(self)@;
                let rest = match conv_index(v.conversations, id@) {
                    Some(i) => v.conversations.remove(i),
                    None => v.conversations,
                };
                let w = final(self)@;
                &&& w.generation == next_u64(v.generation)
                &&& w.visible == v.visible
                &&& r.1 == (rest.len() == 0)
                &&& if rest.len() == 0 {
                    &&& w.conversations.len() == 1
                    &&& is_new_conversation(w.conversations[0], fresh@, next_u64(v.next_order))
                    &&& w.active == fresh@
                    &&& w.next_order == next_u64(v.next_order)
                } else {
                    &&& w.conversations == rest
                    &&& w.next_order == v.next_order
                    &&& w.active == (if v.active == id@ {
                        rest[latest_index(rest)].id@
                    } else {
                        v.active
                    })
                }
            }),
    {
        let ghost v = self@;
        proof {
            lemma_conv_index(v.conversations, id@);
            lemma_conv_index(v.conversations, v.active);
        }
        match self.find(id) {
            Some(i) => {
                proof {
                    lemma_remove_distinct(v.conversations, i as int);
                    if v.active != id@ {
                        lemma_remove_keeps(v.conversations, i as int, v.active);
                    }
                }
                let _ = self.take(i);
            },
            None => {},
        }
        let mut created = false;
        if self.conversations.len() == 0 {
            self.next_updated_order = if self.next_updated_order == u64::MAX {
                self.next_updated_order
            } else {
                self.next_updated_order + 1
            };
            let c = ConversationState::empty(fresh.clone(), self.next_updated_order);
            self.conversations.push(c);
            self.active_conversation = fresh;
            created = true;
            proof {
                lemma_conv_index(self@.conversations, self@.active);
            }
        } else if str_eq(self.active_conversation.as_str(), id.as_str()) {
            let ghost cs = self@.conversations;
            proof {
                lemma_latest_index(cs);
            }
            let mut best: usize = 0;
            let mut i: usize = 1;
            while i < self.conversations.len()
                invariant
                    cs == self@.conversations,
                    cs.len() > 0,
                    1 <= i <= cs.len(),
                    best < i,
                    best as int == latest_index(cs.take(i as int)),
                decreases cs.len() - i,
            {
                proof {
                    assert(cs.take(i + 1).drop_last() =~= cs.take(i as int));
                    assert(cs.take(i as int)[best as int] == cs[best as int]);
                }
                if self.conversations[i].updated_order >= self.conversations[best].updated_order {
                    best = i;
                }
                i += 1;
            }
            assert(cs.take(i as int) =~= cs);
            self.active_conversation = self.conversations[best].id.clone();
            proof {
                lemma_latest_index(cs);
                lemma_conv_index(cs, self@.active);
                if conv_index(cs, self@.active) is None {
                    assert(cs[best as int].id@ == self@.active);
                }
            }
        }
        (self.publish(), created)
    }

    /// Applies a run's snapshot to its conversation, when the conversation
    /// takes it; the snapshot to send then.
    pub fn observe(&mut self, snapshot: &ExecutionSnapshot) -> (r: Option<ChatSnapshot>)
        requires
            old(self).well_formed(),
        ensures
            final(self).well_formed(),
            match conv_index(old(self)@.conversations, snapshot.conversation_id@) {
                Some(i) if accepts_execution(old(self)@.conversations[i], *snapshot) => {
                    let v = old(self)@;
                    let d = final(self)@.conversations[i];
                    &&& after_execution(v.conversations[i], d, *snapshot)
                    &&& final(self)@ == bump(ChatStateView { conversations: v.conversations.update(i, d), ..v })
                    &&& publishes(r, final(self)@)
                },
                _ => final(self)@ == old(self)@ && r is None,
            },
    {
        let i = match self.find(&snapshot.conversation_id) {
            None => {
                return None;
            },
            Some(i) => i,
        };
        let ghost v = self@;
        let mut c = self.take(i);
        let applied = c.apply_execution(snapshot);
        proof {
            lemma_replace(v.conversations, i as int, c, v.active);
        }
        self.put(i, c);
        if applied {
            self.publish()
        } else {
            proof {
                assert(v.conversations.update(i as int, v.conversations[i as int]) =~= v.conversations);
            }
            None
        }
    }

    /// A run of the conversation waiting for `assistant_id` could not start:
    /// it stops waiting, the attempt's message fails and the status line
    /// shows `message`. The snapshot to send.
    pub fn fail_to_start(&mut self, assistant_id: &MessageId, message: String) -> (r: Option<ChatSnapshot>)
        requires
            old(self).well_formed(),
        ensures
            final(self).well_formed(),
            publishes(r, final(self)@),
            match waiting_index(old(self)@.conversations, assistant_id@) {
                None => final(self)@ == bump(old(self)@),
                Some(i) => {
                    let v = old(self)@;
                    let c = v.conversations[i];
                    let d = final(self)@.conversations[i];
                    &&& final(self)@ == bump(ChatStateView { conversations: v.conversations.update(i, d), ..v })
                    &&& d == ConversationState {
                        starting: false,
                        active_invocation: None,
                        messages: d.messages,
                        status_text: message,
                        ..c
                    }
                    &&& messages_view(d.messages@) == with_message_status(
                        messages_view(c.messages@),
                        assistant_id@,
                        ChatMessageStatus::FailedPartial,
                    )
                },
            },
    {
        let ghost v = self@;
        proof {
            lemma_waiting_index(v.conversations, assistant_id@);
        }
        let mut i: usize = 0;
        while i < self.conversations.len()
            invariant
                v == self@,
                v == old(self)@,
                self.well_formed(),
                i <= self.conversations.len(),
                forall|j: int| 0 <= j < i ==> !waits_for(#[trigger] v.conversations[j], assistant_id@),
            decreases self.conversations.len() - i,
        {
            let waiting = match &self.conversations[i].active_assistant {
                Some(a) => str_eq(a.as_str(), assistant_id.as_str()),
                None => false,
            };
            if waiting {
                proof {
                    lemma_waiting_index(v.conversations, assistant_id@);
                    let k = waiting_index(v.conversations, assistant_id@);
                    assert(waits_for(v.conversations[i as int], assistant_id@));
                    if k is None {
                    } else if k->0 < i {
                    } else if k->0 > i {
                    }
                }
                let mut c = self.take(i);
                c.starting = false;
                c.active_invocation = None;
                set_message_status(&mut c.messages, assistant_id, ChatMessageStatus::FailedPartial);
                c.status_text = message;
                proof {
                    lemma_replace(v.conversations, i as int, c, v.active);
                }
                self.put(i, c);
                return self.publish();
            }
            i += 1;
        }
        self.publish()
    }

    /// Prepares an attempt of the conversation `conversation_id` (see
    /// `ConversationState::prepare`), making it the most recent; the request
    /// to run and the snapshot to send. Empty input is refused first, then
    /// an unknown conversation.
    pub fn prepare(
        &mut self,
        conversation_id: &ConversationId,
        input: &str,
        attachments: Vec<ChatAttachment>,
        regenerate: bool,
        context_budget: usize,
        user_id: MessageId,
        assistant_id: MessageId,
        attempt_id: AttemptId,
    ) -> (r: Result<(ChatInvocationRequest, Option<ChatSnapshot>), ChatError>)
        requires
            old(self).well_formed(),
            conv_index(old(self)@.conversations, conversation_id@) matches Some(i) ==> prepare_fits(
                old(self)@.conversations[i],
                input@,
                attachments_view(attachments@),
                regenerate,
                user_id@,
                assistant_id@,
                attempt_id@,
            ),
        ensures
            final(self).well_formed(),
            trim(input@).len() == 0 && attachments@.len() == 0 ==> (r matches Err(ChatError::EmptyInput) && final(self)@ == old(self)@),
            !(trim(input@).len() == 0 && attachments@.len() == 0) ==> match conv_index(old(self)@.conversations, conversation_id@) {
                None => r matches Err(ChatError::ConversationNotFound) && final(self)@ == old(self)@,
                Some(i) => {
                    let v = old(self)@;
                    let order = next_u64(v.next_order);
                    let d = final(self)@.conversations[i];
                    let outcome = match r {
                        Ok((req, _)) => Ok::<ChatInvocationRequest, ChatError>(req),
                        Err(e) => Err(e),
                    };
                    &&& prepared(
                        v.conversations[i],
                        d,
                        outcome,
                        input@,
                        attachments_view(attachments@),
                        regenerate,
                        context_budget,
                        order,
                        user_id@,
                        assistant_id@,
                        attempt_id@,
                    )
                    &&& match r {
                        Ok((_, sent)) => {
                            &&& final(self)@ == bump(ChatStateView {
                                conversations: v.conversations.update(i, d),
                                next_order: order,
                                ..v
                            })
                            &&& publishes(sent, final(self)@)
                        },
                        Err(_) => final(self)@ == old(self)@,
                    }
                },
            },
    {
        let text = trim_str(input);
        if text.as_str().is_empty() && attachments.len() == 0 {
            return Err(ChatError::EmptyInput);
        }
        let i = match self.find(conversation_id) {
            None => {
                return Err(ChatError::ConversationNotFound);
            },
            Some(i) => i,
        };
        let ghost v = self@;
        let order = if self.next_updated_order == u64::MAX {
            self.next_updated_order
        } else {
            self.next_updated_order + 1
        };
        let mut c = self.take(i);
        let ghost c0 = c;
        let result = c.prepare(input, attachments, regenerate, context_budget, order, user_id, assistant_id, attempt_id);
        proof {
            lemma_replace(v.conversations, i as int, c, v.active);
        }
        self.put(i, c);
        match result {
            Ok(request) => {
                self.next_updated_order = order;
                let sent = self.publish();
                Ok((request, sent))
            },
            Err(e) => {
                proof {
                    assert(v.conversations.update(i as int, c0) =~= v.conversations);
                }
                Err(e)
            },
        }
    }

    /// The conversations a search for `query` finds, in switcher order: its
    /// trimmed text in lower case occurs in the title or a message, among
    /// favorites when asked; an empty query finds all.
    pub fn search(&self, query: &str, favorites_only: bool) -> (r: Vec<ChatConversationSummary>)
        ensures
            in_switcher_order(summaries_view(r@)),
            summaries_view(r@).to_multiset() == self@.conversations.filter(
                |c: ConversationState| found_by(c, lowercase(trim(query@)), favorites_only),
            ).map_values(|c: ConversationState| summary_of(c)).to_multiset(),
    {
        let trimmed = trim_str(query);
        let lowered = to_lowercase(trimmed.as_str());
        let q = chars_of(lowered.as_str());
        let ghost cs = self@.conversations;
        let ghost p = |c: ConversationState| found_by(c, lowercase(trim(query@)), favorites_only);
        let ghost f = |c: ConversationState| summary_of(c);
        let mut out: Vec<ChatConversationSummary> = Vec::new();
        let mut i: usize = 0;
        assert(cs.take(0).filter(p) =~= Seq::<ConversationState>::empty()) by {
            reveal(Seq::filter);
        }
        while i < self.conversations.len()
            invariant
                i <= self.conversations.len(),
                cs == self@.conversations,
                q@ == lowercase(trim(query@)),
                p == (|c: ConversationState| found_by(c, lowercase(trim(query@)), favorites_only)),
                f == (|c: ConversationState| summary_of(c)),
                summaries_view(out@) =~= cs.take(i as int).filter(p).map_values(f),
            decreases self.conversations.len() - i,
        {
            proof {
                assert(cs.take(i + 1) =~= cs.take(i as int).push(cs[i as int]));
                cs.take(i as int).lemma_filter_push(cs[i as int], p);
            }
            if finds(&self.conversations[i], &q, favorites_only) {
                let s = self.conversations[i].summary();
                let ghost before = summaries_view(out@);
                out.push(s);
                proof {
                    assert(cs.take(i as int).filter(p).push(cs[i as int]).map_values(f) =~= cs.take(i as int).filter(p).map_values(f).push(f(cs[i as int])));
                    assert(summaries_view(out@) =~= before.push(s@));
                }
            }
            i += 1;
        }
        assert(cs.take(i as int) =~= cs);
        switcher_order(out)
    }

    /// Shows or hides `surface`; showing it sends the current snapshot.
    pub fn set_surface_visible(&mut self, surface: SurfaceKind, visible: bool) -> (r: Option<
        ChatSnapshot,
    >)
        requires
            old(self).well_formed(),
        ensures
            final(self).well_formed(),
            final(self)@.visible.to_set() == (if visible {
                old(self)@.visible.to_set().insert(surface)
            } else {
                old(self)@.visible.to_set().remove(surface)
            }),
            final(self)@ == (ChatStateView { visible: final(self)@.visible, ..old(self)@ }),
            visible ==> (r matches Some(s) && shows(s, final(self)@)),
            !visible ==> r is None,
    {
        let mut i: usize = 0;
        while i < self.visible_surfaces.len()
            invariant
                i <= self.visible_surfaces.len(),
                forall|j: int| 0 <= j < i ==> self.visible_surfaces@[j] != surface,
            decreases self.visible_surfaces.len() - i,
        {
            if self.visible_surfaces[i] == surface {
                break;
            }
            i += 1;
        }
        let ghost before = self@;
        if visible {
            if i == self.visible_surfaces.len() {
                self.visible_surfaces.push(surface);
                proof {
                    assert(self@.visible =~= before.visible.push(surface));
                    before.visible.lemma_push_to_set_commute(surface);
                    assert(self@.visible.to_set() =~= before.visible.to_set().insert(surface));
                    assert forall|a: int, b: int| 0 <= a < b < self@.visible.len() implies self@.visible[a] != self@.visible[b] by {
                        if b == before.visible.len() {
                            assert(self@.visible[a] == before.visible[a]);
                        }
                    }
                }
            } else {
                proof {
                    assert(before.visible[i as int] == surface);
                    assert(before.visible.to_set() =~= before.visible.to_set().insert(surface));
                }
            }
            Some(self.snapshot())
        } else {
            if i < self.visible_surfaces.len() {
                let _ = self.visible_surfaces.remove(i);
                proof {
                    assert forall|x: SurfaceKind| self@.visible.contains(x) == (before.visible.contains(x) && x != surface) by {
                        if x == surface {
                            if self@.visible.contains(x) {
                                let k = choose|k: int| 0 <= k < self@.visible.len() && self@.visible[k] == x;
                                if k < i {
                                    assert(before.visible[k] == x);
                                } else {
                                    assert(before.visible[k + 1] == x);
                                }
                            }
                        } else if before.visible.contains(x) {
                            let k = choose|k: int| 0 <= k < before.visible.len() && before.visible[k] == x;
                            if k < i {
                                assert(self@.visible[k] == x);
                            } else {
                                assert(self@.visible[k - 1] == x);
                            }
                        }
                    }
                    assert(self@.visible.to_set() =~= before.visible.to_set().remove(surface));
                }
            } else {
                proof {
                    assert(before.visible.to_set() =~= before.visible.to_set().remove(surface));
                }
            }
            None
        }
    }
}


/// A search finds every conversation whose title, in lower case, holds the
/// trimmed query in lower case, whatever its messages say (among
/// favorites only, when asked): its summary is among the results that
/// `search` gives for the conversations `cs`.
pub proof fn search_finds_matching_titles(
    cs: Seq<ConversationState>,
    query: Seq<char>,
    favorites_only: bool,
    i: int,
    at: int,
)
    requires
        0 <= i < cs.len(),
        !favorites_only || cs[i].favorite,
        0 <= at,
        at + lowercase(trim(query)).len() <= lowercase(cs[i].title@).len(),
        lowercase(cs[i].title@).subrange(at, at + lowercase(trim(query)).len()) == lowercase(trim(query)),
    ensures
        cs.filter(|c: ConversationState| found_by(c, lowercase(trim(query)), favorites_only)).map_values(
            |c: ConversationState| summary_of(c),
        ).to_multiset().count(summary_of(cs[i])) > 0,
{
    let q = lowercase(trim(query));
    let p = |c: ConversationState| found_by(c, lowercase(trim(query)), favorites_only);
    assert(contains_text(lowercase(cs[i].title@), q)) by {
        assert(lowercase(cs[i].title@).subrange(at, at + q.len()) == q);
    }
    assert(p(cs[i]));
    cs.lemma_filter_contains(p, i);
    let fl = cs.filter(p);
    let k = choose|k: int| 0 <= k < fl.len() && fl[k] == cs[i];
    let m = fl.map_values(|c: ConversationState| summary_of(c));
    assert(m[k] == summary_of(cs[i]));
    assert(m.contains(summary_of(cs[i])));
    vstd::seq_lib::to_multiset_contains(m, summary_of(cs[i]));
}

} // verus!
