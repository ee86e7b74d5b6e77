//! The decisions of the chat window: when the composer sends, and how the
//! transcript follows a newer snapshot. Drawing is the window's work.
use vstd::prelude::*;

use crate::chat::{attachments_view, AttachmentContentView, AttachmentView, ChatAttachment, ChatSnapshot};
use crate::text::{digits, digits_text, push_char, str_eq, trim, trim_str};

verus! {

/// Whether the composer sends: sending is allowed, and there is text, an
/// attachment or a captured context to send.
pub open spec fn composer_sends(can_send: bool, input: Seq<char>, attachments: nat, has_context: bool) -> bool {
    can_send && !(trim(input).len() == 0 && attachments == 0 && !has_context)
}

/// The attachment made of text selected at `captured_at_ms`.
pub open spec fn selection_attachment(captured_at_ms: u64, text: Seq<char>) -> AttachmentView {
    AttachmentView {
        id: "selection-"@ + digits(captured_at_ms as nat),
        name: "Selected text"@,
        content: AttachmentContentView::Text(text),
    }
}

/// What the composer sends of `input`, `attachments` and a captured
/// context (when it was captured, and its text if it has any): the input
/// and the attachments, the context's text last; nothing when it does not
/// send.
pub fn composer_draft(
    can_send: bool,
    input: String,
    attachments: Vec<ChatAttachment>,
    context: Option<(u64, Option<String>)>,
) -> (r: Option<(String, Vec<ChatAttachment>)>)
    ensures
        !composer_sends(can_send, input@, attachments@.len(), context is Some) ==> r is None,
        composer_sends(can_send, input@, attachments@.len(), context is Some) ==> (r matches Some((i, a))
            && i@ == input@ && attachments_view(a@) == attachments_view(attachments@) + match context {
            Some((at, Some(t))) => seq![selection_attachment(at, t@)],
            _ => Seq::empty(),
        }),
{
    let trimmed = trim_str(input.as_str());
    if !can_send || (trimmed.as_str().unicode_len() == 0 && attachments.len() == 0 && context.is_none()) {
        return None;
    }
    let mut out = attachments;
    let ghost before = out@;
    match context {
        Some((at, Some(text))) => {
            let mut id = "selection-".to_string();
            let ds = digits_text(at);
            let mut k: usize = 0;
            assert(ds@.take(0) =~= Seq::<char>::empty());
            assert(id@ == "selection-"@ + ds@.take(0));
            while k < ds.len()
                invariant
                    k <= ds@.len(),
                    ds@ == digits(at as nat),
                    id@ == "selection-"@ + ds@.take(k as int),
                decreases ds.len() - k,
            {
                push_char(&mut id, ds[k]);
                proof {
                    assert(ds@.take(k + 1) =~= ds@.take(k as int).push(ds@[k as int]));
                }
                k += 1;
            }
            assert(ds@.take(k as int) =~= ds@);
            let a = ChatAttachment::text(id, "Selected text".to_string(), text);
            out.push(a);
            assert(attachments_view(out@) =~= attachments_view(before).push(a@));
        },
        _ => {
            assert(attachments_view(out@) =~= attachments_view(before) + Seq::<AttachmentView>::empty());
        },
    }
    Some((input, out))
}

/// How the transcript list follows a newer snapshot.
#[derive(Clone, Copy, Debug, PartialEq, Eq, Structural)]
pub enum TranscriptUpdate {
    /// Nothing to redo.
    Unchanged,
    /// Rebuild the list with this many messages.
    Reset(usize),
    /// This many messages were added at the end.
    Append(usize),
    /// The message at this position changed.
    Remeasure(usize),
}

/// What following `next` after `shown` does: `None` when `next` is not
/// newer; else the transcript update, and whether the title field is
/// refreshed (another conversation, or another title).
pub fn follow_snapshot(shown: &ChatSnapshot, next: &ChatSnapshot) -> (r: Option<(TranscriptUpdate, bool)>)
    ensures
        next.generation <= shown.generation ==> r is None,
        next.generation > shown.generation ==> ({
            let other = shown.conversation_id@ != next.conversation_id@;
            let old_count = shown.messages@.len();
            let new_count = next.messages@.len();
            r matches Some((u, title)) && title == (other || shown.title@ != next.title@) && u == if other
                || new_count < old_count {
                TranscriptUpdate::Reset(new_count as usize)
            } else if new_count > old_count {
                TranscriptUpdate::Append((new_count - old_count) as usize)
            } else if new_count > 0 {
                TranscriptUpdate::Remeasure((new_count - 1) as usize)
            } else {
                TranscriptUpdate::Unchanged
            }
        }),
{
    if next.generation <= shown.generation {
        return None;
    }
    let other = !str_eq(shown.conversation_id.as_str(), next.conversation_id.as_str());
    let title = other || !str_eq(shown.title.as_str(), next.title.as_str());
    let old_count = shown.messages.len();
    let new_count = next.messages.len();
    let update = if other || new_count < old_count {
        TranscriptUpdate::Reset(new_count)
    } else if new_count > old_count {
        TranscriptUpdate::Append(new_count - old_count)
    } else if new_count > 0 {
        TranscriptUpdate::Remeasure(new_count - 1)
    } else {
        TranscriptUpdate::Unchanged
    };
    Some((update, title))
}

} // verus!
