//! Reading a provider's chat completion reply: what a streamed event adds,
//! when a stream counts as complete, the content of a whole reply, the size
//! limits, and how a refused request is reported. Sending the request and
//! reading the bytes are the caller's work.
use vstd::prelude::*;

use crate::json_tree::{
    field, get_field, json_bytes_document, json_document, parse_json, parse_json_slice, JsonValue,
    JsonView,
};
use crate::provider::{ProviderError, ProviderErrorView};
use crate::text::{concat, copy_string, str_eq, trim, trim_str};

verus! {

/// The most bytes a reply may have, streamed or whole.
pub const MAX_RESPONSE_BYTES: usize = 2097152;

impl ProviderError {
    /// The error's message, as its `Display` writes it.
    pub fn to_string(&self) -> (r: String)
        ensures
            match self {
                ProviderError::InvalidId(m) => r@ == "'"@ + m@ + "' is not a valid provider ID"@,
                ProviderError::InvalidConfiguration(m) => r@ == "provider configuration is invalid: "@ + m@,
                ProviderError::NotConfigured => r@ == "no default provider is configured"@,
                ProviderError::Credential(m) => r@ == "provider credentials are unavailable: "@ + m@,
                ProviderError::Http(m) => r@ == "provider request was rejected: "@ + m@,
                ProviderError::Protocol(m) => r@ == "provider response was invalid: "@ + m@,
                ProviderError::Timeout(m) => r@ == "provider request timed out while waiting for "@ + m@,
                ProviderError::Cancelled => r@ == "provider request was cancelled"@,
                ProviderError::Save(m) => r@ == "provider settings could not be saved: "@ + m@,
            },
    {
        match self {
            ProviderError::InvalidId(m) => {
                let head = concat("'", m.as_str());
                concat(head.as_str(), "' is not a valid provider ID")
            },
            ProviderError::InvalidConfiguration(m) => concat("provider configuration is invalid: ", m.as_str()),
            ProviderError::NotConfigured => "no default provider is configured".to_owned(),
            ProviderError::Credential(m) => concat("provider credentials are unavailable: ", m.as_str()),
            ProviderError::Http(m) => concat("provider request was rejected: ", m.as_str()),
            ProviderError::Protocol(m) => concat("provider response was invalid: ", m.as_str()),
            ProviderError::Timeout(m) => concat("provider request timed out while waiting for ", m.as_str()),
            ProviderError::Cancelled => "provider request was cancelled".to_owned(),
            ProviderError::Save(m) => concat("provider settings could not be saved: ", m.as_str()),
        }
    }
}

/// What a refused request's status means.
pub open spec fn status_category(code: u16) -> Seq<char> {
    if code == 401 || code == 403 {
        "authentication failed"@
    } else if code == 404 {
        "endpoint or model was not found"@
    } else if code == 429 {
        "rate limit exceeded"@
    } else if 500 <= code <= 599 {
        "provider server error"@
    } else {
        "HTTP request failed"@
    }
}

/// The error for a reply with the unsuccessful status `code`, shown as
/// `status` (its code and reason).
pub fn http_status_error(code: u16, status: &str) -> (r: ProviderError)
    ensures
        r@ == ProviderErrorView::Http(status_category(code) + " ("@ + status@ + ")"@),
{
    let category = if code == 401 || code == 403 {
        "authentication failed"
    } else if code == 404 {
        "endpoint or model was not found"
    } else if code == 429 {
        "rate limit exceeded"
    } else if 500 <= code && code <= 599 {
        "provider server error"
    } else {
        "HTTP request failed"
    };
    let a = concat(category, " (");
    let b = concat(a.as_str(), status);
    ProviderError::Http(concat(b.as_str(), ")"))
}

/// Refuses a whole reply over the size limit.
pub fn response_size_ok(len: usize) -> (r: Result<(), ProviderError>)
    ensures
        r is Ok <==> len <= MAX_RESPONSE_BYTES,
        r matches Err(e) ==> e@ == ProviderErrorView::Protocol("response exceeded 2 MiB"@),
{
    if len > MAX_RESPONSE_BYTES {
        Err(ProviderError::Protocol("response exceeded 2 MiB".to_owned()))
    } else {
        Ok(())
    }
}

/// Whether a choice of a streamed event finishes the reply: it has a
/// `finish_reason` that is not null.
pub open spec fn choice_finishes(c: JsonView) -> bool {
    match field(c, "finish_reason"@) {
        Some(v) => !(v is Null),
        None => false,
    }
}

/// The text a choice of a streamed event adds: its `delta.content`, when
/// that is a string.
pub open spec fn choice_delta(c: JsonView) -> Option<Seq<char>> {
    match field(c, "delta"@) {
        Some(d) => match field(d, "content"@) {
            Some(JsonView::Str(s)) => Some(s),
            _ => None,
        },
        None => None,
    }
}

/// The texts the choices add, in order.
pub open spec fn deltas_of(cs: Seq<JsonView>) -> Seq<Seq<char>>
    decreases cs.len(),
{
    if cs.len() == 0 {
        Seq::empty()
    } else {
        match choice_delta(cs.last()) {
            Some(t) => deltas_of(cs.drop_last()).push(t),
            None => deltas_of(cs.drop_last()),
        }
    }
}

/// Whether one of the choices finishes the reply.
pub open spec fn any_finishes(cs: Seq<JsonView>) -> bool {
    exists|i: int| 0 <= i < cs.len() && choice_finishes(#[trigger] cs[i])
}

/// The choices of a streamed event, when it has an array of them.
pub open spec fn choices_of(v: JsonView) -> Seq<JsonView> {
    match field(v, "choices"@) {
        Some(JsonView::Array(cs)) => cs,
        _ => Seq::empty(),
    }
}

/// What a parsed streamed event adds: the texts of its choices, and whether
/// one of them finishes the reply.
pub struct EventEffect {
    pub deltas: Vec<String>,
    pub completes: bool,
}

/// The texts of a list of strings.
pub open spec fn texts(v: Seq<String>) -> Seq<Seq<char>> {
    v.map_values(|s: String| s@)
}

/// What the parsed streamed event `value` adds.
pub fn event_effect(value: &JsonValue) -> (r: EventEffect)
    ensures
        texts(r.deltas@) == deltas_of(choices_of(value@)),
        r.completes == any_finishes(choices_of(value@)),
{
    let mut deltas: Vec<String> = Vec::new();
    let mut completes = false;
    let items = match get_field(value, "choices") {
        Some(JsonValue::Array(items)) => items,
        _ => {
            assert(choices_of(value@) =~= Seq::<JsonView>::empty());
            assert(texts(deltas@) =~= Seq::<Seq<char>>::empty());
            return EventEffect { deltas, completes };
        },
    };
    proof {
        crate::json_tree::lemma_json_items(items@);
    }
    let ghost cs = choices_of(value@);
    assert(cs =~= crate::json_tree::json_items(items@));
    let mut i: usize = 0;
    assert(texts(deltas@) =~= deltas_of(cs.take(0)));
    while i < items.len()
        invariant
            i <= items.len(),
            cs.len() == items@.len(),
            forall|j: int| 0 <= j < items@.len() ==> #[trigger] cs[j] == items@[j]@,
            texts(deltas@) == deltas_of(cs.take(i as int)),
            completes == exists|j: int| 0 <= j < i && choice_finishes(#[trigger] cs[j]),
        decreases items.len() - i,
    {
        let choice = &items[i];
        proof {
            assert(cs.take(i + 1).drop_last() =~= cs.take(i as int));
            assert(cs.take(i + 1).last() == choice@);
        }
        let finishes = match get_field(choice, "finish_reason") {
            Some(JsonValue::Null) => false,
            Some(_) => true,
            None => false,
        };
        if finishes {
            completes = true;
        }
        let ghost before = deltas@;
        match get_field(choice, "delta") {
            Some(d) => match get_field(d, "content") {
                Some(JsonValue::Str(s)) => {
                    deltas.push(copy_string(s));
                    assert(texts(deltas@) =~= texts(before).push(s@));
                },
                _ => {},
            },
            None => {},
        }
        i += 1;
    }
    assert(cs.take(i as int) =~= cs);
    EventEffect { deltas, completes }
}

/// What the streamed event with data `data` adds: nothing but completion
/// for `[DONE]`; otherwise what its JSON, as `serde_json` parses it, adds;
/// a parse error is a protocol error.
pub fn stream_event(data: &str) -> (r: Result<EventEffect, ProviderError>)
    ensures
        trim(data@) == "[DONE]"@ ==> (r matches Ok(x) && x.deltas@.len() == 0 && x.completes),
        trim(data@) != "[DONE]"@ ==> match json_document(data@) {
            Err(e) => r matches Err(x) && x@ == ProviderErrorView::Protocol(e),
            Ok(v) => r matches Ok(x) && texts(x.deltas@) == deltas_of(choices_of(v)) && x.completes
                == any_finishes(choices_of(v)),
        },
{
    let t = trim_str(data);
    if str_eq(t.as_str(), "[DONE]") {
        return Ok(EventEffect { deltas: Vec::new(), completes: true });
    }
    match parse_json(data) {
        Err(e) => Err(ProviderError::Protocol(e)),
        Ok(v) => Ok(event_effect(&v)),
    }
}

/// The content of a whole reply: `choices[0].message.content` when it is a
/// string, else the `text` of its parts joined, when that is not empty.
pub open spec fn reply_content(v: JsonView) -> Option<Seq<char>> {
    let first = match field(v, "choices"@) {
        Some(JsonView::Array(cs)) => if cs.len() > 0 {
            Some(cs[0])
        } else {
            None
        },
        _ => None,
    };
    let content = match first {
        Some(c) => match field(c, "message"@) {
            Some(m) => field(m, "content"@),
            None => None,
        },
        None => None,
    };
    match content {
        Some(JsonView::Str(s)) => Some(s),
        Some(JsonView::Array(parts)) => {
            let text = parts_text(parts);
            if text.len() > 0 {
                Some(text)
            } else {
                None
            }
        },
        _ => None,
    }
}

/// The `text` strings of content parts, joined.
pub open spec fn parts_text(parts: Seq<JsonView>) -> Seq<char>
    decreases parts.len(),
{
    if parts.len() == 0 {
        Seq::empty()
    } else {
        parts_text(parts.drop_last()) + match field(parts.last(), "text"@) {
            Some(JsonView::Str(s)) => s,
            _ => Seq::empty(),
        }
    }
}

/// The content of the whole reply `value`; a protocol error without one.
pub fn response_content(value: &JsonValue) -> (r: Result<String, ProviderError>)
    ensures
        match reply_content(value@) {
            Some(t) => r matches Ok(x) && x@ == t,
            None => r matches Err(e) && e@ == ProviderErrorView::Protocol(
                "response did not contain choices[0].message.content"@,
            ),
        },
{
    let missing = "response did not contain choices[0].message.content";
    let first = match get_field(value, "choices") {
        Some(JsonValue::Array(items)) => {
            proof {
                crate::json_tree::lemma_json_items(items@);
            }
            if items.len() > 0 {
                &items[0]
            } else {
                return Err(ProviderError::Protocol(missing.to_owned()));
            }
        },
        _ => {
            return Err(ProviderError::Protocol(missing.to_owned()));
        },
    };
    let content = match get_field(first, "message") {
        Some(m) => get_field(m, "content"),
        None => None,
    };
    match content {
        Some(JsonValue::Str(s)) => Ok(copy_string(s)),
        Some(JsonValue::Array(parts)) => {
            proof {
                crate::json_tree::lemma_json_items(parts@);
            }
            let ghost ps = crate::json_tree::json_items(parts@);
            let mut text = String::new();
            let mut i: usize = 0;
            assert(ps.take(0) =~= Seq::<JsonView>::empty());
            while i < parts.len()
                invariant
                    i <= parts.len(),
                    ps.len() == parts@.len(),
                    forall|j: int| 0 <= j < parts@.len() ==> #[trigger] ps[j] == parts@[j]@,
                    text@ == parts_text(ps.take(i as int)),
                decreases parts.len() - i,
            {
                proof {
                    assert(ps.take(i + 1).drop_last() =~= ps.take(i as int));
                    assert(ps.take(i + 1).last() == parts@[i as int]@);
                }
                match get_field(&parts[i], "text") {
                    Some(JsonValue::Str(s)) => {
                        text = concat(text.as_str(), s.as_str());
                    },
                    _ => {
                        assert(text@ =~= text@ + Seq::<char>::empty());
                    },
                }
                i += 1;
            }
            assert(ps.take(i as int) =~= ps);
            if text.as_str().is_empty() {
                Err(ProviderError::Protocol(missing.to_owned()))
            } else {
                Ok(text)
            }
        },
        _ => Err(ProviderError::Protocol(missing.to_owned())),
    }
}

/// The content of a whole reply `body`, parsed by `serde_json`; a parse
/// error, a body over the size limit and a reply without content are
/// protocol errors.
pub fn reply_text(body: &[u8]) -> (r: Result<String, ProviderError>)
    ensures
        body@.len() > MAX_RESPONSE_BYTES ==> (r matches Err(e) && e@ == ProviderErrorView::Protocol(
            "response exceeded 2 MiB"@,
        )),
        body@.len() <= MAX_RESPONSE_BYTES ==> match json_bytes_document(body@) {
            Err(m) => r matches Err(e) && e@ == ProviderErrorView::Protocol(m),
            Ok(v) => match reply_content(v) {
                Some(t) => r matches Ok(x) && x@ == t,
                None => r matches Err(e) && e@ == ProviderErrorView::Protocol(
                    "response did not contain choices[0].message.content"@,
                ),
            },
        },
{
    response_size_ok(body.len())?;
    match parse_json_slice(body) {
        Err(m) => Err(ProviderError::Protocol(m)),
        Ok(v) => response_content(&v),
    }
}

/// The model of a stream being read: the text so far, whether it was seen
/// to finish, and the bytes received.
pub struct StreamView {
    pub output: Seq<char>,
    pub completed: bool,
    pub received: usize,
}

/// A streamed reply being read.
pub struct StreamProgress {
    output: String,
    completed: bool,
    received: usize,
}

impl View for StreamProgress {
    type V = StreamView;

    closed spec fn view(&self) -> StreamView {
        StreamView { output: self.output@, completed: self.completed, received: self.received }
    }
}

/// The texts of `ds` joined.
pub open spec fn joined(ds: Seq<Seq<char>>) -> Seq<char>
    decreases ds.len(),
{
    if ds.len() == 0 {
        Seq::empty()
    } else {
        joined(ds.drop_last()) + ds.last()
    }
}

impl StreamProgress {
    /// Nothing read yet.
    pub fn new() -> (r: Self)
        ensures
            r@ == (StreamView { output: Seq::empty(), completed: false, received: 0 }),
    {
        StreamProgress { output: String::new(), completed: false, received: 0 }
    }

    /// Counts a chunk of `len` bytes; refused once the stream exceeds the
    /// size limit.
    pub fn take_chunk(&mut self, len: usize) -> (r: Result<(), ProviderError>)
        ensures
            ({
                let total: usize = if old(self)@.received + len > usize::MAX {
                    usize::MAX
                } else {
                    (old(self)@.received + len) as usize
                };
                &&& final(self)@ == (StreamView { received: total, ..old(self)@ })
                &&& (r is Ok <==> total <= MAX_RESPONSE_BYTES)
                &&& r matches Err(e) ==> e@ == ProviderErrorView::Protocol("stream exceeded 2 MiB"@)
            }),
    {
        self.received = if self.received > usize::MAX - len {
            usize::MAX
        } else {
            self.received + len
        };
        if self.received > MAX_RESPONSE_BYTES {
            Err(ProviderError::Protocol("stream exceeded 2 MiB".to_owned()))
        } else {
            Ok(())
        }
    }

    /// Adds what an event adds.
    pub fn apply(&mut self, effect: &EventEffect)
        ensures
            final(self)@ == (StreamView {
                output: old(self)@.output + joined(texts(effect.deltas@)),
                completed: old(self)@.completed || effect.completes,
                ..old(self)@
            }),
    {
        let ghost ds = texts(effect.deltas@);
        let ghost start = self.output@;
        let mut i: usize = 0;
        assert(ds.take(0) =~= Seq::<Seq<char>>::empty());
        assert(start + joined(ds.take(0)) =~= start);
        while i < effect.deltas.len()
            invariant
                i <= effect.deltas.len(),
                ds == texts(effect.deltas@),
                self.output@ == start + joined(ds.take(i as int)),
                self.completed == old(self).completed,
                self.received == old(self).received,
            decreases effect.deltas.len() - i,
        {
            proof {
                assert(ds.take(i + 1).drop_last() =~= ds.take(i as int));
                assert(ds.take(i + 1).last() == effect.deltas@[i as int]@);
            }
            self.output = concat(self.output.as_str(), effect.deltas[i].as_str());
            proof {
                assert(self.output@ =~= start + joined(ds.take(i + 1)));
            }
            i += 1;
        }
        assert(ds.take(i as int) =~= ds);
        self.completed = self.completed || effect.completes;
    }

    /// The text so far.
    pub fn output(&self) -> (r: &str)
        ensures
            r@ == self@.output,
    {
        self.output.as_str()
    }

    /// The error when no event comes in time: waiting for the first one
    /// while nothing was read, else for the next.
    pub fn timeout_error(&self) -> (r: ProviderError)
        ensures
            r@ == ProviderErrorView::Timeout(if self@.output.len() == 0 {
                "the first event"@
            } else {
                "the next stream event"@
            }),
    {
        if self.output.as_str().is_empty() {
            ProviderError::Timeout("the first event".to_owned())
        } else {
            ProviderError::Timeout("the next stream event".to_owned())
        }
    }

    /// The reply once the stream ended: its text, when it was seen to finish.
    pub fn finish(self) -> (r: Result<String, ProviderError>)
        ensures
            self@.completed ==> (r matches Ok(t) && t@ == self@.output),
            !self@.completed ==> (r matches Err(e) && e@ == ProviderErrorView::Protocol(
                "stream ended before [DONE] or a finish reason; partial text was preserved"@,
            )),
    {
        if self.completed {
            Ok(self.output)
        } else {
            Err(
                ProviderError::Protocol(
                    "stream ended before [DONE] or a finish reason; partial text was preserved".to_owned(),
                ),
            )
        }
    }
}

} // verus!
