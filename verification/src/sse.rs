//! Decoding of server-sent events from a streamed chat completion.
use vstd::prelude::*;
use vstd::utf8::{decode_utf8, valid_utf8};

use crate::plugin::{lemma_split_on_nonempty, split_on};
use crate::provider::{ProviderError, ProviderErrorView};
use crate::text::{char_is_whitespace, chars_of, push_char, trim_start};

verus! {

/// The text of `std::str::from_utf8`'s error for bytes that are not UTF-8.
pub uninterp spec fn utf8_error_text(bytes: Seq<u8>) -> Seq<char>;

/// Decodes `bytes` with `std::str::from_utf8`: the text when the bytes are
/// valid UTF-8, otherwise the error's message (named by `utf8_error_text`).
#[verifier::external_body]
pub(crate) fn decode_utf8_bytes(bytes: &[u8]) -> (r: Result<String, String>)
    ensures
        match r {
            Ok(s) => valid_utf8(bytes@) && s@ == decode_utf8(bytes@),
            Err(e) => !valid_utf8(bytes@) && e@ == utf8_error_text(bytes@),
        },
{
    std::str::from_utf8(bytes).map(|s| s.to_owned()).map_err(|error| error.to_string())
}

/// `pat` occurs in `b` at `i`.
pub open spec fn occurs_at(b: Seq<u8>, i: int, pat: Seq<u8>) -> bool {
    0 <= i && i + pat.len() <= b.len() && b.subrange(i, i + pat.len()) == pat
}

/// The first position at which `pat` occurs in `b`.
pub open spec fn first_occurrence(b: Seq<u8>, pat: Seq<u8>) -> Option<int> {
    if exists|i: int| occurs_at(b, i, pat) {
        Some(choose|i: int| occurs_at(b, i, pat) && forall|j: int| 0 <= j < i ==> !occurs_at(b, j, pat))
    } else {
        None
    }
}

/// The blank-line delimiter `\r\n\r\n`.
pub open spec fn crlf2() -> Seq<u8> {
    seq![13u8, 10u8, 13u8, 10u8]
}

/// The blank-line delimiter `\n\n`.
pub open spec fn lf2() -> Seq<u8> {
    seq![10u8, 10u8]
}

/// The end of the first event in `b` and the length of its delimiter: the
/// first `\r\n\r\n` if there is one, otherwise the first `\n\n`.
#[verifier::opaque]
pub open spec fn event_boundary(b: Seq<u8>) -> Option<(int, int)> {
    match first_occurrence(b, crlf2()) {
        Some(i) => Some((i, 4)),
        None => match first_occurrence(b, lf2()) {
            Some(i) => Some((i, 2)),
            None => None,
        },
    }
}

/// The first position at which `pat` occurs in `b`.
fn find_pattern(b: &Vec<u8>, pat: &Vec<u8>) -> (r: Option<usize>)
    requires
        pat.len() > 0,
    ensures
        match r {
            Some(i) => first_occurrence(b@, pat@) == Some(i as int) && occurs_at(b@, i as int, pat@),
            None => first_occurrence(b@, pat@) is None,
        },
{
    if pat.len() > b.len() {
        assert forall|i: int| !occurs_at(b@, i, pat@) by {}
        return None;
    }
    let last = b.len() - pat.len();
    let mut i: usize = 0;
    while i <= last
        invariant
            last == b.len() - pat.len(),
            pat.len() <= b.len(),
            i <= last + 1,
            forall|j: int| 0 <= j < i ==> !occurs_at(b@, j, pat@),
        decreases last + 1 - i,
    {
        let mut k: usize = 0;
        let mut same = true;
        while k < pat.len()
            invariant
                i <= last,
                last == b.len() - pat.len(),
                k <= pat.len(),
                same == forall|m: int| 0 <= m < k ==> b@[i + m] == pat@[m],
            decreases pat.len() - k,
        {
            if b[i + k] != pat[k] {
                same = false;
            }
            k += 1;
        }
        if same {
            assert(b@.subrange(i as int, i + pat.len()) =~= pat@);
            proof {
                let c = choose|c: int| occurs_at(b@, c, pat@) && forall|j: int| 0 <= j < c ==> !occurs_at(b@, j, pat@);
                assert(occurs_at(b@, i as int, pat@));
                if c < i {
                } else if c > i {
                }
            }
            return Some(i);
        } else {
            proof {
                let m = choose|m: int| 0 <= m < pat.len() && b@[i + m] != pat@[m];
                if occurs_at(b@, i as int, pat@) {
                    assert(b@.subrange(i as int, i + pat.len())[m] == b@[i + m]);
                }
            }
        }
        i += 1;
    }
    assert forall|j: int| !occurs_at(b@, j, pat@) by {
        if occurs_at(b@, j, pat@) {
            assert(j < i);
        }
    }
    None
}

/// The end of the first event in `buffer` and the length of its delimiter:
/// the first `\r\n\r\n` if there is one, otherwise the first `\n\n`.
pub fn find_event_boundary(buffer: &Vec<u8>) -> (r: Option<(usize, usize)>)
    ensures
        match r {
            Some((e, d)) => event_boundary(buffer@) == Some((e as int, d as int)) && (d == 4 || d
                == 2) && e + d <= buffer@.len(),
            None => event_boundary(buffer@) is None,
        },
{
    reveal(event_boundary);
    let crlf: Vec<u8> = vec![13u8, 10u8, 13u8, 10u8];
    assert(crlf@ =~= crlf2());
    match find_pattern(buffer, &crlf) {
        Some(i) => Some((i, 4)),
        None => {
            let lf: Vec<u8> = vec![10u8, 10u8];
            assert(lf@ =~= lf2());
            match find_pattern(buffer, &lf) {
                Some(i) => Some((i, 2)),
                None => None,
            }
        },
    }
}

/// `line` without its trailing carriage returns.
pub open spec fn strip_cr(line: Seq<char>) -> Seq<char>
    decreases line.len(),
{
    if line.len() > 0 && line.last() == '\r' {
        strip_cr(line.drop_last())
    } else {
        line
    }
}

/// The lines of `s` as `str::lines` yields them, trailing `\r` removed: the
/// pieces between newlines, without a final empty piece.
pub open spec fn event_lines(s: Seq<char>) -> Seq<Seq<char>> {
    let pieces = split_on(s, '\n');
    if pieces.last().len() == 0 {
        pieces.drop_last()
    } else {
        pieces
    }
}

/// The payload of a `data:` line; comments (lines starting with `:`) and
/// other fields have none.
pub open spec fn data_of(line: Seq<char>) -> Option<Seq<char>> {
    if line.len() > 0 && line[0] == ':' {
        None
    } else if line.len() >= 5 && line.take(5) == "data:"@ {
        Some(trim_start(line.skip(5)))
    } else {
        None
    }
}

/// The payloads of the data lines among `lines`, in order.
pub open spec fn data_pieces(lines: Seq<Seq<char>>) -> Seq<Seq<char>>
    decreases lines.len(),
{
    if lines.len() == 0 {
        Seq::empty()
    } else {
        let rest = data_pieces(lines.drop_last());
        match data_of(strip_cr(lines.last())) {
            Some(d) => rest.push(d),
            None => rest,
        }
    }
}

/// `pieces` joined with newlines.
pub open spec fn join_lines(pieces: Seq<Seq<char>>) -> Seq<char>
    decreases pieces.len(),
{
    if pieces.len() == 0 {
        Seq::empty()
    } else if pieces.len() == 1 {
        pieces[0]
    } else {
        join_lines(pieces.drop_last()) + seq!['\n'] + pieces.last()
    }
}

/// The data of one event: its data lines' payloads joined with newlines.
pub open spec fn event_data(event: Seq<char>) -> Seq<char> {
    join_lines(data_pieces(event_lines(event)))
}

/// What draining the complete events of a buffer gives.
pub struct Drained {
    /// The non-empty data of the events, in order.
    pub events: Seq<Seq<char>>,
    /// The bytes left after the last drained event.
    pub rest: Seq<u8>,
    /// The decoding error that stopped the draining, if any.
    pub error: Option<Seq<char>>,
}

/// Drains every complete event from `b`; an event that is not UTF-8 stops
/// the draining with an error, its bytes already removed.
#[verifier::opaque]
pub open spec fn drain_events(b: Seq<u8>) -> Drained
    decreases b.len(),
{
    match event_boundary(b) {
        None => Drained { events: Seq::empty(), rest: b, error: None },
        Some((end, dl)) => {
            if 0 <= end && 0 < dl && end + dl <= b.len() {
                let ev = b.take(end);
                let after = b.skip(end + dl);
                if !valid_utf8(ev) {
                    Drained { events: Seq::empty(), rest: after, error: Some(utf8_error_text(ev)) }
                } else {
                    let data = event_data(decode_utf8(ev));
                    let next = drain_events(after);
                    Drained {
                        events: if data.len() > 0 {
                            seq![data] + next.events
                        } else {
                            next.events
                        },
                        ..next
                    }
                }
            } else {
                Drained { events: Seq::empty(), rest: b, error: None }
            }
        },
    }
}

/// One step of draining: no boundary leaves the buffer as it is; a boundary
/// removes one event, which either stops the draining with its decoding
/// error or contributes its data before the rest.
proof fn lemma_drain_step(b: Seq<u8>)
    ensures
        event_boundary(b) is None ==> drain_events(b) == (Drained {
            events: Seq::empty(),
            rest: b,
            error: None,
        }),
        event_boundary(b) matches Some((end, dl)) ==> (0 <= end && 0 < dl && end + dl <= b.len()
            ==> {
            let ev = b.take(end);
            let after = b.skip(end + dl);
            if !valid_utf8(ev) {
                drain_events(b) == (Drained {
                    events: Seq::empty(),
                    rest: after,
                    error: Some(utf8_error_text(ev)),
                })
            } else {
                let data = event_data(decode_utf8(ev));
                &&& drain_events(b).rest == drain_events(after).rest
                &&& drain_events(b).error == drain_events(after).error
                &&& drain_events(b).events == if data.len() > 0 {
                    seq![data] + drain_events(after).events
                } else {
                    drain_events(after).events
                }
            }
        }),
{
    reveal(drain_events);
}

/// The payload of a data line `v[start..end]`, with trailing `\r` removed.
fn line_data(v: &Vec<char>, start: usize, end: usize) -> (r: Option<String>)
    requires
        start <= end <= v.len(),
    ensures
        match data_of(strip_cr(v@.subrange(start as int, end as int))) {
            Some(d) => r matches Some(s) && s@ == d,
            None => r is None,
        },
{
    let mut e = end;
    while e > start && v[e - 1] == '\r'
        invariant
            start <= e <= end <= v.len(),
            strip_cr(v@.subrange(start as int, end as int)) == strip_cr(v@.subrange(start as int, e as int)),
        decreases e,
    {
        assert(v@.subrange(start as int, e as int).drop_last() =~= v@.subrange(start as int, e - 1));
        e -= 1;
    }
    let ghost line = v@.subrange(start as int, e as int);
    assert(strip_cr(line) == line);
    if e > start && v[start] == ':' {
        return None;
    }
    proof {
        reveal_strlit("data:");
    }
    if e - start >= 5 && v[start] == 'd' && v[start + 1] == 'a' && v[start + 2] == 't' && v[start + 3]
        == 'a' && v[start + 4] == ':' {
        assert(line.take(5) =~= "data:"@);
        let mut p = start + 5;
        assert(line.skip(5) =~= v@.subrange(p as int, e as int));
        while p < e && char_is_whitespace(v[p])
            invariant
                start + 5 <= p <= e <= v.len(),
                trim_start(line.skip(5)) == trim_start(v@.subrange(p as int, e as int)),
            decreases e - p,
        {
            assert(v@.subrange(p as int, e as int).drop_first() =~= v@.subrange(p + 1, e as int));
            p += 1;
        }
        let s = crate::text::string_from_range(v, p, e);
        Some(s)
    } else {
        proof {
            if line.len() >= 5 && line.take(5) == "data:"@ {
                assert(line.take(5)[0] == line[0]);
                assert(line.take(5)[1] == line[1]);
                assert(line.take(5)[2] == line[2]);
                assert(line.take(5)[3] == line[3]);
                assert(line.take(5)[4] == line[4]);
            }
        }
        None
    }
}

/// The data of one event text: its data lines' payloads joined with
/// newlines.
pub fn extract_event_data(event: &str) -> (r: String)
    ensures
        r@ == event_data(event@),
{
    let v = chars_of(event);
    let n = v.len();
    let mut pieces: Vec<String> = Vec::new();
    let mut start: usize = 0;
    let mut i: usize = 0;
    assert(v@.take(0) =~= Seq::<char>::empty());
    while i < n
        invariant
            n == v.len(),
            start <= i <= n,
            split_on(v@.take(i as int), '\n').last() == v@.subrange(start as int, i as int),
            crate::provider::strings_view(pieces@) == data_pieces(
                split_on(v@.take(i as int), '\n').drop_last(),
            ),
        decreases n - i,
    {
        proof {
            lemma_split_on_nonempty(v@.take(i as int), '\n');
            assert(v@.take(i + 1).drop_last() =~= v@.take(i as int));
        }
        if v[i] == '\n' {
            let ghost done = split_on(v@.take(i as int), '\n');
            match line_data(&v, start, i) {
                Some(d) => {
                    pieces.push(d);
                },
                None => {},
            }
            proof {
                assert(split_on(v@.take(i + 1), '\n').drop_last() =~= done);
                assert(done.drop_last() =~= done.drop_last());
                assert(crate::provider::strings_view(pieces@) =~= data_pieces(done));
            }
            start = i + 1;
            i += 1;
            assert(v@.subrange(start as int, i as int) =~= Seq::<char>::empty());
        } else {
            proof {
                let done = split_on(v@.take(i as int), '\n');
                let next = split_on(v@.take(i + 1), '\n');
                assert(next.drop_last() =~= done.drop_last());
            }
            i += 1;
            assert(v@.subrange(start as int, i as int) =~= v@.subrange(start as int, i - 1).push(
                v@[i - 1],
            ));
        }
    }
    assert(v@.take(n as int) =~= v@);
    proof {
        lemma_split_on_nonempty(v@, '\n');
    }
    if start < n {
        match line_data(&v, start, n) {
            Some(d) => {
                pieces.push(d);
            },
            None => {},
        }
        proof {
            let all = split_on(v@, '\n');
            assert(all.last().len() > 0);
            assert(crate::provider::strings_view(pieces@) =~= data_pieces(all));
        }
    }
    join_with_newlines(&pieces)
}

/// `pieces` joined with newlines.
fn join_with_newlines(pieces: &Vec<String>) -> (r: String)
    ensures
        r@ == join_lines(crate::provider::strings_view(pieces@)),
{
    let ghost pv = crate::provider::strings_view(pieces@);
    let mut r = String::new();
    let mut i: usize = 0;
    assert(pv.take(0) =~= Seq::<Seq<char>>::empty());
    while i < pieces.len()
        invariant
            i <= pieces.len(),
            pv == crate::provider::strings_view(pieces@),
            r@ == join_lines(pv.take(i as int)),
        decreases pieces.len() - i,
    {
        assert(pv.take(i + 1).drop_last() =~= pv.take(i as int));
        assert(pv.take(i + 1).last() == pieces@[i as int]@);
        if i > 0 {
            push_char(&mut r, '\n');
        }
        let with = crate::text::concat(r.as_str(), pieces[i].as_str());
        r = with;
        proof {
            if i == 0 {
                assert(pv.take(1)[0] == pieces@[0]@);
                assert(r@ =~= join_lines(pv.take(1)));
            } else {
                assert(r@ =~= join_lines(pv.take(i as int)) + seq!['\n'] + pieces@[i as int]@);
            }
        }
        i += 1;
    }
    assert(pv.take(pieces.len() as int) =~= pv);
    r
}

/// Buffers a server-sent event stream and yields the data of each complete
/// event.
#[derive(Debug)]
pub struct SseDecoder {
    buffer: Vec<u8>,
}

impl View for SseDecoder {
    type V = Seq<u8>;

    closed spec fn view(&self) -> Seq<u8> {
        self.buffer@
    }
}

/// `b` holds only ASCII whitespace bytes.
pub open spec fn all_ascii_whitespace(b: Seq<u8>) -> bool {
    forall|i: int|
        0 <= i < b.len() ==> (b[i] == 32u8 || b[i] == 9u8 || b[i] == 10u8 || b[i] == 12u8 || b[i]
            == 13u8)
}

impl SseDecoder {
    /// A decoder with an empty buffer.
    pub fn new() -> (r: Self)
        ensures
            r@ == Seq::<u8>::empty(),
    {
        SseDecoder { buffer: Vec::new() }
    }

    /// Appends `chunk` and drains every complete event; returns the events
    /// with non-empty data, or the error of an event that is not UTF-8.
    pub fn push(&mut self, chunk: &[u8]) -> (r: Result<Vec<String>, ProviderError>)
        ensures
            final(self)@ == drain_events(old(self)@ + chunk@).rest,
            match drain_events(old(self)@ + chunk@).error {
                Some(e) => r matches Err(err) && err@ == ProviderErrorView::Protocol(e),
                None => r matches Ok(events) && crate::provider::strings_view(events@)
                    == drain_events(old(self)@ + chunk@).events,
            },
    {
        let mut i: usize = 0;
        let ghost start = self.buffer@;
        while i < chunk.len()
            invariant
                i <= chunk.len(),
                self.buffer@ == start + chunk@.take(i as int),
            decreases chunk.len() - i,
        {
            self.buffer.push(chunk[i]);
            i += 1;
            assert(self.buffer@ =~= start + chunk@.take(i as int));
        }
        assert(chunk@.take(chunk.len() as int) =~= chunk@);
        let ghost whole = self.buffer@;
        let mut events: Vec<String> = Vec::new();
        assert(crate::provider::strings_view(events@) + drain_events(whole).events =~= drain_events(whole).events);
        loop
            invariant
                whole == old(self)@ + chunk@,
                drain_events(whole).error == drain_events(self.buffer@).error,
                drain_events(whole).rest == drain_events(self.buffer@).rest,
                drain_events(whole).events == crate::provider::strings_view(events@)
                    + drain_events(self.buffer@).events,
            decreases self.buffer@.len(),
        {
            let ghost b = self.buffer@;
            proof {
                lemma_drain_step(b);
            }
            match self.next_event() {
                None => {
                    assert(crate::provider::strings_view(events@) + Seq::<Seq<char>>::empty()
                        =~= crate::provider::strings_view(events@));
                    return Ok(events);
                },
                Some(Err(e)) => {
                    return Err(ProviderError::Protocol(e));
                },
                Some(Ok(text)) => {
                    let data = extract_event_data(text.as_str());
                    let ghost before = crate::provider::strings_view(events@);
                    let ghost later = drain_events(self.buffer@).events;
                    if data.as_str().unicode_len() > 0 {
                        events.push(data);
                        assert(crate::provider::strings_view(events@) =~= before.push(data@));
                        assert(before + (seq![data@] + later) =~= before.push(data@) + later);
                    }
                },
            }
        }
    }

    /// Removes the first complete event from the buffer and decodes it.
    fn next_event(&mut self) -> (r: Option<Result<String, String>>)
        ensures
            match event_boundary(old(self)@) {
                None => r is None && final(self)@ == old(self)@,
                Some((end, dl)) => {
                    &&& 0 <= end && 0 < dl && end + dl <= old(self)@.len()
                    &&& final(self)@ == old(self)@.skip(end + dl)
                    &&& match r {
                        Some(Ok(t)) => valid_utf8(old(self)@.take(end)) && t@ == decode_utf8(
                            old(self)@.take(end),
                        ),
                        Some(Err(e)) => !valid_utf8(old(self)@.take(end)) && e@ == utf8_error_text(
                            old(self)@.take(end),
                        ),
                        None => false,
                    }
                },
            },
    {
        match find_event_boundary(&self.buffer) {
            None => None,
            Some((end, dl)) => {
                let ghost b = self.buffer@;
                let mut ev: Vec<u8> = Vec::new();
                let mut k: usize = 0;
                while k < end
                    invariant
                        k <= end,
                        end + dl <= self.buffer@.len(),
                        ev@ == self.buffer@.take(k as int),
                    decreases end - k,
                {
                    ev.push(self.buffer[k]);
                    k += 1;
                    assert(ev@ =~= self.buffer@.take(k as int));
                }
                assert(end + dl <= self.buffer.len());
                let mut rest: Vec<u8> = Vec::new();
                let mut k = end + dl;
                while k < self.buffer.len()
                    invariant
                        end + dl <= k <= self.buffer.len(),
                        rest@ == self.buffer@.subrange(end + dl, k as int),
                    decreases self.buffer.len() - k,
                {
                    rest.push(self.buffer[k]);
                    k += 1;
                    assert(rest@ =~= self.buffer@.subrange(end + dl, k as int));
                }
                assert(rest@ =~= b.skip(end + dl));
                self.buffer = rest;
                Some(decode_utf8_bytes(ev.as_slice()))
            },
        }
    }

    /// Succeeds when the buffer holds nothing but ASCII whitespace; otherwise
    /// the stream ended in the middle of an event.
    pub fn finish(&self) -> (r: Result<(), ProviderError>)
        ensures
            r is Ok <==> all_ascii_whitespace(self@),
            r matches Err(e) ==> e@ == ProviderErrorView::Protocol(
                "stream ended in the middle of an SSE event"@,
            ),
    {
        let mut i: usize = 0;
        while i < self.buffer.len()
            invariant
                i <= self.buffer.len(),
                forall|j: int|
                    0 <= j < i ==> (self@[j] == 32u8 || self@[j] == 9u8 || self@[j] == 10u8
                        || self@[j] == 12u8 || self@[j] == 13u8),
            decreases self.buffer.len() - i,
        {
            let b = self.buffer[i];
            if !(b == 32u8 || b == 9u8 || b == 10u8 || b == 12u8 || b == 13u8) {
                return Err(
                    ProviderError::Protocol("stream ended in the middle of an SSE event".to_owned()),
                );
            }
            i += 1;
        }
        Ok(())
    }
}

impl Default for SseDecoder {
    fn default() -> (r: Self)
        ensures
            r@ == Seq::<u8>::empty(),
    {
        SseDecoder::new()
    }
}


/// Every `data:` line carries data, with or without a space after the
/// colon: its payload is the rest of the line with leading whitespace
/// trimmed.
pub proof fn data_lines_carry_their_payload(rest: Seq<char>)
    ensures
        data_of(seq!['d', 'a', 't', 'a', ':'] + rest) == Some(trim_start(rest)),
{
    reveal_strlit("data:");
    let line = seq!['d', 'a', 't', 'a', ':'] + rest;
    assert(line.take(5) =~= "data:"@);
    assert(line.skip(5) =~= rest);
}

} // verus!
