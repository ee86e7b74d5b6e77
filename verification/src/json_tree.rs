//! JSON documents as plain trees, parsed by `serde_json`, and the field
//! access that reading provider replies is built on.
use vstd::prelude::*;

use crate::text::str_eq;

verus! {

/// The model of a JSON value. Numbers keep their text.
pub enum JsonView {
    Null,
    Bool(bool),
    Number(Seq<char>),
    Str(Seq<char>),
    Array(Seq<JsonView>),
    Object(Seq<(Seq<char>, JsonView)>),
}

/// A parsed JSON value. Numbers are held as their text; an object is its
/// members in the order the parser lists them.
#[derive(Debug)]
pub enum JsonValue {
    Null,
    Bool(bool),
    Number(String),
    Str(String),
    Array(Vec<JsonValue>),
    Object(Vec<(String, JsonValue)>),
}

/// The model of a value.
pub open spec fn json_view(v: JsonValue) -> JsonView
    decreases v, 1int,
{
    match v {
        JsonValue::Null => JsonView::Null,
        JsonValue::Bool(b) => JsonView::Bool(b),
        JsonValue::Number(s) => JsonView::Number(s@),
        JsonValue::Str(s) => JsonView::Str(s@),
        JsonValue::Array(a) => JsonView::Array(json_items(a@)),
        JsonValue::Object(o) => JsonView::Object(json_members(o@)),
    }
}

/// The models of a list of values.
pub open spec fn json_items(s: Seq<JsonValue>) -> Seq<JsonView>
    decreases s, 0int,
{
    if s.len() == 0 {
        Seq::empty()
    } else {
        seq![json_view(s[0])] + json_items(s.subrange(1, s.len() as int))
    }
}

/// The models of a list of object members.
pub open spec fn json_members(s: Seq<(String, JsonValue)>) -> Seq<(Seq<char>, JsonView)>
    decreases s, 0int,
{
    if s.len() == 0 {
        Seq::empty()
    } else {
        seq![(s[0].0@, json_view(s[0].1))] + json_members(s.subrange(1, s.len() as int))
    }
}

impl View for JsonValue {
    type V = JsonView;

    open spec fn view(&self) -> JsonView {
        json_view(*self)
    }
}

/// The models of a list of values agree with it item by item.
pub proof fn lemma_json_items(s: Seq<JsonValue>)
    ensures
        json_items(s).len() == s.len(),
        forall|i: int| 0 <= i < s.len() ==> #[trigger] json_items(s)[i] == json_view(s[i]),
    decreases s.len(),
{
    if s.len() > 0 {
        let rest = s.subrange(1, s.len() as int);
        lemma_json_items(rest);
        assert forall|i: int| 0 <= i < s.len() implies #[trigger] json_items(s)[i] == json_view(s[i]) by {
            if i > 0 {
                assert(rest[i - 1] == s[i]);
            }
        }
    }
}

/// The models of a list of members agree with it member by member.
pub proof fn lemma_json_members(s: Seq<(String, JsonValue)>)
    ensures
        json_members(s).len() == s.len(),
        forall|i: int|
            0 <= i < s.len() ==> #[trigger] json_members(s)[i] == (s[i].0@, json_view(s[i].1)),
    decreases s.len(),
{
    if s.len() > 0 {
        let rest = s.subrange(1, s.len() as int);
        lemma_json_members(rest);
        assert forall|i: int| 0 <= i < s.len() implies #[trigger] json_members(s)[i] == (
            s[i].0@,
            json_view(s[i].1),
        ) by {
            if i > 0 {
                assert(rest[i - 1] == s[i]);
            }
        }
    }
}

/// The value of the first member named `k`.
pub open spec fn json_get(o: Seq<(Seq<char>, JsonView)>, k: Seq<char>) -> Option<JsonView>
    decreases o.len(),
{
    if o.len() == 0 {
        None
    } else if o[0].0 == k {
        Some(o[0].1)
    } else {
        json_get(o.subrange(1, o.len() as int), k)
    }
}

/// Looking a member up skips the members before the first one named so.
proof fn lemma_json_get_skip(o: Seq<(Seq<char>, JsonView)>, k: Seq<char>, i: int)
    requires
        0 <= i <= o.len(),
        forall|j: int| 0 <= j < i ==> (#[trigger] o[j]).0 != k,
    ensures
        json_get(o, k) == json_get(o.subrange(i, o.len() as int), k),
    decreases i,
{
    if i > 0 {
        let rest = o.subrange(1, o.len() as int);
        assert forall|j: int| 0 <= j < i - 1 implies (#[trigger] rest[j]).0 != k by {
            assert(rest[j] == o[j + 1]);
        }
        lemma_json_get_skip(rest, k, i - 1);
        assert(rest.subrange(i - 1, rest.len() as int) =~= o.subrange(i, o.len() as int));
    } else {
        assert(o.subrange(0, o.len() as int) =~= o);
    }
}

/// The member `k` of `v`, when `v` is an object that has it.
pub open spec fn field(v: JsonView, k: Seq<char>) -> Option<JsonView> {
    match v {
        JsonView::Object(o) => json_get(o, k),
        _ => None,
    }
}

/// The member `key` of `value`, when it is an object that has it.
pub fn get_field<'a>(value: &'a JsonValue, key: &str) -> (r: Option<&'a JsonValue>)
    ensures
        match field(value@, key@) {
            Some(v) => r matches Some(x) && x@ == v,
            None => r is None,
        },
{
    match value {
        JsonValue::Object(members) => {
            proof {
                lemma_json_members(members@);
            }
            let ghost o = json_members(members@);
            let mut i: usize = 0;
            while i < members.len()
                invariant
                    i <= members.len(),
                    value@ == JsonView::Object(o),
                    o == json_members(members@),
                    o.len() == members@.len(),
                    forall|j: int| 0 <= j < o.len() ==> #[trigger] o[j] == (members@[j].0@, json_view(members@[j].1)),
                    forall|j: int| 0 <= j < i ==> (#[trigger] o[j]).0 != key@,
                decreases members.len() - i,
            {
                if str_eq(members[i].0.as_str(), key) {
                    proof {
                        lemma_json_get_skip(o, key@, i as int);
                        assert(o[i as int] == (members@[i as int].0@, json_view(members@[i as int].1)));
                        assert(o.subrange(i as int, o.len() as int)[0] == o[i as int]);
                        assert(json_get(o.subrange(i as int, o.len() as int), key@) == Some(o[i as int].1));
                    }
                    return Some(&members[i].1);
                }
                i += 1;
            }
            proof {
                lemma_json_get_skip(o, key@, i as int);
            }
            None
        },
        _ => None,
    }
}

/// `serde_json::Value`, carried through the document conversion.
#[verifier::external_type_specification]
#[verifier::external_body]
pub struct ExJsonValue(serde_json::Value);

/// What `serde_json` makes of `text` read as a `serde_json::Value`: the
/// value, or the `Display` text of its parse error.
pub uninterp spec fn json_document(text: Seq<char>) -> Result<JsonView, Seq<char>>;

/// Parses `text` with `serde_json::from_str` into a `serde_json::Value`.
/// The contract names the outcome and claims no more of it: the value,
/// converted one for one by `plain_json`, or the error's text.
#[verifier::external_body]
pub(crate) fn parse_json(text: &str) -> (r: Result<JsonValue, String>)
    ensures
        match r {
            Ok(v) => json_document(text@) == Ok::<JsonView, Seq<char>>(v@),
            Err(e) => json_document(text@) == Err::<JsonView, Seq<char>>(e@),
        },
{
    match serde_json::from_str::<serde_json::Value>(text) {
        Ok(value) => Ok(plain_json(value)),
        Err(error) => Err(error.to_string()),
    }
}

/// What `serde_json` makes of `bytes` read as a `serde_json::Value`: the
/// value, or the `Display` text of its parse error.
pub uninterp spec fn json_bytes_document(bytes: Seq<u8>) -> Result<JsonView, Seq<char>>;

/// Parses `bytes` with `serde_json::from_slice` into a `serde_json::Value`.
/// The contract names the outcome and claims no more of it: the value,
/// converted one for one by `plain_json`, or the error's text.
#[verifier::external_body]
pub(crate) fn parse_json_slice(bytes: &[u8]) -> (r: Result<JsonValue, String>)
    ensures
        match r {
            Ok(v) => json_bytes_document(bytes@) == Ok::<JsonView, Seq<char>>(v@),
            Err(e) => json_bytes_document(bytes@) == Err::<JsonView, Seq<char>>(e@),
        },
{
    match serde_json::from_slice::<serde_json::Value>(bytes) {
        Ok(value) => Ok(plain_json(value)),
        Err(error) => Err(error.to_string()),
    }
}

/// Converts a `serde_json` value into a plain one, variant for variant;
/// numbers become their `Display` text, objects their members in map order.
/// Used only inside `parse_json` and `parse_json_slice`.
#[verifier::external_body]
fn plain_json(value: serde_json::Value) -> JsonValue {
    match value {
        serde_json::Value::Null => JsonValue::Null,
        serde_json::Value::Bool(b) => JsonValue::Bool(b),
        serde_json::Value::Number(n) => JsonValue::Number(n.to_string()),
        serde_json::Value::String(s) => JsonValue::Str(s),
        serde_json::Value::Array(a) => JsonValue::Array(a.into_iter().map(plain_json).collect()),
        serde_json::Value::Object(o) => JsonValue::Object(o.into_iter().map(|(k, v)| (k, plain_json(v))).collect()),
    }
}

} // verus!
