//! Identifiers of conversations, messages, attempts and invocations.
use vstd::prelude::*;

use crate::text::{concat, copy_string};

verus! {

/// What `uuid::Uuid::parse_str` makes of `text`: success, or the text of its
/// error.
pub uninterp spec fn uuid_parse_outcome(text: Seq<char>) -> Result<(), Seq<char>>;

/// `text` is accepted by the UUID parser.
pub open spec fn is_uuid_text(text: Seq<char>) -> bool {
    uuid_parse_outcome(text) is Ok
}

/// Calls `uuid::Uuid::parse_str`; the outcome, and the error's text, are
/// named by `uuid_parse_outcome`.
#[verifier::external_body]
fn uuid_check(text: &str) -> (r: Result<(), String>)
    ensures
        match r {
            Ok(()) => uuid_parse_outcome(text@) is Ok,
            Err(e) => uuid_parse_outcome(text@) == Err::<(), Seq<char>>(e@),
        },
{
    uuid::Uuid::parse_str(text).map(|_| ()).map_err(|error| error.to_string())
}

/// Calls `uuid::Uuid::new_v4` and writes it with `Display`, the hyphenated
/// form that `Uuid::parse_str` accepts; which UUID comes back is random and
/// not stated.
#[verifier::external_body]
pub(crate) fn fresh_uuid() -> (s: String)
    ensures
        is_uuid_text(s@),
{
    uuid::Uuid::new_v4().to_string()
}

/// A stable identifier of a conversation, holding the text of a UUID.
#[derive(Debug)]
pub struct ConversationId(String);

impl Clone for ConversationId {
    fn clone(&self) -> (r: Self)
        ensures
            r@ == self@,
    {
        ConversationId(copy_string(&self.0))
    }
}

impl View for ConversationId {
    type V = Seq<char>;

    closed spec fn view(&self) -> Seq<char> {
        self.0@
    }
}

impl ConversationId {
    /// A fresh random identifier.
    pub fn new() -> (id: Self)
        ensures
            is_uuid_text(id@),
    {
        ConversationId(fresh_uuid())
    }

    /// Accepts `value` when it is the text of a UUID; otherwise the error
    /// names the type and quotes the UUID parser's complaint.
    pub fn parse(value: &str) -> (r: Result<Self, String>)
        ensures
            r is Ok <==> is_uuid_text(value@),
            r matches Ok(id) ==> id@ == value@,
            r matches Err(message) ==> message@ == "invalid ConversationId: "@ + uuid_parse_outcome(
                value@,
            )->Err_0,
    {
        match uuid_check(value) {
            Ok(()) => Ok(ConversationId(value.to_owned())),
            Err(error) => Err(concat("invalid ConversationId: ", error.as_str())),
        }
    }

    /// The identifier's text.
    pub fn as_str(&self) -> (r: &str)
        ensures
            r@ == self@,
    {
        self.0.as_str()
    }

    /// The identifier's text, as its `Display` writes it.
    pub fn to_string(&self) -> (r: String)
        ensures
            r@ == self@,
    {
        copy_string(&self.0)
    }
}

impl PartialEq for ConversationId {
    fn eq(&self, other: &Self) -> (r: bool) {
        self.0 == other.0
    }
}

impl vstd::std_specs::cmp::PartialEqSpecImpl for ConversationId {
    open spec fn obeys_eq_spec() -> bool {
        true
    }

    open spec fn eq_spec(&self, other: &Self) -> bool {
        self@ == other@
    }
}

impl Eq for ConversationId {
}

/// A stable identifier of a chat message, holding the text of a UUID.
#[derive(Debug)]
pub struct MessageId(String);

impl Clone for MessageId {
    fn clone(&self) -> (r: Self)
        ensures
            r@ == self@,
    {
        MessageId(copy_string(&self.0))
    }
}

impl View for MessageId {
    type V = Seq<char>;

    closed spec fn view(&self) -> Seq<char> {
        self.0@
    }
}

impl MessageId {
    /// A fresh random identifier.
    pub fn new() -> (id: Self)
        ensures
            is_uuid_text(id@),
    {
        MessageId(fresh_uuid())
    }

    /// Accepts `value` when it is the text of a UUID; otherwise the error
    /// names the type and quotes the UUID parser's complaint.
    pub fn parse(value: &str) -> (r: Result<Self, String>)
        ensures
            r is Ok <==> is_uuid_text(value@),
            r matches Ok(id) ==> id@ == value@,
            r matches Err(message) ==> message@ == "invalid MessageId: "@ + uuid_parse_outcome(
                value@,
            )->Err_0,
    {
        match uuid_check(value) {
            Ok(()) => Ok(MessageId(value.to_owned())),
            Err(error) => Err(concat("invalid MessageId: ", error.as_str())),
        }
    }

    /// The identifier's text.
    pub fn as_str(&self) -> (r: &str)
        ensures
            r@ == self@,
    {
        self.0.as_str()
    }

    /// The identifier's text, as its `Display` writes it.
    pub fn to_string(&self) -> (r: String)
        ensures
            r@ == self@,
    {
        copy_string(&self.0)
    }
}

impl PartialEq for MessageId {
    fn eq(&self, other: &Self) -> (r: bool) {
        self.0 == other.0
    }
}

impl vstd::std_specs::cmp::PartialEqSpecImpl for MessageId {
    open spec fn obeys_eq_spec() -> bool {
        true
    }

    open spec fn eq_spec(&self, other: &Self) -> bool {
        self@ == other@
    }
}

impl Eq for MessageId {
}

/// A stable identifier of a generation attempt, holding the text of a UUID.
#[derive(Debug)]
pub struct AttemptId(String);

impl Clone for AttemptId {
    fn clone(&self) -> (r: Self)
        ensures
            r@ == self@,
    {
        AttemptId(copy_string(&self.0))
    }
}

impl View for AttemptId {
    type V = Seq<char>;

    closed spec fn view(&self) -> Seq<char> {
        self.0@
    }
}

impl AttemptId {
    /// A fresh random identifier.
    pub fn new() -> (id: Self)
        ensures
            is_uuid_text(id@),
    {
        AttemptId(fresh_uuid())
    }

    /// Accepts `value` when it is the text of a UUID; otherwise the error
    /// names the type and quotes the UUID parser's complaint.
    pub fn parse(value: &str) -> (r: Result<Self, String>)
        ensures
            r is Ok <==> is_uuid_text(value@),
            r matches Ok(id) ==> id@ == value@,
            r matches Err(message) ==> message@ == "invalid AttemptId: "@ + uuid_parse_outcome(
                value@,
            )->Err_0,
    {
        match uuid_check(value) {
            Ok(()) => Ok(AttemptId(value.to_owned())),
            Err(error) => Err(concat("invalid AttemptId: ", error.as_str())),
        }
    }

    /// The identifier's text.
    pub fn as_str(&self) -> (r: &str)
        ensures
            r@ == self@,
    {
        self.0.as_str()
    }

    /// The identifier's text, as its `Display` writes it.
    pub fn to_string(&self) -> (r: String)
        ensures
            r@ == self@,
    {
        copy_string(&self.0)
    }
}

impl PartialEq for AttemptId {
    fn eq(&self, other: &Self) -> (r: bool) {
        self.0 == other.0
    }
}

impl vstd::std_specs::cmp::PartialEqSpecImpl for AttemptId {
    open spec fn obeys_eq_spec() -> bool {
        true
    }

    open spec fn eq_spec(&self, other: &Self) -> bool {
        self@ == other@
    }
}

impl Eq for AttemptId {
}

/// A stable identifier of a action invocation, holding the text of a UUID.
#[derive(Debug)]
pub struct InvocationId(String);

impl Clone for InvocationId {
    fn clone(&self) -> (r: Self)
        ensures
            r@ == self@,
    {
        InvocationId(copy_string(&self.0))
    }
}

impl View for InvocationId {
    type V = Seq<char>;

    closed spec fn view(&self) -> Seq<char> {
        self.0@
    }
}

impl InvocationId {
    /// A fresh random identifier.
    pub fn new() -> (id: Self)
        ensures
            is_uuid_text(id@),
    {
        InvocationId(fresh_uuid())
    }

    /// Accepts `value` when it is the text of a UUID; otherwise the error
    /// names the type and quotes the UUID parser's complaint.
    pub fn parse(value: &str) -> (r: Result<Self, String>)
        ensures
            r is Ok <==> is_uuid_text(value@),
            r matches Ok(id) ==> id@ == value@,
            r matches Err(message) ==> message@ == "invalid InvocationId: "@ + uuid_parse_outcome(
                value@,
            )->Err_0,
    {
        match uuid_check(value) {
            Ok(()) => Ok(InvocationId(value.to_owned())),
            Err(error) => Err(concat("invalid InvocationId: ", error.as_str())),
        }
    }

    /// The identifier's text.
    pub fn as_str(&self) -> (r: &str)
        ensures
            r@ == self@,
    {
        self.0.as_str()
    }

    /// The identifier's text, as its `Display` writes it.
    pub fn to_string(&self) -> (r: String)
        ensures
            r@ == self@,
    {
        copy_string(&self.0)
    }
}

impl PartialEq for InvocationId {
    fn eq(&self, other: &Self) -> (r: bool) {
        self.0 == other.0
    }
}

impl vstd::std_specs::cmp::PartialEqSpecImpl for InvocationId {
    open spec fn obeys_eq_spec() -> bool {
        true
    }

    open spec fn eq_spec(&self, other: &Self) -> bool {
        self@ == other@
    }
}

impl Eq for InvocationId {
}

} // verus!
