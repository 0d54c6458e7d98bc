//! What a call hands back: instructions to send and attributes to log.

use crate::msg::{PalomaMsg, PalomaMsgView};
use vstd::prelude::*;

verus! {

/// A key and a value that describe what a call did.
#[derive(Clone, Debug, PartialEq, Eq)]
pub struct Attribute {
    pub key: String,
    pub value: String,
}

impl View for Attribute {
    type V = (Seq<char>, Seq<char>);

    open spec fn view(&self) -> (Seq<char>, Seq<char>) {
        (self.key@, self.value@)
    }
}

/// The result of a call that succeeded.
#[derive(Clone, Debug, PartialEq, Eq)]
pub struct Response {
    /// The instructions to send, in order.
    pub messages: Vec<PalomaMsg>,
    /// The attributes, in order.
    pub attributes: Vec<Attribute>,
}

/// What a `Response` holds.
pub struct ResponseView {
    pub messages: Seq<PalomaMsgView>,
    pub attributes: Seq<(Seq<char>, Seq<char>)>,
}

impl View for Response {
    type V = ResponseView;

    open spec fn view(&self) -> ResponseView {
        ResponseView {
            messages: Seq::new(self.messages@.len(), |i: int| self.messages@[i]@),
            attributes: Seq::new(self.attributes@.len(), |i: int| self.attributes@[i]@),
        }
    }
}

impl Response {
    /// A response without instructions or attributes.
    pub fn new() -> (r: Response)
        ensures
            r@.messages == Seq::<PalomaMsgView>::empty(),
            r@.attributes == Seq::<(Seq<char>, Seq<char>)>::empty(),
    {
        let r = Response { messages: Vec::new(), attributes: Vec::new() };
        assert(r@.messages =~= Seq::<PalomaMsgView>::empty());
        assert(r@.attributes =~= Seq::<(Seq<char>, Seq<char>)>::empty());
        r
    }

    /// This response with the instruction `msg` after its own.
    pub fn add_message(self, msg: PalomaMsg) -> (r: Response)
        ensures
            r@.messages == self@.messages.push(msg@),
            r@.attributes == self@.attributes,
    {
        let mut r = self;
        r.messages.push(msg);
        assert(r@.messages =~= self@.messages.push(msg@));
        assert(r@.attributes =~= self@.attributes);
        r
    }

    /// This response with the attribute `key`, `value` after its own.
    pub fn add_attribute(self, key: &str, value: &str) -> (r: Response)
        ensures
            r@.messages == self@.messages,
            r@.attributes == self@.attributes.push((key@, value@)),
    {
        let mut r = self;
        r.attributes.push(Attribute { key: key.to_owned(), value: value.to_owned() });
        assert(r@.messages =~= self@.messages);
        assert(r@.attributes =~= self@.attributes.push((key@, value@)));
        r
    }
}

} // verus!
