//! A root for cursors over fragments of JSON.

use crate::array::Array;
use crate::literal::Literal;
use crate::number::Number;
use crate::object::Object;
use crate::string::String;
use crate::Parent;
use vstd::prelude::*;

verus! {

/// A parent that only keeps the input which its child hands back: the root for a
/// cursor over a fragment of JSON.
#[derive(Clone, Debug, PartialEq, Eq)]
pub struct TestParent<'json> {
    pub remaining: &'json str,
}

impl<'json> Parent<'json> for TestParent<'json> {
    open spec fn remaining(&self) -> Seq<char> {
        self.remaining@
    }

    open spec fn child_done(&self, after: &Self, remaining: Seq<char>) -> bool {
        after.remaining@ == remaining
    }

    fn set_remaining(&mut self, remaining: &'json str) {
        self.remaining = remaining;
    }
}

impl<'json> TestParent<'json> {
    /// A parent that holds `json`.
    pub fn new(json: &'json str) -> (r: Self)
        ensures
            r.remaining == json,
    {
        Self { remaining: json }
    }

    /// A cursor over the string whose body begins the input.
    pub fn string(&mut self) -> (r: String<'json, '_, Self>)
        ensures
            r.remaining == old(self).remaining,
            *r.parent == *old(self),
            *final(r.parent) == *final(self),
    {
        let remaining = self.remaining;
        String::new(self, remaining)
    }

    /// A cursor over the number that begins the input.
    pub fn number(&mut self) -> (r: Number<'json, '_, Self>)
        ensures
            r.remaining == old(self).remaining,
            *r.parent == *old(self),
            *final(r.parent) == *final(self),
    {
        let remaining = self.remaining;
        Number::new(self, remaining)
    }

    /// A cursor over the object whose members begin the input.
    pub fn object(&mut self) -> (r: Object<'json, '_, Self>)
        ensures
            r.remaining == old(self).remaining,
            r.machine@ == (crate::object::machine::State::In { postcomma: false }),
            *r.parent == *old(self),
            *final(r.parent) == *final(self),
    {
        let remaining = self.remaining;
        Object::new(self, remaining)
    }

    /// A cursor over the array whose elements begin the input.
    pub fn array(&mut self) -> (r: Array<'json, '_, Self>)
        ensures
            r.remaining == old(self).remaining,
            r.machine == (crate::array::machine::Machine::In { postcomma: false }),
            *r.parent == *old(self),
            *final(r.parent) == *final(self),
    {
        let remaining = self.remaining;
        Array::new(self, remaining)
    }

    /// A cursor over the literal that begins the input.
    pub fn literal(&mut self) -> (r: Literal<'json, '_, Self>)
        ensures
            r.remaining == old(self).remaining,
            *r.parent == *old(self),
            *final(r.parent) == *final(self),
    {
        let remaining = self.remaining;
        Literal::new(self, remaining)
    }
}

} // verus!
