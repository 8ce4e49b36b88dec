//! A pull parser for JSON that allocates nothing while it parses.
//!
//! A [`document::Document`] over a text hands out a cursor over its value; a
//! cursor over an array or an object hands out a cursor over each element in
//! turn. Every cursor borrows its parent, so only the innermost cursor can be
//! used, and it tells its parent how far it has read once it is done. What a
//! caller does not read, `finish` skips. Strings and numbers are handed out as
//! slices of the text; escape sequences are decoded and numbers converted only
//! on demand.
//!
//! What each function returns is stated over a model of the text as a sequence
//! of characters: each state machine has its transition function, and each
//! cursor the run of its machine over what remains of the text. [`grammar`]
//! proves that every text of the JSON grammar is read to its end, and
//! [`derivation`] that no other text is.

use vstd::prelude::*;

pub mod any;
pub mod array;
pub mod containers;
pub mod derivation;
pub mod document;
pub mod grammar;
pub mod literal;
pub mod multi_document;
pub mod number;
pub mod object;
pub mod skip;
pub mod status;
pub mod string;
pub mod test_parent;
pub mod text;

verus! {

/// The enclosing context of a cursor: the place that learns how far a child has read.
pub trait Parent<'json>: Sized {
    /// What the parent still has to read.
    spec fn remaining(&self) -> Seq<char>;

    /// Whether `after` is this parent once a child has handed back `remaining`.
    spec fn child_done(&self, after: &Self, remaining: Seq<char>) -> bool;

    /// Takes back the input from a child that has read up to `remaining`.
    fn set_remaining(&mut self, remaining: &'json str)
        ensures
            old(self).child_done(final(self), remaining@),
            final(self).remaining() == remaining@,
    ;
}

} // verus!
