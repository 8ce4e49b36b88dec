//! A cursor over a value of any kind.

use crate::array::Array;
use crate::containers::ParsePrompt;
use crate::literal::Literal;
use crate::number::Number;
use crate::object::Object;
use crate::skip::{
    array_end, lemma_array_end_bounds, lemma_object_end_bounds, lemma_value_end_bounds, object_end,
    value_end,
};
use crate::string::String;
use crate::text::is_suffix;
use crate::Parent;
use vstd::prelude::*;

pub mod error;

pub use error::ParseAnyError;

verus! {

/// A cursor over a JSON value of any kind.
#[derive(Debug)]
pub enum Any<'json, 'p, P: Parent<'json>> {
    /// A string.
    String(String<'json, 'p, P>),
    /// A number.
    Number(Number<'json, 'p, P>),
    /// An object.
    Object(Object<'json, 'p, P>),
    /// An array.
    Array(Array<'json, 'p, P>),
    /// A literal.
    Literal(Literal<'json, 'p, P>),
}

impl<'json, 'p, P: Parent<'json>> Any<'json, 'p, P> {
    /// The kind of the value.
    pub open spec fn prompt(&self) -> ParsePrompt {
        match self {
            Any::String(_) => ParsePrompt::String,
            Any::Number(_) => ParsePrompt::Number,
            Any::Object(_) => ParsePrompt::Object,
            Any::Array(_) => ParsePrompt::Array,
            Any::Literal(_) => ParsePrompt::Literal,
        }
    }

    /// The parent that the cursor reports to.
    pub open spec fn parent(&self) -> &'p mut P {
        match self {
            Any::String(cursor) => cursor.parent,
            Any::Number(cursor) => cursor.parent,
            Any::Object(cursor) => cursor.parent,
            Any::Array(cursor) => cursor.parent,
            Any::Literal(cursor) => cursor.parent,
        }
    }

    /// The input that the cursor has not read yet.
    pub open spec fn remaining(&self) -> Seq<char> {
        match self {
            Any::String(cursor) => cursor.remaining@,
            Any::Number(cursor) => cursor.remaining@,
            Any::Object(cursor) => cursor.remaining@,
            Any::Array(cursor) => cursor.remaining@,
            Any::Literal(cursor) => cursor.remaining@,
        }
    }

    /// Whether nothing of the value has been read yet but its opening delimiter.
    pub open spec fn fresh(&self) -> bool {
        match self {
            Any::Object(cursor) => cursor.machine@ == (crate::object::machine::State::In {
                postcomma: false,
            }),
            Any::Array(cursor) => cursor.machine == (crate::array::machine::Machine::In {
                postcomma: false,
            }),
            _ => true,
        }
    }

    /// How many characters the cursor has yet to read to the end of its value, or
    /// the error that reading them ends with.
    pub open spec fn end(&self) -> Result<int, ParseAnyError> {
        match self {
            Any::Object(cursor) => object_end(cursor.machine@, cursor.remaining@).length(),
            Any::Array(cursor) => array_end(cursor.machine, cursor.remaining@).length(),
            _ => value_end(self.prompt(), self.remaining()),
        }
    }

    /// Whether the value cannot but have been read to its end: whether the cursor
    /// is one over an array or an object that has ended.
    pub open spec fn ended(&self) -> bool {
        match self {
            Any::Object(cursor) => cursor.machine@ is End,
            Any::Array(cursor) => cursor.machine is End,
            _ => false,
        }
    }

    /// What remains of a value lies within the text, and is at least one
    /// character unless the value has ended.
    pub proof fn lemma_end_bounds(&self)
        ensures
            self.end() matches Ok(n) ==> 0 <= n <= self.remaining().len() && (n > 0
                || self.ended()),
    {
        match self {
            Any::Object(cursor) => {
                lemma_object_end_bounds(cursor.machine@, cursor.remaining@);
            },
            Any::Array(cursor) => {
                lemma_array_end_bounds(cursor.machine, cursor.remaining@);
            },
            _ => {
                lemma_value_end_bounds(self.prompt(), self.remaining());
            },
        }
    }

    /// Whether `after` is what a callback may leave of the cursor `self`: a cursor
    /// over a value of the same kind that has read on in the same text, with the
    /// parent as it was or told how far its child has read.
    pub open spec fn handed_back(&self, after: &Self) -> bool {
        &&& after.prompt() == self.prompt()
        &&& is_suffix(after.remaining(), self.remaining())
        &&& *after.parent() == *self.parent() || {
            &&& self.parent().child_done(after.parent(), after.parent().remaining())
            &&& is_suffix(after.parent().remaining(), self.remaining())
        }
    }

    /// What a callback hands back, and what is left once it has been read to its
    /// end, lies within the text that the cursor was made for.
    pub proof fn lemma_handed_back(&self, after: &Self, whole: Seq<char>)
        requires
            self.handed_back(after),
            is_suffix(self.remaining(), whole),
        ensures
            is_suffix(after.remaining(), whole),
            *after.parent() == *self.parent() || is_suffix(after.parent().remaining(), whole),
            after.end() matches Ok(n) ==> 0 <= n <= after.remaining().len() && (n > 0
                || after.ended()) && is_suffix(after.remaining().skip(n), whole),
    {
        after.lemma_end_bounds();
        crate::text::lemma_suffix_trans(after.remaining(), self.remaining(), whole);
        if *after.parent() != *self.parent() {
            crate::text::lemma_suffix_trans(after.parent().remaining(), self.remaining(), whole);
        }
        if let Ok(n) = after.end() {
            crate::text::lemma_skip_is_suffix(after.remaining(), n);
            crate::text::lemma_suffix_trans(after.remaining().skip(n), after.remaining(), whole);
        }
    }

    /// Reads the value to its end so that the parent can go on.
    pub fn finish(&mut self) -> (r: Result<(), ParseAnyError>)
        ensures
            is_suffix(final(self).remaining(), old(self).remaining()),
            match *old(self) {
                Any::Object(before) => *final(self) matches Any::Object(after) && after.machine@
                    == object_end(before.machine@, before.remaining@).machine && after.remaining@
                    == before.remaining@.skip(
                    object_end(before.machine@, before.remaining@).at,
                ),
                Any::Array(before) => *final(self) matches Any::Array(after) && after.machine
                    == array_end(before.machine, before.remaining@).machine && after.remaining@
                    == before.remaining@.skip(array_end(before.machine, before.remaining@).at),
                _ => final(self).prompt() == old(self).prompt() && final(self).remaining() == old(self).remaining(),
            },
            r is Ok ==> is_suffix(final(self).parent().remaining(), old(self).remaining()),
            *final(final(self).parent()) == *final(old(self).parent()),
            match old(self).end() {
                Ok(n) => r is Ok && old(self).parent().child_done(
                    final(self).parent(),
                    old(self).remaining().skip(n),
                ),
                Err(e) => r == Err::<(), _>(e) && *final(self).parent() == *old(self).parent(),
            },
    {
        proof {
            self.lemma_end_bounds();
            crate::text::lemma_suffix_refl(self.remaining());
        }
        match self {
            Any::String(cursor) => match cursor.finish() {
                Ok(()) => Ok(()),
                Err(e) => Err(ParseAnyError::String(e)),
            },
            Any::Number(cursor) => match cursor.finish() {
                Ok(()) => Ok(()),
                Err(e) => Err(ParseAnyError::Number(e)),
            },
            Any::Object(cursor) => cursor.finish(),
            Any::Array(cursor) => cursor.finish(),
            Any::Literal(cursor) => match cursor.finish() {
                Ok(()) => Ok(()),
                Err(e) => Err(ParseAnyError::Literal(e)),
            },
        }
    }

    /// What a walker makes of the result of a callback on this cursor: the error of
    /// the callback, or else what the callback returned once the value has been
    /// read to its end, or the error of reading it.
    pub fn finish_after<T>(&mut self, called: Result<T, ParseAnyError>) -> (r: Result<
        T,
        ParseAnyError,
    >)
        ensures
            *final(final(self).parent()) == *final(old(self).parent()),
            match called {
                Err(e) => r matches Err(err) && err == e && *final(self) == *old(self),
                Ok(value) => match old(self).end() {
                    Ok(n) => {
                        &&& r matches Ok(v)
                        &&& v == value
                        &&& old(self).parent().child_done(
                            final(self).parent(),
                            old(self).remaining().skip(n),
                        )
                        &&& is_suffix(final(self).parent().remaining(), old(self).remaining())
                    },
                    Err(e) => r matches Err(err) && err == e && *final(self).parent() == *old(self).parent(),
                },
            },
    {
        match called {
            Err(e) => Err(e),
            Ok(value) => match self.finish() {
                Ok(()) => Ok(value),
                Err(e) => Err(e),
            },
        }
    }

    /// The cursor as a cursor over a string, if the value is one.
    pub fn string(self) -> (r: Option<String<'json, 'p, P>>)
        ensures
            r == match self {
                Any::String(cursor) => Some(cursor),
                _ => None,
            },
    {
        match self {
            Any::String(cursor) => Some(cursor),
            _ => None,
        }
    }

    /// The cursor as a cursor over a string, or `err` if the value is none.
    pub fn string_or<E>(self, err: E) -> (r: Result<String<'json, 'p, P>, E>)
        ensures
            r == match self {
                Any::String(cursor) => Ok::<String<'json, 'p, P>, E>(cursor),
                _ => Err(err),
            },
    {
        match self {
            Any::String(cursor) => Ok(cursor),
            _ => Err(err),
        }
    }

    /// The cursor as a cursor over a number, if the value is one.
    pub fn number(self) -> (r: Option<Number<'json, 'p, P>>)
        ensures
            r == match self {
                Any::Number(cursor) => Some(cursor),
                _ => None,
            },
    {
        match self {
            Any::Number(cursor) => Some(cursor),
            _ => None,
        }
    }

    /// The cursor as a cursor over a number, or `err` if the value is none.
    pub fn number_or<E>(self, err: E) -> (r: Result<Number<'json, 'p, P>, E>)
        ensures
            r == match self {
                Any::Number(cursor) => Ok::<Number<'json, 'p, P>, E>(cursor),
                _ => Err(err),
            },
    {
        match self {
            Any::Number(cursor) => Ok(cursor),
            _ => Err(err),
        }
    }

    /// The cursor as a cursor over an object, if the value is one.
    pub fn object(self) -> (r: Option<Object<'json, 'p, P>>)
        ensures
            r == match self {
                Any::Object(cursor) => Some(cursor),
                _ => None,
            },
    {
        match self {
            Any::Object(cursor) => Some(cursor),
            _ => None,
        }
    }

    /// The cursor as a cursor over an object, or `err` if the value is none.
    pub fn object_or<E>(self, err: E) -> (r: Result<Object<'json, 'p, P>, E>)
        ensures
            r == match self {
                Any::Object(cursor) => Ok::<Object<'json, 'p, P>, E>(cursor),
                _ => Err(err),
            },
    {
        match self {
            Any::Object(cursor) => Ok(cursor),
            _ => Err(err),
        }
    }

    /// The cursor as a cursor over an array, if the value is one.
    pub fn array(self) -> (r: Option<Array<'json, 'p, P>>)
        ensures
            r == match self {
                Any::Array(cursor) => Some(cursor),
                _ => None,
            },
    {
        match self {
            Any::Array(cursor) => Some(cursor),
            _ => None,
        }
    }

    /// The cursor as a cursor over an array, or `err` if the value is none.
    pub fn array_or<E>(self, err: E) -> (r: Result<Array<'json, 'p, P>, E>)
        ensures
            r == match self {
                Any::Array(cursor) => Ok::<Array<'json, 'p, P>, E>(cursor),
                _ => Err(err),
            },
    {
        match self {
            Any::Array(cursor) => Ok(cursor),
            _ => Err(err),
        }
    }

    /// The cursor as a cursor over a literal, if the value is one.
    pub fn literal(self) -> (r: Option<Literal<'json, 'p, P>>)
        ensures
            r == match self {
                Any::Literal(cursor) => Some(cursor),
                _ => None,
            },
    {
        match self {
            Any::Literal(cursor) => Some(cursor),
            _ => None,
        }
    }

    /// The cursor as a cursor over a literal, or `err` if the value is none.
    pub fn literal_or<E>(self, err: E) -> (r: Result<Literal<'json, 'p, P>, E>)
        ensures
            r == match self {
                Any::Literal(cursor) => Ok::<Literal<'json, 'p, P>, E>(cursor),
                _ => Err(err),
            },
    {
        match self {
            Any::Literal(cursor) => Ok(cursor),
            _ => Err(err),
        }
    }

    /// The cursor as a cursor over a string, or what `err` returns if the value is
    /// none.
    pub fn string_or_else<E, F: FnOnce() -> E>(self, err: F) -> (r: Result<String<'json, 'p, P>, E>)
        requires
            !(self is String) ==> call_requires(err, ()),
        ensures
            match self {
                Any::String(cursor) => r == Ok::<String<'json, 'p, P>, E>(cursor),
                _ => r matches Err(e) && call_ensures(err, (), e),
            },
    {
        match self {
            Any::String(cursor) => Ok(cursor),
            _ => Err(err()),
        }
    }

    /// The cursor over a string that this cursor holds, if the value is one.
    pub fn mut_string(&mut self) -> (r: Option<&mut String<'json, 'p, P>>)
        ensures
            match *old(self) {
                Any::String(cursor) => r matches Some(inner) && *inner == cursor && *final(self)
                    == Any::String(*final(inner)),
                _ => r is None && *final(self) == *old(self),
            },
    {
        match self {
            Any::String(cursor) => Some(cursor),
            _ => None,
        }
    }

    /// The cursor over a string that this cursor holds, or `err` if the value is
    /// none.
    pub fn mut_string_or<E>(&mut self, err: E) -> (r: Result<&mut String<'json, 'p, P>, E>)
        ensures
            match *old(self) {
                Any::String(cursor) => r matches Ok(inner) && *inner == cursor && *final(self)
                    == Any::String(*final(inner)),
                _ => r matches Err(e) && e == err && *final(self) == *old(self),
            },
    {
        match self {
            Any::String(cursor) => Ok(cursor),
            _ => Err(err),
        }
    }

    /// The cursor over a string that this cursor holds, or what `err` returns if the
    /// value is none.
    pub fn mut_string_or_else<E, F: FnOnce() -> E>(&mut self, err: F) -> (r: Result<
        &mut String<'json, 'p, P>,
        E,
    >)
        requires
            !(*old(self) is String) ==> call_requires(err, ()),
        ensures
            match *old(self) {
                Any::String(cursor) => r matches Ok(inner) && *inner == cursor && *final(self)
                    == Any::String(*final(inner)),
                _ => r matches Err(e) && call_ensures(err, (), e) && *final(self) == *old(self),
            },
    {
        match self {
            Any::String(cursor) => Ok(cursor),
            _ => Err(err()),
        }
    }

    /// The cursor as a cursor over a number, or what `err` returns if the value is
    /// none.
    pub fn number_or_else<E, F: FnOnce() -> E>(self, err: F) -> (r: Result<Number<'json, 'p, P>, E>)
        requires
            !(self is Number) ==> call_requires(err, ()),
        ensures
            match self {
                Any::Number(cursor) => r == Ok::<Number<'json, 'p, P>, E>(cursor),
                _ => r matches Err(e) && call_ensures(err, (), e),
            },
    {
        match self {
            Any::Number(cursor) => Ok(cursor),
            _ => Err(err()),
        }
    }

    /// The cursor over a number that this cursor holds, if the value is one.
    pub fn mut_number(&mut self) -> (r: Option<&mut Number<'json, 'p, P>>)
        ensures
            match *old(self) {
                Any::Number(cursor) => r matches Some(inner) && *inner == cursor && *final(self)
                    == Any::Number(*final(inner)),
                _ => r is None && *final(self) == *old(self),
            },
    {
        match self {
            Any::Number(cursor) => Some(cursor),
            _ => None,
        }
    }

    /// The cursor over a number that this cursor holds, or `err` if the value is
    /// none.
    pub fn mut_number_or<E>(&mut self, err: E) -> (r: Result<&mut Number<'json, 'p, P>, E>)
        ensures
            match *old(self) {
                Any::Number(cursor) => r matches Ok(inner) && *inner == cursor && *final(self)
                    == Any::Number(*final(inner)),
                _ => r matches Err(e) && e == err && *final(self) == *old(self),
            },
    {
        match self {
            Any::Number(cursor) => Ok(cursor),
            _ => Err(err),
        }
    }

    /// The cursor over a number that this cursor holds, or what `err` returns if the
    /// value is none.
    pub fn mut_number_or_else<E, F: FnOnce() -> E>(&mut self, err: F) -> (r: Result<
        &mut Number<'json, 'p, P>,
        E,
    >)
        requires
            !(*old(self) is Number) ==> call_requires(err, ()),
        ensures
            match *old(self) {
                Any::Number(cursor) => r matches Ok(inner) && *inner == cursor && *final(self)
                    == Any::Number(*final(inner)),
                _ => r matches Err(e) && call_ensures(err, (), e) && *final(self) == *old(self),
            },
    {
        match self {
            Any::Number(cursor) => Ok(cursor),
            _ => Err(err()),
        }
    }

    /// The cursor as a cursor over an object, or what `err` returns if the value is
    /// none.
    pub fn object_or_else<E, F: FnOnce() -> E>(self, err: F) -> (r: Result<Object<'json, 'p, P>, E>)
        requires
            !(self is Object) ==> call_requires(err, ()),
        ensures
            match self {
                Any::Object(cursor) => r == Ok::<Object<'json, 'p, P>, E>(cursor),
                _ => r matches Err(e) && call_ensures(err, (), e),
            },
    {
        match self {
            Any::Object(cursor) => Ok(cursor),
            _ => Err(err()),
        }
    }

    /// The cursor over an object that this cursor holds, if the value is one.
    pub fn mut_object(&mut self) -> (r: Option<&mut Object<'json, 'p, P>>)
        ensures
            match *old(self) {
                Any::Object(cursor) => r matches Some(inner) && *inner == cursor && *final(self)
                    == Any::Object(*final(inner)),
                _ => r is None && *final(self) == *old(self),
            },
    {
        match self {
            Any::Object(cursor) => Some(cursor),
            _ => None,
        }
    }

    /// The cursor over an object that this cursor holds, or `err` if the value is
    /// none.
    pub fn mut_object_or<E>(&mut self, err: E) -> (r: Result<&mut Object<'json, 'p, P>, E>)
        ensures
            match *old(self) {
                Any::Object(cursor) => r matches Ok(inner) && *inner == cursor && *final(self)
                    == Any::Object(*final(inner)),
                _ => r matches Err(e) && e == err && *final(self) == *old(self),
            },
    {
        match self {
            Any::Object(cursor) => Ok(cursor),
            _ => Err(err),
        }
    }

    /// The cursor over an object that this cursor holds, or what `err` returns if the
    /// value is none.
    pub fn mut_object_or_else<E, F: FnOnce() -> E>(&mut self, err: F) -> (r: Result<
        &mut Object<'json, 'p, P>,
        E,
    >)
        requires
            !(*old(self) is Object) ==> call_requires(err, ()),
        ensures
            match *old(self) {
                Any::Object(cursor) => r matches Ok(inner) && *inner == cursor && *final(self)
                    == Any::Object(*final(inner)),
                _ => r matches Err(e) && call_ensures(err, (), e) && *final(self) == *old(self),
            },
    {
        match self {
            Any::Object(cursor) => Ok(cursor),
            _ => Err(err()),
        }
    }

    /// The cursor as a cursor over an array, or what `err` returns if the value is
    /// none.
    pub fn array_or_else<E, F: FnOnce() -> E>(self, err: F) -> (r: Result<Array<'json, 'p, P>, E>)
        requires
            !(self is Array) ==> call_requires(err, ()),
        ensures
            match self {
                Any::Array(cursor) => r == Ok::<Array<'json, 'p, P>, E>(cursor),
                _ => r matches Err(e) && call_ensures(err, (), e),
            },
    {
        match self {
            Any::Array(cursor) => Ok(cursor),
            _ => Err(err()),
        }
    }

    /// The cursor over an array that this cursor holds, if the value is one.
    pub fn mut_array(&mut self) -> (r: Option<&mut Array<'json, 'p, P>>)
        ensures
            match *old(self) {
                Any::Array(cursor) => r matches Some(inner) && *inner == cursor && *final(self)
                    == Any::Array(*final(inner)),
                _ => r is None && *final(self) == *old(self),
            },
    {
        match self {
            Any::Array(cursor) => Some(cursor),
            _ => None,
        }
    }

    /// The cursor over an array that this cursor holds, or `err` if the value is
    /// none.
    pub fn mut_array_or<E>(&mut self, err: E) -> (r: Result<&mut Array<'json, 'p, P>, E>)
        ensures
            match *old(self) {
                Any::Array(cursor) => r matches Ok(inner) && *inner == cursor && *final(self)
                    == Any::Array(*final(inner)),
                _ => r matches Err(e) && e == err && *final(self) == *old(self),
            },
    {
        match self {
            Any::Array(cursor) => Ok(cursor),
            _ => Err(err),
        }
    }

    /// The cursor over an array that this cursor holds, or what `err` returns if the
    /// value is none.
    pub fn mut_array_or_else<E, F: FnOnce() -> E>(&mut self, err: F) -> (r: Result<
        &mut Array<'json, 'p, P>,
        E,
    >)
        requires
            !(*old(self) is Array) ==> call_requires(err, ()),
        ensures
            match *old(self) {
                Any::Array(cursor) => r matches Ok(inner) && *inner == cursor && *final(self)
                    == Any::Array(*final(inner)),
                _ => r matches Err(e) && call_ensures(err, (), e) && *final(self) == *old(self),
            },
    {
        match self {
            Any::Array(cursor) => Ok(cursor),
            _ => Err(err()),
        }
    }

    /// The cursor as a cursor over a literal, or what `err` returns if the value is
    /// none.
    pub fn literal_or_else<E, F: FnOnce() -> E>(self, err: F) -> (r: Result<Literal<'json, 'p, P>, E>)
        requires
            !(self is Literal) ==> call_requires(err, ()),
        ensures
            match self {
                Any::Literal(cursor) => r == Ok::<Literal<'json, 'p, P>, E>(cursor),
                _ => r matches Err(e) && call_ensures(err, (), e),
            },
    {
        match self {
            Any::Literal(cursor) => Ok(cursor),
            _ => Err(err()),
        }
    }

    /// The cursor over a literal that this cursor holds, if the value is one.
    pub fn mut_literal(&mut self) -> (r: Option<&mut Literal<'json, 'p, P>>)
        ensures
            match *old(self) {
                Any::Literal(cursor) => r matches Some(inner) && *inner == cursor && *final(self)
                    == Any::Literal(*final(inner)),
                _ => r is None && *final(self) == *old(self),
            },
    {
        match self {
            Any::Literal(cursor) => Some(cursor),
            _ => None,
        }
    }

    /// The cursor over a literal that this cursor holds, or `err` if the value is
    /// none.
    pub fn mut_literal_or<E>(&mut self, err: E) -> (r: Result<&mut Literal<'json, 'p, P>, E>)
        ensures
            match *old(self) {
                Any::Literal(cursor) => r matches Ok(inner) && *inner == cursor && *final(self)
                    == Any::Literal(*final(inner)),
                _ => r matches Err(e) && e == err && *final(self) == *old(self),
            },
    {
        match self {
            Any::Literal(cursor) => Ok(cursor),
            _ => Err(err),
        }
    }

    /// The cursor over a literal that this cursor holds, or what `err` returns if the
    /// value is none.
    pub fn mut_literal_or_else<E, F: FnOnce() -> E>(&mut self, err: F) -> (r: Result<
        &mut Literal<'json, 'p, P>,
        E,
    >)
        requires
            !(*old(self) is Literal) ==> call_requires(err, ()),
        ensures
            match *old(self) {
                Any::Literal(cursor) => r matches Ok(inner) && *inner == cursor && *final(self)
                    == Any::Literal(*final(inner)),
                _ => r matches Err(e) && call_ensures(err, (), e) && *final(self) == *old(self),
            },
    {
        match self {
            Any::Literal(cursor) => Ok(cursor),
            _ => Err(err()),
        }
    }
}

} // verus!
