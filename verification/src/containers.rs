//! What containers know of their children: the kind of value that a character
//! announces, and whether a child is pending.

use crate::any::Any;
use crate::array::Array;
use crate::literal::Literal;
use crate::number::Number;
use crate::object::Object;
use crate::string::String;
use crate::Parent;
use vstd::prelude::*;
use vstd::std_specs::convert::FromSpecImpl;

verus! {

/// The kind of value that begins at a character.
#[derive(Clone, Copy, Debug, PartialEq, Eq, Structural)]
pub enum ParsePrompt {
    String,
    Number,
    Object,
    Array,
    Literal,
}

/// Whether a container waits for a child to be read, or has seen it finished.
#[derive(Clone, Copy, Debug, PartialEq, Eq, Structural)]
pub enum ParseStatus {
    Prompted(ParsePrompt),
    Done,
}

impl ParsePrompt {
    /// The kind of value that `c` starts, if it starts one.
    pub open spec fn spec_get(c: char) -> Option<Self> {
        if c == '"' {
            Some(Self::String)
        } else if ('0' <= c && c <= '9') || c == '-' {
            Some(Self::Number)
        } else if c == '{' {
            Some(Self::Object)
        } else if c == '[' {
            Some(Self::Array)
        } else if c == 't' || c == 'f' || c == 'n' {
            Some(Self::Literal)
        } else {
            None
        }
    }

    /// Classifies the first character of a value.
    #[verifier::when_used_as_spec(spec_get)]
    pub fn get(c: char) -> (r: Option<Self>)
        ensures
            r == Self::spec_get(c),
    {
        if c == '"' {
            Some(Self::String)
        } else if ('0' <= c && c <= '9') || c == '-' {
            Some(Self::Number)
        } else if c == '{' {
            Some(Self::Object)
        } else if c == '[' {
            Some(Self::Array)
        } else if c == 't' || c == 'f' || c == 'n' {
            Some(Self::Literal)
        } else {
            None
        }
    }

    /// Numbers and literals begin with a character of their own text; the other
    /// kinds begin with a delimiter.
    pub open spec fn spec_keep_first(self) -> bool {
        self is Number || self is Literal
    }

    /// Whether the child must see the character that announced it.
    #[verifier::when_used_as_spec(spec_keep_first)]
    pub fn keep_first(self) -> (r: bool)
        ensures
            r == self.spec_keep_first(),
    {
        match self {
            Self::Number | Self::Literal => true,
            _ => false,
        }
    }

    /// A cursor over a value of this kind that reads `remaining` and reports to
    /// `parent`.
    pub fn create<'json, 'p, P: Parent<'json>>(self, parent: &'p mut P, remaining: &'json str) -> (r:
        Any<'json, 'p, P>)
        ensures
            r.prompt() == self,
            r.remaining() == remaining@,
            r.fresh(),
            *r.parent() == *old(parent),
            *final(r.parent()) == *final(parent),
    {
        match self {
            Self::String => Any::String(String::new(parent, remaining)),
            Self::Number => Any::Number(Number::new(parent, remaining)),
            Self::Object => Any::Object(Object::new(parent, remaining)),
            Self::Array => Any::Array(Array::new(parent, remaining)),
            Self::Literal => Any::Literal(Literal::new(parent, remaining)),
        }
    }
}

impl From<ParsePrompt> for ParseStatus {
    /// The status of a container that waits for a child of this kind.
    fn from(value: ParsePrompt) -> (r: Self) {
        ParseStatus::Prompted(value)
    }
}

impl FromSpecImpl<ParsePrompt> for ParseStatus {
    open spec fn obeys_from_spec() -> bool {
        true
    }

    open spec fn from_spec(value: ParsePrompt) -> Self {
        ParseStatus::Prompted(value)
    }
}

} // verus!
