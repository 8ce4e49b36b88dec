//! The state machine of objects.

use crate::containers::{ParsePrompt, ParseStatus};
use crate::object::error::ParseObjectError;
use crate::string::ParsedString;
use crate::text::is_whitespace;
use vstd::prelude::*;

verus! {

/// The position of an object cursor in the grammar of objects.
#[derive(Clone, Copy, Debug, PartialEq, Eq)]
pub enum Machine<'json> {
    In { postcomma: bool },
    Name(Option<ParsedString<'json>>),
    PreElement { name: ParsedString<'json> },
    Element { name: ParsedString<'json>, element: ParseStatus },
    End,
}

/// A position in the grammar of objects, with each name as the text of its body.
pub enum State {
    In { postcomma: bool },
    Name(Option<Seq<char>>),
    PreElement { name: Seq<char> },
    Element { name: Seq<char>, element: ParseStatus },
    End,
}

impl<'json> View for Machine<'json> {
    type V = State;

    open spec fn view(&self) -> State {
        match *self {
            Machine::In { postcomma } => State::In { postcomma },
            Machine::Name(None) => State::Name(None),
            Machine::Name(Some(name)) => State::Name(Some(name@)),
            Machine::PreElement { name } => State::PreElement { name: name@ },
            Machine::Element { name, element } => State::Element { name: name@, element },
            Machine::End => State::End,
        }
    }
}

impl State {
    /// Whether the machine reads a character next: it does unless a name is to be
    /// parsed, a child is pending or the object has ended.
    pub open spec fn reads(self) -> bool {
        match self {
            State::In { .. } | State::Name(Some(_)) | State::PreElement { .. } => true,
            State::Element { element, .. } => element is Done,
            _ => false,
        }
    }

    /// The state once a pending child has been read.
    pub open spec fn child_done(self) -> Self {
        match self {
            State::Element { name, .. } => State::Element { name, element: ParseStatus::Done },
            _ => self,
        }
    }

    /// The transition on `c`.
    pub open spec fn spec_apply(self, c: char) -> Result<Self, ParseObjectError>
        recommends
            self.reads(),
    {
        match self {
            State::In { postcomma } => if is_whitespace(c) {
                Ok(self)
            } else if c == '"' {
                Ok(State::Name(None))
            } else if c == '}' {
                if postcomma {
                    Err(ParseObjectError::TrailingComma)
                } else {
                    Ok(State::End)
                }
            } else {
                Err(ParseObjectError::ExpectedName { c, or_end: !postcomma })
            },
            State::Name(Some(name)) => if is_whitespace(c) {
                Ok(self)
            } else if c == ':' {
                Ok(State::PreElement { name })
            } else {
                Err(ParseObjectError::ExpectedColon(c))
            },
            State::PreElement { name } => if is_whitespace(c) {
                Ok(self)
            } else {
                match ParsePrompt::get(c) {
                    Some(prompt) => Ok(
                        State::Element { name, element: ParseStatus::Prompted(prompt) },
                    ),
                    None => Err(ParseObjectError::InvalidElement(c)),
                }
            },
            _ => if is_whitespace(c) {
                Ok(self)
            } else if c == ',' {
                Ok(State::In { postcomma: true })
            } else if c == '}' {
                Ok(State::End)
            } else {
                Err(ParseObjectError::ExpectedCommaOrEnd(c))
            },
        }
    }
}

impl<'json> Machine<'json> {
    /// Feeds one character to the machine.
    pub fn apply(self, c: char) -> (r: Result<Self, ParseObjectError>)
        requires
            self@.reads(),
        ensures
            match self@.spec_apply(c) {
                Ok(next) => r matches Ok(machine) && machine@ == next,
                Err(e) => r matches Err(err) && err == e,
            },
    {
        match self {
            Self::In { postcomma } => {
                if is_whitespace(c) {
                    Ok(self)
                } else if c == '"' {
                    Ok(Self::Name(None))
                } else if c == '}' {
                    if postcomma {
                        Err(ParseObjectError::TrailingComma)
                    } else {
                        Ok(Self::End)
                    }
                } else {
                    Err(ParseObjectError::ExpectedName { c, or_end: !postcomma })
                }
            },
            Self::Name(Some(name)) => {
                if is_whitespace(c) {
                    Ok(self)
                } else if c == ':' {
                    Ok(Self::PreElement { name })
                } else {
                    Err(ParseObjectError::ExpectedColon(c))
                }
            },
            Self::PreElement { name } => {
                if is_whitespace(c) {
                    Ok(self)
                } else {
                    match ParsePrompt::get(c) {
                        Some(prompt) => Ok(
                            Self::Element { name, element: ParseStatus::Prompted(prompt) },
                        ),
                        None => Err(ParseObjectError::InvalidElement(c)),
                    }
                }
            },
            _ => {
                if is_whitespace(c) {
                    Ok(self)
                } else if c == ',' {
                    Ok(Self::In { postcomma: true })
                } else if c == '}' {
                    Ok(Self::End)
                } else {
                    Err(ParseObjectError::ExpectedCommaOrEnd(c))
                }
            },
        }
    }
}

} // verus!
