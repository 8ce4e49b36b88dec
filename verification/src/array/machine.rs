//! The state machine of arrays.

use crate::array::error::ParseArrayError;
use crate::containers::{ParsePrompt, ParseStatus};
use crate::text::is_whitespace;
use vstd::prelude::*;

verus! {

/// The position of an array cursor in the grammar of arrays.
#[derive(Clone, Copy, Debug, PartialEq, Eq, Structural)]
pub enum Machine {
    In { postcomma: bool },
    Element(ParseStatus),
    End,
}

impl Machine {
    /// Whether the machine reads a character next: it does unless a child is
    /// pending or the array has ended.
    pub open spec fn reads(self) -> bool {
        self is In || self == Self::Element(ParseStatus::Done)
    }

    /// The state once a pending child has been read.
    pub open spec fn child_done(self) -> Self {
        match self {
            Self::Element(_) => Self::Element(ParseStatus::Done),
            _ => self,
        }
    }

    /// The transition on `c`.
    pub open spec fn spec_apply(self, c: char) -> Result<Self, ParseArrayError>
        recommends
            self.reads(),
    {
        match self {
            Self::In { postcomma } => if is_whitespace(c) {
                Ok(self)
            } else if c == ']' {
                if postcomma {
                    Err(ParseArrayError::TrailingComma)
                } else {
                    Ok(Self::End)
                }
            } else {
                match ParsePrompt::get(c) {
                    Some(prompt) => Ok(Self::Element(ParseStatus::Prompted(prompt))),
                    None => Err(ParseArrayError::InvalidElement { c, or_end: !postcomma }),
                }
            },
            _ => if is_whitespace(c) {
                Ok(self)
            } else if c == ',' {
                Ok(Self::In { postcomma: true })
            } else if c == ']' {
                Ok(Self::End)
            } else {
                Err(ParseArrayError::ExpectedCommaOrEnd(c))
            },
        }
    }

    /// Feeds one character to the machine.
    pub fn apply(self, c: char) -> (r: Result<Self, ParseArrayError>)
        requires
            self.reads(),
        ensures
            r == self.spec_apply(c),
    {
        match self {
            Self::In { postcomma } => {
                if is_whitespace(c) {
                    Ok(self)
                } else if c == ']' {
                    if postcomma {
                        Err(ParseArrayError::TrailingComma)
                    } else {
                        Ok(Self::End)
                    }
                } else {
                    match ParsePrompt::get(c) {
                        Some(prompt) => Ok(Self::Element(ParseStatus::Prompted(prompt))),
                        None => Err(ParseArrayError::InvalidElement { c, or_end: !postcomma }),
                    }
                }
            },
            _ => {
                if is_whitespace(c) {
                    Ok(self)
                } else if c == ',' {
                    Ok(Self::In { postcomma: true })
                } else if c == ']' {
                    Ok(Self::End)
                } else {
                    Err(ParseArrayError::ExpectedCommaOrEnd(c))
                }
            },
        }
    }
}

} // verus!
