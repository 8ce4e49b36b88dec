//! The state machine of literals.

use crate::literal::error::ParseLiteralError;
use crate::literal::parsed::ParsedLiteral;
use crate::text::is_whitespace;
use vstd::prelude::*;

verus! {

/// How much of a literal has been read.
#[derive(Clone, Copy, Debug, PartialEq, Eq, Structural)]
pub enum Machine {
    Start,
    End(ParsedLiteral),
    T,
    Tr,
    Tru,
    F,
    Fa,
    Fal,
    Fals,
    N,
    Nu,
    Nul,
}

impl Machine {
    /// The one character that continues the literal in this state, and the state it leads to.
    pub open spec fn expected(self) -> Option<(char, Self)> {
        match self {
            Self::Start | Self::End(_) => None,
            Self::T => Some(('r', Self::Tr)),
            Self::Tr => Some(('u', Self::Tru)),
            Self::Tru => Some(('e', Self::End(ParsedLiteral::True))),
            Self::F => Some(('a', Self::Fa)),
            Self::Fa => Some(('l', Self::Fal)),
            Self::Fal => Some(('s', Self::Fals)),
            Self::Fals => Some(('e', Self::End(ParsedLiteral::False))),
            Self::N => Some(('u', Self::Nu)),
            Self::Nu => Some(('l', Self::Nul)),
            Self::Nul => Some(('l', Self::End(ParsedLiteral::Null))),
        }
    }

    /// The transition on `c`.
    pub open spec fn spec_apply(self, c: char) -> Result<Self, ParseLiteralError> {
        match self {
            Self::Start => if is_whitespace(c) {
                Ok(Self::Start)
            } else if c == 't' {
                Ok(Self::T)
            } else if c == 'f' {
                Ok(Self::F)
            } else if c == 'n' {
                Ok(Self::N)
            } else {
                Err(ParseLiteralError::UnexpectedCharacter(c))
            },
            _ => match self.expected() {
                Some((wanted, next)) if c == wanted => Ok(next),
                _ => Err(ParseLiteralError::UnexpectedCharacter(c)),
            },
        }
    }

    /// Feeds one character to the machine.
    pub fn apply(self, c: char) -> (r: Result<Self, ParseLiteralError>)
        ensures
            r == self.spec_apply(c),
    {
        let next = match self {
            Self::Start => {
                if is_whitespace(c) {
                    Some(Self::Start)
                } else if c == 't' {
                    Some(Self::T)
                } else if c == 'f' {
                    Some(Self::F)
                } else if c == 'n' {
                    Some(Self::N)
                } else {
                    None
                }
            },
            Self::End(_) => None,
            Self::T => if c == 'r' { Some(Self::Tr) } else { None },
            Self::Tr => if c == 'u' { Some(Self::Tru) } else { None },
            Self::Tru => if c == 'e' { Some(Self::End(ParsedLiteral::True)) } else { None },
            Self::F => if c == 'a' { Some(Self::Fa) } else { None },
            Self::Fa => if c == 'l' { Some(Self::Fal) } else { None },
            Self::Fal => if c == 's' { Some(Self::Fals) } else { None },
            Self::Fals => if c == 'e' { Some(Self::End(ParsedLiteral::False)) } else { None },
            Self::N => if c == 'u' { Some(Self::Nu) } else { None },
            Self::Nu => if c == 'l' { Some(Self::Nul) } else { None },
            Self::Nul => if c == 'l' { Some(Self::End(ParsedLiteral::Null)) } else { None },
        };
        match next {
            Some(next) => Ok(next),
            None => Err(ParseLiteralError::UnexpectedCharacter(c)),
        }
    }
}

} // verus!
