//! The state machine of numbers.

use crate::number::error::ParseNumberError;
use crate::status::Status;
use vstd::prelude::*;

verus! {

/// Whether `c` is one of the ten decimal digits.
pub open spec fn is_digit(c: char) -> bool {
    '0' <= c && c <= '9'
}

/// The state of a number between two characters.
#[derive(Clone, Copy, Debug, PartialEq, Eq, Structural)]
pub enum Machine {
    Start { signed: bool },
    InInteger,
    PostInteger,
    PreFraction,
    Fraction,
    PreExponent { signed: bool },
    Exponent,
}

impl Machine {
    /// The transition on `c`; `Done` where `c` is the first character after the number.
    pub open spec fn spec_apply(self, c: char) -> Result<Status<Self, ()>, ParseNumberError> {
        match self {
            Self::Start { signed } => if c == '-' && !signed {
                Ok(Status::Parsing(Self::Start { signed: true }))
            } else if c == '0' {
                Ok(Status::Parsing(Self::PostInteger))
            } else if is_digit(c) {
                Ok(Status::Parsing(Self::InInteger))
            } else {
                Err(ParseNumberError::ExpectedMinusOrDigit(c))
            },
            Self::InInteger => if is_digit(c) {
                Ok(Status::Parsing(Self::InInteger))
            } else if c == '.' {
                Ok(Status::Parsing(Self::PreFraction))
            } else if c == 'e' || c == 'E' {
                Ok(Status::Parsing(Self::PreExponent { signed: false }))
            } else {
                Ok(Status::Done(()))
            },
            Self::PostInteger => if c == '.' {
                Ok(Status::Parsing(Self::PreFraction))
            } else if c == 'e' || c == 'E' {
                Ok(Status::Parsing(Self::PreExponent { signed: false }))
            } else {
                Ok(Status::Done(()))
            },
            Self::PreFraction => if is_digit(c) {
                Ok(Status::Parsing(Self::Fraction))
            } else {
                Err(ParseNumberError::ExpectedDigit(c))
            },
            Self::Fraction => if is_digit(c) {
                Ok(Status::Parsing(Self::Fraction))
            } else if c == 'e' || c == 'E' {
                Ok(Status::Parsing(Self::PreExponent { signed: false }))
            } else {
                Ok(Status::Done(()))
            },
            Self::PreExponent { signed } => if (c == '-' || c == '+') && !signed {
                Ok(Status::Parsing(Self::PreExponent { signed: true }))
            } else if is_digit(c) {
                Ok(Status::Parsing(Self::Exponent))
            } else {
                Err(ParseNumberError::ExpectedSignOrDigit(c))
            },
            Self::Exponent => if is_digit(c) {
                Ok(Status::Parsing(Self::Exponent))
            } else {
                Ok(Status::Done(()))
            },
        }
    }

    /// Feeds one character to the machine.
    pub fn apply(self, c: char) -> (r: Result<Status<Self, ()>, ParseNumberError>)
        ensures
            r == self.spec_apply(c),
    {
        let digit = '0' <= c && c <= '9';
        match self {
            Self::Start { signed } => {
                if c == '-' && !signed {
                    Ok(Status::Parsing(Self::Start { signed: true }))
                } else if c == '0' {
                    Ok(Status::Parsing(Self::PostInteger))
                } else if digit {
                    Ok(Status::Parsing(Self::InInteger))
                } else {
                    Err(ParseNumberError::ExpectedMinusOrDigit(c))
                }
            },
            Self::InInteger => {
                if digit {
                    Ok(Status::Parsing(Self::InInteger))
                } else if c == '.' {
                    Ok(Status::Parsing(Self::PreFraction))
                } else if c == 'e' || c == 'E' {
                    Ok(Status::Parsing(Self::PreExponent { signed: false }))
                } else {
                    Ok(Status::Done(()))
                }
            },
            Self::PostInteger => {
                if c == '.' {
                    Ok(Status::Parsing(Self::PreFraction))
                } else if c == 'e' || c == 'E' {
                    Ok(Status::Parsing(Self::PreExponent { signed: false }))
                } else {
                    Ok(Status::Done(()))
                }
            },
            Self::PreFraction => {
                if digit {
                    Ok(Status::Parsing(Self::Fraction))
                } else {
                    Err(ParseNumberError::ExpectedDigit(c))
                }
            },
            Self::Fraction => {
                if digit {
                    Ok(Status::Parsing(Self::Fraction))
                } else if c == 'e' || c == 'E' {
                    Ok(Status::Parsing(Self::PreExponent { signed: false }))
                } else {
                    Ok(Status::Done(()))
                }
            },
            Self::PreExponent { signed } => {
                if (c == '-' || c == '+') && !signed {
                    Ok(Status::Parsing(Self::PreExponent { signed: true }))
                } else if digit {
                    Ok(Status::Parsing(Self::Exponent))
                } else {
                    Err(ParseNumberError::ExpectedSignOrDigit(c))
                }
            },
            Self::Exponent => {
                if digit {
                    Ok(Status::Parsing(Self::Exponent))
                } else {
                    Ok(Status::Done(()))
                }
            },
        }
    }

    /// Whether the text may end in this state, and the error if it may not.
    pub open spec fn spec_valid_end(self) -> Result<(), ParseNumberError> {
        match self {
            Self::InInteger | Self::PostInteger | Self::Fraction | Self::Exponent => Ok(()),
            Self::Start { signed } => Err(ParseNumberError::UnexpectedEnd { or_sign: !signed }),
            Self::PreFraction => Err(ParseNumberError::UnexpectedEnd { or_sign: false }),
            Self::PreExponent { signed } => Err(
                ParseNumberError::UnexpectedEndAfterExponent { or_sign: !signed },
            ),
        }
    }

    /// Judges the end of the text in this state.
    #[verifier::when_used_as_spec(spec_valid_end)]
    pub fn valid_end(self) -> (r: Result<(), ParseNumberError>)
        ensures
            r == self.spec_valid_end(),
    {
        match self {
            Self::InInteger | Self::PostInteger | Self::Fraction | Self::Exponent => Ok(()),
            Self::Start { signed } => Err(ParseNumberError::UnexpectedEnd { or_sign: !signed }),
            Self::PreFraction => Err(ParseNumberError::UnexpectedEnd { or_sign: false }),
            Self::PreExponent { signed } => Err(
                ParseNumberError::UnexpectedEndAfterExponent { or_sign: !signed },
            ),
        }
    }
}

} // verus!
