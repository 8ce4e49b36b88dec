//! The errors of numbers.

use vstd::prelude::*;

verus! {

/// Why a number could not be parsed.
#[derive(Clone, Copy, Debug, PartialEq, Eq, Hash, Structural)]
pub enum ParseNumberError {
    /// The text ended before the number was complete.
    UnexpectedEnd {
        /// Whether a minus sign could have come next.
        or_sign: bool,
    },
    /// The text ended right after an `e` or `E`, or after the exponent's sign.
    UnexpectedEndAfterExponent {
        /// Whether a sign could have come next.
        or_sign: bool,
    },
    /// Another character stood where a minus sign or a digit was expected.
    ExpectedMinusOrDigit(char),
    /// Another character stood where a digit was expected.
    ExpectedDigit(char),
    /// Another character stood where a sign or a digit was expected.
    ExpectedSignOrDigit(char),
}

impl ParseNumberError {
    /// The message that describes the error.
    pub open spec fn message(self) -> Seq<char> {
        match self {
            Self::UnexpectedEnd { or_sign: true } => "Unexpected end of JSON number (expected minus sign or digit)!"@,
            Self::UnexpectedEnd { or_sign: false } => "Unexpected end of JSON number (expected digit)!"@,
            Self::UnexpectedEndAfterExponent { or_sign: true } => "Unexpected end of JSON number exponent (expected sign or digit)!"@,
            Self::UnexpectedEndAfterExponent { or_sign: false } => "Unexpected end of JSON number exponent (expected digit)!"@,
            Self::ExpectedMinusOrDigit(c) => "Invalid character ("@ + seq![c] + ") in JSON number (expected minus sign or digit)!"@,
            Self::ExpectedDigit(c) => "Invalid character ("@ + seq![c] + ") in JSON number (expected digit)!"@,
            Self::ExpectedSignOrDigit(c) => "Invalid character ("@ + seq![c] + ") in JSON number (expected sign or digit)!"@,
        }
    }

    /// Describes the error in words.
    pub fn to_string(&self) -> (r: std::string::String)
        ensures
            r@ == self.message(),
    {
        match *self {
            Self::UnexpectedEnd { or_sign: true } => std::string::String::from_str("Unexpected end of JSON number (expected minus sign or digit)!"),
            Self::UnexpectedEnd { or_sign: false } => std::string::String::from_str("Unexpected end of JSON number (expected digit)!"),
            Self::UnexpectedEndAfterExponent { or_sign: true } => std::string::String::from_str("Unexpected end of JSON number exponent (expected sign or digit)!"),
            Self::UnexpectedEndAfterExponent { or_sign: false } => std::string::String::from_str("Unexpected end of JSON number exponent (expected digit)!"),
            Self::ExpectedMinusOrDigit(c) => {
                let mut out = std::string::String::from_str("Invalid character (");
                out.push(c);
                out.append(") in JSON number (expected minus sign or digit)!");
                out
            },
            Self::ExpectedDigit(c) => {
                let mut out = std::string::String::from_str("Invalid character (");
                out.push(c);
                out.append(") in JSON number (expected digit)!");
                out
            },
            Self::ExpectedSignOrDigit(c) => {
                let mut out = std::string::String::from_str("Invalid character (");
                out.push(c);
                out.append(") in JSON number (expected sign or digit)!");
                out
            },
        }
    }
}

} // verus!
