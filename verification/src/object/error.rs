//! The errors of objects.

use crate::string::ParseStringError;
use vstd::prelude::*;

verus! {

/// Why an object could not be parsed.
#[derive(Clone, Copy, Debug, PartialEq, Eq, Hash, Structural)]
pub enum ParseObjectError {
    /// The text ended before the closing brace.
    UnexpectedEnd,
    /// A character other than a quotation mark stood where a name was expected.
    ExpectedName {
        /// The character found.
        c: char,
        /// Whether the object could have ended here.
        or_end: bool,
    },
    /// A name could not be parsed as a string.
    InvalidName(ParseStringError),
    /// Another character stood where the colon after a name was expected.
    ExpectedColon(char),
    /// A character that starts no value stood where a value was expected.
    InvalidElement(char),
    /// A character other than a comma or the closing brace followed a value.
    ExpectedCommaOrEnd(char),
    /// The closing brace followed a comma.
    TrailingComma,
}

impl ParseObjectError {
    /// The message that describes the error.
    pub open spec fn message(self) -> Seq<char> {
        match self {
            Self::UnexpectedEnd => "Unexpected end of JSON object!"@,
            Self::ExpectedName { c, or_end: true } => "Invalid character ("@ + seq![c] + ") in JSON object (expected a string name or an end, '}')!"@,
            Self::ExpectedName { c, or_end: false } => "Invalid character ("@ + seq![c] + ") in JSON object (expected a string name)!"@,
            Self::InvalidName(err) => err.message(),
            Self::ExpectedColon(c) => "Invalid character ("@ + seq![c] + ") in JSON object (expected a colon, ':')!"@,
            Self::InvalidElement(c) => "Invalid character ("@ + seq![c] + ") in JSON object (expected a value)!"@,
            Self::ExpectedCommaOrEnd(c) => "Invalid character ("@ + seq![c] + ") in JSON object (expected a comma or an end, '}')!"@,
            Self::TrailingComma => "Trailing comma in JSON object!"@,
        }
    }

    /// Describes the error in words; for a name that failed, the words of the string's error.
    pub fn to_string(&self) -> (r: std::string::String)
        ensures
            r@ == self.message(),
    {
        match *self {
            Self::UnexpectedEnd => std::string::String::from_str("Unexpected end of JSON object!"),
            Self::ExpectedName { c, or_end: true } => {
                let mut out = std::string::String::from_str("Invalid character (");
                out.push(c);
                out.append(") in JSON object (expected a string name or an end, '}')!");
                out
            },
            Self::ExpectedName { c, or_end: false } => {
                let mut out = std::string::String::from_str("Invalid character (");
                out.push(c);
                out.append(") in JSON object (expected a string name)!");
                out
            },
            Self::InvalidName(err) => err.to_string(),
            Self::ExpectedColon(c) => {
                let mut out = std::string::String::from_str("Invalid character (");
                out.push(c);
                out.append(") in JSON object (expected a colon, ':')!");
                out
            },
            Self::InvalidElement(c) => {
                let mut out = std::string::String::from_str("Invalid character (");
                out.push(c);
                out.append(") in JSON object (expected a value)!");
                out
            },
            Self::ExpectedCommaOrEnd(c) => {
                let mut out = std::string::String::from_str("Invalid character (");
                out.push(c);
                out.append(") in JSON object (expected a comma or an end, '}')!");
                out
            },
            Self::TrailingComma => std::string::String::from_str("Trailing comma in JSON object!"),
        }
    }
}

} // verus!
