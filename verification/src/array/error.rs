//! The errors of arrays.

use vstd::prelude::*;

verus! {

/// Why an array could not be parsed.
#[derive(Clone, Copy, Debug, PartialEq, Eq, Hash, Structural)]
pub enum ParseArrayError {
    /// The text ended before the closing bracket.
    UnexpectedEnd,
    /// A character that starts no value stood where an element was expected.
    InvalidElement {
        /// The character found.
        c: char,
        /// Whether the array could have ended here.
        or_end: bool,
    },
    /// A character other than a comma or the closing bracket followed an element.
    ExpectedCommaOrEnd(char),
    /// The closing bracket followed a comma.
    TrailingComma,
}

impl ParseArrayError {
    /// The message that describes the error.
    pub open spec fn message(self) -> Seq<char> {
        match self {
            Self::UnexpectedEnd => "Unexpected end of JSON array!"@,
            Self::InvalidElement { c, or_end: true } => "Invalid character ("@ + seq![c] + ") in JSON array (expected an element or an end, ']')!"@,
            Self::InvalidElement { c, or_end: false } => "Invalid character ("@ + seq![c] + ") in JSON array (expected an element)!"@,
            Self::ExpectedCommaOrEnd(c) => "Invalid character ("@ + seq![c] + ") in JSON array (expected a comma or an end, ']')"@,
            Self::TrailingComma => "Trailing comma in JSON array!"@,
        }
    }

    /// Describes the error in words.
    pub fn to_string(&self) -> (r: std::string::String)
        ensures
            r@ == self.message(),
    {
        match *self {
            Self::UnexpectedEnd => std::string::String::from_str("Unexpected end of JSON array!"),
            Self::InvalidElement { c, or_end: true } => {
                let mut out = std::string::String::from_str("Invalid character (");
                out.push(c);
                out.append(") in JSON array (expected an element or an end, ']')!");
                out
            },
            Self::InvalidElement { c, or_end: false } => {
                let mut out = std::string::String::from_str("Invalid character (");
                out.push(c);
                out.append(") in JSON array (expected an element)!");
                out
            },
            Self::ExpectedCommaOrEnd(c) => {
                let mut out = std::string::String::from_str("Invalid character (");
                out.push(c);
                out.append(") in JSON array (expected a comma or an end, ']')");
                out
            },
            Self::TrailingComma => std::string::String::from_str("Trailing comma in JSON array!"),
        }
    }
}

} // verus!
