//! The errors of strings.

use crate::text::{hex4, push_hex4};
use vstd::prelude::*;

verus! {

/// Why a string could not be parsed.
#[derive(Clone, Copy, Debug, PartialEq, Eq, Hash, Structural)]
pub enum ParseStringError {
    /// The text ended before the closing quotation mark.
    UnexpectedEnd,
    /// A character that cannot follow a backslash.
    InvalidEscape(char),
    /// A character that is no hex digit inside a `\u` escape.
    InvalidUnicodeEscape(char),
    /// A low surrogate with no high surrogate before it.
    MissingHighSurrogate {
        /// The low surrogate found.
        low: u16,
    },
    /// A high surrogate with no low surrogate after it.
    MissingLowSurrogate {
        /// The high surrogate found.
        high: u16,
    },
    /// A `\u` escape after a high surrogate that is no low surrogate.
    InvalidLowSurrogate {
        /// The high surrogate found.
        high: u16,
        /// The value of the escape that followed it.
        low: u16,
    },
}

impl ParseStringError {
    /// The message that describes the error.
    pub open spec fn message(self) -> Seq<char> {
        match self {
            Self::UnexpectedEnd => "Unexpected end of JSON string (missing \")!"@,
            Self::InvalidEscape(c) => "Invalid escape character ("@ + seq![c] + ") in JSON string!"@,
            Self::InvalidUnicodeEscape(c) => "Invalid character ("@ + seq![c] + ") in unicode escape in JSON string!"@,
            Self::MissingHighSurrogate { low } => "Found a low surrogate (\\u"@ + hex4(low) + ") not prefixed with a high surrogate!"@,
            Self::MissingLowSurrogate { high } => "Found a high surrogate (\\u"@ + hex4(high) + ") not followed by a low surrogate!"@,
            Self::InvalidLowSurrogate { high, low } => "Invalid low surrogate (\\u"@ + hex4(low) + ") after a high surrogate (\\u"@ + hex4(high) + "!)"@,
        }
    }

    /// Describes the error in words.
    pub fn to_string(&self) -> (r: std::string::String)
        ensures
            r@ == self.message(),
    {
        match *self {
            Self::UnexpectedEnd => std::string::String::from_str("Unexpected end of JSON string (missing \")!"),
            Self::InvalidEscape(c) => {
                let mut out = std::string::String::from_str("Invalid escape character (");
                out.push(c);
                out.append(") in JSON string!");
                out
            },
            Self::InvalidUnicodeEscape(c) => {
                let mut out = std::string::String::from_str("Invalid character (");
                out.push(c);
                out.append(") in unicode escape in JSON string!");
                out
            },
            Self::MissingHighSurrogate { low } => {
                let mut out = std::string::String::from_str("Found a low surrogate (\\u");
                push_hex4(&mut out, low);
                out.append(") not prefixed with a high surrogate!");
                out
            },
            Self::MissingLowSurrogate { high } => {
                let mut out = std::string::String::from_str("Found a high surrogate (\\u");
                push_hex4(&mut out, high);
                out.append(") not followed by a low surrogate!");
                out
            },
            Self::InvalidLowSurrogate { high, low } => {
                let mut out = std::string::String::from_str("Invalid low surrogate (\\u");
                push_hex4(&mut out, low);
                out.append(") after a high surrogate (\\u");
                push_hex4(&mut out, high);
                out.append("!)");
                out
            },
        }
    }
}

} // verus!
