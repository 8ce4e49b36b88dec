//! The error of a value of any kind.

use crate::array::ParseArrayError;
use crate::literal::ParseLiteralError;
use crate::number::ParseNumberError;
use crate::object::ParseObjectError;
use crate::string::ParseStringError;
use vstd::prelude::*;
use vstd::std_specs::convert::FromSpecImpl;

verus! {

/// Why a value of any kind could not be parsed.
#[derive(Clone, Copy, Debug, PartialEq, Eq, Hash, Structural)]
pub enum ParseAnyError {
    /// A string failed.
    String(ParseStringError),
    /// A number failed.
    Number(ParseNumberError),
    /// An object failed.
    Object(ParseObjectError),
    /// An array failed.
    Array(ParseArrayError),
    /// A literal failed.
    Literal(ParseLiteralError),
}

impl ParseAnyError {
    /// The message that describes the error.
    pub open spec fn message(self) -> Seq<char> {
        match self {
            Self::String(err) => err.message(),
            Self::Number(err) => err.message(),
            Self::Object(err) => err.message(),
            Self::Array(err) => err.message(),
            Self::Literal(err) => err.message(),
        }
    }

    /// Describes the error in the words of the kind of value that failed.
    pub fn to_string(&self) -> (r: std::string::String)
        ensures
            r@ == self.message(),
    {
        match *self {
            Self::String(err) => err.to_string(),
            Self::Number(err) => err.to_string(),
            Self::Object(err) => err.to_string(),
            Self::Array(err) => err.to_string(),
            Self::Literal(err) => err.to_string(),
        }
    }
}

impl From<ParseStringError> for ParseAnyError {
    /// The error of a string as the error of a value of any kind.
    fn from(value: ParseStringError) -> (r: Self) {
        ParseAnyError::String(value)
    }
}

impl FromSpecImpl<ParseStringError> for ParseAnyError {
    open spec fn obeys_from_spec() -> bool {
        true
    }

    open spec fn from_spec(value: ParseStringError) -> Self {
        ParseAnyError::String(value)
    }
}

impl From<ParseNumberError> for ParseAnyError {
    /// The error of a number as the error of a value of any kind.
    fn from(value: ParseNumberError) -> (r: Self) {
        ParseAnyError::Number(value)
    }
}

impl FromSpecImpl<ParseNumberError> for ParseAnyError {
    open spec fn obeys_from_spec() -> bool {
        true
    }

    open spec fn from_spec(value: ParseNumberError) -> Self {
        ParseAnyError::Number(value)
    }
}

impl From<ParseObjectError> for ParseAnyError {
    /// The error of an object as the error of a value of any kind.
    fn from(value: ParseObjectError) -> (r: Self) {
        ParseAnyError::Object(value)
    }
}

impl FromSpecImpl<ParseObjectError> for ParseAnyError {
    open spec fn obeys_from_spec() -> bool {
        true
    }

    open spec fn from_spec(value: ParseObjectError) -> Self {
        ParseAnyError::Object(value)
    }
}

impl From<ParseArrayError> for ParseAnyError {
    /// The error of an array as the error of a value of any kind.
    fn from(value: ParseArrayError) -> (r: Self) {
        ParseAnyError::Array(value)
    }
}

impl FromSpecImpl<ParseArrayError> for ParseAnyError {
    open spec fn obeys_from_spec() -> bool {
        true
    }

    open spec fn from_spec(value: ParseArrayError) -> Self {
        ParseAnyError::Array(value)
    }
}

impl From<ParseLiteralError> for ParseAnyError {
    /// The error of a literal as the error of a value of any kind.
    fn from(value: ParseLiteralError) -> (r: Self) {
        ParseAnyError::Literal(value)
    }
}

impl FromSpecImpl<ParseLiteralError> for ParseAnyError {
    open spec fn obeys_from_spec() -> bool {
        true
    }

    open spec fn from_spec(value: ParseLiteralError) -> Self {
        ParseAnyError::Literal(value)
    }
}

} // verus!
