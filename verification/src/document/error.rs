//! The errors of documents.

use crate::any::ParseAnyError;
use vstd::prelude::*;
use vstd::std_specs::convert::FromSpecImpl;

verus! {

/// Why a document could not be parsed.
#[derive(Clone, Copy, Debug, PartialEq, Eq, Hash, Structural)]
pub enum ParseDocumentError {
    /// The text ended before a value was found.
    UnexpectedEnd,
    /// The first character that is no whitespace starts no value.
    InvalidElement(char),
    /// A character that is no whitespace follows the value.
    UnexpectedCharacter(char),
}

/// Why a document could not be read to its end.
#[derive(Clone, Copy, Debug, PartialEq, Eq, Hash, Structural)]
pub enum ParseAnyDocumentError {
    /// The document itself failed.
    Document(ParseDocumentError),
    /// Its value failed.
    Any(ParseAnyError),
}

impl ParseDocumentError {
    /// The message that describes the error.
    pub open spec fn message(self) -> Seq<char> {
        match self {
            Self::UnexpectedEnd => "Unexpected end of JSON document (expected a JSON value)!"@,
            Self::InvalidElement(c) => "Invalid character ("@ + seq![c] + ") in JSON document (expected an element)!"@,
            Self::UnexpectedCharacter(c) => "Unexpected character ("@ + seq![c] + ") at the end of JSON document!"@,
        }
    }

    /// Describes the error in words.
    pub fn to_string(&self) -> (r: std::string::String)
        ensures
            r@ == self.message(),
    {
        match *self {
            Self::UnexpectedEnd => std::string::String::from_str("Unexpected end of JSON document (expected a JSON value)!"),
            Self::InvalidElement(c) => {
                let mut out = std::string::String::from_str("Invalid character (");
                out.push(c);
                out.append(") in JSON document (expected an element)!");
                out
            },
            Self::UnexpectedCharacter(c) => {
                let mut out = std::string::String::from_str("Unexpected character (");
                out.push(c);
                out.append(") at the end of JSON document!");
                out
            },
        }
    }
}

impl ParseAnyDocumentError {
    /// The message that describes the error.
    pub open spec fn message(self) -> Seq<char> {
        match self {
            Self::Document(err) => err.message(),
            Self::Any(err) => err.message(),
        }
    }

    /// Describes the error in the words of what failed, the document or its value.
    pub fn to_string(&self) -> (r: std::string::String)
        ensures
            r@ == self.message(),
    {
        match *self {
            Self::Document(err) => err.to_string(),
            Self::Any(err) => err.to_string(),
        }
    }
}

impl From<ParseDocumentError> for ParseAnyDocumentError {
    /// The error of the driver itself.
    fn from(value: ParseDocumentError) -> (r: Self) {
        ParseAnyDocumentError::Document(value)
    }
}

impl FromSpecImpl<ParseDocumentError> for ParseAnyDocumentError {
    open spec fn obeys_from_spec() -> bool {
        true
    }

    open spec fn from_spec(value: ParseDocumentError) -> Self {
        ParseAnyDocumentError::Document(value)
    }
}

impl From<ParseAnyError> for ParseAnyDocumentError {
    /// The error of a value.
    fn from(value: ParseAnyError) -> (r: Self) {
        ParseAnyDocumentError::Any(value)
    }
}

impl FromSpecImpl<ParseAnyError> for ParseAnyDocumentError {
    open spec fn obeys_from_spec() -> bool {
        true
    }

    open spec fn from_spec(value: ParseAnyError) -> Self {
        ParseAnyDocumentError::Any(value)
    }
}

impl From<crate::string::ParseStringError> for ParseAnyDocumentError {
    /// The error of a string, as the error of a value.
    fn from(value: crate::string::ParseStringError) -> (r: Self) {
        ParseAnyDocumentError::Any(ParseAnyError::String(value))
    }
}

impl FromSpecImpl<crate::string::ParseStringError> for ParseAnyDocumentError {
    open spec fn obeys_from_spec() -> bool {
        true
    }

    open spec fn from_spec(value: crate::string::ParseStringError) -> Self {
        ParseAnyDocumentError::Any(ParseAnyError::String(value))
    }
}

impl From<crate::number::ParseNumberError> for ParseAnyDocumentError {
    /// The error of a number, as the error of a value.
    fn from(value: crate::number::ParseNumberError) -> (r: Self) {
        ParseAnyDocumentError::Any(ParseAnyError::Number(value))
    }
}

impl FromSpecImpl<crate::number::ParseNumberError> for ParseAnyDocumentError {
    open spec fn obeys_from_spec() -> bool {
        true
    }

    open spec fn from_spec(value: crate::number::ParseNumberError) -> Self {
        ParseAnyDocumentError::Any(ParseAnyError::Number(value))
    }
}

impl From<crate::object::ParseObjectError> for ParseAnyDocumentError {
    /// The error of an object, as the error of a value.
    fn from(value: crate::object::ParseObjectError) -> (r: Self) {
        ParseAnyDocumentError::Any(ParseAnyError::Object(value))
    }
}

impl FromSpecImpl<crate::object::ParseObjectError> for ParseAnyDocumentError {
    open spec fn obeys_from_spec() -> bool {
        true
    }

    open spec fn from_spec(value: crate::object::ParseObjectError) -> Self {
        ParseAnyDocumentError::Any(ParseAnyError::Object(value))
    }
}

impl From<crate::array::ParseArrayError> for ParseAnyDocumentError {
    /// The error of an array, as the error of a value.
    fn from(value: crate::array::ParseArrayError) -> (r: Self) {
        ParseAnyDocumentError::Any(ParseAnyError::Array(value))
    }
}

impl FromSpecImpl<crate::array::ParseArrayError> for ParseAnyDocumentError {
    open spec fn obeys_from_spec() -> bool {
        true
    }

    open spec fn from_spec(value: crate::array::ParseArrayError) -> Self {
        ParseAnyDocumentError::Any(ParseAnyError::Array(value))
    }
}

impl From<crate::literal::ParseLiteralError> for ParseAnyDocumentError {
    /// The error of a literal, as the error of a value.
    fn from(value: crate::literal::ParseLiteralError) -> (r: Self) {
        ParseAnyDocumentError::Any(ParseAnyError::Literal(value))
    }
}

impl FromSpecImpl<crate::literal::ParseLiteralError> for ParseAnyDocumentError {
    open spec fn obeys_from_spec() -> bool {
        true
    }

    open spec fn from_spec(value: crate::literal::ParseLiteralError) -> Self {
        ParseAnyDocumentError::Any(ParseAnyError::Literal(value))
    }
}

} // verus!
