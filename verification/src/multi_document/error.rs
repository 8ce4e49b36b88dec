//! The errors of multi-documents.

use crate::any::ParseAnyError;
use vstd::prelude::*;
use vstd::std_specs::convert::FromSpecImpl;

verus! {

/// Why a multi-document could not be parsed.
#[derive(Clone, Copy, Debug, PartialEq, Eq, Hash, Structural)]
pub enum ParseMultiDocumentError {
    /// A character that is no whitespace and starts no value.
    InvalidElement(char),
}

/// Why a multi-document could not be read to its end.
#[derive(Clone, Copy, Debug, PartialEq, Eq, Hash, Structural)]
pub enum ParseAnyMultiDocumentError {
    /// The multi-document itself failed.
    MultiDocument(ParseMultiDocumentError),
    /// One of its values failed.
    Any(ParseAnyError),
}

impl ParseMultiDocumentError {
    /// The message that describes the error.
    pub open spec fn message(self) -> Seq<char> {
        match self {
            Self::InvalidElement(c) => "Invalid character ("@ + seq![c] + ") in JSON document (expected an element)!"@,
        }
    }

    /// Describes the error in words.
    pub fn to_string(&self) -> (r: std::string::String)
        ensures
            r@ == self.message(),
    {
        match *self {
            Self::InvalidElement(c) => {
                let mut out = std::string::String::from_str("Invalid character (");
                out.push(c);
                out.append(") in JSON document (expected an element)!");
                out
            },
        }
    }
}

impl ParseAnyMultiDocumentError {
    /// The message that describes the error.
    pub open spec fn message(self) -> Seq<char> {
        match self {
            Self::MultiDocument(err) => err.message(),
            Self::Any(err) => err.message(),
        }
    }

    /// Describes the error in the words of what failed, the multi-document or one of its values.
    pub fn to_string(&self) -> (r: std::string::String)
        ensures
            r@ == self.message(),
    {
        match *self {
            Self::MultiDocument(err) => err.to_string(),
            Self::Any(err) => err.to_string(),
        }
    }
}

impl From<ParseMultiDocumentError> for ParseAnyMultiDocumentError {
    /// The error of the driver itself.
    fn from(value: ParseMultiDocumentError) -> (r: Self) {
        ParseAnyMultiDocumentError::MultiDocument(value)
    }
}

impl FromSpecImpl<ParseMultiDocumentError> for ParseAnyMultiDocumentError {
    open spec fn obeys_from_spec() -> bool {
        true
    }

    open spec fn from_spec(value: ParseMultiDocumentError) -> Self {
        ParseAnyMultiDocumentError::MultiDocument(value)
    }
}

impl From<ParseAnyError> for ParseAnyMultiDocumentError {
    /// The error of a value.
    fn from(value: ParseAnyError) -> (r: Self) {
        ParseAnyMultiDocumentError::Any(value)
    }
}

impl FromSpecImpl<ParseAnyError> for ParseAnyMultiDocumentError {
    open spec fn obeys_from_spec() -> bool {
        true
    }

    open spec fn from_spec(value: ParseAnyError) -> Self {
        ParseAnyMultiDocumentError::Any(value)
    }
}

impl From<crate::string::ParseStringError> for ParseAnyMultiDocumentError {
    /// The error of a string, as the error of a value.
    fn from(value: crate::string::ParseStringError) -> (r: Self) {
        ParseAnyMultiDocumentError::Any(ParseAnyError::String(value))
    }
}

impl FromSpecImpl<crate::string::ParseStringError> for ParseAnyMultiDocumentError {
    open spec fn obeys_from_spec() -> bool {
        true
    }

    open spec fn from_spec(value: crate::string::ParseStringError) -> Self {
        ParseAnyMultiDocumentError::Any(ParseAnyError::String(value))
    }
}

impl From<crate::number::ParseNumberError> for ParseAnyMultiDocumentError {
    /// The error of a number, as the error of a value.
    fn from(value: crate::number::ParseNumberError) -> (r: Self) {
        ParseAnyMultiDocumentError::Any(ParseAnyError::Number(value))
    }
}

impl FromSpecImpl<crate::number::ParseNumberError> for ParseAnyMultiDocumentError {
    open spec fn obeys_from_spec() -> bool {
        true
    }

    open spec fn from_spec(value: crate::number::ParseNumberError) -> Self {
        ParseAnyMultiDocumentError::Any(ParseAnyError::Number(value))
    }
}

impl From<crate::object::ParseObjectError> for ParseAnyMultiDocumentError {
    /// The error of an object, as the error of a value.
    fn from(value: crate::object::ParseObjectError) -> (r: Self) {
        ParseAnyMultiDocumentError::Any(ParseAnyError::Object(value))
    }
}

impl FromSpecImpl<crate::object::ParseObjectError> for ParseAnyMultiDocumentError {
    open spec fn obeys_from_spec() -> bool {
        true
    }

    open spec fn from_spec(value: crate::object::ParseObjectError) -> Self {
        ParseAnyMultiDocumentError::Any(ParseAnyError::Object(value))
    }
}

impl From<crate::array::ParseArrayError> for ParseAnyMultiDocumentError {
    /// The error of an array, as the error of a value.
    fn from(value: crate::array::ParseArrayError) -> (r: Self) {
        ParseAnyMultiDocumentError::Any(ParseAnyError::Array(value))
    }
}

impl FromSpecImpl<crate::array::ParseArrayError> for ParseAnyMultiDocumentError {
    open spec fn obeys_from_spec() -> bool {
        true
    }

    open spec fn from_spec(value: crate::array::ParseArrayError) -> Self {
        ParseAnyMultiDocumentError::Any(ParseAnyError::Array(value))
    }
}

impl From<crate::literal::ParseLiteralError> for ParseAnyMultiDocumentError {
    /// The error of a literal, as the error of a value.
    fn from(value: crate::literal::ParseLiteralError) -> (r: Self) {
        ParseAnyMultiDocumentError::Any(ParseAnyError::Literal(value))
    }
}

impl FromSpecImpl<crate::literal::ParseLiteralError> for ParseAnyMultiDocumentError {
    open spec fn obeys_from_spec() -> bool {
        true
    }

    open spec fn from_spec(value: crate::literal::ParseLiteralError) -> Self {
        ParseAnyMultiDocumentError::Any(ParseAnyError::Literal(value))
    }
}

} // verus!
