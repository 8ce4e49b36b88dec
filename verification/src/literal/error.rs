//! The errors of literals.

use vstd::prelude::*;

verus! {

/// Why a literal could not be parsed.
#[derive(Clone, Copy, Debug, PartialEq, Eq, Hash, Structural)]
pub enum ParseLiteralError {
    /// The text ended before the literal was complete.
    UnexpectedEnd,
    /// A character that does not continue `true`, `false` or `null`.
    UnexpectedCharacter(char),
}

impl ParseLiteralError {
    /// The message that describes the error.
    pub open spec fn message(self) -> Seq<char> {
        match self {
            Self::UnexpectedEnd => "Unexpected end of JSON literal!"@,
            Self::UnexpectedCharacter(c) => "Invalid character ("@ + seq![c] + ") in JSON literal!"@,
        }
    }

    /// Describes the error in words.
    pub fn to_string(&self) -> (r: std::string::String)
        ensures
            r@ == self.message(),
    {
        match *self {
            Self::UnexpectedEnd => std::string::String::from_str("Unexpected end of JSON literal!"),
            Self::UnexpectedCharacter(c) => {
                let mut out = std::string::String::from_str("Invalid character (");
                out.push(c);
                out.append(") in JSON literal!");
                out
            },
        }
    }
}

} // verus!
