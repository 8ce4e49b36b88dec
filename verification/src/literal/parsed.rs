//! Parsed literals.

use vstd::prelude::*;
use vstd::std_specs::cmp::PartialEqSpecImpl;
use vstd::std_specs::convert::FromSpecImpl;

verus! {

/// A parsed literal.
#[derive(Clone, Copy, Debug, PartialEq, Eq, Hash, Structural)]
pub enum ParsedLiteral {
    /// `true`
    True,
    /// `false`
    False,
    /// `null`
    Null,
}

impl ParsedLiteral {
    /// The truth value of the literal; `null` has none.
    pub open spec fn spec_as_bool(self) -> Option<bool> {
        match self {
            Self::True => Some(true),
            Self::False => Some(false),
            Self::Null => None,
        }
    }

    /// The literal as a `bool`, or `None` for `null`.
    #[verifier::when_used_as_spec(spec_as_bool)]
    pub fn as_bool(self) -> (r: Option<bool>)
        ensures
            r == self.spec_as_bool(),
    {
        match self {
            Self::True => Some(true),
            Self::False => Some(false),
            Self::Null => None,
        }
    }

    /// Whether the literal is `null`.
    pub fn is_null(self) -> (r: bool)
        ensures
            r == (self is Null),
    {
        match self {
            Self::Null => true,
            _ => false,
        }
    }

    /// The text of the literal.
    pub open spec fn text(self) -> Seq<char> {
        match self {
            Self::True => seq!['t', 'r', 'u', 'e'],
            Self::False => seq!['f', 'a', 'l', 's', 'e'],
            Self::Null => seq!['n', 'u', 'l', 'l'],
        }
    }

    /// The literal as it is written in JSON, as a string of its own.
    pub fn to_string(&self) -> (r: std::string::String)
        ensures
            r@ == self.text(),
    {
        std::string::String::from_str(self.as_str())
    }

    /// The literal as it is written in JSON.
    pub fn as_str(self) -> (r: &'static str)
        ensures
            r@ == self.text(),
    {
        match self {
            Self::True => {
                proof {
                    reveal_strlit("true");
                }
                assert("true"@ =~= self.text());
                "true"
            },
            Self::False => {
                proof {
                    reveal_strlit("false");
                }
                assert("false"@ =~= self.text());
                "false"
            },
            Self::Null => {
                proof {
                    reveal_strlit("null");
                }
                assert("null"@ =~= self.text());
                "null"
            },
        }
    }
}

impl From<ParsedLiteral> for Option<bool> {
    /// The truth value of the literal; `null` has none.
    fn from(value: ParsedLiteral) -> (r: Self) {
        value.as_bool()
    }
}

impl FromSpecImpl<ParsedLiteral> for Option<bool> {
    open spec fn obeys_from_spec() -> bool {
        true
    }

    open spec fn from_spec(value: ParsedLiteral) -> Self {
        value.spec_as_bool()
    }
}

impl PartialEq<bool> for ParsedLiteral {
    /// Whether the literal is the truth value `other`.
    fn eq(&self, other: &bool) -> (r: bool) {
        match self {
            Self::True => *other,
            Self::False => !*other,
            Self::Null => false,
        }
    }
}

impl PartialEqSpecImpl<bool> for ParsedLiteral {
    open spec fn obeys_eq_spec() -> bool {
        true
    }

    open spec fn eq_spec(&self, other: &bool) -> bool {
        self.spec_as_bool() == Some(*other)
    }
}

impl PartialEq<Option<bool>> for ParsedLiteral {
    /// Whether the literal has the truth value `other`, where `None` stands for
    /// `null`.
    fn eq(&self, other: &Option<bool>) -> (r: bool) {
        match self {
            Self::True => match other {
                Some(b) => *b,
                None => false,
            },
            Self::False => match other {
                Some(b) => !*b,
                None => false,
            },
            Self::Null => other.is_none(),
        }
    }
}

impl PartialEqSpecImpl<Option<bool>> for ParsedLiteral {
    open spec fn obeys_eq_spec() -> bool {
        true
    }

    open spec fn eq_spec(&self, other: &Option<bool>) -> bool {
        self.spec_as_bool() == *other
    }
}

} // verus!
