//! The order of parsed numbers and integers.

use crate::number::parsed::ParsedNumber;
use core::cmp::Ordering;
use vstd::prelude::*;
use vstd::std_specs::cmp::PartialOrdSpecImpl;

verus! {

impl<'json> PartialOrd<u8> for ParsedNumber<'json> {
    /// How the number compares with the integer `other`, where it is a `u8`
    /// itself.
    fn partial_cmp(&self, other: &u8) -> (r: Option<Ordering>) {
        match self.as_u8() {
            Some(n) => Some(
                if n < *other {
                    Ordering::Less
                } else if n == *other {
                    Ordering::Equal
                } else {
                    Ordering::Greater
                },
            ),
            None => None,
        }
    }
}

impl<'json> PartialOrdSpecImpl<u8> for ParsedNumber<'json> {
    open spec fn obeys_partial_cmp_spec() -> bool {
        true
    }

    open spec fn partial_cmp_spec(&self, other: &u8) -> Option<Ordering> {
        match self.spec_as_u8() {
            Some(n) => Some(
                if n < *other {
                    Ordering::Less
                } else if n == *other {
                    Ordering::Equal
                } else {
                    Ordering::Greater
                },
            ),
            None => None,
        }
    }
}

impl<'json> PartialOrd<u16> for ParsedNumber<'json> {
    /// How the number compares with the integer `other`, where it is a `u16`
    /// itself.
    fn partial_cmp(&self, other: &u16) -> (r: Option<Ordering>) {
        match self.as_u16() {
            Some(n) => Some(
                if n < *other {
                    Ordering::Less
                } else if n == *other {
                    Ordering::Equal
                } else {
                    Ordering::Greater
                },
            ),
            None => None,
        }
    }
}

impl<'json> PartialOrdSpecImpl<u16> for ParsedNumber<'json> {
    open spec fn obeys_partial_cmp_spec() -> bool {
        true
    }

    open spec fn partial_cmp_spec(&self, other: &u16) -> Option<Ordering> {
        match self.spec_as_u16() {
            Some(n) => Some(
                if n < *other {
                    Ordering::Less
                } else if n == *other {
                    Ordering::Equal
                } else {
                    Ordering::Greater
                },
            ),
            None => None,
        }
    }
}

impl<'json> PartialOrd<u32> for ParsedNumber<'json> {
    /// How the number compares with the integer `other`, where it is a `u32`
    /// itself.
    fn partial_cmp(&self, other: &u32) -> (r: Option<Ordering>) {
        match self.as_u32() {
            Some(n) => Some(
                if n < *other {
                    Ordering::Less
                } else if n == *other {
                    Ordering::Equal
                } else {
                    Ordering::Greater
                },
            ),
            None => None,
        }
    }
}

impl<'json> PartialOrdSpecImpl<u32> for ParsedNumber<'json> {
    open spec fn obeys_partial_cmp_spec() -> bool {
        true
    }

    open spec fn partial_cmp_spec(&self, other: &u32) -> Option<Ordering> {
        match self.spec_as_u32() {
            Some(n) => Some(
                if n < *other {
                    Ordering::Less
                } else if n == *other {
                    Ordering::Equal
                } else {
                    Ordering::Greater
                },
            ),
            None => None,
        }
    }
}

impl<'json> PartialOrd<u64> for ParsedNumber<'json> {
    /// How the number compares with the integer `other`, where it is a `u64`
    /// itself.
    fn partial_cmp(&self, other: &u64) -> (r: Option<Ordering>) {
        match self.as_u64() {
            Some(n) => Some(
                if n < *other {
                    Ordering::Less
                } else if n == *other {
                    Ordering::Equal
                } else {
                    Ordering::Greater
                },
            ),
            None => None,
        }
    }
}

impl<'json> PartialOrdSpecImpl<u64> for ParsedNumber<'json> {
    open spec fn obeys_partial_cmp_spec() -> bool {
        true
    }

    open spec fn partial_cmp_spec(&self, other: &u64) -> Option<Ordering> {
        match self.spec_as_u64() {
            Some(n) => Some(
                if n < *other {
                    Ordering::Less
                } else if n == *other {
                    Ordering::Equal
                } else {
                    Ordering::Greater
                },
            ),
            None => None,
        }
    }
}

impl<'json> PartialOrd<u128> for ParsedNumber<'json> {
    /// How the number compares with the integer `other`, where it is a `u128`
    /// itself.
    fn partial_cmp(&self, other: &u128) -> (r: Option<Ordering>) {
        match self.as_u128() {
            Some(n) => Some(
                if n < *other {
                    Ordering::Less
                } else if n == *other {
                    Ordering::Equal
                } else {
                    Ordering::Greater
                },
            ),
            None => None,
        }
    }
}

impl<'json> PartialOrdSpecImpl<u128> for ParsedNumber<'json> {
    open spec fn obeys_partial_cmp_spec() -> bool {
        true
    }

    open spec fn partial_cmp_spec(&self, other: &u128) -> Option<Ordering> {
        match self.spec_as_u128() {
            Some(n) => Some(
                if n < *other {
                    Ordering::Less
                } else if n == *other {
                    Ordering::Equal
                } else {
                    Ordering::Greater
                },
            ),
            None => None,
        }
    }
}

impl<'json> PartialOrd<i8> for ParsedNumber<'json> {
    /// How the number compares with the integer `other`, where it is an `i8`
    /// itself.
    fn partial_cmp(&self, other: &i8) -> (r: Option<Ordering>) {
        match self.as_i8() {
            Some(n) => Some(
                if n < *other {
                    Ordering::Less
                } else if n == *other {
                    Ordering::Equal
                } else {
                    Ordering::Greater
                },
            ),
            None => None,
        }
    }
}

impl<'json> PartialOrdSpecImpl<i8> for ParsedNumber<'json> {
    open spec fn obeys_partial_cmp_spec() -> bool {
        true
    }

    open spec fn partial_cmp_spec(&self, other: &i8) -> Option<Ordering> {
        match self.spec_as_i8() {
            Some(n) => Some(
                if n < *other {
                    Ordering::Less
                } else if n == *other {
                    Ordering::Equal
                } else {
                    Ordering::Greater
                },
            ),
            None => None,
        }
    }
}

impl<'json> PartialOrd<i16> for ParsedNumber<'json> {
    /// How the number compares with the integer `other`, where it is an `i16`
    /// itself.
    fn partial_cmp(&self, other: &i16) -> (r: Option<Ordering>) {
        match self.as_i16() {
            Some(n) => Some(
                if n < *other {
                    Ordering::Less
                } else if n == *other {
                    Ordering::Equal
                } else {
                    Ordering::Greater
                },
            ),
            None => None,
        }
    }
}

impl<'json> PartialOrdSpecImpl<i16> for ParsedNumber<'json> {
    open spec fn obeys_partial_cmp_spec() -> bool {
        true
    }

    open spec fn partial_cmp_spec(&self, other: &i16) -> Option<Ordering> {
        match self.spec_as_i16() {
            Some(n) => Some(
                if n < *other {
                    Ordering::Less
                } else if n == *other {
                    Ordering::Equal
                } else {
                    Ordering::Greater
                },
            ),
            None => None,
        }
    }
}

impl<'json> PartialOrd<i32> for ParsedNumber<'json> {
    /// How the number compares with the integer `other`, where it is an `i32`
    /// itself.
    fn partial_cmp(&self, other: &i32) -> (r: Option<Ordering>) {
        match self.as_i32() {
            Some(n) => Some(
                if n < *other {
                    Ordering::Less
                } else if n == *other {
                    Ordering::Equal
                } else {
                    Ordering::Greater
                },
            ),
            None => None,
        }
    }
}

impl<'json> PartialOrdSpecImpl<i32> for ParsedNumber<'json> {
    open spec fn obeys_partial_cmp_spec() -> bool {
        true
    }

    open spec fn partial_cmp_spec(&self, other: &i32) -> Option<Ordering> {
        match self.spec_as_i32() {
            Some(n) => Some(
                if n < *other {
                    Ordering::Less
                } else if n == *other {
                    Ordering::Equal
                } else {
                    Ordering::Greater
                },
            ),
            None => None,
        }
    }
}

impl<'json> PartialOrd<i64> for ParsedNumber<'json> {
    /// How the number compares with the integer `other`, where it is an `i64`
    /// itself.
    fn partial_cmp(&self, other: &i64) -> (r: Option<Ordering>) {
        match self.as_i64() {
            Some(n) => Some(
                if n < *other {
                    Ordering::Less
                } else if n == *other {
                    Ordering::Equal
                } else {
                    Ordering::Greater
                },
            ),
            None => None,
        }
    }
}

impl<'json> PartialOrdSpecImpl<i64> for ParsedNumber<'json> {
    open spec fn obeys_partial_cmp_spec() -> bool {
        true
    }

    open spec fn partial_cmp_spec(&self, other: &i64) -> Option<Ordering> {
        match self.spec_as_i64() {
            Some(n) => Some(
                if n < *other {
                    Ordering::Less
                } else if n == *other {
                    Ordering::Equal
                } else {
                    Ordering::Greater
                },
            ),
            None => None,
        }
    }
}

impl<'json> PartialOrd<i128> for ParsedNumber<'json> {
    /// How the number compares with the integer `other`, where it is an `i128`
    /// itself.
    fn partial_cmp(&self, other: &i128) -> (r: Option<Ordering>) {
        match self.as_i128() {
            Some(n) => Some(
                if n < *other {
                    Ordering::Less
                } else if n == *other {
                    Ordering::Equal
                } else {
                    Ordering::Greater
                },
            ),
            None => None,
        }
    }
}

impl<'json> PartialOrdSpecImpl<i128> for ParsedNumber<'json> {
    open spec fn obeys_partial_cmp_spec() -> bool {
        true
    }

    open spec fn partial_cmp_spec(&self, other: &i128) -> Option<Ordering> {
        match self.spec_as_i128() {
            Some(n) => Some(
                if n < *other {
                    Ordering::Less
                } else if n == *other {
                    Ordering::Equal
                } else {
                    Ordering::Greater
                },
            ),
            None => None,
        }
    }
}

} // verus!
