//! Parsed numbers, and their conversions to integers.

use crate::number::machine::{is_digit, Machine};
use crate::text::split_first;
use vstd::prelude::*;
use vstd::std_specs::cmp::PartialEqSpecImpl;

verus! {

/// The value of a decimal digit.
pub open spec fn digit_value(c: char) -> nat
    recommends
        is_digit(c),
{
    (c as u32 - '0' as u32) as nat
}

/// The number that `s` denotes when it is one or more decimal digits.
pub open spec fn digits_value(s: Seq<char>) -> Option<nat>
    decreases s.len(),
{
    if s.len() == 0 || !is_digit(s.last()) {
        None
    } else if s.len() == 1 {
        Some(digit_value(s[0]))
    } else {
        match digits_value(s.drop_last()) {
            Some(v) => Some(v * 10 + digit_value(s.last())),
            None => None,
        }
    }
}

/// The integer that `s` denotes: decimal digits after an optional `+`, or, where
/// `signed` allows it, an optional `-`.
pub open spec fn integer_value(s: Seq<char>, signed: bool) -> Option<int> {
    if s.len() > 0 && s[0] == '+' {
        match digits_value(s.skip(1)) {
            Some(v) => Some(v as int),
            None => None,
        }
    } else if signed && s.len() > 0 && s[0] == '-' {
        match digits_value(s.skip(1)) {
            Some(v) => Some(-(v as int)),
            None => None,
        }
    } else {
        match digits_value(s) {
            Some(v) => Some(v as int),
            None => None,
        }
    }
}

/// The integer that `s` denotes, where it lies between `min` and `max`.
pub open spec fn integer_in(s: Seq<char>, signed: bool, min: int, max: int) -> Option<int> {
    match integer_value(s, signed) {
        Some(v) if min <= v <= max => Some(v),
        _ => None,
    }
}

/// The decimal digit for a number below ten.
pub open spec fn digit_char(d: nat) -> char
    recommends
        d < 10,
{
    ('0' as u32 + d) as char
}

/// The decimal digits of `n`, without leading zeros.
pub open spec fn natural_text(n: nat) -> Seq<char>
    decreases n,
{
    if n < 10 {
        seq![digit_char(n)]
    } else {
        natural_text(n / 10).push(digit_char(n % 10))
    }
}

/// The text of the integer `n` as JSON writes it: its decimal digits, after a minus
/// sign where it is negative.
pub open spec fn integer_text(n: int) -> Seq<char> {
    if n < 0 {
        seq!['-'] + natural_text((-n) as nat)
    } else {
        natural_text(n as nat)
    }
}

/// The decimal digits of a number denote that number.
pub proof fn lemma_natural_text_value(n: nat)
    ensures
        digits_value(natural_text(n)) == Some(n),
        natural_text(n).len() > 0,
        is_digit(natural_text(n)[0]),
    decreases n,
{
    if n >= 10 {
        lemma_natural_text_value(n / 10);
        let text = natural_text(n);
        assert(text.drop_last() =~= natural_text(n / 10));
        assert(text.last() == digit_char(n % 10));
    }
}

/// An integer is read back from its text: by every conversion with a sign, and,
/// where it is not negative, by every conversion without one.
pub proof fn lemma_integer_text_value(n: int)
    ensures
        integer_value(integer_text(n), true) == Some(n),
        n >= 0 ==> integer_value(integer_text(n), false) == Some(n),
{
    if n < 0 {
        lemma_natural_text_value((-n) as nat);
        assert(integer_text(n).skip(1) =~= natural_text((-n) as nat));
    } else {
        lemma_natural_text_value(n as nat);
    }
}

/// The digits of a number that is not zero are read as the digits of an integer,
/// up to what follows them.
proof fn lemma_natural_text_scan(n: nat, signed: bool, rest: Seq<char>)
    requires
        n > 0,
    ensures
        crate::number::scan(Machine::Start { signed }, natural_text(n) + rest) == match crate::number::scan(
            Machine::InInteger,
            rest,
        ) {
            Ok(k) => Ok::<int, crate::number::ParseNumberError>(k + natural_text(n).len()),
            Err(e) => Err(e),
        },
        crate::number::scan(Machine::InInteger, natural_text(n) + rest) == match crate::number::scan(
            Machine::InInteger,
            rest,
        ) {
            Ok(k) => Ok::<int, crate::number::ParseNumberError>(k + natural_text(n).len()),
            Err(e) => Err(e),
        },
    decreases n,
{
    let text = natural_text(n);
    let last = seq![digit_char(n % 10)] + rest;
    assert(last[0] == digit_char(n % 10));
    assert(last.skip(1) =~= rest);
    if n < 10 {
        assert(text + rest =~= last);
    } else {
        assert(text + rest =~= natural_text(n / 10) + last);
        lemma_natural_text_scan(n / 10, signed, last);
    }
}

/// The text of an integer is a number as JSON writes it.
pub proof fn lemma_integer_text_is_number(n: int)
    ensures
        crate::number::number_end(integer_text(n)) == Ok::<int, crate::number::ParseNumberError>(
            integer_text(n).len() as int,
        ),
{
    let empty = Seq::<char>::empty();
    if n == 0 {
        reveal_with_fuel(crate::number::scan, 2);
        assert(integer_text(n).skip(1) =~= empty);
    } else if n > 0 {
        lemma_natural_text_scan(n as nat, false, empty);
        assert(integer_text(n) + empty =~= integer_text(n));
    } else {
        let digits = natural_text((-n) as nat);
        lemma_natural_text_scan((-n) as nat, true, empty);
        assert(digits + empty =~= digits);
        assert(integer_text(n)[0] == '-');
        assert(integer_text(n).skip(1) =~= digits);
    }
}

/// The digits before a digit string's end denote no more than the whole.
proof fn lemma_digits_prefix(s: Seq<char>, k: int)
    requires
        1 <= k <= s.len(),
        digits_value(s) is Some,
    ensures
        digits_value(s.take(k)) is Some,
        digits_value(s.take(k))->0 <= digits_value(s)->0,
    decreases s.len(),
{
    if k == s.len() {
        assert(s.take(k) =~= s);
    } else {
        assert(s.drop_last().take(k) =~= s.take(k));
        lemma_digits_prefix(s.drop_last(), k);
    }
}

/// Reads one or more decimal digits as a number that fits in 128 bits.
fn parse_digits(digits: &str) -> (r: Option<u128>)
    ensures
        r == match digits_value(digits@) {
            Some(v) if v <= u128::MAX => Some(v as u128),
            _ => None::<u128>,
        },
{
    let mut rest = digits;
    let mut value: u128 = 0;
    let ghost mut k: int = 0;
    loop
        invariant
            0 <= k <= digits@.len(),
            rest@ == digits@.skip(k),
            k == 0 ==> value == 0,
            k > 0 ==> digits_value(digits@.take(k)) == Some(value as nat),
        decreases rest@.len(),
    {
        match split_first(rest) {
            None => {
                assert(digits@.take(k) =~= digits@);
                return if digits.is_empty() {
                    None
                } else {
                    Some(value)
                };
            },
            Some((c, tail)) => {
                assert(tail@ =~= digits@.skip(k + 1));
                assert(digits@.take(k + 1).drop_last() =~= digits@.take(k));
                assert(digits@.take(k + 1).last() == c);
                if !('0' <= c && c <= '9') {
                    proof {
                        if digits_value(digits@) is Some {
                            lemma_digits_prefix(digits@, k + 1);
                        }
                    }
                    return None;
                }
                let d: u128 = (c as u32 - '0' as u32) as u128;
                let next = match value.checked_mul(10) {
                    Some(tens) => tens.checked_add(d),
                    None => None,
                };
                match next {
                    Some(next) => {
                        value = next;
                    },
                    None => {
                        proof {
                            if digits_value(digits@) is Some {
                                lemma_digits_prefix(digits@, k + 1);
                            }
                        }
                        return None;
                    },
                }
                rest = tail;
                proof {
                    k = k + 1;
                }
            },
        }
    }
}

/// Reads an integer without a minus sign that fits in 128 bits.
fn parse_unsigned(text: &str) -> (r: Option<u128>)
    ensures
        r == match integer_in(text@, false, 0, u128::MAX as int) {
            Some(v) => Some(v as u128),
            None => None::<u128>,
        },
{
    match split_first(text) {
        Some((c, tail)) if c == '+' => parse_digits(tail),
        _ => parse_digits(text),
    }
}

/// Reads an integer with an optional sign that fits in 128 bits.
fn parse_signed(text: &str) -> (r: Option<i128>)
    ensures
        r == match integer_in(text@, true, i128::MIN as int, i128::MAX as int) {
            Some(v) => Some(v as i128),
            None => None::<i128>,
        },
{
    match split_first(text) {
        Some((c, tail)) if c == '+' => match parse_digits(tail) {
            Some(v) if v <= i128::MAX as u128 => Some(v as i128),
            _ => None,
        },
        Some((c, tail)) if c == '-' => match parse_digits(tail) {
            Some(v) if v <= i128::MAX as u128 => Some(-(v as i128)),
            Some(v) if v == i128::MAX as u128 + 1 => Some(i128::MIN),
            _ => None,
        },
        _ => match parse_digits(text) {
            Some(v) if v <= i128::MAX as u128 => Some(v as i128),
            _ => None,
        },
    }
}

/// A parsed number: the text of the number as it was written.
#[derive(Clone, Copy, Debug)]
pub struct ParsedNumber<'json> {
    json: &'json str,
}

impl<'json> View for ParsedNumber<'json> {
    type V = Seq<char>;

    closed spec fn view(&self) -> Seq<char> {
        self.json@
    }
}

impl<'json> ParsedNumber<'json> {
    /// Takes `json` as the text of a number.
    pub fn new(json: &'json str) -> (r: Self)
        ensures
            r@ == json@,
    {
        Self { json }
    }

    /// The number as it was written, as a string of its own.
    pub fn to_string(&self) -> (r: std::string::String)
        ensures
            r@ == self@,
    {
        std::string::String::from_str(self.json)
    }

    /// The number as it was written.
    pub fn as_str(self) -> (r: &'json str)
        ensures
            r@ == self@,
    {
        self.json
    }

    /// The number as a `u8`, where its text is that of an integer in range.
    pub open spec fn spec_as_u8(self) -> Option<u8> {
        match integer_in(self@, false, 0, u8::MAX as int) {
            Some(v) => Some(v as u8),
            None => None,
        }
    }

    /// The number as a `u8`, where it is an integer in range.
    #[verifier::when_used_as_spec(spec_as_u8)]
    pub fn as_u8(self) -> (r: Option<u8>)
        ensures
            r == self.spec_as_u8(),
    {
        match parse_unsigned(self.json) {
            Some(v) if v <= u8::MAX as u128 => Some(v as u8),
            _ => None,
        }
    }

    /// The number as a `u16`, where its text is that of an integer in range.
    pub open spec fn spec_as_u16(self) -> Option<u16> {
        match integer_in(self@, false, 0, u16::MAX as int) {
            Some(v) => Some(v as u16),
            None => None,
        }
    }

    /// The number as a `u16`, where it is an integer in range.
    #[verifier::when_used_as_spec(spec_as_u16)]
    pub fn as_u16(self) -> (r: Option<u16>)
        ensures
            r == self.spec_as_u16(),
    {
        match parse_unsigned(self.json) {
            Some(v) if v <= u16::MAX as u128 => Some(v as u16),
            _ => None,
        }
    }

    /// The number as a `u32`, where its text is that of an integer in range.
    pub open spec fn spec_as_u32(self) -> Option<u32> {
        match integer_in(self@, false, 0, u32::MAX as int) {
            Some(v) => Some(v as u32),
            None => None,
        }
    }

    /// The number as a `u32`, where it is an integer in range.
    #[verifier::when_used_as_spec(spec_as_u32)]
    pub fn as_u32(self) -> (r: Option<u32>)
        ensures
            r == self.spec_as_u32(),
    {
        match parse_unsigned(self.json) {
            Some(v) if v <= u32::MAX as u128 => Some(v as u32),
            _ => None,
        }
    }

    /// The number as a `u64`, where its text is that of an integer in range.
    pub open spec fn spec_as_u64(self) -> Option<u64> {
        match integer_in(self@, false, 0, u64::MAX as int) {
            Some(v) => Some(v as u64),
            None => None,
        }
    }

    /// The number as a `u64`, where it is an integer in range.
    #[verifier::when_used_as_spec(spec_as_u64)]
    pub fn as_u64(self) -> (r: Option<u64>)
        ensures
            r == self.spec_as_u64(),
    {
        match parse_unsigned(self.json) {
            Some(v) if v <= u64::MAX as u128 => Some(v as u64),
            _ => None,
        }
    }

    /// The number as a `u128`, where its text is that of an integer in range.
    pub open spec fn spec_as_u128(self) -> Option<u128> {
        match integer_in(self@, false, 0, u128::MAX as int) {
            Some(v) => Some(v as u128),
            None => None,
        }
    }

    /// The number as a `u128`, where it is an integer in range.
    #[verifier::when_used_as_spec(spec_as_u128)]
    pub fn as_u128(self) -> (r: Option<u128>)
        ensures
            r == self.spec_as_u128(),
    {
        parse_unsigned(self.json)
    }

    /// The number as an `i8`, where its text is that of an integer in range.
    pub open spec fn spec_as_i8(self) -> Option<i8> {
        match integer_in(self@, true, i8::MIN as int, i8::MAX as int) {
            Some(v) => Some(v as i8),
            None => None,
        }
    }

    /// The number as an `i8`, where it is an integer in range.
    #[verifier::when_used_as_spec(spec_as_i8)]
    pub fn as_i8(self) -> (r: Option<i8>)
        ensures
            r == self.spec_as_i8(),
    {
        match parse_signed(self.json) {
            Some(v) if i8::MIN as i128 <= v && v <= i8::MAX as i128 => Some(v as i8),
            _ => None,
        }
    }

    /// The number as an `i16`, where its text is that of an integer in range.
    pub open spec fn spec_as_i16(self) -> Option<i16> {
        match integer_in(self@, true, i16::MIN as int, i16::MAX as int) {
            Some(v) => Some(v as i16),
            None => None,
        }
    }

    /// The number as an `i16`, where it is an integer in range.
    #[verifier::when_used_as_spec(spec_as_i16)]
    pub fn as_i16(self) -> (r: Option<i16>)
        ensures
            r == self.spec_as_i16(),
    {
        match parse_signed(self.json) {
            Some(v) if i16::MIN as i128 <= v && v <= i16::MAX as i128 => Some(v as i16),
            _ => None,
        }
    }

    /// The number as an `i32`, where its text is that of an integer in range.
    pub open spec fn spec_as_i32(self) -> Option<i32> {
        match integer_in(self@, true, i32::MIN as int, i32::MAX as int) {
            Some(v) => Some(v as i32),
            None => None,
        }
    }

    /// The number as an `i32`, where it is an integer in range.
    #[verifier::when_used_as_spec(spec_as_i32)]
    pub fn as_i32(self) -> (r: Option<i32>)
        ensures
            r == self.spec_as_i32(),
    {
        match parse_signed(self.json) {
            Some(v) if i32::MIN as i128 <= v && v <= i32::MAX as i128 => Some(v as i32),
            _ => None,
        }
    }

    /// The number as an `i64`, where its text is that of an integer in range.
    pub open spec fn spec_as_i64(self) -> Option<i64> {
        match integer_in(self@, true, i64::MIN as int, i64::MAX as int) {
            Some(v) => Some(v as i64),
            None => None,
        }
    }

    /// The number as an `i64`, where it is an integer in range.
    #[verifier::when_used_as_spec(spec_as_i64)]
    pub fn as_i64(self) -> (r: Option<i64>)
        ensures
            r == self.spec_as_i64(),
    {
        match parse_signed(self.json) {
            Some(v) if i64::MIN as i128 <= v && v <= i64::MAX as i128 => Some(v as i64),
            _ => None,
        }
    }

    /// The number as an `i128`, where its text is that of an integer in range.
    pub open spec fn spec_as_i128(self) -> Option<i128> {
        match integer_in(self@, true, i128::MIN as int, i128::MAX as int) {
            Some(v) => Some(v as i128),
            None => None,
        }
    }

    /// The number as an `i128`, where it is an integer in range.
    #[verifier::when_used_as_spec(spec_as_i128)]
    pub fn as_i128(self) -> (r: Option<i128>)
        ensures
            r == self.spec_as_i128(),
    {
        parse_signed(self.json)
    }

    /// A number with the text of an integer converts to that integer, in every
    /// type that holds it.
    pub proof fn lemma_converts(self, n: int)
        requires
            self@ == integer_text(n),
        ensures
            0 <= n <= u8::MAX ==> self.spec_as_u8() == Some(n as u8),
            0 <= n <= u16::MAX ==> self.spec_as_u16() == Some(n as u16),
            0 <= n <= u32::MAX ==> self.spec_as_u32() == Some(n as u32),
            0 <= n <= u64::MAX ==> self.spec_as_u64() == Some(n as u64),
            0 <= n <= u128::MAX ==> self.spec_as_u128() == Some(n as u128),
            i8::MIN <= n <= i8::MAX ==> self.spec_as_i8() == Some(n as i8),
            i16::MIN <= n <= i16::MAX ==> self.spec_as_i16() == Some(n as i16),
            i32::MIN <= n <= i32::MAX ==> self.spec_as_i32() == Some(n as i32),
            i64::MIN <= n <= i64::MAX ==> self.spec_as_i64() == Some(n as i64),
            i128::MIN <= n <= i128::MAX ==> self.spec_as_i128() == Some(n as i128),
    {
        lemma_integer_text_value(n);
    }
}

impl<'json> PartialEq<u8> for ParsedNumber<'json> {
    /// Whether the number is the integer `other`.
    fn eq(&self, other: &u8) -> (r: bool) {
        match self.as_u8() {
            Some(n) => n == *other,
            None => false,
        }
    }
}

impl<'json> PartialEqSpecImpl<u8> for ParsedNumber<'json> {
    open spec fn obeys_eq_spec() -> bool {
        true
    }

    open spec fn eq_spec(&self, other: &u8) -> bool {
        integer_value(self@, false) == Some(*other as int)
    }
}

impl<'json> PartialEq<u16> for ParsedNumber<'json> {
    /// Whether the number is the integer `other`.
    fn eq(&self, other: &u16) -> (r: bool) {
        match self.as_u16() {
            Some(n) => n == *other,
            None => false,
        }
    }
}

impl<'json> PartialEqSpecImpl<u16> for ParsedNumber<'json> {
    open spec fn obeys_eq_spec() -> bool {
        true
    }

    open spec fn eq_spec(&self, other: &u16) -> bool {
        integer_value(self@, false) == Some(*other as int)
    }
}

impl<'json> PartialEq<u32> for ParsedNumber<'json> {
    /// Whether the number is the integer `other`.
    fn eq(&self, other: &u32) -> (r: bool) {
        match self.as_u32() {
            Some(n) => n == *other,
            None => false,
        }
    }
}

impl<'json> PartialEqSpecImpl<u32> for ParsedNumber<'json> {
    open spec fn obeys_eq_spec() -> bool {
        true
    }

    open spec fn eq_spec(&self, other: &u32) -> bool {
        integer_value(self@, false) == Some(*other as int)
    }
}

impl<'json> PartialEq<u64> for ParsedNumber<'json> {
    /// Whether the number is the integer `other`.
    fn eq(&self, other: &u64) -> (r: bool) {
        match self.as_u64() {
            Some(n) => n == *other,
            None => false,
        }
    }
}

impl<'json> PartialEqSpecImpl<u64> for ParsedNumber<'json> {
    open spec fn obeys_eq_spec() -> bool {
        true
    }

    open spec fn eq_spec(&self, other: &u64) -> bool {
        integer_value(self@, false) == Some(*other as int)
    }
}

impl<'json> PartialEq<u128> for ParsedNumber<'json> {
    /// Whether the number is the integer `other`.
    fn eq(&self, other: &u128) -> (r: bool) {
        match self.as_u128() {
            Some(n) => n == *other,
            None => false,
        }
    }
}

impl<'json> PartialEqSpecImpl<u128> for ParsedNumber<'json> {
    open spec fn obeys_eq_spec() -> bool {
        true
    }

    open spec fn eq_spec(&self, other: &u128) -> bool {
        integer_value(self@, false) == Some(*other as int)
    }
}

impl<'json> PartialEq<i8> for ParsedNumber<'json> {
    /// Whether the number is the integer `other`.
    fn eq(&self, other: &i8) -> (r: bool) {
        match self.as_i8() {
            Some(n) => n == *other,
            None => false,
        }
    }
}

impl<'json> PartialEqSpecImpl<i8> for ParsedNumber<'json> {
    open spec fn obeys_eq_spec() -> bool {
        true
    }

    open spec fn eq_spec(&self, other: &i8) -> bool {
        integer_value(self@, true) == Some(*other as int)
    }
}

impl<'json> PartialEq<i16> for ParsedNumber<'json> {
    /// Whether the number is the integer `other`.
    fn eq(&self, other: &i16) -> (r: bool) {
        match self.as_i16() {
            Some(n) => n == *other,
            None => false,
        }
    }
}

impl<'json> PartialEqSpecImpl<i16> for ParsedNumber<'json> {
    open spec fn obeys_eq_spec() -> bool {
        true
    }

    open spec fn eq_spec(&self, other: &i16) -> bool {
        integer_value(self@, true) == Some(*other as int)
    }
}

impl<'json> PartialEq<i32> for ParsedNumber<'json> {
    /// Whether the number is the integer `other`.
    fn eq(&self, other: &i32) -> (r: bool) {
        match self.as_i32() {
            Some(n) => n == *other,
            None => false,
        }
    }
}

impl<'json> PartialEqSpecImpl<i32> for ParsedNumber<'json> {
    open spec fn obeys_eq_spec() -> bool {
        true
    }

    open spec fn eq_spec(&self, other: &i32) -> bool {
        integer_value(self@, true) == Some(*other as int)
    }
}

impl<'json> PartialEq<i64> for ParsedNumber<'json> {
    /// Whether the number is the integer `other`.
    fn eq(&self, other: &i64) -> (r: bool) {
        match self.as_i64() {
            Some(n) => n == *other,
            None => false,
        }
    }
}

impl<'json> PartialEqSpecImpl<i64> for ParsedNumber<'json> {
    open spec fn obeys_eq_spec() -> bool {
        true
    }

    open spec fn eq_spec(&self, other: &i64) -> bool {
        integer_value(self@, true) == Some(*other as int)
    }
}

impl<'json> PartialEq<i128> for ParsedNumber<'json> {
    /// Whether the number is the integer `other`.
    fn eq(&self, other: &i128) -> (r: bool) {
        match self.as_i128() {
            Some(n) => n == *other,
            None => false,
        }
    }
}

impl<'json> PartialEqSpecImpl<i128> for ParsedNumber<'json> {
    open spec fn obeys_eq_spec() -> bool {
        true
    }

    open spec fn eq_spec(&self, other: &i128) -> bool {
        integer_value(self@, true) == Some(*other as int)
    }
}

} // verus!
