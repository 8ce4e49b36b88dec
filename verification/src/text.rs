//! Text as a sequence of characters: whitespace, splitting a string at a
//! character, and the prefix of a string before one of its suffixes.

use vstd::prelude::*;
use vstd::std_specs::iter::IteratorSpec;
use vstd::utf8::{
    encode_scalar, encode_utf8, encode_utf8_decode_utf8, encode_utf8_first_scalar,
    encode_utf8_valid_utf8, is_char_boundary, pop_first_scalar,
};

verus! {

/// `core::str::Chars::as_str`: the part of the string that the iterator has not
/// yet yielded, as a slice of the string that the iterator was made from.
pub assume_specification<'a>[ std::str::Chars::<'a>::as_str ](chars: &std::str::Chars<'a>) -> (s:
    &'a str)
    ensures
        s@ == chars.remaining(),
;

/// `char::from_u32`: the scalar value with the given number, which exists for every
/// number up to `0x10FFFF` outside the surrogate range `0xD800..=0xDFFF`.
pub assume_specification[ char::from_u32 ](i: u32) -> (r: Option<char>)
    ensures
        r == if is_scalar_value(i) {
            Some(i as char)
        } else {
            None::<char>
        },
;

/// `String::push`: appends one character to the end of the string.
pub assume_specification[ std::string::String::push ](s: &mut std::string::String, c: char)
    ensures
        final(s)@ == old(s)@.push(c),
;

/// Whether `i` is the number of a Unicode scalar value.
pub open spec fn is_scalar_value(i: u32) -> bool {
    i <= 0xD7FF || 0xE000 <= i <= 0x10FFFF
}

/// The characters with the Unicode property `White_Space`.
pub open spec fn spec_is_whitespace(c: char) -> bool {
    let n = c as u32;
    ||| 0x09 <= n <= 0x0D
    ||| n == 0x20
    ||| n == 0x85
    ||| n == 0xA0
    ||| n == 0x1680
    ||| 0x2000 <= n <= 0x200A
    ||| n == 0x2028
    ||| n == 0x2029
    ||| n == 0x202F
    ||| n == 0x205F
    ||| n == 0x3000
}

/// Whether `c` is whitespace between JSON tokens.
#[verifier::when_used_as_spec(spec_is_whitespace)]
pub fn is_whitespace(c: char) -> (r: bool)
    ensures
        r == spec_is_whitespace(c),
{
    let n: u32 = c as u32;
    if n < 0x80 {
        (0x09 <= n && n <= 0x0D) || n == 0x20
    } else if n < 0x2000 {
        n == 0x85 || n == 0xA0 || n == 0x1680
    } else {
        n <= 0x200A || n == 0x2028 || n == 0x2029 || n == 0x202F || n == 0x205F || n == 0x3000
    }
}

/// Whether `tail` is what is left of `whole` after some prefix of it.
pub open spec fn is_suffix(tail: Seq<char>, whole: Seq<char>) -> bool {
    &&& tail.len() <= whole.len()
    &&& whole.skip(whole.len() - tail.len()) == tail
}

/// Every text is a suffix of itself.
pub proof fn lemma_suffix_refl(s: Seq<char>)
    ensures
        is_suffix(s, s),
{
    assert(s.skip(0) =~= s);
}

/// What is left after skipping `k` characters is a suffix.
pub proof fn lemma_skip_is_suffix(s: Seq<char>, k: int)
    requires
        0 <= k <= s.len(),
    ensures
        is_suffix(s.skip(k), s),
{
}

/// A suffix of a suffix is a suffix.
pub proof fn lemma_suffix_trans(a: Seq<char>, b: Seq<char>, c: Seq<char>)
    requires
        is_suffix(a, b),
        is_suffix(b, c),
    ensures
        is_suffix(a, c),
{
    assert(c.skip(c.len() - b.len()).skip(b.len() - a.len()) =~= c.skip(c.len() - a.len()));
}

/// A suffix is the whole text without a prefix of it.
pub proof fn lemma_suffix_split(tail: Seq<char>, whole: Seq<char>)
    requires
        is_suffix(tail, whole),
    ensures
        whole =~= whole.take(whole.len() - tail.len()) + tail,
{
}

/// Splits the first character off a string.
pub fn split_first<'a>(s: &'a str) -> (r: Option<(char, &'a str)>)
    ensures
        match r {
            Some((c, rest)) => s@.len() > 0 && c == s@[0] && rest@ == s@.skip(1),
            None => s@.len() == 0,
        },
{
    let mut it = s.chars();
    match it.next() {
        Some(c) => {
            let rest = it.as_str();
            assert(s@.drop_first() =~= s@.skip(1));
            Some((c, rest))
        },
        None => None,
    }
}

/// The encoding of a text is the encoding of its parts, one after the other.
pub proof fn lemma_encode_concat(a: Seq<char>, b: Seq<char>)
    ensures
        encode_utf8(a + b) =~= encode_utf8(a) + encode_utf8(b),
    decreases a.len(),
{
    if a.len() == 0 {
        assert(a + b =~= b);
    } else {
        assert((a + b).drop_first() =~= a.drop_first() + b);
        lemma_encode_concat(a.drop_first(), b);
    }
}

/// A character is encoded in one to four bytes, and in one byte if it is below
/// `0x80`.
pub proof fn lemma_encode_char(c: char)
    ensures
        1 <= encode_utf8(seq![c]).len() <= 4,
        (c as u32) < 0x80 ==> encode_utf8(seq![c]).len() == 1,
{
    let one = seq![c];
    assert(one.drop_first() =~= Seq::<char>::empty());
    assert(encode_utf8(one) =~= encode_scalar(c as u32) + encode_utf8(one.drop_first()));
}

proof fn lemma_encode_boundary(a: Seq<char>, b: Seq<char>)
    ensures
        is_char_boundary(encode_utf8(a + b), encode_utf8(a).len() as int),
    decreases a.len(),
{
    let whole = a + b;
    let bytes = encode_utf8(whole);
    encode_utf8_valid_utf8(whole);
    if a.len() != 0 {
        encode_utf8_first_scalar(whole);
        assert(whole.drop_first() =~= a.drop_first() + b);
        assert(pop_first_scalar(bytes) =~= encode_utf8(whole.drop_first()));
        lemma_encode_boundary(a.drop_first(), b);
        lemma_encode_concat(a, b);
        assert(encode_utf8(a).len() == encode_scalar(a[0] as u32).len() + encode_utf8(
            a.drop_first(),
        ).len());
    }
}

/// The part of `s` that comes before its suffix `rest`.
pub fn prefix_before<'a>(s: &'a str, rest: &'a str) -> (r: &'a str)
    requires
        is_suffix(rest@, s@),
    ensures
        r@ == s@.take(s@.len() - rest@.len()),
{
    let ghost head = s@.take(s@.len() - rest@.len());
    let whole_bytes = s.as_bytes();
    let rest_bytes = rest.as_bytes();
    proof {
        assert(s@ =~= head + rest@);
        lemma_encode_concat(head, rest@);
        lemma_encode_boundary(head, rest@);
    }
    let mid: usize = whole_bytes.len() - rest_bytes.len();
    let (front, _) = s.split_at(mid);
    proof {
        assert(encode_utf8(s@).subrange(0, mid as int) =~= encode_utf8(head));
        encode_utf8_decode_utf8(front@);
        encode_utf8_decode_utf8(head);
    }
    front
}

/// The lower-case hex digit for a number below sixteen.
pub open spec fn hex_digit(d: u16) -> char
    recommends
        d < 16,
{
    if d < 10 {
        ('0' as u16 + d) as char
    } else {
        ('a' as u16 + (d - 10)) as char
    }
}

/// The four lower-case hex digits of `n`.
pub open spec fn hex4(n: u16) -> Seq<char> {
    seq![hex_digit(n / 0x1000), hex_digit(n / 0x100 % 16), hex_digit(n / 0x10 % 16), hex_digit(n % 16)]
}

/// The lower-case hex digit for a number below sixteen.
fn to_hex_digit(d: u16) -> (r: char)
    requires
        d < 16,
    ensures
        r == hex_digit(d),
{
    if d < 10 {
        ('0' as u8 + d as u8) as char
    } else {
        ('a' as u8 + (d - 10) as u8) as char
    }
}

/// Appends the four lower-case hex digits of `n` to `out`.
pub fn push_hex4(out: &mut std::string::String, n: u16)
    ensures
        final(out)@ == old(out)@ + hex4(n),
{
    out.push(to_hex_digit(n / 0x1000));
    out.push(to_hex_digit(n / 0x100 % 16));
    out.push(to_hex_digit(n / 0x10 % 16));
    out.push(to_hex_digit(n % 16));
    assert(out@ =~= old(out)@ + hex4(n));
}

} // verus!
