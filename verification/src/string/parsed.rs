//! Parsed strings, and the characters that they stand for.

use crate::status::Status;
use crate::string::machine::{EscapeMachine, LowMachine, Machine};
use crate::text::{is_suffix, lemma_encode_char, lemma_encode_concat, split_first};
use vstd::utf8::encode_utf8;
use vstd::prelude::*;
use vstd::std_specs::cmp::PartialEqSpecImpl;

verus! {

/// The characters that the raw text `s` stands for when the string machine is in
/// state `m` before it; `None` where an escape is invalid or cut short.
pub open spec fn decode(m: Machine, s: Seq<char>) -> Option<Seq<char>>
    decreases s.len(),
{
    if s.len() == 0 {
        if m is In {
            Some(Seq::empty())
        } else {
            None
        }
    } else {
        match m {
            Machine::In => if s[0] == '\\' {
                decode(Machine::Escape(EscapeMachine::Awaiting), s.skip(1))
            } else {
                match decode(Machine::In, s.skip(1)) {
                    Some(rest) => Some(seq![s[0]] + rest),
                    None => None,
                }
            },
            Machine::Escape(escape) => match escape.spec_apply(s[0]) {
                Ok(Status::Parsing(next)) => decode(Machine::Escape(next), s.skip(1)),
                Ok(Status::Done(c)) => match decode(Machine::In, s.skip(1)) {
                    Some(rest) => Some(seq![c] + rest),
                    None => None,
                },
                Err(_) => None,
            },
        }
    }
}

/// The first character that the raw text `s` stands for when the string machine is
/// in state `m` before it, and how many characters of `s` it takes.
pub open spec fn first_char(m: Machine, s: Seq<char>) -> Option<(char, int)>
    decreases s.len(),
{
    if s.len() == 0 {
        None
    } else {
        let next = match m {
            Machine::In => if s[0] == '\\' {
                Ok(Status::Parsing(EscapeMachine::Awaiting))
            } else {
                Ok(Status::Done(s[0]))
            },
            Machine::Escape(escape) => escape.spec_apply(s[0]),
        };
        match next {
            Ok(Status::Parsing(escape)) => match first_char(Machine::Escape(escape), s.skip(1)) {
                Some((c, n)) => Some((c, n + 1)),
                None => None,
            },
            Ok(Status::Done(c)) => Some((c, 1)),
            Err(_) => None,
        }
    }
}

/// A text that can be decoded stands for its first character and then for what
/// the text after that character stands for.
pub proof fn lemma_decode_first(m: Machine, s: Seq<char>)
    requires
        decode(m, s) is Some,
        s.len() > 0,
    ensures
        first_char(m, s) matches Some((c, n)) && 0 < n <= s.len() && decode(
            Machine::In,
            s.skip(n),
        ) is Some && decode(m, s) == Some(seq![c] + decode(Machine::In, s.skip(n))->0),
    decreases s.len(),
{
    let next = match m {
        Machine::In => if s[0] == '\\' {
            Ok(Status::Parsing(EscapeMachine::Awaiting))
        } else {
            Ok(Status::Done(s[0]))
        },
        Machine::Escape(escape) => escape.spec_apply(s[0]),
    };
    match next {
        Ok(Status::Parsing(escape)) => {
            lemma_decode_first(Machine::Escape(escape), s.skip(1));
            if let Some((_, n)) = first_char(Machine::Escape(escape), s.skip(1)) {
                assert(s.skip(1).skip(n) =~= s.skip(n + 1));
            }
        },
        _ => {},
    }
}

/// The characters that the body of a JSON string stands for.
pub open spec fn unescape(s: Seq<char>) -> Option<Seq<char>> {
    decode(Machine::In, s)
}

/// The body of a parsed string: the text between the quotation marks, with its
/// escape sequences as they were written.
#[derive(Clone, Copy, Debug)]
pub struct ParsedString<'json> {
    json: &'json str,
}

impl<'json> View for ParsedString<'json> {
    type V = Seq<char>;

    closed spec fn view(&self) -> Seq<char> {
        self.json@
    }
}

impl<'json> ParsedString<'json> {
    #[verifier::type_invariant]
    spec fn well_formed(self) -> bool {
        unescape(self.json@) is Some
    }

    /// The characters that the string stands for.
    pub open spec fn decoded(self) -> Seq<char> {
        unescape(self@)->0
    }

    /// Takes `json` as the body of a string. Its escape sequences must be valid.
    pub fn new(json: &'json str) -> (r: Self)
        requires
            unescape(json@) is Some,
        ensures
            r@ == json@,
    {
        Self { json }
    }

    /// Whether the string has no characters.
    pub fn is_empty(self) -> (r: bool)
        ensures
            r == (self@.len() == 0),
    {
        self.json.is_empty()
    }

    /// The string as it was written, escape sequences included.
    pub fn unescaped(self) -> (r: &'json str)
        ensures
            r@ == self@,
            unescape(r@) is Some,
    {
        proof {
            use_type_invariant(self);
        }
        self.json
    }

    /// A cursor over the characters that the string stands for.
    pub fn chars(self) -> (r: Chars<'json>)
        ensures
            r@ == self@,
            unescape(r@) is Some,
    {
        proof {
            use_type_invariant(self);
        }
        Chars { json: self.json }
    }

    /// The string with its escape sequences replaced by what they stand for.
    pub fn escaped(self) -> (r: std::string::String)
        ensures
            r@ == self.decoded(),
    {
        let mut chars = self.chars();
        let mut out = std::string::String::new();
        loop
            invariant
                unescape(chars@) is Some,
                self.decoded() == out@ + unescape(chars@)->0,
            decreases chars@.len(),
        {
            match chars.next() {
                Some(c) => {
                    out.push(c);
                    assert(self.decoded() =~= out@ + unescape(chars@)->0);
                },
                None => {
                    assert(self.decoded() =~= out@);
                    return out;
                },
            }
        }
    }

    /// The characters that the string stands for, as a string of their own.
    pub fn to_string(&self) -> (r: std::string::String)
        ensures
            r@ == self.decoded(),
    {
        self.escaped()
    }

    /// Whether the string stands for exactly the characters that `other` has yet to
    /// yield.
    pub fn eq_chars(self, other: Chars<'_>) -> (r: bool)
        ensures
            r == (self.decoded() == unescape(other@)->0),
    {
        let mut mine = self.chars();
        let mut theirs = other;
        proof {
            use_type_invariant(&theirs);
        }
        loop
            invariant
                unescape(mine@) is Some,
                unescape(theirs@) is Some,
                (self.decoded() == unescape(other@)->0) == (unescape(mine@)->0 == unescape(
                    theirs@,
                )->0),
            decreases mine@.len(),
        {
            let ghost before = unescape(mine@)->0;
            let ghost theirs_before = unescape(theirs@)->0;
            match mine.next() {
                Some(c) => {
                    match theirs.next() {
                        Some(d) => {
                            if c != d {
                                assert(before[0] != theirs_before[0]);
                                return false;
                            }
                            proof {
                                let after = unescape(mine@)->0;
                                let theirs_after = unescape(theirs@)->0;
                                assert(before.skip(1) =~= after);
                                assert(theirs_before.skip(1) =~= theirs_after);
                                if after == theirs_after {
                                    assert(before =~= theirs_before);
                                }
                            }
                        },
                        None => {
                            assert(before.len() > 0);
                            assert(theirs_before =~= Seq::<char>::empty());
                            return false;
                        },
                    }
                },
                None => {
                    assert(before =~= Seq::<char>::empty());
                    let done = theirs.next().is_none();
                    assert(done == (before == theirs_before)) by {
                        if done {
                            assert(theirs_before =~= before);
                        } else {
                            assert(theirs_before.len() > 0);
                        }
                    }
                    return done;
                },
            }
        }
    }

    /// Whether the string stands for exactly the characters of `other`.
    pub fn eq_str(self, other: &str) -> (r: bool)
        ensures
            r == (self.decoded() == other@),
    {
        let mut mine = self.chars();
        let mut theirs = other;
        loop
            invariant
                unescape(mine@) is Some,
                (self.decoded() == other@) == (unescape(mine@)->0 == theirs@),
            decreases mine@.len(),
        {
            let ghost before = unescape(mine@)->0;
            let ghost theirs_before = theirs@;
            match mine.next() {
                Some(c) => {
                    match split_first(theirs) {
                        Some((d, rest)) => {
                            if c != d {
                                assert(before[0] != theirs_before[0]);
                                return false;
                            }
                            theirs = rest;
                            proof {
                                let after = unescape(mine@)->0;
                                assert(before.skip(1) =~= after);
                                if before == theirs_before {
                                    assert(after == theirs@);
                                }
                                if after == theirs@ {
                                    assert(before =~= theirs_before);
                                }
                            }
                        },
                        None => {
                            assert(before.len() > 0);
                            return false;
                        },
                    }
                },
                None => {
                    let done = theirs.is_empty();
                    assert(before =~= Seq::<char>::empty());
                    assert(done == (before == theirs@)) by {
                        if theirs@.len() == 0 {
                            assert(before =~= theirs@);
                        }
                    }
                    return done;
                },
            }
        }
    }
}

impl<'json> PartialEq<str> for ParsedString<'json> {
    /// Whether the string stands for exactly the characters of `other`.
    fn eq(&self, other: &str) -> (r: bool) {
        self.eq_str(other)
    }
}

impl<'json> PartialEqSpecImpl<str> for ParsedString<'json> {
    open spec fn obeys_eq_spec() -> bool {
        true
    }

    open spec fn eq_spec(&self, other: &str) -> bool {
        self.decoded() == other@
    }
}

impl<'json, 'a> PartialEq<&'a str> for ParsedString<'json> {
    /// Whether the string stands for exactly the characters of `other`.
    fn eq(&self, other: &&'a str) -> (r: bool) {
        self.eq_str(*other)
    }
}

impl<'json, 'a> PartialEqSpecImpl<&'a str> for ParsedString<'json> {
    open spec fn obeys_eq_spec() -> bool {
        true
    }

    open spec fn eq_spec(&self, other: &&'a str) -> bool {
        self.decoded() == other@
    }
}

impl<'json, 'a> PartialEq<ParsedString<'a>> for ParsedString<'json> {
    /// Whether the two strings stand for the same characters.
    fn eq(&self, other: &ParsedString<'a>) -> (r: bool) {
        self.eq_chars(other.chars())
    }
}

impl<'json, 'a> PartialEqSpecImpl<ParsedString<'a>> for ParsedString<'json> {
    open spec fn obeys_eq_spec() -> bool {
        true
    }

    open spec fn eq_spec(&self, other: &ParsedString<'a>) -> bool {
        self.decoded() == other.decoded()
    }
}

impl<'json> Eq for ParsedString<'json> {

}

/// A cursor over the characters that a parsed string stands for.
#[derive(Clone, Copy, Debug)]
pub struct Chars<'json> {
    json: &'json str,
}

impl<'json> View for Chars<'json> {
    type V = Seq<char>;

    closed spec fn view(&self) -> Seq<char> {
        self.json@
    }
}

/// The least number of characters that `bytes` bytes of a string body can stand
/// for: a character takes at most 4 bytes as it is, 6 as a `\u` escape, and 12 as
/// a pair of them.
pub open spec fn least_chars(bytes: int) -> int {
    if bytes < 6 {
        (bytes + 3) / 4
    } else if bytes < 12 {
        (bytes + 5) / 6
    } else {
        (bytes + 11) / 12
    }
}

/// The numbers of bytes that the text of one character may take when the string
/// machine is in state `m` before it: a character as it is takes one to four bytes,
/// an escape with one letter two, a `\\u` escape six, and a pair of them twelve.
pub open spec fn costs(m: Machine, bytes: int) -> bool {
    match m {
        Machine::In => 1 <= bytes <= 4 || bytes == 6 || bytes == 12,
        Machine::Escape(EscapeMachine::Awaiting) => bytes == 1 || bytes == 5 || bytes == 11,
        Machine::Escape(EscapeMachine::Unicode { len, .. }) => bytes == 4 - len || bytes == 10
            - len,
        Machine::Escape(EscapeMachine::Surrogate { low: LowMachine::Awaiting, .. }) => bytes == 6,
        Machine::Escape(EscapeMachine::Surrogate { low: LowMachine::AwaitingU, .. }) => bytes
            == 5,
        Machine::Escape(EscapeMachine::Surrogate { low: LowMachine::Hex { len, .. }, .. }) => bytes
            == 4 - len,
    }
}

/// The text of the first character takes one of the numbers of bytes that a
/// character may take.
pub proof fn lemma_first_char_costs(m: Machine, s: Seq<char>)
    requires
        m.wf(),
        first_char(m, s) is Some,
    ensures
        first_char(m, s) matches Some((_, n)) && 0 < n <= s.len() && costs(
            m,
            encode_utf8(s.take(n)).len() as int,
        ),
    decreases s.len(),
{
    let next = match m {
        Machine::In => if s[0] == '\\' {
            Ok(Status::Parsing(EscapeMachine::Awaiting))
        } else {
            Ok(Status::Done(s[0]))
        },
        Machine::Escape(escape) => escape.spec_apply(s[0]),
    };
    lemma_encode_char(s[0]);
    match next {
        Ok(Status::Parsing(escape)) => {
            lemma_first_char_costs(Machine::Escape(escape), s.skip(1));
            if let Some((_, n)) = first_char(Machine::Escape(escape), s.skip(1)) {
                assert(s.take(n + 1) =~= seq![s[0]] + s.skip(1).take(n));
                lemma_encode_concat(seq![s[0]], s.skip(1).take(n));
            }
        },
        _ => {
            assert(s.take(1) =~= seq![s[0]]);
        },
    }
}

/// The bounds that `least_chars` and the byte count give hold of the characters
/// that a text stands for.
pub proof fn lemma_size_hint(s: Seq<char>)
    requires
        unescape(s) is Some,
    ensures
        least_chars(encode_utf8(s).len() as int) <= unescape(s)->0.len() <= encode_utf8(s).len(),
        encode_utf8(s).len() <= 12 * unescape(s)->0.len(),
        s.len() > 0 ==> unescape(s)->0.len() > 0,
    decreases s.len(),
{
    if s.len() > 0 {
        lemma_decode_first(Machine::In, s);
        lemma_first_char_costs(Machine::In, s);
        if let Some((_, n)) = first_char(Machine::In, s) {
            assert(s =~= s.take(n) + s.skip(n));
            lemma_encode_concat(s.take(n), s.skip(n));
            lemma_size_hint(s.skip(n));
        }
    }
}

impl<'json> Chars<'json> {
    #[verifier::type_invariant]
    spec fn well_formed(self) -> bool {
        unescape(self.json@) is Some
    }

    /// Reads the next character, decoding an escape sequence where one stands.
    pub fn next(&mut self) -> (r: Option<char>)
        ensures
            match first_char(Machine::In, old(self)@) {
                Some((c, n)) => r == Some(c) && final(self)@ == old(self)@.skip(n),
                None => r is None && final(self)@ == old(self)@,
            },
            is_suffix(final(self)@, old(self)@),
            unescape(final(self)@) is Some,
            match r {
                Some(c) => {
                    &&& final(self)@.len() < old(self)@.len()
                    &&& unescape(old(self)@) == Some(seq![c] + unescape(final(self)@)->0)
                },
                None => old(self)@.len() == 0 && final(self)@ == old(self)@,
            },
    {
        proof {
            use_type_invariant(&*self);
            crate::text::lemma_suffix_refl(self@);
        }
        let ghost whole = self@;
        let (c, tail) = match split_first(self.json) {
            Some(pair) => pair,
            None => {
                return None;
            },
        };
        proof {
            crate::text::lemma_skip_is_suffix(whole, 1);
        }
        proof {
            lemma_decode_first(Machine::In, whole);
        }
        if c != '\\' {
            self.json = tail;
            return Some(c);
        }
        let mut machine = EscapeMachine::Awaiting;
        let mut rest = tail;
        let ghost mut k: int = 1;
        loop
            invariant
                machine.wf(),
                0 < k <= whole.len(),
                rest@ == whole.skip(k),
                first_char(Machine::In, whole) == match first_char(
                    Machine::Escape(machine),
                    rest@,
                ) {
                    Some((c, n)) => Some((c, n + k)),
                    None => None,
                },
                decode(Machine::Escape(machine), rest@) == unescape(whole),
                unescape(whole) is Some,
                is_suffix(rest@, whole),
                rest@.len() < whole.len(),
                whole == old(self)@,
            decreases rest@.len(),
        {
            let ghost before = rest@;
            match split_first(rest) {
                Some((c, tail)) => {
                    proof {
                        crate::text::lemma_skip_is_suffix(before, 1);
                        crate::text::lemma_suffix_trans(tail@, before, whole);
                        assert(tail@ =~= whole.skip(k + 1));
                    }
                    match machine.apply(c) {
                        Ok(Status::Parsing(next)) => {
                            machine = next;
                            rest = tail;
                            proof {
                                k = k + 1;
                            }
                        },
                        Ok(Status::Done(result)) => {
                            self.json = tail;
                            return Some(result);
                        },
                        Err(_) => {
                            return unreached();
                        },
                    }
                },
                None => {
                    return unreached();
                },
            }
        }
    }

    /// Bounds on the number of characters still to come: at least
    /// `least_chars` of the bytes left, at most one for each byte.
    pub fn size_hint(&self) -> (r: (usize, Option<usize>))
        ensures
            r.0 == least_chars(encode_utf8(self@).len() as int),
            r.1 == Some(encode_utf8(self@).len() as usize),
            r.0 <= unescape(self@)->0.len() <= encode_utf8(self@).len(),
    {
        proof {
            use_type_invariant(&*self);
            lemma_size_hint(self@);
        }
        let bytes: usize = self.json.as_bytes().len();
        let min: usize = if bytes < 6 {
            (bytes + 3) / 4
        } else if bytes < 12 {
            (bytes + 5) / 6
        } else {
            (bytes - 1) / 12 + 1
        };
        (min, Some(bytes))
    }
}

} // verus!
