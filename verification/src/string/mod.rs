//! Cursors over strings.

use crate::text::{is_suffix, prefix_before, split_first};
use crate::Parent;
use vstd::prelude::*;

pub mod error;
pub mod machine;
pub mod parsed;

pub use error::ParseStringError;
pub use parsed::ParsedString;

use machine::Machine;
use parsed::{decode, unescape};

verus! {

/// Runs the string machine from state `m` over `s`: the number of characters before
/// the closing quotation mark, or the error that the machine stops with.
pub open spec fn scan(m: Machine, s: Seq<char>) -> Result<int, ParseStringError>
    decreases s.len(),
{
    if s.len() == 0 {
        Err(ParseStringError::UnexpectedEnd)
    } else {
        match m.spec_apply(s[0]) {
            Err(e) => Err(e),
            Ok(None) => Ok(0),
            Ok(Some(next)) => match scan(next, s.skip(1)) {
                Ok(n) => Ok(n + 1),
                Err(e) => Err(e),
            },
        }
    }
}

/// Where the string that begins `s` (after its opening quotation mark) ends: the
/// length of its body.
pub open spec fn string_end(s: Seq<char>) -> Result<int, ParseStringError> {
    scan(Machine::In, s)
}

/// A body that the machine accepts ends at a quotation mark, and its escape
/// sequences are valid and complete.
pub proof fn lemma_scan_decodable(m: Machine, s: Seq<char>)
    requires
        scan(m, s) is Ok,
    ensures
        0 <= scan(m, s)->Ok_0 < s.len(),
        s[scan(m, s)->Ok_0] == '"',
        decode(m, s.take(scan(m, s)->Ok_0)) is Some,
    decreases s.len(),
{
    let n = scan(m, s)->Ok_0;
    match m.spec_apply(s[0]) {
        Ok(Some(next)) => {
            lemma_scan_decodable(next, s.skip(1));
            assert(s.take(n).skip(1) =~= s.skip(1).take(n - 1));
            assert(s.take(n)[0] == s[0]);
        },
        _ => {
            assert(s.take(0) =~= Seq::<char>::empty());
        },
    }
}

/// Reads a string body up to its closing quotation mark: the body, and what
/// follows the quotation mark.
pub fn scan_string<'json>(remaining: &'json str) -> (r: Result<
    (ParsedString<'json>, &'json str),
    ParseStringError,
>)
    ensures
        match string_end(remaining@) {
            Ok(n) => r matches Ok((body, rest)) && body@ == remaining@.take(n) && rest@
                == remaining@.skip(n + 1),
            Err(e) => r matches Err(err) && err == e,
        },
        r matches Ok((body, rest)) ==> remaining@ == body@ + seq!['"'] + rest@ && unescape(
            body@,
        ) is Some,
{
    let mut machine = Machine::In;
    let mut rest = remaining;
    let ghost mut k: int = 0;
    proof {
        crate::text::lemma_suffix_refl(remaining@);
    }
    loop
        invariant
            machine.wf(),
            0 <= k <= remaining@.len(),
            rest@ == remaining@.skip(k),
            string_end(remaining@) == match scan(machine, rest@) {
                Ok(n) => Ok::<int, ParseStringError>(n + k),
                Err(e) => Err(e),
            },
        decreases rest@.len(),
    {
        match split_first(rest) {
            None => {
                return Err(ParseStringError::UnexpectedEnd);
            },
            Some((c, tail)) => {
                assert(tail@ =~= remaining@.skip(k + 1));
                match machine.apply(c) {
                    Err(e) => {
                        return Err(e);
                    },
                    Ok(None) => {
                        proof {
                            crate::text::lemma_skip_is_suffix(remaining@, k);
                            lemma_scan_decodable(Machine::In, remaining@);
                        }
                        let body = prefix_before(remaining, rest);
                        assert(remaining@ =~= body@ + seq!['"'] + tail@);
                        return Ok((ParsedString::new(body), tail));
                    },
                    Ok(Some(next)) => {
                        machine = next;
                        rest = tail;
                        proof {
                            k = k + 1;
                        }
                    },
                }
            },
        }
    }
}

/// A cursor over a JSON string, placed after the opening quotation mark.
#[derive(Debug)]
pub struct String<'json, 'p, P: Parent<'json>> {
    pub parent: &'p mut P,
    pub remaining: &'json str,
}

impl<'json, 'p, P: Parent<'json>> String<'json, 'p, P> {
    /// A cursor that reads `remaining` and reports to `parent`.
    pub fn new(parent: &'p mut P, remaining: &'json str) -> (r: Self)
        ensures
            *r.parent == *old(parent),
            *final(r.parent) == *final(parent),
            r.remaining == remaining,
    {
        Self { parent, remaining }
    }

    /// Reads the string and hands the input after its closing quotation mark back to
    /// the parent. Escape sequences are checked, not replaced.
    pub fn get(&mut self) -> (r: Result<ParsedString<'json>, ParseStringError>)
        ensures
            r is Ok ==> is_suffix(final(self).parent.remaining(), old(self).remaining@),
            final(self).remaining == old(self).remaining,
            *final(final(self).parent) == *final(old(self).parent),
            match string_end(old(self).remaining@) {
                Ok(n) => {
                    &&& r matches Ok(body)
                    &&& body@ == old(self).remaining@.take(n)
                    &&& old(self).parent.child_done(
                        final(self).parent,
                        old(self).remaining@.skip(n + 1),
                    )
                },
                Err(e) => r matches Err(err) && err == e && *final(self).parent == *old(
                    self,
                ).parent,
            },
            r matches Ok(body) ==> old(self).remaining@ == body@ + seq!['"'] + final(self).parent.remaining() && unescape(body@) is Some,
    {
        proof {
            crate::skip::lemma_value_end_bounds(crate::containers::ParsePrompt::String, self.remaining@);
        }
        match scan_string(self.remaining) {
            Ok((body, rest)) => {
                self.parent.set_remaining(rest);
                Ok(body)
            },
            Err(e) => Err(e),
        }
    }

    /// Reads the string for the parent's sake, and drops what was read.
    pub fn finish(&mut self) -> (r: Result<(), ParseStringError>)
        ensures
            r is Ok ==> is_suffix(final(self).parent.remaining(), old(self).remaining@),
            final(self).remaining == old(self).remaining,
            *final(final(self).parent) == *final(old(self).parent),
            match string_end(old(self).remaining@) {
                Ok(n) => r is Ok && old(self).parent.child_done(
                    final(self).parent,
                    old(self).remaining@.skip(n + 1),
                ),
                Err(e) => r == Err::<(), _>(e) && *final(self).parent == *old(self).parent,
            },
    {
        match self.get() {
            Ok(_) => Ok(()),
            Err(e) => Err(e),
        }
    }
}

} // verus!
