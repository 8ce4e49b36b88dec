//! Cursors over numbers.

use crate::status::Status;
use crate::text::{is_suffix, prefix_before, split_first};
use crate::Parent;
use vstd::prelude::*;

pub mod error;
pub mod machine;
pub mod order;
pub mod parsed;

pub use error::ParseNumberError;
pub use parsed::ParsedNumber;

use machine::Machine;

verus! {

/// Runs the number machine from state `m` over `s`: how many characters the number
/// takes, or the error that the machine stops with.
pub open spec fn scan(m: Machine, s: Seq<char>) -> Result<int, ParseNumberError>
    decreases s.len(),
{
    if s.len() == 0 {
        match m.spec_valid_end() {
            Ok(()) => Ok(0),
            Err(e) => Err(e),
        }
    } else {
        match m.spec_apply(s[0]) {
            Err(e) => Err(e),
            Ok(Status::Done(())) => Ok(0),
            Ok(Status::Parsing(next)) => match scan(next, s.skip(1)) {
                Ok(n) => Ok(n + 1),
                Err(e) => Err(e),
            },
        }
    }
}

/// The length of the number that begins `s`.
pub open spec fn number_end(s: Seq<char>) -> Result<int, ParseNumberError> {
    scan(Machine::Start { signed: false }, s)
}

/// The machine never reads past the end of the text.
pub proof fn lemma_scan_bounds(m: Machine, s: Seq<char>)
    requires
        scan(m, s) is Ok,
    ensures
        0 <= scan(m, s)->Ok_0 <= s.len(),
    decreases s.len(),
{
    if s.len() > 0 {
        match m.spec_apply(s[0]) {
            Ok(Status::Parsing(next)) => {
                lemma_scan_bounds(next, s.skip(1));
            },
            _ => {},
        }
    }
}

/// The characters that the machine takes are a number by themselves.
pub proof fn lemma_scan_prefix(m: Machine, s: Seq<char>)
    requires
        scan(m, s) is Ok,
    ensures
        scan(m, s.take(scan(m, s)->Ok_0)) == scan(m, s),
    decreases s.len(),
{
    let n = scan(m, s)->Ok_0;
    lemma_scan_bounds(m, s);
    if s.len() == 0 {
        assert(s.take(n) =~= s);
    } else {
        match m.spec_apply(s[0]) {
            Ok(Status::Parsing(next)) => {
                lemma_scan_prefix(next, s.skip(1));
                lemma_scan_bounds(next, s.skip(1));
                assert(s.take(n).skip(1) =~= s.skip(1).take(n - 1));
            },
            _ => {
                assert(s.take(0).len() == 0);
                lemma_done_is_valid_end(m, s[0]);
            },
        }
    }
}

/// Where a character ends a number, the text before it may end there too.
pub proof fn lemma_done_is_valid_end(m: Machine, c: char)
    requires
        m.spec_apply(c) == Ok::<Status<Machine, ()>, ParseNumberError>(Status::Done(())),
    ensures
        m.spec_valid_end() is Ok,
{
}

/// Reads a number: its text, and what follows it. The character that ends the
/// number is left in place.
pub fn scan_number<'json>(remaining: &'json str) -> (r: Result<
    (ParsedNumber<'json>, &'json str),
    ParseNumberError,
>)
    ensures
        match number_end(remaining@) {
            Ok(n) => r matches Ok((number, rest)) && number@ == remaining@.take(n) && rest@
                == remaining@.skip(n),
            Err(e) => r matches Err(err) && err == e,
        },
        r matches Ok((number, rest)) ==> remaining@ == number@ + rest@ && number_end(number@)
            == Ok::<int, ParseNumberError>(number@.len() as int),
{
    proof {
        if number_end(remaining@) is Ok {
            lemma_scan_prefix(Machine::Start { signed: false }, remaining@);
            lemma_scan_bounds(Machine::Start { signed: false }, remaining@);
            let n = number_end(remaining@)->Ok_0;
            assert(remaining@ =~= remaining@.take(n) + remaining@.skip(n));
        }
    }
    let mut machine = Machine::Start { signed: false };
    let mut rest = remaining;
    let ghost mut k: int = 0;
    proof {
        crate::text::lemma_suffix_refl(remaining@);
    }
    loop
        invariant
            0 <= k <= remaining@.len(),
            rest@ == remaining@.skip(k),
            number_end(remaining@) matches Ok(n) ==> number_end(remaining@.take(n))
                == number_end(remaining@) && remaining@ == remaining@.take(n) + remaining@.skip(
                n,
            ) && 0 <= n <= remaining@.len(),
            number_end(remaining@) == match scan(machine, rest@) {
                Ok(n) => Ok::<int, ParseNumberError>(n + k),
                Err(e) => Err(e),
            },
        decreases rest@.len(),
    {
        proof {
            crate::text::lemma_skip_is_suffix(remaining@, k);
        }
        match split_first(rest) {
            None => {
                return match machine.valid_end() {
                    Ok(()) => {
                        assert(remaining@.take(k) =~= remaining@);
                        Ok((ParsedNumber::new(remaining), rest))
                    },
                    Err(e) => Err(e),
                };
            },
            Some((c, tail)) => {
                assert(tail@ =~= remaining@.skip(k + 1));
                match machine.apply(c) {
                    Err(e) => {
                        return Err(e);
                    },
                    Ok(Status::Done(_)) => {
                        let text = prefix_before(remaining, rest);
                        return Ok((ParsedNumber::new(text), rest));
                    },
                    Ok(Status::Parsing(next)) => {
                        machine = next;
                        rest = tail;
                        proof {
                            k = k + 1;
                        }
                    },
                }
            },
        }
    }
}

/// A cursor over a JSON number, placed at its first character.
#[derive(Debug)]
pub struct Number<'json, 'p, P: Parent<'json>> {
    pub parent: &'p mut P,
    pub remaining: &'json str,
}

impl<'json, 'p, P: Parent<'json>> Number<'json, 'p, P> {
    /// A cursor that reads `remaining` and reports to `parent`.
    pub fn new(parent: &'p mut P, remaining: &'json str) -> (r: Self)
        ensures
            *r.parent == *old(parent),
            *final(r.parent) == *final(parent),
            r.remaining == remaining,
    {
        Self { parent, remaining }
    }

    /// Reads the number and hands the input after it back to the parent.
    pub fn get(&mut self) -> (r: Result<ParsedNumber<'json>, ParseNumberError>)
        ensures
            r is Ok ==> is_suffix(final(self).parent.remaining(), old(self).remaining@),
            final(self).remaining == old(self).remaining,
            *final(final(self).parent) == *final(old(self).parent),
            match number_end(old(self).remaining@) {
                Ok(n) => {
                    &&& r matches Ok(number)
                    &&& number@ == old(self).remaining@.take(n)
                    &&& old(self).parent.child_done(
                        final(self).parent,
                        old(self).remaining@.skip(n),
                    )
                },
                Err(e) => r matches Err(err) && err == e && *final(self).parent == *old(
                    self,
                ).parent,
            },
            r matches Ok(number) ==> old(self).remaining@ == number@ + final(self).parent.remaining() && number_end(number@) == Ok::<int, ParseNumberError>(
                number@.len() as int,
            ),
    {
        proof {
            crate::skip::lemma_value_end_bounds(crate::containers::ParsePrompt::Number, self.remaining@);
        }
        match scan_number(self.remaining) {
            Ok((number, rest)) => {
                self.parent.set_remaining(rest);
                Ok(number)
            },
            Err(e) => Err(e),
        }
    }

    /// Reads the number for the parent's sake, and drops what was read.
    pub fn finish(&mut self) -> (r: Result<(), ParseNumberError>)
        ensures
            r is Ok ==> is_suffix(final(self).parent.remaining(), old(self).remaining@),
            final(self).remaining == old(self).remaining,
            *final(final(self).parent) == *final(old(self).parent),
            match number_end(old(self).remaining@) {
                Ok(n) => r is Ok && old(self).parent.child_done(
                    final(self).parent,
                    old(self).remaining@.skip(n),
                ),
                Err(e) => r == Err::<(), _>(e) && *final(self).parent == *old(self).parent,
            },
    {
        match self.get() {
            Ok(_) => Ok(()),
            Err(e) => Err(e),
        }
    }
}

} // verus!
