//! Cursors over `true`, `false` and `null`.

use crate::text::{is_suffix, split_first};
use crate::Parent;
use vstd::prelude::*;

pub mod error;
pub mod machine;
pub mod parsed;

pub use error::ParseLiteralError;
pub use parsed::ParsedLiteral;

use machine::Machine;

verus! {

/// Runs the literal machine from state `m` over `s`: the literal read and how many
/// characters it took, or the error that the machine stops with.
pub open spec fn scan(m: Machine, s: Seq<char>) -> Result<(ParsedLiteral, int), ParseLiteralError>
    decreases s.len(),
{
    if s.len() == 0 {
        Err(ParseLiteralError::UnexpectedEnd)
    } else {
        match m.spec_apply(s[0]) {
            Err(e) => Err(e),
            Ok(Machine::End(value)) => Ok((value, 1)),
            Ok(next) => match scan(next, s.skip(1)) {
                Ok((value, n)) => Ok((value, n + 1)),
                Err(e) => Err(e),
            },
        }
    }
}

/// The literal that begins `s`, and its length with the whitespace before it.
pub open spec fn literal_end(s: Seq<char>) -> Result<(ParsedLiteral, int), ParseLiteralError> {
    scan(Machine::Start, s)
}

/// The machine reads at least one character and never past the end of the text.
pub proof fn lemma_scan_bounds(m: Machine, s: Seq<char>)
    requires
        scan(m, s) is Ok,
    ensures
        0 < scan(m, s)->Ok_0.1 <= s.len(),
    decreases s.len(),
{
    match m.spec_apply(s[0]) {
        Ok(Machine::End(_)) => {},
        Ok(next) => {
            lemma_scan_bounds(next, s.skip(1));
        },
        Err(_) => {},
    }
}

/// Reads a literal: its value, and what follows it.
pub fn scan_literal<'json>(remaining: &'json str) -> (r: Result<
    (ParsedLiteral, &'json str),
    ParseLiteralError,
>)
    ensures
        match literal_end(remaining@) {
            Ok((value, n)) => r matches Ok((literal, rest)) && literal == value && rest@
                == remaining@.skip(n),
            Err(e) => r matches Err(err) && err == e,
        },
{
    let mut machine = Machine::Start;
    let mut rest = remaining;
    let ghost mut k: int = 0;
    loop
        invariant
            0 <= k <= remaining@.len(),
            rest@ == remaining@.skip(k),
            literal_end(remaining@) == match scan(machine, rest@) {
                Ok((value, n)) => Ok::<(ParsedLiteral, int), ParseLiteralError>((value, n + k)),
                Err(e) => Err(e),
            },
        decreases rest@.len(),
    {
        match split_first(rest) {
            None => {
                return Err(ParseLiteralError::UnexpectedEnd);
            },
            Some((c, tail)) => {
                assert(tail@ =~= remaining@.skip(k + 1));
                match machine.apply(c) {
                    Err(e) => {
                        return Err(e);
                    },
                    Ok(Machine::End(value)) => {
                        return Ok((value, tail));
                    },
                    Ok(next) => {
                        machine = next;
                        rest = tail;
                        proof {
                            k = k + 1;
                        }
                    },
                }
            },
        }
    }
}

/// A cursor over `true`, `false` or `null`, placed at its first character.
#[derive(Debug)]
pub struct Literal<'json, 'p, P: Parent<'json>> {
    pub parent: &'p mut P,
    pub remaining: &'json str,
}

impl<'json, 'p, P: Parent<'json>> Literal<'json, 'p, P> {
    /// A cursor that reads `remaining` and reports to `parent`.
    pub fn new(parent: &'p mut P, remaining: &'json str) -> (r: Self)
        ensures
            *r.parent == *old(parent),
            *final(r.parent) == *final(parent),
            r.remaining == remaining,
    {
        Self { parent, remaining }
    }

    /// Reads the literal and hands the input after it back to the parent.
    pub fn get(&mut self) -> (r: Result<ParsedLiteral, ParseLiteralError>)
        ensures
            r is Ok ==> is_suffix(final(self).parent.remaining(), old(self).remaining@),
            final(self).remaining == old(self).remaining,
            *final(final(self).parent) == *final(old(self).parent),
            match literal_end(old(self).remaining@) {
                Ok((value, n)) => {
                    &&& r == Ok::<_, ParseLiteralError>(value)
                    &&& old(self).parent.child_done(
                        final(self).parent,
                        old(self).remaining@.skip(n),
                    )
                },
                Err(e) => r == Err::<ParsedLiteral, _>(e) && *final(self).parent == *old(
                    self,
                ).parent,
            },
    {
        proof {
            crate::skip::lemma_value_end_bounds(crate::containers::ParsePrompt::Literal, self.remaining@);
        }
        match scan_literal(self.remaining) {
            Ok((value, rest)) => {
                self.parent.set_remaining(rest);
                Ok(value)
            },
            Err(e) => Err(e),
        }
    }

    /// Reads the literal for the parent's sake, and drops what was read.
    pub fn finish(&mut self) -> (r: Result<(), ParseLiteralError>)
        ensures
            r is Ok ==> is_suffix(final(self).parent.remaining(), old(self).remaining@),
            final(self).remaining == old(self).remaining,
            *final(final(self).parent) == *final(old(self).parent),
            match literal_end(old(self).remaining@) {
                Ok((value, n)) => r is Ok && old(self).parent.child_done(
                    final(self).parent,
                    old(self).remaining@.skip(n),
                ),
                Err(e) => r == Err::<(), _>(e) && *final(self).parent == *old(self).parent,
            },
    {
        match self.get() {
            Ok(_) => Ok(()),
            Err(e) => Err(e),
        }
    }
}

} // verus!
