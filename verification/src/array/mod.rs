//! Cursors over arrays.

use crate::any::{Any, ParseAnyError};
use crate::containers::ParseStatus;
use crate::skip::{array_end, skip_array};
use crate::text::{is_suffix, split_first};
use crate::Parent;
use vstd::prelude::*;

pub mod error;
pub mod machine;

pub use error::ParseArrayError;

use machine::Machine;

verus! {

/// Where an array cursor stops when it is asked for its next element.
pub struct Stop {
    /// The state it stops in.
    pub machine: Machine,
    /// How many characters it has read.
    pub at: int,
    /// The error it stops with, if any.
    pub error: Option<ParseArrayError>,
}

impl Stop {
    /// The same stop, seen from `n` characters earlier.
    pub open spec fn after(self, n: int) -> Stop {
        Stop { machine: self.machine, at: self.at + n, error: self.error }
    }
}

/// Runs the array machine from state `m` over `s` until an element is due, the
/// array has ended, or an error stops it. The first character of a number or
/// literal is left for the child.
pub open spec fn run(m: Machine, s: Seq<char>) -> Stop
    decreases s.len(),
{
    if !m.reads() {
        Stop { machine: m, at: 0, error: None }
    } else if s.len() == 0 {
        Stop { machine: m, at: 0, error: Some(ParseArrayError::UnexpectedEnd) }
    } else {
        match m.spec_apply(s[0]) {
            Err(e) => Stop { machine: m, at: 0, error: Some(e) },
            Ok(next) => if next matches Machine::Element(ParseStatus::Prompted(prompt))
                && prompt.keep_first() {
                Stop { machine: next, at: 0, error: None }
            } else {
                run(next, s.skip(1)).after(1)
            },
        }
    }
}

/// The cursor stops within the text, and only where an element is due or the array
/// has ended, unless an error stops it.
pub proof fn lemma_run_stop(m: Machine, s: Seq<char>)
    ensures
        0 <= run(m, s).at <= s.len(),
        run(m, s).error is None ==> match run(m, s).machine {
            Machine::End => m is End || run(m, s).at > 0,
            Machine::Element(ParseStatus::Prompted(prompt)) => !m.reads() || if prompt.keep_first() {
                run(m, s).at < s.len()
            } else {
                run(m, s).at > 0
            },
            _ => false,
        },
    decreases s.len(),
{
    if m.reads() && s.len() > 0 {
        match m.spec_apply(s[0]) {
            Err(e) => {},
            Ok(next) => {
                if next matches Machine::Element(ParseStatus::Prompted(prompt))
                    && prompt.keep_first() {
                } else {
                    lemma_run_stop(next, s.skip(1));
                }
            },
        }
    }
}

/// Moves an array cursor on until an element is due, the array has ended, or an
/// error stops it.
pub fn advance<'json>(machine: Machine, remaining: &'json str) -> (r: (
    Machine,
    &'json str,
    Option<ParseArrayError>,
))
    ensures
        r.0 == run(machine, remaining@).machine,
        r.1@ == remaining@.skip(run(machine, remaining@).at),
        r.2 == run(machine, remaining@).error,
{
    let mut current = machine;
    let mut rest = remaining;
        let ghost mut k: int = 0;
    assert(remaining@.skip(0) =~= remaining@);
    loop
        invariant
            0 <= k <= remaining@.len(),
            rest@ == remaining@.skip(k),
            run(machine, remaining@) == run(current, rest@).after(k),
        decreases rest@.len(),
    {
        match current {
            Machine::End | Machine::Element(ParseStatus::Prompted(_)) => {
                return (current, rest, None);
            },
            _ => {
                match split_first(rest) {
                    None => {
                        return (current, rest, Some(ParseArrayError::UnexpectedEnd));
                    },
                    Some((c, tail)) => {
                        assert(tail@ =~= remaining@.skip(k + 1));
                        match current.apply(c) {
                            Err(e) => {
                                return (current, rest, Some(e));
                            },
                            Ok(next) => {
                                current = next;
                                if let Machine::Element(ParseStatus::Prompted(prompt)) = next {
                                    if prompt.keep_first() {
                                        return (current, rest, None);
                                    }
                                }
                                rest = tail;
                                proof {
                                    k = k + 1;
                                }
                            },
                        }
                    },
                }
            },
        }
    }
}

/// A cursor over a JSON array, placed after the opening bracket.
#[derive(Debug)]
pub struct Array<'json, 'p, P: Parent<'json>> {
    pub parent: &'p mut P,
    pub remaining: &'json str,
    pub machine: Machine,
}

impl<'json, 'p, P: Parent<'json>> Parent<'json> for Array<'json, 'p, P> {
    open spec fn remaining(&self) -> Seq<char> {
        self.remaining@
    }

    open spec fn child_done(&self, after: &Self, remaining: Seq<char>) -> bool {
        &&& after.remaining@ == remaining
        &&& after.machine == self.machine.child_done()
        &&& after.parent == self.parent
    }

    fn set_remaining(&mut self, remaining: &'json str) {
        self.remaining = remaining;
        if let Machine::Element(_) = self.machine {
            self.machine = Machine::Element(ParseStatus::Done);
        }
    }
}

impl<'json, 'p, P: Parent<'json>> Array<'json, 'p, P> {
    /// A cursor that reads `remaining` and reports to `parent`.
    pub fn new(parent: &'p mut P, remaining: &'json str) -> (r: Self)
        ensures
            *r.parent == *old(parent),
            *final(r.parent) == *final(parent),
            r.remaining == remaining,
            r.machine == (Machine::In { postcomma: false }),
    {
        Self { parent, remaining, machine: Machine::In { postcomma: false } }
    }

    /// Moves to the next element and returns a cursor over it, or `None` once the
    /// array has ended; the parent then has the input after the closing bracket.
    pub fn next(&mut self) -> (r: Result<Option<Any<'json, '_, Self>>, ParseArrayError>)
        ensures
            r matches Ok(None) ==> final(self).parent.remaining() == final(self).remaining@,
            is_suffix(
                match r {
                    Ok(Some(child)) => child.remaining(),
                    _ => final(self).remaining@,
                },
                old(self).remaining@,
            ),
            ({
                let stop = run(old(self).machine, old(self).remaining@);
                let rest = old(self).remaining@.skip(stop.at);
                match stop.error {
                    Some(e) => {
                        &&& r matches Err(err)
                        &&& err == e
                        &&& final(self).machine == stop.machine
                        &&& final(self).remaining@ == rest
                        &&& final(self).parent == old(self).parent
                    },
                    None => match stop.machine {
                        Machine::Element(ParseStatus::Prompted(prompt)) => {
                            &&& r matches Ok(Some(child))
                            &&& child.prompt() == prompt
                            &&& child.remaining() == rest
                            &&& child.fresh()
                            &&& child.parent().machine == stop.machine
                            &&& child.parent().remaining@ == rest
                            &&& child.parent().parent == old(self).parent
                            &&& *final(child.parent()) == *final(self)
                        },
                        _ => {
                            &&& r matches Ok(None)
                            &&& final(self).machine == stop.machine
                            &&& final(self).remaining@ == rest
                            &&& old(self).parent.child_done(final(self).parent, rest)
                            &&& *final(final(self).parent) == *final(old(self).parent)
                        },
                    },
                }
            }),
    {
        proof {
            lemma_run_stop(self.machine, self.remaining@);
        }
        let (machine, rest, error) = advance(self.machine, self.remaining);
        self.machine = machine;
        self.remaining = rest;
        if let Some(e) = error {
            return Err(e);
        }
        match machine {
            Machine::Element(ParseStatus::Prompted(prompt)) => Ok(Some(prompt.create(self, rest))),
            _ => {
                self.parent.set_remaining(rest);
                Ok(None)
            },
        }
    }

    /// Reads the array to its end, each element with it, so that the parent can go
    /// on.
    pub fn finish(&mut self) -> (r: Result<(), ParseAnyError>)
        ensures
            r is Ok ==> final(self).parent.remaining() == final(self).remaining@,
            is_suffix(final(self).remaining@, old(self).remaining@),
            ({
                let end = array_end(old(self).machine, old(self).remaining@);
                let rest = old(self).remaining@.skip(end.at);
                &&& final(self).machine == end.machine
                &&& final(self).remaining@ == rest
                &&& *final(final(self).parent) == *final(old(self).parent)
                &&& match end.error {
                    Some(e) => r == Err::<(), _>(e) && *final(self).parent == *old(self).parent,
                    None => r is Ok && old(self).parent.child_done(final(self).parent, rest),
                }
            }),
    {
        proof {
            crate::skip::lemma_array_end_bounds(self.machine, self.remaining@);
        }
        let (machine, rest, error) = skip_array(self.machine, self.remaining);
        self.machine = machine;
        self.remaining = rest;
        match error {
            Some(e) => Err(e),
            None => {
                self.parent.set_remaining(rest);
                Ok(())
            },
        }
    }

    /// Calls `f` on a cursor over each element in turn, and reads each element
    /// to its end after the call. Stops at the first error, of the cursor, of
    /// an element or of `f`.
    #[verifier::rlimit(30)]
    pub fn for_each<F>(&mut self, mut f: F) -> (r: Result<(), ParseAnyError>) where
        F: FnMut(&mut Any<'json, '_, Self>) -> Result<(), ParseAnyError>,

        requires
            forall|child: &mut Any<'json, '_, Self>|
                child.fresh() && is_suffix(child.remaining(), old(self).remaining@)
                    ==> #[trigger] call_requires(f, (child,)),
            forall|child: &mut Any<'json, '_, Self>, out: Result<(), ParseAnyError>|
                #[trigger] call_ensures(f, (child,), out) ==> {
                    &&& child.handed_back(final(child))
                    &&& *final(final(child).parent()) == *final(child.parent())
                },
        ensures
            *final(final(self).parent) == *final(old(self).parent),
            is_suffix(final(self).remaining@, old(self).remaining@),
            match r {
                Ok(_) => final(self).machine is End && old(self).parent.child_done(
                    final(self).parent,
                    final(self).remaining@,
                ),
                _ => *final(self).parent == *old(self).parent,
            },
            ({
                let stop = run(old(self).machine, old(self).remaining@);
                match stop.error {
                    Some(e) => r matches Err(err) && err == ParseAnyError::Array(e),
                    None => !(stop.machine is Element) ==> r is Ok,
                }
            }),
    {
        proof {
            crate::text::lemma_suffix_refl(self.remaining@);
        }
        let ghost mut first = true;
        loop
            invariant
                forall|child: &mut Any<'json, '_, Self>|
                    child.fresh() && is_suffix(child.remaining(), old(self).remaining@)
                        ==> #[trigger] call_requires(f, (child,)),
                forall|child: &mut Any<'json, '_, Self>, out: Result<(), ParseAnyError>|
                    #[trigger] call_ensures(f, (child,), out) ==> {
                        &&& child.handed_back(final(child))
                        &&& *final(final(child).parent()) == *final(child.parent())
                    },
                self.parent == old(self).parent,
                first ==> *self == *old(self),
                !first ==> ({
                    let stop = run(old(self).machine, old(self).remaining@);
                    stop.error is None && stop.machine is Element
                }),
                is_suffix(self.remaining@, old(self).remaining@),
            decreases self.remaining@.len(), (if !self.machine.reads() {
                1int
            } else {
                0int
            }),
        {
            let ghost before = *self;
            proof {
                lemma_run_stop(before.machine, before.remaining@);
                crate::text::lemma_skip_is_suffix(
                    before.remaining@,
                    run(before.machine, before.remaining@).at,
                );
                crate::text::lemma_suffix_trans(
                    before.remaining@.skip(run(before.machine, before.remaining@).at),
                    before.remaining@,
                    old(self).remaining@,
                );
            }
            let mut value = match self.next() {
                Err(e) => {
                    return Err(ParseAnyError::Array(e));
                },
                Ok(None) => {
                    return Ok(());
                },
                Ok(Some(value)) => value,
            };
            let ghost fresh = value;
            let called = f(&mut value);
            let ghost handed = value;
            proof {
                first = false;
                fresh.lemma_handed_back(&handed, old(self).remaining@);
            }
            if let Err(e) = value.finish_after(called) {
                return Err(e);
            }
        }
    }

    /// Hands `init` and a cursor over the first element to `f`, then what `f`
    /// returned and a cursor over the next, and so on; returns what the last
    /// call returned. Each element is read to its end after the call. Stops at
    /// the first error, of the cursor, of an element or of `f`.
    #[verifier::rlimit(30)]
    pub fn fold<B, F>(&mut self, init: B, mut f: F) -> (r: Result<B, ParseAnyError>) where
        F: FnMut(B, &mut Any<'json, '_, Self>) -> Result<B, ParseAnyError>,

        requires
            forall|acc: B, child: &mut Any<'json, '_, Self>|
                child.fresh() && is_suffix(child.remaining(), old(self).remaining@)
                    ==> #[trigger] call_requires(f, (acc, child)),
            forall|acc: B, child: &mut Any<'json, '_, Self>, out: Result<B, ParseAnyError>|
                #[trigger] call_ensures(f, (acc, child), out) ==> {
                    &&& child.handed_back(final(child))
                    &&& *final(final(child).parent()) == *final(child.parent())
                },
        ensures
            *final(final(self).parent) == *final(old(self).parent),
            is_suffix(final(self).remaining@, old(self).remaining@),
            match r {
                Ok(_) => final(self).machine is End && old(self).parent.child_done(
                    final(self).parent,
                    final(self).remaining@,
                ),
                _ => *final(self).parent == *old(self).parent,
            },
            ({
                let stop = run(old(self).machine, old(self).remaining@);
                match stop.error {
                    Some(e) => r matches Err(err) && err == ParseAnyError::Array(e),
                    None => !(stop.machine is Element) ==> (r matches Ok(v) && v == init),
                }
            }),
    {
        proof {
            crate::text::lemma_suffix_refl(self.remaining@);
        }
        let ghost mut first = true;
        let mut accumulator = init;
        loop
            invariant
                forall|acc: B, child: &mut Any<'json, '_, Self>|
                    child.fresh() && is_suffix(child.remaining(), old(self).remaining@)
                        ==> #[trigger] call_requires(f, (acc, child)),
                forall|acc: B, child: &mut Any<'json, '_, Self>, out: Result<B, ParseAnyError>|
                    #[trigger] call_ensures(f, (acc, child), out) ==> {
                        &&& child.handed_back(final(child))
                        &&& *final(final(child).parent()) == *final(child.parent())
                    },
                self.parent == old(self).parent,
                first ==> accumulator == init,
                first ==> *self == *old(self),
                !first ==> ({
                    let stop = run(old(self).machine, old(self).remaining@);
                    stop.error is None && stop.machine is Element
                }),
                is_suffix(self.remaining@, old(self).remaining@),
            decreases self.remaining@.len(), (if !self.machine.reads() {
                1int
            } else {
                0int
            }),
        {
            let ghost before = *self;
            proof {
                lemma_run_stop(before.machine, before.remaining@);
                crate::text::lemma_skip_is_suffix(
                    before.remaining@,
                    run(before.machine, before.remaining@).at,
                );
                crate::text::lemma_suffix_trans(
                    before.remaining@.skip(run(before.machine, before.remaining@).at),
                    before.remaining@,
                    old(self).remaining@,
                );
            }
            let mut value = match self.next() {
                Err(e) => {
                    return Err(ParseAnyError::Array(e));
                },
                Ok(None) => {
                    return Ok(accumulator);
                },
                Ok(Some(value)) => value,
            };
            let ghost fresh = value;
            let called = f(accumulator, &mut value);
            let ghost handed = value;
            proof {
                first = false;
                fresh.lemma_handed_back(&handed, old(self).remaining@);
            }
            accumulator = match value.finish_after(called) {
                Ok(next) => next,
                Err(e) => {
                    return Err(e);
                },
            };
        }
    }

    /// Calls `f` on a cursor over each element in turn until it returns a
    /// value, and returns that value, or `None` if no call did. Each element
    /// is read to its end after the call. Stops at the first error, of the
    /// cursor, of an element or of `f`.
    #[verifier::rlimit(30)]
    pub fn find<B, F>(&mut self, mut f: F) -> (r: Result<Option<B>, ParseAnyError>) where
        F: FnMut(&mut Any<'json, '_, Self>) -> Result<Option<B>, ParseAnyError>,

        requires
            forall|child: &mut Any<'json, '_, Self>|
                child.fresh() && is_suffix(child.remaining(), old(self).remaining@)
                    ==> #[trigger] call_requires(f, (child,)),
            forall|child: &mut Any<'json, '_, Self>, out: Result<Option<B>, ParseAnyError>|
                #[trigger] call_ensures(f, (child,), out) ==> {
                    &&& child.handed_back(final(child))
                    &&& *final(final(child).parent()) == *final(child.parent())
                },
        ensures
            *final(final(self).parent) == *final(old(self).parent),
            is_suffix(final(self).remaining@, old(self).remaining@),
            match r {
                Ok(None) => final(self).machine is End && old(self).parent.child_done(
                    final(self).parent,
                    final(self).remaining@,
                ),
                _ => *final(self).parent == *old(self).parent,
            },
            ({
                let stop = run(old(self).machine, old(self).remaining@);
                match stop.error {
                    Some(e) => r matches Err(err) && err == ParseAnyError::Array(e),
                    None => !(stop.machine is Element) ==> r matches Ok(None),
                }
            }),
    {
        proof {
            crate::text::lemma_suffix_refl(self.remaining@);
        }
        let ghost mut first = true;
        loop
            invariant
                forall|child: &mut Any<'json, '_, Self>|
                    child.fresh() && is_suffix(child.remaining(), old(self).remaining@)
                        ==> #[trigger] call_requires(f, (child,)),
                forall|child: &mut Any<'json, '_, Self>, out: Result<Option<B>, ParseAnyError>|
                    #[trigger] call_ensures(f, (child,), out) ==> {
                        &&& child.handed_back(final(child))
                        &&& *final(final(child).parent()) == *final(child.parent())
                    },
                self.parent == old(self).parent,
                first ==> *self == *old(self),
                !first ==> ({
                    let stop = run(old(self).machine, old(self).remaining@);
                    stop.error is None && stop.machine is Element
                }),
                is_suffix(self.remaining@, old(self).remaining@),
            decreases self.remaining@.len(), (if !self.machine.reads() {
                1int
            } else {
                0int
            }),
        {
            let ghost before = *self;
            proof {
                lemma_run_stop(before.machine, before.remaining@);
                crate::text::lemma_skip_is_suffix(
                    before.remaining@,
                    run(before.machine, before.remaining@).at,
                );
                crate::text::lemma_suffix_trans(
                    before.remaining@.skip(run(before.machine, before.remaining@).at),
                    before.remaining@,
                    old(self).remaining@,
                );
            }
            let mut value = match self.next() {
                Err(e) => {
                    return Err(ParseAnyError::Array(e));
                },
                Ok(None) => {
                    return Ok(None);
                },
                Ok(Some(value)) => value,
            };
            let ghost fresh = value;
            let called = f(&mut value);
            let ghost handed = value;
            proof {
                first = false;
                fresh.lemma_handed_back(&handed, old(self).remaining@);
            }
            let result = match value.finish_after(called) {
                Ok(result) => result,
                Err(e) => {
                    return Err(e);
                },
            };
            if result.is_some() {
                return Ok(result);
            }
        }
    }
}

} // verus!
