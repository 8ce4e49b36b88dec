//! Cursors over objects.

use crate::any::{Any, ParseAnyError};
use crate::containers::ParseStatus;
use crate::skip::{object_end, skip_object};
use crate::string::ParsedString;
use crate::text::is_suffix;
use crate::Parent;
use crate::string::{lemma_scan_decodable, scan_string, string_end};
use crate::text::split_first;
use vstd::prelude::*;

pub mod error;
pub mod machine;

pub use error::ParseObjectError;

use machine::{Machine, State};

verus! {

/// Where an object cursor stops when it is asked for its next member.
pub struct Stop {
    /// The state it stops in.
    pub state: State,
    /// How many characters it has read.
    pub at: int,
    /// The error it stops with, if any.
    pub error: Option<ParseObjectError>,
}

impl Stop {
    /// The same stop, seen from `n` characters earlier.
    pub open spec fn after(self, n: int) -> Stop {
        Stop { state: self.state, at: self.at + n, error: self.error }
    }
}

/// Runs the object machine from `state` over `s` until a value is due, the object
/// has ended, or an error stops it. A name is read as a whole when its opening
/// quotation mark has been seen; the first character of a number or literal is
/// left for the child.
pub open spec fn run(state: State, s: Seq<char>) -> Stop
    decreases s.len(),
{
    if state == State::Name(None) {
        match string_end(s) {
            Err(e) => Stop { state, at: 0, error: Some(ParseObjectError::InvalidName(e)) },
            Ok(n) => {
                proof {
                    lemma_scan_decodable(crate::string::machine::Machine::In, s);
                }
                run(State::Name(Some(s.take(n))), s.skip(n + 1)).after(n + 1)
            },
        }
    } else if !state.reads() {
        Stop { state, at: 0, error: None }
    } else if s.len() == 0 {
        Stop { state, at: 0, error: Some(ParseObjectError::UnexpectedEnd) }
    } else {
        match state.spec_apply(s[0]) {
            Err(e) => Stop { state, at: 0, error: Some(e) },
            Ok(next) => if next matches State::Element {
                element: ParseStatus::Prompted(prompt),
                ..
            } && prompt.keep_first() {
                Stop { state: next, at: 0, error: None }
            } else {
                run(next, s.skip(1)).after(1)
            },
        }
    }
}

/// The cursor stops within the text, and only where a value is due or the object
/// has ended, unless an error stops it.
pub proof fn lemma_run_stop(state: State, s: Seq<char>)
    ensures
        0 <= run(state, s).at <= s.len(),
        run(state, s).error is None ==> match run(state, s).state {
            State::End => state is End || run(state, s).at > 0,
            State::Element { element: ParseStatus::Prompted(prompt), .. } => (!state.reads()
                && state != State::Name(None)) || if prompt.keep_first() {
                run(state, s).at < s.len()
            } else {
                run(state, s).at > 0
            },
            _ => false,
        },
    decreases s.len(),
{
    if state == State::Name(None) {
        match string_end(s) {
            Err(e) => {},
            Ok(n) => {
                lemma_scan_decodable(crate::string::machine::Machine::In, s);
                lemma_run_stop(State::Name(Some(s.take(n))), s.skip(n + 1));
            },
        }
    } else if !state.reads() {
    } else if s.len() == 0 {
    } else {
        match state.spec_apply(s[0]) {
            Err(e) => {},
            Ok(next) => {
                if next matches State::Element { element: ParseStatus::Prompted(prompt), .. }
                    && prompt.keep_first() {
                } else {
                    lemma_run_stop(next, s.skip(1));
                }
            },
        }
    }
}

/// Moves an object cursor on until a value is due, the object has ended, or an
/// error stops it.
pub fn advance<'json>(machine: Machine<'json>, remaining: &'json str) -> (r: (
    Machine<'json>,
    &'json str,
    Option<ParseObjectError>,
))
    ensures
        r.0@ == run(machine@, remaining@).state,
        r.1@ == remaining@.skip(run(machine@, remaining@).at),
        r.2 == run(machine@, remaining@).error,
{
    let mut current = machine;
    let mut rest = remaining;
        let ghost mut k: int = 0;
    assert(remaining@.skip(0) =~= remaining@);
    loop
        invariant
            0 <= k <= remaining@.len(),
            rest@ == remaining@.skip(k),
            run(machine@, remaining@) == run(current@, rest@).after(k),
        decreases rest@.len(),
    {
        match current {
            Machine::Name(None) => {
                match scan_string(rest) {
                    Ok((name, tail)) => {
                        proof {
                            let n = string_end(rest@)->Ok_0;
                            lemma_scan_decodable(crate::string::machine::Machine::In, rest@);
                            assert(tail@ =~= remaining@.skip(k + n + 1));
                            k = k + n + 1;
                        }
                        current = Machine::Name(Some(name));
                        rest = tail;
                    },
                    Err(e) => {
                        return (current, rest, Some(ParseObjectError::InvalidName(e)));
                    },
                }
            },
            Machine::End | Machine::Element { element: ParseStatus::Prompted(_), .. } => {
                return (current, rest, None);
            },
            _ => {
                match split_first(rest) {
                    None => {
                        return (current, rest, Some(ParseObjectError::UnexpectedEnd));
                    },
                    Some((c, tail)) => {
                        assert(tail@ =~= remaining@.skip(k + 1));
                        match current.apply(c) {
                            Err(e) => {
                                return (current, rest, Some(e));
                            },
                            Ok(next) => {
                                current = next;
                                if let Machine::Element {
                                    element: ParseStatus::Prompted(prompt),
                                    ..
                                } = next {
                                    if prompt.keep_first() {
                                        return (current, rest, None);
                                    }
                                }
                                rest = tail;
                                proof {
                                    k = k + 1;
                                }
                            },
                        }
                    },
                }
            },
        }
    }
}

/// A cursor over a JSON object, placed after the opening brace.
#[derive(Debug)]
pub struct Object<'json, 'p, P: Parent<'json>> {
    pub parent: &'p mut P,
    pub remaining: &'json str,
    pub machine: Machine<'json>,
}

impl<'json, 'p, P: Parent<'json>> Parent<'json> for Object<'json, 'p, P> {
    open spec fn remaining(&self) -> Seq<char> {
        self.remaining@
    }

    open spec fn child_done(&self, after: &Self, remaining: Seq<char>) -> bool {
        &&& after.remaining@ == remaining
        &&& after.machine@ == self.machine@.child_done()
        &&& after.parent == self.parent
    }

    fn set_remaining(&mut self, remaining: &'json str) {
        self.remaining = remaining;
        if let Machine::Element { name, .. } = self.machine {
            self.machine = Machine::Element { name, element: ParseStatus::Done };
        }
    }
}

impl<'json, 'p, P: Parent<'json>> Object<'json, 'p, P> {
    /// A cursor that reads `remaining` and reports to `parent`.
    pub fn new(parent: &'p mut P, remaining: &'json str) -> (r: Self)
        ensures
            *r.parent == *old(parent),
            *final(r.parent) == *final(parent),
            r.remaining == remaining,
            r.machine@ == (State::In { postcomma: false }),
    {
        Self { parent, remaining, machine: Machine::In { postcomma: false } }
    }

    /// Moves to the next member and returns its name with a cursor over its value,
    /// or `None` once the object has ended; the parent then has the input after the
    /// closing brace.
    pub fn next(&mut self) -> (r: Result<
        Option<(ParsedString<'json>, Any<'json, '_, Self>)>,
        ParseObjectError,
    >)
        ensures
            r matches Ok(None) ==> final(self).parent.remaining() == final(self).remaining@,
            is_suffix(
                match r {
                    Ok(Some((_, child))) => child.remaining(),
                    _ => final(self).remaining@,
                },
                old(self).remaining@,
            ),
            ({
                let stop = run(old(self).machine@, old(self).remaining@);
                let rest = old(self).remaining@.skip(stop.at);
                match stop.error {
                    Some(e) => {
                        &&& r matches Err(err)
                        &&& err == e
                        &&& final(self).machine@ == stop.state
                        &&& final(self).remaining@ == rest
                        &&& final(self).parent == old(self).parent
                    },
                    None => match stop.state {
                        State::Element { name, element: ParseStatus::Prompted(prompt) } => {
                            &&& r matches Ok(Some((key, child)))
                            &&& key@ == name
                            &&& child.prompt() == prompt
                            &&& child.remaining() == rest
                            &&& child.fresh()
                            &&& child.parent().machine@ == stop.state
                            &&& child.parent().remaining@ == rest
                            &&& child.parent().parent == old(self).parent
                            &&& *final(child.parent()) == *final(self)
                        },
                        _ => {
                            &&& r matches Ok(None)
                            &&& final(self).machine@ == stop.state
                            &&& final(self).remaining@ == rest
                            &&& old(self).parent.child_done(final(self).parent, rest)
                            &&& *final(final(self).parent) == *final(old(self).parent)
                        },
                    },
                }
            }),
    {
        proof {
            lemma_run_stop(self.machine@, self.remaining@);
        }
        let (machine, rest, error) = advance(self.machine, self.remaining);
        self.machine = machine;
        self.remaining = rest;
        if let Some(e) = error {
            return Err(e);
        }
        match machine {
            Machine::Element { name, element: ParseStatus::Prompted(prompt) } => Ok(
                Some((name, prompt.create(self, rest))),
            ),
            _ => {
                self.parent.set_remaining(rest);
                Ok(None)
            },
        }
    }

    /// Reads the object to its end, each value with it, so that the parent can go
    /// on.
    pub fn finish(&mut self) -> (r: Result<(), ParseAnyError>)
        ensures
            r is Ok ==> final(self).parent.remaining() == final(self).remaining@,
            is_suffix(final(self).remaining@, old(self).remaining@),
            ({
                let end = object_end(old(self).machine@, old(self).remaining@);
                let rest = old(self).remaining@.skip(end.at);
                &&& final(self).machine@ == end.machine
                &&& final(self).remaining@ == rest
                &&& *final(final(self).parent) == *final(old(self).parent)
                &&& match end.error {
                    Some(e) => r == Err::<(), _>(e) && *final(self).parent == *old(self).parent,
                    None => r is Ok && old(self).parent.child_done(final(self).parent, rest),
                }
            }),
    {
        proof {
            crate::skip::lemma_object_end_bounds(self.machine@, self.remaining@);
        }
        let (machine, rest, error) = skip_object(self.machine, self.remaining);
        self.machine = machine;
        self.remaining = rest;
        match error {
            Some(e) => Err(e),
            None => {
                self.parent.set_remaining(rest);
                Ok(())
            },
        }
    }

    /// Calls `f` on a cursor over each member in turn, and reads each member
    /// to its end after the call. Stops at the first error, of the cursor, of
    /// a member or of `f`.
    #[verifier::rlimit(30)]
    pub fn for_each<F>(&mut self, mut f: F) -> (r: Result<(), ParseAnyError>) where
        F: FnMut(ParsedString<'json>, &mut Any<'json, '_, Self>) -> Result<(), ParseAnyError>,

        requires
            forall|key: ParsedString<'json>, child: &mut Any<'json, '_, Self>|
                child.fresh() && is_suffix(child.remaining(), old(self).remaining@)
                    ==> #[trigger] call_requires(f, (key, child)),
            forall|key: ParsedString<'json>, child: &mut Any<'json, '_, Self>, out: Result<(), ParseAnyError>|
                #[trigger] call_ensures(f, (key, child), out) ==> {
                    &&& child.handed_back(final(child))
                    &&& *final(final(child).parent()) == *final(child.parent())
                },
        ensures
            *final(final(self).parent) == *final(old(self).parent),
            is_suffix(final(self).remaining@, old(self).remaining@),
            match r {
                Ok(_) => final(self).machine@ is End && old(self).parent.child_done(
                    final(self).parent,
                    final(self).remaining@,
                ),
                _ => *final(self).parent == *old(self).parent,
            },
            ({
                let stop = run(old(self).machine@, old(self).remaining@);
                match stop.error {
                    Some(e) => r matches Err(err) && err == ParseAnyError::Object(e),
                    None => !(stop.state is Element) ==> r is Ok,
                }
            }),
    {
        proof {
            crate::text::lemma_suffix_refl(self.remaining@);
        }
        let ghost mut first = true;
        loop
            invariant
                forall|key: ParsedString<'json>, child: &mut Any<'json, '_, Self>|
                    child.fresh() && is_suffix(child.remaining(), old(self).remaining@)
                        ==> #[trigger] call_requires(f, (key, child)),
                forall|key: ParsedString<'json>, child: &mut Any<'json, '_, Self>, out: Result<(), ParseAnyError>|
                    #[trigger] call_ensures(f, (key, child), out) ==> {
                        &&& child.handed_back(final(child))
                        &&& *final(final(child).parent()) == *final(child.parent())
                    },
                self.parent == old(self).parent,
                first ==> *self == *old(self),
                !first ==> ({
                    let stop = run(old(self).machine@, old(self).remaining@);
                    stop.error is None && stop.state is Element
                }),
                is_suffix(self.remaining@, old(self).remaining@),
            decreases self.remaining@.len(), (if !(self.machine@.reads() || self.machine@ == State::Name(None)) {
                1int
            } else {
                0int
            }),
        {
            let ghost before = *self;
            proof {
                lemma_run_stop(before.machine@, before.remaining@);
                crate::text::lemma_skip_is_suffix(
                    before.remaining@,
                    run(before.machine@, before.remaining@).at,
                );
                crate::text::lemma_suffix_trans(
                    before.remaining@.skip(run(before.machine@, before.remaining@).at),
                    before.remaining@,
                    old(self).remaining@,
                );
            }
            let (key, mut value) = match self.next() {
                Err(e) => {
                    return Err(ParseAnyError::Object(e));
                },
                Ok(None) => {
                    return Ok(());
                },
                Ok(Some((key, value))) => (key, value),
            };
            let ghost fresh = value;
            let called = f(key, &mut value);
            let ghost handed = value;
            proof {
                first = false;
                fresh.lemma_handed_back(&handed, old(self).remaining@);
            }
            if let Err(e) = value.finish_after(called) {
                return Err(e);
            }
        }
    }

    /// Hands `init` and a cursor over the first member to `f`, then what `f`
    /// returned and a cursor over the next, and so on; returns what the last
    /// call returned. Each member is read to its end after the call. Stops at
    /// the first error, of the cursor, of a member or of `f`.
    #[verifier::rlimit(30)]
    pub fn fold<B, F>(&mut self, init: B, mut f: F) -> (r: Result<B, ParseAnyError>) where
        F: FnMut(B, ParsedString<'json>, &mut Any<'json, '_, Self>) -> Result<B, ParseAnyError>,

        requires
            forall|acc: B, key: ParsedString<'json>, child: &mut Any<'json, '_, Self>|
                child.fresh() && is_suffix(child.remaining(), old(self).remaining@)
                    ==> #[trigger] call_requires(f, (acc, key, child)),
            forall|acc: B, key: ParsedString<'json>, child: &mut Any<'json, '_, Self>, out: Result<B, ParseAnyError>|
                #[trigger] call_ensures(f, (acc, key, child), out) ==> {
                    &&& child.handed_back(final(child))
                    &&& *final(final(child).parent()) == *final(child.parent())
                },
        ensures
            *final(final(self).parent) == *final(old(self).parent),
            is_suffix(final(self).remaining@, old(self).remaining@),
            match r {
                Ok(_) => final(self).machine@ is End && old(self).parent.child_done(
                    final(self).parent,
                    final(self).remaining@,
                ),
                _ => *final(self).parent == *old(self).parent,
            },
            ({
                let stop = run(old(self).machine@, old(self).remaining@);
                match stop.error {
                    Some(e) => r matches Err(err) && err == ParseAnyError::Object(e),
                    None => !(stop.state is Element) ==> (r matches Ok(v) && v == init),
                }
            }),
    {
        proof {
            crate::text::lemma_suffix_refl(self.remaining@);
        }
        let ghost mut first = true;
        let mut accumulator = init;
        loop
            invariant
                forall|acc: B, key: ParsedString<'json>, child: &mut Any<'json, '_, Self>|
                    child.fresh() && is_suffix(child.remaining(), old(self).remaining@)
                        ==> #[trigger] call_requires(f, (acc, key, child)),
                forall|acc: B, key: ParsedString<'json>, child: &mut Any<'json, '_, Self>, out: Result<B, ParseAnyError>|
                    #[trigger] call_ensures(f, (acc, key, child), out) ==> {
                        &&& child.handed_back(final(child))
                        &&& *final(final(child).parent()) == *final(child.parent())
                    },
                self.parent == old(self).parent,
                first ==> accumulator == init,
                first ==> *self == *old(self),
                !first ==> ({
                    let stop = run(old(self).machine@, old(self).remaining@);
                    stop.error is None && stop.state is Element
                }),
                is_suffix(self.remaining@, old(self).remaining@),
            decreases self.remaining@.len(), (if !(self.machine@.reads() || self.machine@ == State::Name(None)) {
                1int
            } else {
                0int
            }),
        {
            let ghost before = *self;
            proof {
                lemma_run_stop(before.machine@, before.remaining@);
                crate::text::lemma_skip_is_suffix(
                    before.remaining@,
                    run(before.machine@, before.remaining@).at,
                );
                crate::text::lemma_suffix_trans(
                    before.remaining@.skip(run(before.machine@, before.remaining@).at),
                    before.remaining@,
                    old(self).remaining@,
                );
            }
            let (key, mut value) = match self.next() {
                Err(e) => {
                    return Err(ParseAnyError::Object(e));
                },
                Ok(None) => {
                    return Ok(accumulator);
                },
                Ok(Some((key, value))) => (key, value),
            };
            let ghost fresh = value;
            let called = f(accumulator, key, &mut value);
            let ghost handed = value;
            proof {
                first = false;
                fresh.lemma_handed_back(&handed, old(self).remaining@);
            }
            accumulator = match value.finish_after(called) {
                Ok(next) => next,
                Err(e) => {
                    return Err(e);
                },
            };
        }
    }

    /// Calls `f` on a cursor over each member in turn until it returns a
    /// value, and returns that value, or `None` if no call did. Each member is
    /// read to its end after the call. Stops at the first error, of the
    /// cursor, of a member or of `f`.
    #[verifier::rlimit(30)]
    pub fn find<B, F>(&mut self, mut f: F) -> (r: Result<Option<B>, ParseAnyError>) where
        F: FnMut(ParsedString<'json>, &mut Any<'json, '_, Self>) -> Result<Option<B>, ParseAnyError>,

        requires
            forall|key: ParsedString<'json>, child: &mut Any<'json, '_, Self>|
                child.fresh() && is_suffix(child.remaining(), old(self).remaining@)
                    ==> #[trigger] call_requires(f, (key, child)),
            forall|key: ParsedString<'json>, child: &mut Any<'json, '_, Self>, out: Result<Option<B>, ParseAnyError>|
                #[trigger] call_ensures(f, (key, child), out) ==> {
                    &&& child.handed_back(final(child))
                    &&& *final(final(child).parent()) == *final(child.parent())
                },
        ensures
            *final(final(self).parent) == *final(old(self).parent),
            is_suffix(final(self).remaining@, old(self).remaining@),
            match r {
                Ok(None) => final(self).machine@ is End && old(self).parent.child_done(
                    final(self).parent,
                    final(self).remaining@,
                ),
                _ => *final(self).parent == *old(self).parent,
            },
            ({
                let stop = run(old(self).machine@, old(self).remaining@);
                match stop.error {
                    Some(e) => r matches Err(err) && err == ParseAnyError::Object(e),
                    None => !(stop.state is Element) ==> r matches Ok(None),
                }
            }),
    {
        proof {
            crate::text::lemma_suffix_refl(self.remaining@);
        }
        let ghost mut first = true;
        loop
            invariant
                forall|key: ParsedString<'json>, child: &mut Any<'json, '_, Self>|
                    child.fresh() && is_suffix(child.remaining(), old(self).remaining@)
                        ==> #[trigger] call_requires(f, (key, child)),
                forall|key: ParsedString<'json>, child: &mut Any<'json, '_, Self>, out: Result<Option<B>, ParseAnyError>|
                    #[trigger] call_ensures(f, (key, child), out) ==> {
                        &&& child.handed_back(final(child))
                        &&& *final(final(child).parent()) == *final(child.parent())
                    },
                self.parent == old(self).parent,
                first ==> *self == *old(self),
                !first ==> ({
                    let stop = run(old(self).machine@, old(self).remaining@);
                    stop.error is None && stop.state is Element
                }),
                is_suffix(self.remaining@, old(self).remaining@),
            decreases self.remaining@.len(), (if !(self.machine@.reads() || self.machine@ == State::Name(None)) {
                1int
            } else {
                0int
            }),
        {
            let ghost before = *self;
            proof {
                lemma_run_stop(before.machine@, before.remaining@);
                crate::text::lemma_skip_is_suffix(
                    before.remaining@,
                    run(before.machine@, before.remaining@).at,
                );
                crate::text::lemma_suffix_trans(
                    before.remaining@.skip(run(before.machine@, before.remaining@).at),
                    before.remaining@,
                    old(self).remaining@,
                );
            }
            let (key, mut value) = match self.next() {
                Err(e) => {
                    return Err(ParseAnyError::Object(e));
                },
                Ok(None) => {
                    return Ok(None);
                },
                Ok(Some((key, value))) => (key, value),
            };
            let ghost fresh = value;
            let called = f(key, &mut value);
            let ghost handed = value;
            proof {
                first = false;
                fresh.lemma_handed_back(&handed, old(self).remaining@);
            }
            let result = match value.finish_after(called) {
                Ok(result) => result,
                Err(e) => {
                    return Err(e);
                },
            };
            if result.is_some() {
                return Ok(result);
            }
        }
    }
}

} // verus!
