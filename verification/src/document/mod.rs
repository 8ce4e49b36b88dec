//! Documents: texts of one value.

use crate::any::Any;
use crate::containers::{ParsePrompt, ParseStatus};
use crate::skip::{skip_value, value_end};
use crate::text::{is_suffix, is_whitespace, split_first};
use crate::Parent;
use vstd::prelude::*;

pub mod error;

pub use error::{ParseAnyDocumentError, ParseDocumentError};

verus! {

/// Where a document stops when it is asked for its next value.
pub struct Stop {
    /// The status it stops with.
    pub status: Option<ParseStatus>,
    /// How many characters it has read.
    pub at: int,
    /// The error it stops with, if any.
    pub error: Option<ParseDocumentError>,
}

impl Stop {
    /// The same stop, seen from `n` characters earlier.
    pub open spec fn after(self, n: int) -> Stop {
        Stop { status: self.status, at: self.at + n, error: self.error }
    }
}

/// Reads whitespace from `s` until the value begins, where none has been seen
/// (`status` is `None`), or until the text ends, where the value has been read.
pub open spec fn run(status: Option<ParseStatus>, s: Seq<char>) -> Stop
    decreases s.len(),
{
    if status matches Some(ParseStatus::Prompted(_)) {
        Stop { status, at: 0, error: None }
    } else if s.len() == 0 {
        Stop {
            status,
            at: 0,
            error: if status is None {
                Some(ParseDocumentError::UnexpectedEnd)
            } else {
                None
            },
        }
    } else if is_whitespace(s[0]) {
        run(status, s.skip(1)).after(1)
    } else if status is Some {
        Stop { status, at: 0, error: Some(ParseDocumentError::UnexpectedCharacter(s[0])) }
    } else {
        match ParsePrompt::get(s[0]) {
            Some(prompt) => Stop {
                status: Some(ParseStatus::Prompted(prompt)),
                at: if prompt.keep_first() {
                    0
                } else {
                    1
                },
                error: None,
            },
            None => Stop { status, at: 0, error: Some(ParseDocumentError::InvalidElement(s[0])) },
        }
    }
}

/// The document stops within the text; where it stops without an error and with
/// no value due, it stops at the end of the text.
pub proof fn lemma_run_stop(status: Option<ParseStatus>, s: Seq<char>)
    ensures
        0 <= run(status, s).at <= s.len(),
        status is Some ==> run(status, s).status == status,
        run(status, s).error is None ==> match run(status, s).status {
            Some(ParseStatus::Prompted(prompt)) => status == run(status, s).status
                || if prompt.keep_first() {
                run(status, s).at < s.len()
            } else {
                run(status, s).at > 0
            },
            _ => status == Some(ParseStatus::Done) && run(status, s).at == s.len(),
        },
    decreases s.len(),
{
    if !(status matches Some(ParseStatus::Prompted(_))) && s.len() > 0 && is_whitespace(s[0]) {
        lemma_run_stop(status, s.skip(1));
    }
}

/// Where a document stands once it has been read as far as it goes.
pub struct End {
    /// The status it is left with.
    pub status: Option<ParseStatus>,
    /// How many characters it has read.
    pub at: int,
    /// The error that stopped it, if any.
    pub error: Option<ParseAnyDocumentError>,
}

/// Reads a document with status `status` over `s` to its end: the value, where it
/// has not been read, and the whitespace around it.
pub open spec fn document_end(status: Option<ParseStatus>, s: Seq<char>) -> End {
    let stop = run(status, s);
    match stop.error {
        Some(e) => End {
            status: stop.status,
            at: stop.at,
            error: Some(ParseAnyDocumentError::Document(e)),
        },
        None => match stop.status {
            Some(ParseStatus::Prompted(prompt)) => match value_end(prompt, s.skip(stop.at)) {
                Err(e) => End {
                    status: stop.status,
                    at: stop.at,
                    error: Some(ParseAnyDocumentError::Any(e)),
                },
                Ok(n) => {
                    let tail = run(Some(ParseStatus::Done), s.skip(stop.at + n));
                    End {
                        status: tail.status,
                        at: stop.at + n + tail.at,
                        error: match tail.error {
                            Some(e) => Some(ParseAnyDocumentError::Document(e)),
                            None => None,
                        },
                    }
                },
            },
            _ => End { status: stop.status, at: stop.at, error: None },
        },
    }
}

/// Reading a document to its end is reading up to its value, reading the value
/// through its cursor, and reading what follows the value.
pub proof fn lemma_document_end_steps(status: Option<ParseStatus>, s: Seq<char>)
    ensures
        ({
            let stop = run(status, s);
            stop.error is None ==> match stop.status {
                Some(ParseStatus::Prompted(prompt)) => match value_end(prompt, s.skip(stop.at)) {
                    Ok(n) => {
                        let tail = run(Some(ParseStatus::Done), s.skip(stop.at).skip(n));
                        &&& document_end(status, s).status == tail.status
                        &&& document_end(status, s).at == stop.at + n + tail.at
                        &&& document_end(status, s).error is None <==> tail.error is None
                    },
                    Err(e) => document_end(status, s).error == Some(ParseAnyDocumentError::Any(e)),
                },
                _ => document_end(status, s).error is None,
            }
        }),
{
    let stop = run(status, s);
    lemma_run_stop(status, s);
    if stop.error is None {
        if let Some(ParseStatus::Prompted(prompt)) = stop.status {
            crate::skip::lemma_value_end_bounds(prompt, s.skip(stop.at));
            if let Ok(n) = value_end(prompt, s.skip(stop.at)) {
                assert(s.skip(stop.at).skip(n) =~= s.skip(stop.at + n));
            }
        }
    }
}

/// A document that is read to its end stops within the text.
pub proof fn lemma_end_bounds(status: Option<ParseStatus>, s: Seq<char>)
    ensures
        0 <= document_end(status, s).at <= s.len(),
{
    let stop = run(status, s);
    lemma_run_stop(status, s);
    if stop.error is None {
        if let Some(ParseStatus::Prompted(prompt)) = stop.status {
            crate::skip::lemma_value_end_bounds(prompt, s.skip(stop.at));
            if let Ok(n) = value_end(prompt, s.skip(stop.at)) {
                lemma_run_stop(Some(ParseStatus::Done), s.skip(stop.at + n));
            }
        }
    }
}

/// Moves a document on until its value is due, the text has ended, or an error
/// stops it.
pub fn advance<'json>(status: Option<ParseStatus>, remaining: &'json str) -> (r: (
    Option<ParseStatus>,
    &'json str,
    Option<ParseDocumentError>,
))
    ensures
        r.0 == run(status, remaining@).status,
        r.1@ == remaining@.skip(run(status, remaining@).at),
        r.2 == run(status, remaining@).error,
{
    let mut rest = remaining;
    let ghost mut k: int = 0;
    assert(remaining@.skip(0) =~= remaining@);
    if let Some(ParseStatus::Prompted(_)) = status {
        return (status, rest, None);
    }
    loop
        invariant
            !(status matches Some(ParseStatus::Prompted(_))),
            0 <= k <= remaining@.len(),
            rest@ == remaining@.skip(k),
            run(status, remaining@) == run(status, rest@).after(k),
        decreases rest@.len(),
    {
        match split_first(rest) {
            None => {
                return (
                    status,
                    rest,
                    if status.is_none() {
                        Some(ParseDocumentError::UnexpectedEnd)
                    } else {
                        None
                    },
                );
            },
            Some((c, tail)) => {
                assert(tail@ =~= remaining@.skip(k + 1));
                if is_whitespace(c) {
                    rest = tail;
                    proof {
                        k = k + 1;
                    }
                } else if status.is_some() {
                    return (status, rest, Some(ParseDocumentError::UnexpectedCharacter(c)));
                } else {
                    match ParsePrompt::get(c) {
                        Some(prompt) => {
                            let status = Some(ParseStatus::Prompted(prompt));
                            if prompt.keep_first() {
                                return (status, rest, None);
                            } else {
                                return (status, tail, None);
                            }
                        },
                        None => {
                            return (status, rest, Some(ParseDocumentError::InvalidElement(c)));
                        },
                    }
                }
            },
        }
    }
}

/// A JSON document: one value, with whitespace around it.
#[derive(Debug)]
pub struct Document<'json> {
    pub remaining: &'json str,
    pub parse_status: Option<ParseStatus>,
}

impl<'json> Parent<'json> for Document<'json> {
    open spec fn remaining(&self) -> Seq<char> {
        self.remaining@
    }

    open spec fn child_done(&self, after: &Self, remaining: Seq<char>) -> bool {
        &&& after.remaining@ == remaining
        &&& after.parse_status == Some(ParseStatus::Done)
    }

    fn set_remaining(&mut self, remaining: &'json str) {
        self.remaining = remaining;
        self.parse_status = Some(ParseStatus::Done);
    }
}

/// What a walker of a document makes of the result of a callback on a cursor:
/// the error of the callback, or else what the callback returned once the value
/// has been read to its end, or the error of reading it.
pub fn finish_after<'json, 'p, T>(
    value: &mut Any<'json, 'p, Document<'json>>,
    called: Result<T, ParseAnyDocumentError>,
) -> (r: Result<T, ParseAnyDocumentError>)
    ensures
        *final(final(value).parent()) == *final(old(value).parent()),
        match called {
            Err(e) => r matches Err(err) && err == e && *final(value) == *old(value),
            Ok(returned) => match old(value).end() {
                Ok(n) => {
                    &&& r matches Ok(v)
                    &&& v == returned
                    &&& old(value).parent().child_done(
                        final(value).parent(),
                        old(value).remaining().skip(n),
                    )
                    &&& is_suffix(final(value).parent().remaining(), old(value).remaining())
                },
                Err(e) => r matches Err(err) && err == ParseAnyDocumentError::Any(e) && *final(value).parent() == *old(value).parent(),
            },
        },
{
    match called {
        Err(e) => Err(e),
        Ok(returned) => match value.finish() {
            Ok(()) => Ok(returned),
            Err(e) => Err(ParseAnyDocumentError::Any(e)),
        },
    }
}

impl<'json> Document<'json> {
    /// A document over the text `json`.
    pub fn new(json: &'json str) -> (r: Self)
        ensures
            r.remaining == json,
            r.parse_status is None,
    {
        Self { remaining: json, parse_status: None }
    }

    /// Returns a cursor over the document's value, or `None` once the value has
    /// been read and only whitespace followed it.
    pub fn next(&mut self) -> (r: Result<Option<Any<'json, '_, Self>>, ParseDocumentError>)
        ensures
            is_suffix(
                match r {
                    Ok(Some(child)) => child.remaining(),
                    _ => final(self).remaining@,
                },
                old(self).remaining@,
            ),
            ({
                let stop = run(old(self).parse_status, old(self).remaining@);
                let rest = old(self).remaining@.skip(stop.at);
                match stop.error {
                    Some(e) => {
                        &&& r matches Err(err)
                        &&& err == e
                        &&& final(self).parse_status == stop.status
                        &&& final(self).remaining@ == rest
                    },
                    None => match stop.status {
                        Some(ParseStatus::Prompted(prompt)) => {
                            &&& r matches Ok(Some(child))
                            &&& child.prompt() == prompt
                            &&& child.remaining() == rest
                            &&& child.fresh()
                            &&& child.parent().parse_status == stop.status
                            &&& child.parent().remaining@ == rest
                            &&& *final(child.parent()) == *final(self)
                        },
                        _ => {
                            &&& r matches Ok(None)
                            &&& final(self).parse_status == stop.status
                            &&& final(self).remaining@ == rest
                        },
                    },
                }
            }),
    {
        proof {
            lemma_run_stop(self.parse_status, self.remaining@);
        }
        let (status, rest, error) = advance(self.parse_status, self.remaining);
        self.parse_status = status;
        self.remaining = rest;
        if let Some(e) = error {
            return Err(e);
        }
        match status {
            Some(ParseStatus::Prompted(prompt)) => Ok(Some(prompt.create(self, rest))),
            _ => Ok(None),
        }
    }

    /// Reads the document to its end: the value, where it has not been read, and
    /// the whitespace after it. Anything else after the value is an error.
    #[verifier::rlimit(30)]
    pub fn finish(&mut self) -> (r: Result<(), ParseAnyDocumentError>)
        ensures
            is_suffix(final(self).remaining@, old(self).remaining@),
            ({
                let end = document_end(old(self).parse_status, old(self).remaining@);
                &&& final(self).parse_status == end.status
                &&& final(self).remaining@ == old(self).remaining@.skip(end.at)
                &&& match end.error {
                    Some(e) => r == Err::<(), _>(e),
                    None => r is Ok && final(self).remaining@.len() == 0,
                }
            }),
    {
        proof {
            lemma_end_bounds(self.parse_status, self.remaining@);
        }
        proof {
            lemma_run_stop(self.parse_status, self.remaining@);
        }
        let ghost start = self.remaining@;
        let ghost first = run(self.parse_status, start);
        let (status, rest, error) = advance(self.parse_status, self.remaining);
        self.parse_status = status;
        self.remaining = rest;
        if let Some(e) = error {
            return Err(ParseAnyDocumentError::Document(e));
        }
        let prompt = match status {
            Some(ParseStatus::Prompted(prompt)) => prompt,
            _ => {
                return Ok(());
            },
        };
        proof {
            crate::skip::lemma_value_end_bounds(prompt, rest@);
        }
        let after = match skip_value(prompt, rest) {
            Ok(after) => after,
            Err(e) => {
                return Err(ParseAnyDocumentError::Any(e));
            },
        };
        let ghost n = value_end(prompt, rest@)->Ok_0;
        assert(after@ =~= start.skip(first.at + n));
        proof {
            lemma_run_stop(Some(ParseStatus::Done), after@);
        }
        let ghost tail = run(Some(ParseStatus::Done), after@);
        let (status, rest, error) = advance(Some(ParseStatus::Done), after);
        assert(rest@ =~= start.skip(first.at + n + tail.at));
        self.parse_status = status;
        self.remaining = rest;
        match error {
            Some(e) => Err(ParseAnyDocumentError::Document(e)),
            None => Ok(()),
        }
    }

    /// Calls `f` on a cursor over each value in turn, and reads each value to
    /// its end after the call. Stops at the first error, of the cursor, of a
    /// value or of `f`.
    #[verifier::rlimit(30)]
    pub fn for_each<F>(&mut self, mut f: F) -> (r: Result<(), ParseAnyDocumentError>) where
        F: FnMut(&mut Any<'json, '_, Self>) -> Result<(), ParseAnyDocumentError>,

        requires
            forall|child: &mut Any<'json, '_, Self>|
                child.fresh() && is_suffix(child.remaining(), old(self).remaining@)
                    ==> #[trigger] call_requires(f, (child,)),
            forall|child: &mut Any<'json, '_, Self>, out: Result<(), ParseAnyDocumentError>|
                #[trigger] call_ensures(f, (child,), out) ==> {
                    &&& child.handed_back(final(child))
                    &&& *final(final(child).parent()) == *final(child.parent())
                },
        ensures
            is_suffix(final(self).remaining@, old(self).remaining@),
            r matches Ok(_) ==> final(self).parse_status == Some(ParseStatus::Done) && final(self).remaining@.len() == 0,
            ({
                let stop = run(old(self).parse_status, old(self).remaining@);
                match stop.error {
                    Some(e) => r matches Err(err) && err == ParseAnyDocumentError::Document(e),
                    None => !(stop.status matches Some(ParseStatus::Prompted(_))) ==> r is Ok,
                }
            }),
    {
        proof {
            crate::text::lemma_suffix_refl(self.remaining@);
        }
        let ghost mut first = true;
        loop
            invariant
                forall|child: &mut Any<'json, '_, Self>|
                    child.fresh() && is_suffix(child.remaining(), old(self).remaining@)
                        ==> #[trigger] call_requires(f, (child,)),
                forall|child: &mut Any<'json, '_, Self>, out: Result<(), ParseAnyDocumentError>|
                    #[trigger] call_ensures(f, (child,), out) ==> {
                        &&& child.handed_back(final(child))
                        &&& *final(final(child).parent()) == *final(child.parent())
                    },
                first ==> *self == *old(self),
                !first ==> ({
                    let stop = run(old(self).parse_status, old(self).remaining@);
                    stop.error is None && stop.status matches Some(ParseStatus::Prompted(_))
                }),
                is_suffix(self.remaining@, old(self).remaining@),
            decreases self.remaining@.len(), (if self.parse_status matches Some(ParseStatus::Prompted(_)) {
                1int
            } else {
                0int
            }),
        {
            let ghost before = *self;
            proof {
                lemma_run_stop(before.parse_status, before.remaining@);
                crate::text::lemma_skip_is_suffix(
                    before.remaining@,
                    run(before.parse_status, before.remaining@).at,
                );
                crate::text::lemma_suffix_trans(
                    before.remaining@.skip(run(before.parse_status, before.remaining@).at),
                    before.remaining@,
                    old(self).remaining@,
                );
            }
            let mut value = match self.next() {
                Err(e) => {
                    return Err(ParseAnyDocumentError::Document(e));
                },
                Ok(None) => {
                    return Ok(());
                },
                Ok(Some(value)) => value,
            };
            let ghost fresh = value;
            let called = f(&mut value);
            let ghost handed = value;
            proof {
                first = false;
                fresh.lemma_handed_back(&handed, old(self).remaining@);
            }
            if let Err(e) = finish_after(&mut value, called) {
                return Err(e);
            }
        }
    }

    /// Hands `init` and a cursor over the first value to `f`, then what `f`
    /// returned and a cursor over the next, and so on; returns what the last
    /// call returned. Each value is read to its end after the call. Stops at
    /// the first error, of the cursor, of a value or of `f`.
    #[verifier::rlimit(30)]
    pub fn fold<B, F>(&mut self, init: B, mut f: F) -> (r: Result<B, ParseAnyDocumentError>) where
        F: FnMut(B, &mut Any<'json, '_, Self>) -> Result<B, ParseAnyDocumentError>,

        requires
            forall|acc: B, child: &mut Any<'json, '_, Self>|
                child.fresh() && is_suffix(child.remaining(), old(self).remaining@)
                    ==> #[trigger] call_requires(f, (acc, child)),
            forall|acc: B, child: &mut Any<'json, '_, Self>, out: Result<B, ParseAnyDocumentError>|
                #[trigger] call_ensures(f, (acc, child), out) ==> {
                    &&& child.handed_back(final(child))
                    &&& *final(final(child).parent()) == *final(child.parent())
                },
        ensures
            is_suffix(final(self).remaining@, old(self).remaining@),
            r matches Ok(_) ==> final(self).parse_status == Some(ParseStatus::Done) && final(self).remaining@.len() == 0,
            ({
                let stop = run(old(self).parse_status, old(self).remaining@);
                match stop.error {
                    Some(e) => r matches Err(err) && err == ParseAnyDocumentError::Document(e),
                    None => !(stop.status matches Some(ParseStatus::Prompted(_))) ==> (r matches Ok(v) && v == init),
                }
            }),
    {
        proof {
            crate::text::lemma_suffix_refl(self.remaining@);
        }
        let ghost mut first = true;
        let mut accumulator = init;
        loop
            invariant
                forall|acc: B, child: &mut Any<'json, '_, Self>|
                    child.fresh() && is_suffix(child.remaining(), old(self).remaining@)
                        ==> #[trigger] call_requires(f, (acc, child)),
                forall|acc: B, child: &mut Any<'json, '_, Self>, out: Result<B, ParseAnyDocumentError>|
                    #[trigger] call_ensures(f, (acc, child), out) ==> {
                        &&& child.handed_back(final(child))
                        &&& *final(final(child).parent()) == *final(child.parent())
                    },
                first ==> accumulator == init,
                first ==> *self == *old(self),
                !first ==> ({
                    let stop = run(old(self).parse_status, old(self).remaining@);
                    stop.error is None && stop.status matches Some(ParseStatus::Prompted(_))
                }),
                is_suffix(self.remaining@, old(self).remaining@),
            decreases self.remaining@.len(), (if self.parse_status matches Some(ParseStatus::Prompted(_)) {
                1int
            } else {
                0int
            }),
        {
            let ghost before = *self;
            proof {
                lemma_run_stop(before.parse_status, before.remaining@);
                crate::text::lemma_skip_is_suffix(
                    before.remaining@,
                    run(before.parse_status, before.remaining@).at,
                );
                crate::text::lemma_suffix_trans(
                    before.remaining@.skip(run(before.parse_status, before.remaining@).at),
                    before.remaining@,
                    old(self).remaining@,
                );
            }
            let mut value = match self.next() {
                Err(e) => {
                    return Err(ParseAnyDocumentError::Document(e));
                },
                Ok(None) => {
                    return Ok(accumulator);
                },
                Ok(Some(value)) => value,
            };
            let ghost fresh = value;
            let called = f(accumulator, &mut value);
            let ghost handed = value;
            proof {
                first = false;
                fresh.lemma_handed_back(&handed, old(self).remaining@);
            }
            accumulator = match finish_after(&mut value, called) {
                Ok(next) => next,
                Err(e) => {
                    return Err(e);
                },
            };
        }
    }

    /// Calls `f` on a cursor over each value in turn until it returns a value,
    /// and returns that value, or `None` if no call did. Each value is read to
    /// its end after the call. Stops at the first error, of the cursor, of a
    /// value or of `f`.
    #[verifier::rlimit(30)]
    pub fn find<B, F>(&mut self, mut f: F) -> (r: Result<Option<B>, ParseAnyDocumentError>) where
        F: FnMut(&mut Any<'json, '_, Self>) -> Result<Option<B>, ParseAnyDocumentError>,

        requires
            forall|child: &mut Any<'json, '_, Self>|
                child.fresh() && is_suffix(child.remaining(), old(self).remaining@)
                    ==> #[trigger] call_requires(f, (child,)),
            forall|child: &mut Any<'json, '_, Self>, out: Result<Option<B>, ParseAnyDocumentError>|
                #[trigger] call_ensures(f, (child,), out) ==> {
                    &&& child.handed_back(final(child))
                    &&& *final(final(child).parent()) == *final(child.parent())
                },
        ensures
            is_suffix(final(self).remaining@, old(self).remaining@),
            r matches Ok(None) ==> final(self).parse_status == Some(ParseStatus::Done) && final(self).remaining@.len() == 0,
            ({
                let stop = run(old(self).parse_status, old(self).remaining@);
                match stop.error {
                    Some(e) => r matches Err(err) && err == ParseAnyDocumentError::Document(e),
                    None => !(stop.status matches Some(ParseStatus::Prompted(_))) ==> r matches Ok(None),
                }
            }),
    {
        proof {
            crate::text::lemma_suffix_refl(self.remaining@);
        }
        let ghost mut first = true;
        loop
            invariant
                forall|child: &mut Any<'json, '_, Self>|
                    child.fresh() && is_suffix(child.remaining(), old(self).remaining@)
                        ==> #[trigger] call_requires(f, (child,)),
                forall|child: &mut Any<'json, '_, Self>, out: Result<Option<B>, ParseAnyDocumentError>|
                    #[trigger] call_ensures(f, (child,), out) ==> {
                        &&& child.handed_back(final(child))
                        &&& *final(final(child).parent()) == *final(child.parent())
                    },
                first ==> *self == *old(self),
                !first ==> ({
                    let stop = run(old(self).parse_status, old(self).remaining@);
                    stop.error is None && stop.status matches Some(ParseStatus::Prompted(_))
                }),
                is_suffix(self.remaining@, old(self).remaining@),
            decreases self.remaining@.len(), (if self.parse_status matches Some(ParseStatus::Prompted(_)) {
                1int
            } else {
                0int
            }),
        {
            let ghost before = *self;
            proof {
                lemma_run_stop(before.parse_status, before.remaining@);
                crate::text::lemma_skip_is_suffix(
                    before.remaining@,
                    run(before.parse_status, before.remaining@).at,
                );
                crate::text::lemma_suffix_trans(
                    before.remaining@.skip(run(before.parse_status, before.remaining@).at),
                    before.remaining@,
                    old(self).remaining@,
                );
            }
            let mut value = match self.next() {
                Err(e) => {
                    return Err(ParseAnyDocumentError::Document(e));
                },
                Ok(None) => {
                    return Ok(None);
                },
                Ok(Some(value)) => value,
            };
            let ghost fresh = value;
            let called = f(&mut value);
            let ghost handed = value;
            proof {
                first = false;
                fresh.lemma_handed_back(&handed, old(self).remaining@);
            }
            let result = match finish_after(&mut value, called) {
                Ok(result) => result,
                Err(e) => {
                    return Err(e);
                },
            };
            if result.is_some() {
                return Ok(result);
            }
        }
    }
}

} // verus!
