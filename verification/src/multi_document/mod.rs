//! Multi-documents: texts of any number of values.

use crate::any::Any;
use crate::containers::{ParsePrompt, ParseStatus};
use crate::skip::{skip_value, value_end};
use crate::text::{is_suffix, is_whitespace, split_first};
use crate::Parent;
use vstd::prelude::*;
use vstd::std_specs::convert::FromSpec;

pub mod error;

pub use error::{ParseAnyMultiDocumentError, ParseMultiDocumentError};

verus! {

/// Where a multi-document stops when it is asked for its next value.
pub struct Stop {
    /// The status it stops with.
    pub status: ParseStatus,
    /// How many characters it has read.
    pub at: int,
    /// The error it stops with, if any.
    pub error: Option<ParseMultiDocumentError>,
}

impl Stop {
    /// The same stop, seen from `n` characters earlier.
    pub open spec fn after(self, n: int) -> Stop {
        Stop { status: self.status, at: self.at + n, error: self.error }
    }
}

/// Reads whitespace from `s` until a value begins or the text ends.
pub open spec fn run(status: ParseStatus, s: Seq<char>) -> Stop
    decreases s.len(),
{
    if status is Prompted || s.len() == 0 {
        Stop { status, at: 0, error: None }
    } else if is_whitespace(s[0]) {
        run(status, s.skip(1)).after(1)
    } else {
        match ParsePrompt::get(s[0]) {
            Some(prompt) => Stop {
                status: ParseStatus::Prompted(prompt),
                at: if prompt.keep_first() {
                    0
                } else {
                    1
                },
                error: None,
            },
            None => Stop {
                status,
                at: 0,
                error: Some(ParseMultiDocumentError::InvalidElement(s[0])),
            },
        }
    }
}

/// The multi-document stops within the text; where it stops without an error and
/// with no value due, it stops at the end of the text.
pub proof fn lemma_run_stop(status: ParseStatus, s: Seq<char>)
    ensures
        0 <= run(status, s).at <= s.len(),
        run(status, s).error is None ==> match run(status, s).status {
            ParseStatus::Prompted(prompt) => status is Prompted || if prompt.keep_first() {
                run(status, s).at < s.len()
            } else {
                run(status, s).at > 0
            },
            ParseStatus::Done => run(status, s).at == s.len(),
        },
    decreases s.len(),
{
    if status is Done && s.len() > 0 && is_whitespace(s[0]) {
        lemma_run_stop(status, s.skip(1));
    }
}

/// Where a multi-document stands once it has been read as far as it goes.
pub struct End {
    /// The status it is left with.
    pub status: ParseStatus,
    /// How many characters it has read.
    pub at: int,
    /// The error that stopped it, if any.
    pub error: Option<ParseAnyMultiDocumentError>,
}

impl End {
    /// The same outcome, seen from `n` characters earlier.
    pub open spec fn after(self, n: int) -> End {
        End { status: self.status, at: self.at + n, error: self.error }
    }
}

/// Reads a multi-document with status `status` over `s` to its end, each value
/// with it. Every value takes at least one character and ends within the text, so
/// the bound on its length, by which the definition is well founded, always holds.
pub open spec fn multi_document_end(status: ParseStatus, s: Seq<char>) -> End
    decreases s.len(), (if status is Prompted {
        1int
    } else {
        0int
    }),
{
    let stop = run(status, s);
    match stop.error {
        Some(e) => End {
            status: stop.status,
            at: stop.at,
            error: Some(ParseAnyMultiDocumentError::MultiDocument(e)),
        },
        None => match stop.status {
            ParseStatus::Prompted(prompt) => match value_end(prompt, s.skip(stop.at)) {
                Err(e) => End {
                    status: stop.status,
                    at: stop.at,
                    error: Some(ParseAnyMultiDocumentError::Any(e)),
                },
                Ok(n) => if 0 < stop.at + n <= s.len() {
                    multi_document_end(ParseStatus::Done, s.skip(stop.at + n)).after(stop.at + n)
                } else {
                    End { status: stop.status, at: stop.at, error: None }
                },
            },
            ParseStatus::Done => End { status: stop.status, at: stop.at, error: None },
        },
    }
}

/// A multi-document that is read to its end without an error stops at the end of
/// the text.
pub proof fn lemma_end_of_text(status: ParseStatus, s: Seq<char>)
    ensures
        0 <= multi_document_end(status, s).at <= s.len(),
        multi_document_end(status, s).error is None ==> multi_document_end(status, s).at
            == s.len() && multi_document_end(status, s).status is Done,
    decreases s.len(), (if status is Prompted {
        1int
    } else {
        0int
    }),
{
    let stop = run(status, s);
    lemma_run_stop(status, s);
    if stop.error is None {
        if let ParseStatus::Prompted(prompt) = stop.status {
            crate::skip::lemma_value_end_bounds(prompt, s.skip(stop.at));
            if let Ok(n) = value_end(prompt, s.skip(stop.at)) {
                lemma_end_of_text(ParseStatus::Done, s.skip(stop.at + n));
            }
        }
    }
}

/// Moves a multi-document on until a value is due, the text has ended, or an error
/// stops it.
pub fn advance<'json>(status: ParseStatus, remaining: &'json str) -> (r: (
    ParseStatus,
    &'json str,
    Option<ParseMultiDocumentError>,
))
    ensures
        r.0 == run(status, remaining@).status,
        r.1@ == remaining@.skip(run(status, remaining@).at),
        r.2 == run(status, remaining@).error,
{
    let mut rest = remaining;
    let ghost mut k: int = 0;
    assert(remaining@.skip(0) =~= remaining@);
    if let ParseStatus::Prompted(_) = status {
        return (status, rest, None);
    }
    loop
        invariant
            status is Done,
            0 <= k <= remaining@.len(),
            rest@ == remaining@.skip(k),
            run(status, remaining@) == run(status, rest@).after(k),
        decreases rest@.len(),
    {
        match split_first(rest) {
            None => {
                return (status, rest, None);
            },
            Some((c, tail)) => {
                assert(tail@ =~= remaining@.skip(k + 1));
                if is_whitespace(c) {
                    rest = tail;
                    proof {
                        k = k + 1;
                    }
                } else {
                    match ParsePrompt::get(c) {
                        Some(prompt) => {
                            let status = ParseStatus::Prompted(prompt);
                            if prompt.keep_first() {
                                return (status, rest, None);
                            } else {
                                return (status, tail, None);
                            }
                        },
                        None => {
                            return (
                                status,
                                rest,
                                Some(ParseMultiDocumentError::InvalidElement(c)),
                            );
                        },
                    }
                }
            },
        }
    }
}

/// A text of any number of JSON values, with whitespace around and between them.
#[derive(Debug)]
pub struct MultiDocument<'json> {
    pub remaining: &'json str,
    pub parse_status: ParseStatus,
}

impl<'json> Parent<'json> for MultiDocument<'json> {
    open spec fn remaining(&self) -> Seq<char> {
        self.remaining@
    }

    open spec fn child_done(&self, after: &Self, remaining: Seq<char>) -> bool {
        &&& after.remaining@ == remaining
        &&& after.parse_status == ParseStatus::Done
    }

    fn set_remaining(&mut self, remaining: &'json str) {
        self.remaining = remaining;
        self.parse_status = ParseStatus::Done;
    }
}

/// What a walker of a multi-document makes of the result of a callback on a cursor:
/// the error of the callback, or else what the callback returned once the value
/// has been read to its end, or the error of reading it.
pub fn finish_after<'json, 'p, T>(
    value: &mut Any<'json, 'p, MultiDocument<'json>>,
    called: Result<T, ParseAnyMultiDocumentError>,
) -> (r: Result<T, ParseAnyMultiDocumentError>)
    ensures
        *final(final(value).parent()) == *final(old(value).parent()),
        match called {
            Err(e) => r matches Err(err) && err == e && *final(value) == *old(value),
            Ok(returned) => match old(value).end() {
                Ok(n) => {
                    &&& r matches Ok(v)
                    &&& v == returned
                    &&& old(value).parent().child_done(
                        final(value).parent(),
                        old(value).remaining().skip(n),
                    )
                    &&& is_suffix(final(value).parent().remaining(), old(value).remaining())
                },
                Err(e) => r matches Err(err) && err == ParseAnyMultiDocumentError::Any(e) && *final(value).parent() == *old(value).parent(),
            },
        },
{
    match called {
        Err(e) => Err(e),
        Ok(returned) => match value.finish() {
            Ok(()) => Ok(returned),
            Err(e) => Err(ParseAnyMultiDocumentError::Any(e)),
        },
    }
}

impl<'json> MultiDocument<'json> {
    /// A multi-document over the text `json`.
    pub fn new(json: &'json str) -> (r: Self)
        ensures
            r.remaining == json,
            r.parse_status is Done,
    {
        Self { remaining: json, parse_status: ParseStatus::Done }
    }

    /// Returns a cursor over the next value, or `None` once the text has ended.
    pub fn next(&mut self) -> (r: Result<Option<Any<'json, '_, Self>>, ParseMultiDocumentError>)
        ensures
            is_suffix(
                match r {
                    Ok(Some(child)) => child.remaining(),
                    _ => final(self).remaining@,
                },
                old(self).remaining@,
            ),
            ({
                let stop = run(old(self).parse_status, old(self).remaining@);
                let rest = old(self).remaining@.skip(stop.at);
                match stop.error {
                    Some(e) => {
                        &&& r matches Err(err)
                        &&& err == e
                        &&& final(self).parse_status == stop.status
                        &&& final(self).remaining@ == rest
                    },
                    None => match stop.status {
                        ParseStatus::Prompted(prompt) => {
                            &&& r matches Ok(Some(child))
                            &&& child.prompt() == prompt
                            &&& child.remaining() == rest
                            &&& child.fresh()
                            &&& child.parent().parse_status == stop.status
                            &&& child.parent().remaining@ == rest
                            &&& *final(child.parent()) == *final(self)
                        },
                        ParseStatus::Done => {
                            &&& r matches Ok(None)
                            &&& final(self).parse_status == stop.status
                            &&& final(self).remaining@ == rest
                        },
                    },
                }
            }),
    {
        proof {
            lemma_run_stop(self.parse_status, self.remaining@);
        }
        let (status, rest, error) = advance(self.parse_status, self.remaining);
        self.parse_status = status;
        self.remaining = rest;
        if let Some(e) = error {
            return Err(e);
        }
        match status {
            ParseStatus::Prompted(prompt) => Ok(Some(prompt.create(self, rest))),
            ParseStatus::Done => Ok(None),
        }
    }

    /// Reads the multi-document to its end, each value with it.
    #[verifier::rlimit(30)]
    pub fn finish(&mut self) -> (r: Result<(), ParseAnyMultiDocumentError>)
        ensures
            is_suffix(final(self).remaining@, old(self).remaining@),
            ({
                let end = multi_document_end(old(self).parse_status, old(self).remaining@);
                &&& final(self).parse_status == end.status
                &&& final(self).remaining@ == old(self).remaining@.skip(end.at)
                &&& match end.error {
                    Some(e) => r == Err::<(), _>(e),
                    None => r is Ok && final(self).remaining@.len() == 0,
                }
            }),
    {
        proof {
            lemma_end_of_text(self.parse_status, self.remaining@);
        }
        let ghost start = self.remaining@;
        let ghost first = self.parse_status;
        let ghost mut k: int = 0;
        assert(start.skip(0) =~= start);
        loop
            invariant
                start == old(self).remaining@,
                first == old(self).parse_status,
                0 <= k <= start.len(),
                self.remaining@ == start.skip(k),
                multi_document_end(first, start) == multi_document_end(
                    self.parse_status,
                    self.remaining@,
                ).after(k),
            decreases self.remaining@.len(), (if self.parse_status is Prompted {
                1int
            } else {
                0int
            }),
        {
            let ghost before = self.remaining@;
            let ghost stop = run(self.parse_status, before);
            proof {
                lemma_run_stop(self.parse_status, before);
                lemma_end_of_text(self.parse_status, before);
            }
            let (status, rest, error) = advance(self.parse_status, self.remaining);
            assert(rest@ =~= start.skip(k + stop.at));
            self.parse_status = status;
            self.remaining = rest;
            if let Some(e) = error {
                return Err(ParseAnyMultiDocumentError::MultiDocument(e));
            }
            let prompt = match status {
                ParseStatus::Prompted(prompt) => prompt,
                ParseStatus::Done => {
                    return Ok(());
                },
            };
            proof {
                crate::skip::lemma_value_end_bounds(prompt, rest@);
            }
            match skip_value(prompt, rest) {
                Ok(after) => {
                    proof {
                        let n = value_end(prompt, rest@)->Ok_0;
                        assert(after@ =~= start.skip(k + stop.at + n));
                        assert(after@ =~= before.skip(stop.at + n));
                        k = k + stop.at + n;
                    }
                    self.set_remaining(after);
                },
                Err(e) => {
                    return Err(ParseAnyMultiDocumentError::Any(e));
                },
            }
        }
    }

    /// Calls `f` on a cursor over each value in turn, and reads each value to
    /// its end after the call. Stops at the first error, of the cursor, of a
    /// value or of `f`.
    #[verifier::rlimit(30)]
    pub fn for_each<F, E>(&mut self, mut f: F) -> (r: Result<(), E>) where
        F: FnMut(&mut Any<'json, '_, Self>) -> Result<(), ParseAnyMultiDocumentError>,
        E: From<ParseAnyMultiDocumentError>,

        requires
            forall|child: &mut Any<'json, '_, Self>|
                child.fresh() && is_suffix(child.remaining(), old(self).remaining@)
                    ==> #[trigger] call_requires(f, (child,)),
            forall|child: &mut Any<'json, '_, Self>, out: Result<(), ParseAnyMultiDocumentError>|
                #[trigger] call_ensures(f, (child,), out) ==> {
                    &&& child.handed_back(final(child))
                    &&& *final(final(child).parent()) == *final(child.parent())
                },
        ensures
            is_suffix(final(self).remaining@, old(self).remaining@),
            r matches Ok(_) ==> final(self).parse_status is Done && final(self).remaining@.len() == 0,
            ({
                let stop = run(old(self).parse_status, old(self).remaining@);
                match stop.error {
                    Some(e) => r matches Err(err) && (E::obeys_from_spec() ==> err == E::from_spec(
                        ParseAnyMultiDocumentError::MultiDocument(e),
                    )),
                    None => !(stop.status is Prompted) ==> r is Ok,
                }
            }),
    {
        proof {
            crate::text::lemma_suffix_refl(self.remaining@);
        }
        let ghost mut first = true;
        loop
            invariant
                forall|child: &mut Any<'json, '_, Self>|
                    child.fresh() && is_suffix(child.remaining(), old(self).remaining@)
                        ==> #[trigger] call_requires(f, (child,)),
                forall|child: &mut Any<'json, '_, Self>, out: Result<(), ParseAnyMultiDocumentError>|
                    #[trigger] call_ensures(f, (child,), out) ==> {
                        &&& child.handed_back(final(child))
                        &&& *final(final(child).parent()) == *final(child.parent())
                    },
                first ==> *self == *old(self),
                !first ==> ({
                    let stop = run(old(self).parse_status, old(self).remaining@);
                    stop.error is None && stop.status is Prompted
                }),
                is_suffix(self.remaining@, old(self).remaining@),
            decreases self.remaining@.len(), (if self.parse_status is Prompted {
                1int
            } else {
                0int
            }),
        {
            let ghost before = *self;
            proof {
                lemma_run_stop(before.parse_status, before.remaining@);
                crate::text::lemma_skip_is_suffix(
                    before.remaining@,
                    run(before.parse_status, before.remaining@).at,
                );
                crate::text::lemma_suffix_trans(
                    before.remaining@.skip(run(before.parse_status, before.remaining@).at),
                    before.remaining@,
                    old(self).remaining@,
                );
            }
            let mut value = match self.next() {
                Err(e) => {
                    return Err(E::from(ParseAnyMultiDocumentError::MultiDocument(e)));
                },
                Ok(None) => {
                    return Ok(());
                },
                Ok(Some(value)) => value,
            };
            let ghost fresh = value;
            let called = f(&mut value);
            let ghost handed = value;
            proof {
                first = false;
                fresh.lemma_handed_back(&handed, old(self).remaining@);
            }
            if let Err(e) = finish_after(&mut value, called) {
                return Err(E::from(e));
            }
        }
    }

    /// Hands `init` and a cursor over the first value to `f`, then what `f`
    /// returned and a cursor over the next, and so on; returns what the last
    /// call returned. Each value is read to its end after the call. Stops at
    /// the first error, of the cursor, of a value or of `f`.
    #[verifier::rlimit(30)]
    pub fn fold<B, F, E>(&mut self, init: B, mut f: F) -> (r: Result<B, E>) where
        F: FnMut(B, &mut Any<'json, '_, Self>) -> Result<B, ParseAnyMultiDocumentError>,
        E: From<ParseAnyMultiDocumentError>,

        requires
            forall|acc: B, child: &mut Any<'json, '_, Self>|
                child.fresh() && is_suffix(child.remaining(), old(self).remaining@)
                    ==> #[trigger] call_requires(f, (acc, child)),
            forall|acc: B, child: &mut Any<'json, '_, Self>, out: Result<B, ParseAnyMultiDocumentError>|
                #[trigger] call_ensures(f, (acc, child), out) ==> {
                    &&& child.handed_back(final(child))
                    &&& *final(final(child).parent()) == *final(child.parent())
                },
        ensures
            is_suffix(final(self).remaining@, old(self).remaining@),
            r matches Ok(_) ==> final(self).parse_status is Done && final(self).remaining@.len() == 0,
            ({
                let stop = run(old(self).parse_status, old(self).remaining@);
                match stop.error {
                    Some(e) => r matches Err(err) && (E::obeys_from_spec() ==> err == E::from_spec(
                        ParseAnyMultiDocumentError::MultiDocument(e),
                    )),
                    None => !(stop.status is Prompted) ==> (r matches Ok(v) && v == init),
                }
            }),
    {
        proof {
            crate::text::lemma_suffix_refl(self.remaining@);
        }
        let ghost mut first = true;
        let mut accumulator = init;
        loop
            invariant
                forall|acc: B, child: &mut Any<'json, '_, Self>|
                    child.fresh() && is_suffix(child.remaining(), old(self).remaining@)
                        ==> #[trigger] call_requires(f, (acc, child)),
                forall|acc: B, child: &mut Any<'json, '_, Self>, out: Result<B, ParseAnyMultiDocumentError>|
                    #[trigger] call_ensures(f, (acc, child), out) ==> {
                        &&& child.handed_back(final(child))
                        &&& *final(final(child).parent()) == *final(child.parent())
                    },
                first ==> accumulator == init,
                first ==> *self == *old(self),
                !first ==> ({
                    let stop = run(old(self).parse_status, old(self).remaining@);
                    stop.error is None && stop.status is Prompted
                }),
                is_suffix(self.remaining@, old(self).remaining@),
            decreases self.remaining@.len(), (if self.parse_status is Prompted {
                1int
            } else {
                0int
            }),
        {
            let ghost before = *self;
            proof {
                lemma_run_stop(before.parse_status, before.remaining@);
                crate::text::lemma_skip_is_suffix(
                    before.remaining@,
                    run(before.parse_status, before.remaining@).at,
                );
                crate::text::lemma_suffix_trans(
                    before.remaining@.skip(run(before.parse_status, before.remaining@).at),
                    before.remaining@,
                    old(self).remaining@,
                );
            }
            let mut value = match self.next() {
                Err(e) => {
                    return Err(E::from(ParseAnyMultiDocumentError::MultiDocument(e)));
                },
                Ok(None) => {
                    return Ok(accumulator);
                },
                Ok(Some(value)) => value,
            };
            let ghost fresh = value;
            let called = f(accumulator, &mut value);
            let ghost handed = value;
            proof {
                first = false;
                fresh.lemma_handed_back(&handed, old(self).remaining@);
            }
            accumulator = match finish_after(&mut value, called) {
                Ok(next) => next,
                Err(e) => {
                    return Err(E::from(e));
                },
            };
        }
    }

    /// Calls `f` on a cursor over each value in turn until it returns a value,
    /// and returns that value, or `None` if no call did. Each value is read to
    /// its end after the call. Stops at the first error, of the cursor, of a
    /// value or of `f`.
    #[verifier::rlimit(30)]
    pub fn find<B, F, E>(&mut self, mut f: F) -> (r: Result<Option<B>, E>) where
        F: FnMut(&mut Any<'json, '_, Self>) -> Result<Option<B>, E>,
        E: From<ParseAnyMultiDocumentError>,

        requires
            forall|child: &mut Any<'json, '_, Self>|
                child.fresh() && is_suffix(child.remaining(), old(self).remaining@)
                    ==> #[trigger] call_requires(f, (child,)),
            forall|child: &mut Any<'json, '_, Self>, out: Result<Option<B>, E>|
                #[trigger] call_ensures(f, (child,), out) ==> {
                    &&& child.handed_back(final(child))
                    &&& *final(final(child).parent()) == *final(child.parent())
                },
        ensures
            is_suffix(final(self).remaining@, old(self).remaining@),
            r matches Ok(None) ==> final(self).parse_status is Done && final(self).remaining@.len() == 0,
            ({
                let stop = run(old(self).parse_status, old(self).remaining@);
                match stop.error {
                    Some(e) => r matches Err(err) && (E::obeys_from_spec() ==> err == E::from_spec(
                        ParseAnyMultiDocumentError::MultiDocument(e),
                    )),
                    None => !(stop.status is Prompted) ==> r matches Ok(None),
                }
            }),
    {
        proof {
            crate::text::lemma_suffix_refl(self.remaining@);
        }
        let ghost mut first = true;
        loop
            invariant
                forall|child: &mut Any<'json, '_, Self>|
                    child.fresh() && is_suffix(child.remaining(), old(self).remaining@)
                        ==> #[trigger] call_requires(f, (child,)),
                forall|child: &mut Any<'json, '_, Self>, out: Result<Option<B>, E>|
                    #[trigger] call_ensures(f, (child,), out) ==> {
                        &&& child.handed_back(final(child))
                        &&& *final(final(child).parent()) == *final(child.parent())
                    },
                first ==> *self == *old(self),
                !first ==> ({
                    let stop = run(old(self).parse_status, old(self).remaining@);
                    stop.error is None && stop.status is Prompted
                }),
                is_suffix(self.remaining@, old(self).remaining@),
            decreases self.remaining@.len(), (if self.parse_status is Prompted {
                1int
            } else {
                0int
            }),
        {
            let ghost before = *self;
            proof {
                lemma_run_stop(before.parse_status, before.remaining@);
                crate::text::lemma_skip_is_suffix(
                    before.remaining@,
                    run(before.parse_status, before.remaining@).at,
                );
                crate::text::lemma_suffix_trans(
                    before.remaining@.skip(run(before.parse_status, before.remaining@).at),
                    before.remaining@,
                    old(self).remaining@,
                );
            }
            let mut value = match self.next() {
                Err(e) => {
                    return Err(E::from(ParseAnyMultiDocumentError::MultiDocument(e)));
                },
                Ok(None) => {
                    return Ok(None);
                },
                Ok(Some(value)) => value,
            };
            let ghost fresh = value;
            let called = f(&mut value);
            let ghost handed = value;
            proof {
                first = false;
                fresh.lemma_handed_back(&handed, old(self).remaining@);
            }
            let result = match called {
                Ok(result) => result,
                Err(e) => {
                    return Err(e);
                },
            };
            let result = match finish_after(&mut value, Ok(result)) {
                Ok(result) => result,
                Err(e) => {
                    return Err(E::from(e));
                },
            };
            if result.is_some() {
                return Ok(result);
            }
        }
    }
}

} // verus!
