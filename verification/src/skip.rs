//! Reading a value to its end without handing out cursors: what `finish` does,
//! on the text alone.

use crate::any::ParseAnyError;
use crate::array;
use crate::containers::{ParsePrompt, ParseStatus};
use crate::literal::{literal_end, scan_literal};
use crate::number::{number_end, scan_number};
use crate::object;
use crate::string::{scan_string, string_end};
use vstd::prelude::*;

verus! {

/// Where a container cursor stands once it has been driven as far as it goes.
pub struct Finish<M> {
    /// The state it is left in.
    pub machine: M,
    /// How many characters it has read.
    pub at: int,
    /// The error that stopped it, if any.
    pub error: Option<ParseAnyError>,
}

impl<M> Finish<M> {
    /// The same outcome, seen from `n` characters earlier.
    pub open spec fn after(self, n: int) -> Self {
        Finish { machine: self.machine, at: self.at + n, error: self.error }
    }

    /// The number of characters read, where no error stopped the cursor.
    pub open spec fn length(self) -> Result<int, ParseAnyError> {
        match self.error {
            Some(e) => Err(e),
            None => Ok(self.at),
        }
    }
}

/// The length of the value of kind `prompt` at the start of `s`, or the error that
/// reading it ends with. For a string, an array or an object, `s` starts after the
/// opening delimiter.
pub open spec fn value_end(prompt: ParsePrompt, s: Seq<char>) -> Result<int, ParseAnyError>
    decreases s.len(), (if prompt.keep_first() {
        0int
    } else {
        2int
    }),
{
    match prompt {
        ParsePrompt::String => match string_end(s) {
            Ok(n) => Ok(n + 1),
            Err(e) => Err(ParseAnyError::String(e)),
        },
        ParsePrompt::Number => match number_end(s) {
            Ok(n) => Ok(n),
            Err(e) => Err(ParseAnyError::Number(e)),
        },
        ParsePrompt::Literal => match literal_end(s) {
            Ok((_, n)) => Ok(n),
            Err(e) => Err(ParseAnyError::Literal(e)),
        },
        ParsePrompt::Array => array_end(array::machine::Machine::In { postcomma: false }, s).length(),
        ParsePrompt::Object => object_end(object::machine::State::In { postcomma: false }, s).length(),
    }
}

/// Drives an array cursor in state `m` over `s` to the end of the array, reading
/// each element to its end. Every value takes at least one character and ends
/// within the text (see `lemma_value_end_bounds`), so the bound on its length, by
/// which the definition is well founded, always holds.
pub open spec fn array_end(m: array::machine::Machine, s: Seq<char>) -> Finish<
    array::machine::Machine,
>
    decreases s.len(), (if m.reads() {
        1int
    } else {
        3int
    }),
{
    let stop = array::run(m, s);
    match stop.error {
        Some(e) => Finish {
            machine: stop.machine,
            at: stop.at,
            error: Some(ParseAnyError::Array(e)),
        },
        None => match stop.machine {
            array::machine::Machine::Element(ParseStatus::Prompted(prompt)) => {
                proof {
                    array::lemma_run_stop(m, s);
                }
                match value_end(prompt, s.skip(stop.at)) {
                    Err(e) => Finish { machine: stop.machine, at: stop.at, error: Some(e) },
                    Ok(n) => if 0 < stop.at + n <= s.len() {
                        array_end(
                            array::machine::Machine::Element(ParseStatus::Done),
                            s.skip(stop.at + n),
                        ).after(stop.at + n)
                    } else {
                        Finish { machine: stop.machine, at: stop.at, error: None }
                    },
                }
            },
            _ => Finish { machine: stop.machine, at: stop.at, error: None },
        },
    }
}

/// Drives an object cursor in state `m` over `s` to the end of the object, reading
/// each value to its end. Every value takes at least one character and ends
/// within the text (see `lemma_value_end_bounds`), so the bound on its length, by
/// which the definition is well founded, always holds.
pub open spec fn object_end(m: object::machine::State, s: Seq<char>) -> Finish<
    object::machine::State,
>
    decreases s.len(), (if m.reads() || m == object::machine::State::Name(None) {
        1int
    } else {
        3int
    }),
{
    let stop = object::run(m, s);
    match stop.error {
        Some(e) => Finish {
            machine: stop.state,
            at: stop.at,
            error: Some(ParseAnyError::Object(e)),
        },
        None => match stop.state {
            object::machine::State::Element { name, element: ParseStatus::Prompted(prompt) } => {
                proof {
                    object::lemma_run_stop(m, s);
                }
                match value_end(prompt, s.skip(stop.at)) {
                    Err(e) => Finish { machine: stop.state, at: stop.at, error: Some(e) },
                    Ok(n) => if 0 < stop.at + n <= s.len() {
                        object_end(
                            object::machine::State::Element { name, element: ParseStatus::Done },
                            s.skip(stop.at + n),
                        ).after(stop.at + n)
                    } else {
                        Finish { machine: stop.state, at: stop.at, error: None }
                    },
                }
            },
            _ => Finish { machine: stop.state, at: stop.at, error: None },
        },
    }
}

/// A value takes at least one character and ends within the text.
pub proof fn lemma_value_end_bounds(prompt: ParsePrompt, s: Seq<char>)
    ensures
        value_end(prompt, s) matches Ok(n) ==> 0 < n <= s.len(),
    decreases s.len(), (if prompt.keep_first() {
        0int
    } else {
        2int
    }),
{
    match prompt {
        ParsePrompt::String => {
            if string_end(s) is Ok {
                crate::string::lemma_scan_decodable(crate::string::machine::Machine::In, s);
            }
        },
        ParsePrompt::Number => {
            if number_end(s) is Ok {
                crate::number::lemma_scan_bounds(
                    crate::number::machine::Machine::Start { signed: false },
                    s,
                );
                if s.len() > 0 {
                    let first = crate::number::machine::Machine::Start { signed: false }.spec_apply(
                        s[0],
                    );
                    match first {
                        Ok(crate::status::Status::Parsing(next)) => {
                            crate::number::lemma_scan_bounds(next, s.skip(1));
                        },
                        _ => {},
                    }
                }
            }
        },
        ParsePrompt::Literal => {
            if literal_end(s) is Ok {
                crate::literal::lemma_scan_bounds(crate::literal::machine::Machine::Start, s);
            }
        },
        ParsePrompt::Array => {
            lemma_array_end_bounds(array::machine::Machine::In { postcomma: false }, s);
        },
        ParsePrompt::Object => {
            lemma_object_end_bounds(object::machine::State::In { postcomma: false }, s);
        },
    }
}

/// An array cursor that is driven to its end stops within the text, at the end of
/// the array unless an error stops it, and not before it has read a character
/// unless the array had ended before.
pub proof fn lemma_array_end_bounds(m: array::machine::Machine, s: Seq<char>)
    ensures
        0 <= array_end(m, s).at <= s.len(),
        array_end(m, s).error is None ==> array_end(m, s).machine is End,
        array_end(m, s).error is None && !(m is End) ==> array_end(m, s).at > 0,
    decreases s.len(), (if m.reads() {
        1int
    } else {
        3int
    }),
{
    let stop = array::run(m, s);
    array::lemma_run_stop(m, s);
    if stop.error is None {
        if let array::machine::Machine::Element(ParseStatus::Prompted(prompt)) = stop.machine {
            lemma_value_end_bounds(prompt, s.skip(stop.at));
            if let Ok(n) = value_end(prompt, s.skip(stop.at)) {
                lemma_array_end_bounds(
                    array::machine::Machine::Element(ParseStatus::Done),
                    s.skip(stop.at + n),
                );
            }
        }
    }
}

/// An object cursor that is driven to its end stops within the text, at the end of
/// the object unless an error stops it, and not before it has read a character
/// unless the object had ended before.
pub proof fn lemma_object_end_bounds(m: object::machine::State, s: Seq<char>)
    ensures
        0 <= object_end(m, s).at <= s.len(),
        object_end(m, s).error is None ==> object_end(m, s).machine is End,
        object_end(m, s).error is None && !(m is End) ==> object_end(m, s).at > 0,
    decreases s.len(), (if m.reads() || m == object::machine::State::Name(None) {
        1int
    } else {
        3int
    }),
{
    let stop = object::run(m, s);
    object::lemma_run_stop(m, s);
    if stop.error is None {
        if let object::machine::State::Element { name, element: ParseStatus::Prompted(prompt) } =
            stop.state {
            lemma_value_end_bounds(prompt, s.skip(stop.at));
            if let Ok(n) = value_end(prompt, s.skip(stop.at)) {
                lemma_object_end_bounds(
                    object::machine::State::Element { name, element: ParseStatus::Done },
                    s.skip(stop.at + n),
                );
            }
        }
    }
}

/// Reads the value of kind `prompt` at the start of `remaining` to its end and
/// returns what follows it.
pub fn skip_value<'json>(prompt: ParsePrompt, remaining: &'json str) -> (r: Result<
    &'json str,
    ParseAnyError,
>)
    ensures
        match value_end(prompt, remaining@) {
            Ok(n) => r matches Ok(rest) && rest@ == remaining@.skip(n),
            Err(e) => r matches Err(err) && err == e,
        },
    decreases remaining@.len(), (if prompt.keep_first() {
        0int
    } else {
        2int
    }),
{
    match prompt {
        ParsePrompt::String => match scan_string(remaining) {
            Ok((_, rest)) => Ok(rest),
            Err(e) => Err(ParseAnyError::String(e)),
        },
        ParsePrompt::Number => match scan_number(remaining) {
            Ok((_, rest)) => Ok(rest),
            Err(e) => Err(ParseAnyError::Number(e)),
        },
        ParsePrompt::Literal => match scan_literal(remaining) {
            Ok((_, rest)) => Ok(rest),
            Err(e) => Err(ParseAnyError::Literal(e)),
        },
        ParsePrompt::Array => {
            let (_, rest, error) = skip_array(
                array::machine::Machine::In { postcomma: false },
                remaining,
            );
            match error {
                Some(e) => Err(e),
                None => Ok(rest),
            }
        },
        ParsePrompt::Object => {
            let (_, rest, error) = skip_object(
                object::machine::Machine::In { postcomma: false },
                remaining,
            );
            match error {
                Some(e) => Err(e),
                None => Ok(rest),
            }
        },
    }
}

/// Drives an array cursor to the end of its array: the state and the input it is
/// left with, and the error that stopped it, if any.
#[verifier::rlimit(30)]
pub fn skip_array<'json>(machine: array::machine::Machine, remaining: &'json str) -> (r: (
    array::machine::Machine,
    &'json str,
    Option<ParseAnyError>,
))
    ensures
        r.0 == array_end(machine, remaining@).machine,
        r.1@ == remaining@.skip(array_end(machine, remaining@).at),
        r.2 == array_end(machine, remaining@).error,
    decreases remaining@.len(), (if machine.reads() {
        1int
    } else {
        3int
    }),
{
    let mut current = machine;
    let mut rest = remaining;
    let ghost mut k: int = 0;
    assert(remaining@.skip(0) =~= remaining@);
    loop
        invariant
            0 <= k <= remaining@.len(),
            rest@ == remaining@.skip(k),
            k == 0 ==> current == machine,
            array_end(machine, remaining@) == array_end(current, rest@).after(k),
        decreases rest@.len(), (if current.reads() {
            1int
        } else {
            3int
        }),
    {
        let (stopped, at_stop, error) = array::advance(current, rest);
        proof {
            array::lemma_run_stop(current, rest@);
        }
        let ghost at = array::run(current, rest@).at;
        assert(at_stop@ =~= remaining@.skip(k + at));
        if let Some(e) = error {
            return (stopped, at_stop, Some(ParseAnyError::Array(e)));
        }
        match stopped {
            array::machine::Machine::Element(ParseStatus::Prompted(prompt)) => {
                proof {
                    lemma_value_end_bounds(prompt, at_stop@);
                }
                match skip_value(prompt, at_stop) {
                    Err(e) => {
                        return (stopped, at_stop, Some(e));
                    },
                    Ok(after) => {
                        proof {
                            let n = value_end(prompt, at_stop@)->Ok_0;
                            assert(after@ =~= remaining@.skip(k + at + n));
                            assert(after@ =~= rest@.skip(at + n));
                            k = k + at + n;
                        }
                        current = array::machine::Machine::Element(ParseStatus::Done);
                        rest = after;
                    },
                }
            },
            _ => {
                return (stopped, at_stop, None);
            },
        }
    }
}

/// Drives an object cursor to the end of its object: the state and the input it is
/// left with, and the error that stopped it, if any.
#[verifier::rlimit(30)]
pub fn skip_object<'json>(machine: object::machine::Machine<'json>, remaining: &'json str) -> (r:
    (object::machine::Machine<'json>, &'json str, Option<ParseAnyError>))
    ensures
        r.0@ == object_end(machine@, remaining@).machine,
        r.1@ == remaining@.skip(object_end(machine@, remaining@).at),
        r.2 == object_end(machine@, remaining@).error,
    decreases remaining@.len(), (if machine@.reads() || machine@ == object::machine::State::Name(
        None,
    ) {
        1int
    } else {
        3int
    }),
{
    let mut current = machine;
    let mut rest = remaining;
    let ghost mut k: int = 0;
    assert(remaining@.skip(0) =~= remaining@);
    loop
        invariant
            0 <= k <= remaining@.len(),
            rest@ == remaining@.skip(k),
            k == 0 ==> current@ == machine@,
            object_end(machine@, remaining@) == object_end(current@, rest@).after(k),
        decreases rest@.len(), (if current@.reads() || current@ == object::machine::State::Name(
            None,
        ) {
            1int
        } else {
            3int
        }),
    {
        let (stopped, at_stop, error) = object::advance(current, rest);
        proof {
            object::lemma_run_stop(current@, rest@);
        }
        let ghost at = object::run(current@, rest@).at;
        assert(at_stop@ =~= remaining@.skip(k + at));
        if let Some(e) = error {
            return (stopped, at_stop, Some(ParseAnyError::Object(e)));
        }
        match stopped {
            object::machine::Machine::Element { name, element: ParseStatus::Prompted(prompt) } => {
                proof {
                    lemma_value_end_bounds(prompt, at_stop@);
                }
                match skip_value(prompt, at_stop) {
                    Err(e) => {
                        return (stopped, at_stop, Some(e));
                    },
                    Ok(after) => {
                        proof {
                            let n = value_end(prompt, at_stop@)->Ok_0;
                            assert(after@ =~= remaining@.skip(k + at + n));
                            assert(after@ =~= rest@.skip(at + n));
                            k = k + at + n;
                        }
                        current =
                        object::machine::Machine::Element { name, element: ParseStatus::Done };
                        rest = after;
                    },
                }
            },
            _ => {
                return (stopped, at_stop, None);
            },
        }
    }
}

} // verus!
