//! The state machines of strings and of their escape sequences.

use crate::status::Status;
use crate::string::error::ParseStringError;
use crate::text::is_scalar_value;
use vstd::prelude::*;

verus! {

/// The value of a hex digit.
pub open spec fn spec_hex_value(c: char) -> Option<u16> {
    if '0' <= c && c <= '9' {
        Some((c as u32 - '0' as u32) as u16)
    } else if 'a' <= c && c <= 'f' {
        Some((c as u32 - 'a' as u32 + 10) as u16)
    } else if 'A' <= c && c <= 'F' {
        Some((c as u32 - 'A' as u32 + 10) as u16)
    } else {
        None
    }
}

/// Reads one hex digit, in either case.
#[verifier::when_used_as_spec(spec_hex_value)]
pub fn hex_value(c: char) -> (r: Option<u16>)
    ensures
        r == spec_hex_value(c),
        r matches Some(d) ==> d < 16,
{
    let n: u32 = c as u32;
    if '0' <= c && c <= '9' {
        Some((n - '0' as u32) as u16)
    } else if 'a' <= c && c <= 'f' {
        Some((n - 'a' as u32 + 10) as u16)
    } else if 'A' <= c && c <= 'F' {
        Some((n - 'A' as u32 + 10) as u16)
    } else {
        None
    }
}

/// The scalar value that a surrogate pair stands for.
pub open spec fn surrogate_scalar(high: u16, low: u16) -> char
    recommends
        0xd800 <= high < 0xdc00,
        0xdc00 <= low < 0xe000,
{
    (0x10000 + (high - 0xd800) * 0x400 + (low - 0xdc00)) as char
}

/// The state of a string between two characters.
#[derive(Clone, Copy, Debug, PartialEq, Eq, Structural)]
pub enum Machine {
    In,
    Escape(EscapeMachine),
}

/// The state of an escape sequence after its backslash.
#[derive(Clone, Copy, Debug, PartialEq, Eq, Structural)]
pub enum EscapeMachine {
    Awaiting,
    Unicode { n: u16, len: u8 },
    Surrogate { high: u16, low: LowMachine },
}

/// The state of the escape that must follow a high surrogate: a backslash, a `u`
/// and four hex digits. Anything else means that the low surrogate is missing.
#[derive(Clone, Copy, Debug, PartialEq, Eq, Structural)]
pub enum LowMachine {
    Awaiting,
    AwaitingU,
    Hex { low: u16, len: u8 },
}

impl LowMachine {
    /// At most three hex digits have been read.
    pub open spec fn wf(self) -> bool {
        self matches Self::Hex { len, .. } ==> len <= 3
    }

    /// The transition on `c` after the high surrogate `high`.
    pub open spec fn spec_apply(self, c: char, high: u16) -> Result<
        Status<Self, char>,
        ParseStringError,
    > {
        match self {
            Self::Awaiting => if c == '\\' {
                Ok(Status::Parsing(Self::AwaitingU))
            } else {
                Err(ParseStringError::MissingLowSurrogate { high })
            },
            Self::AwaitingU => if c == 'u' {
                Ok(Status::Parsing(Self::Hex { low: 0, len: 0 }))
            } else {
                Err(ParseStringError::MissingLowSurrogate { high })
            },
            Self::Hex { low, len } => match spec_hex_value(c) {
                None => Err(ParseStringError::MissingLowSurrogate { high }),
                Some(d) => {
                    let low = (low << 4) | d;
                    if len != 3 {
                        Ok(Status::Parsing(Self::Hex { low, len: (len + 1) as u8 }))
                    } else if low < 0xdc00 || low >= 0xe000 {
                        Err(ParseStringError::InvalidLowSurrogate { high, low })
                    } else {
                        Ok(Status::Done(surrogate_scalar(high, low)))
                    }
                },
            },
        }
    }

    /// Feeds one character to the machine.
    pub fn apply(self, c: char, high: u16) -> (r: Result<Status<Self, char>, ParseStringError>)
        requires
            self.wf(),
            0xd800 <= high < 0xdc00,
        ensures
            r == self.spec_apply(c, high),
            r matches Ok(Status::Parsing(next)) ==> next.wf(),
    {
        match self {
            Self::Awaiting => {
                if c == '\\' {
                    Ok(Status::Parsing(Self::AwaitingU))
                } else {
                    Err(ParseStringError::MissingLowSurrogate { high })
                }
            },
            Self::AwaitingU => {
                if c == 'u' {
                    Ok(Status::Parsing(Self::Hex { low: 0, len: 0 }))
                } else {
                    Err(ParseStringError::MissingLowSurrogate { high })
                }
            },
            Self::Hex { low, len } => {
                match hex_value(c) {
                    None => Err(ParseStringError::MissingLowSurrogate { high }),
                    Some(d) => {
                        let low: u16 = (low << 4) | d;
                        if len != 3 {
                            Ok(Status::Parsing(Self::Hex { low, len: len + 1 }))
                        } else if low < 0xdc00 || low >= 0xe000 {
                            Err(ParseStringError::InvalidLowSurrogate { high, low })
                        } else {
                            let top: u32 = (high - 0xd800) as u32;
                            let bottom: u32 = (low - 0xdc00) as u32;
                            assert(top <= 0x3ff ==> (top << 10) == top * 0x400) by (bit_vector);
                            let char_code: u32 = (top << 10) + bottom + 0x10000;
                            assert(is_scalar_value(char_code));
                            match char::from_u32(char_code) {
                                Some(decoded) => Ok(Status::Done(decoded)),
                                None => unreached(),
                            }
                        }
                    },
                }
            },
        }
    }
}

impl EscapeMachine {
    /// At most three hex digits have been read, and a pending surrogate is a high one.
    pub open spec fn wf(self) -> bool {
        match self {
            Self::Awaiting => true,
            Self::Unicode { len, .. } => len <= 3,
            Self::Surrogate { high, low } => 0xd800 <= high < 0xdc00 && low.wf(),
        }
    }

    /// The character that a one-letter escape stands for.
    pub open spec fn simple_escape(c: char) -> Option<char> {
        if c == '"' || c == '\\' || c == '/' {
            Some(c)
        } else if c == 'b' {
            Some('\x08')
        } else if c == 'f' {
            Some('\x0c')
        } else if c == 'n' {
            Some('\n')
        } else if c == 'r' {
            Some('\r')
        } else if c == 't' {
            Some('\t')
        } else {
            None
        }
    }

    /// The transition on `c`.
    pub open spec fn spec_apply(self, c: char) -> Result<Status<Self, char>, ParseStringError> {
        match self {
            Self::Awaiting => if c == 'u' {
                Ok(Status::Parsing(Self::Unicode { n: 0, len: 0 }))
            } else {
                match Self::simple_escape(c) {
                    Some(decoded) => Ok(Status::Done(decoded)),
                    None => Err(ParseStringError::InvalidEscape(c)),
                }
            },
            Self::Unicode { n, len } => match spec_hex_value(c) {
                None => Err(ParseStringError::InvalidUnicodeEscape(c)),
                Some(d) => {
                    let n = (n << 4) | d;
                    if len != 3 {
                        Ok(Status::Parsing(Self::Unicode { n, len: (len + 1) as u8 }))
                    } else if is_scalar_value(n as u32) {
                        Ok(Status::Done(n as char))
                    } else if n >= 0xdc00 {
                        Err(ParseStringError::MissingHighSurrogate { low: n })
                    } else {
                        Ok(Status::Parsing(Self::Surrogate { high: n, low: LowMachine::Awaiting }))
                    }
                },
            },
            Self::Surrogate { high, low } => match low.spec_apply(c, high) {
                Ok(Status::Parsing(low)) => Ok(Status::Parsing(Self::Surrogate { high, low })),
                Ok(Status::Done(decoded)) => Ok(Status::Done(decoded)),
                Err(e) => Err(e),
            },
        }
    }

    /// Feeds one character to the machine.
    pub fn apply(self, c: char) -> (r: Result<Status<Self, char>, ParseStringError>)
        requires
            self.wf(),
        ensures
            r == self.spec_apply(c),
            r matches Ok(Status::Parsing(next)) ==> next.wf(),
    {
        match self {
            Self::Awaiting => {
                if c == '"' || c == '\\' || c == '/' {
                    Ok(Status::Done(c))
                } else if c == 'b' {
                    Ok(Status::Done('\x08'))
                } else if c == 'f' {
                    Ok(Status::Done('\x0c'))
                } else if c == 'n' {
                    Ok(Status::Done('\n'))
                } else if c == 'r' {
                    Ok(Status::Done('\r'))
                } else if c == 't' {
                    Ok(Status::Done('\t'))
                } else if c == 'u' {
                    Ok(Status::Parsing(Self::Unicode { n: 0, len: 0 }))
                } else {
                    Err(ParseStringError::InvalidEscape(c))
                }
            },
            Self::Unicode { n, len } => {
                match hex_value(c) {
                    None => Err(ParseStringError::InvalidUnicodeEscape(c)),
                    Some(d) => {
                        let n: u16 = (n << 4) | d;
                        if len != 3 {
                            Ok(Status::Parsing(Self::Unicode { n, len: len + 1 }))
                        } else {
                            match char::from_u32(n as u32) {
                                Some(decoded) => Ok(Status::Done(decoded)),
                                None => {
                                    if n >= 0xdc00 {
                                        Err(ParseStringError::MissingHighSurrogate { low: n })
                                    } else {
                                        Ok(
                                            Status::Parsing(
                                                Self::Surrogate {
                                                    high: n,
                                                    low: LowMachine::Awaiting,
                                                },
                                            ),
                                        )
                                    }
                                },
                            }
                        }
                    },
                }
            },
            Self::Surrogate { high, low } => {
                match low.apply(c, high) {
                    Ok(Status::Parsing(low)) => Ok(Status::Parsing(Self::Surrogate { high, low })),
                    Ok(Status::Done(decoded)) => Ok(Status::Done(decoded)),
                    Err(e) => Err(e),
                }
            },
        }
    }
}

impl Machine {
    /// The escape in progress, if any, is well formed.
    pub open spec fn wf(self) -> bool {
        self matches Self::Escape(escape) ==> escape.wf()
    }

    /// The transition on `c`; `None` once the closing quotation mark is read.
    pub open spec fn spec_apply(self, c: char) -> Result<Option<Self>, ParseStringError> {
        match self {
            Self::In => if c == '\\' {
                Ok(Some(Self::Escape(EscapeMachine::Awaiting)))
            } else if c == '"' {
                Ok(None)
            } else {
                Ok(Some(Self::In))
            },
            Self::Escape(escape) => match escape.spec_apply(c) {
                Ok(Status::Parsing(escape)) => Ok(Some(Self::Escape(escape))),
                Ok(Status::Done(_)) => Ok(Some(Self::In)),
                Err(e) => Err(e),
            },
        }
    }

    /// Feeds one character to the machine.
    pub fn apply(self, c: char) -> (r: Result<Option<Self>, ParseStringError>)
        requires
            self.wf(),
        ensures
            r == self.spec_apply(c),
            r matches Ok(Some(next)) ==> next.wf(),
    {
        match self {
            Self::In => {
                if c == '\\' {
                    Ok(Some(Self::Escape(EscapeMachine::Awaiting)))
                } else if c == '"' {
                    Ok(None)
                } else {
                    Ok(Some(Self::In))
                }
            },
            Self::Escape(escape) => {
                match escape.apply(c) {
                    Ok(Status::Parsing(escape)) => Ok(Some(Self::Escape(escape))),
                    Ok(Status::Done(_)) => Ok(Some(Self::In)),
                    Err(e) => Err(e),
                }
            },
        }
    }
}

} // verus!
