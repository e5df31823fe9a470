//! Telnet option negotiation: `IAC`, an intent and an option.

use crate::codes;
use vstd::prelude::*;

verus! {

/// Wire size of a negotiation: `IAC`, the intent and the option.
pub const SIZE: usize = 3;

#[derive(Debug, PartialEq, Eq, Clone, Copy)]
pub struct Negotiation {
    pub intent: Intent,
    pub option: Option,
}

/// Telnet options.
#[derive(Debug, PartialEq, Eq, Clone, Copy)]
pub enum Option {
    Binary,
    Echo,
    SuppressGoAhead,
    ComPort,
    Unsupported(u8),
}

#[derive(Debug, PartialEq, Eq, Clone, Copy)]
pub enum Intent {
    Will,
    Wont,
    Do,
    Dont,
}

impl Option {
    /// The option number on the wire.
    pub open spec fn code(self) -> u8 {
        match self {
            Option::Binary => 0,
            Option::Echo => 1,
            Option::SuppressGoAhead => 3,
            Option::ComPort => 44,
            Option::Unsupported(byte) => byte,
        }
    }

    /// The option that a number stands for. Numbers without a name of their
    /// own are kept as they are.
    pub open spec fn from_code(code: u8) -> Option {
        match code {
            0 => Option::Binary,
            1 => Option::Echo,
            3 => Option::SuppressGoAhead,
            44 => Option::ComPort,
            _ => Option::Unsupported(code),
        }
    }

    /// Whether the option is read back as it is: an `Unsupported` one is,
    /// if its number is not an option's own.
    pub open spec fn canonical(self) -> bool {
        self == Option::from_code(self.code())
    }

    pub fn from_u8(byte: u8) -> (option: Option)
        ensures
            option == Option::from_code(byte),
    {
        match byte {
            0 => Self::Binary,
            1 => Self::Echo,
            3 => Self::SuppressGoAhead,
            44 => Self::ComPort,
            _ => Self::Unsupported(byte),
        }
    }

    pub fn to_u8(self) -> (byte: u8)
        ensures
            byte == self.code(),
    {
        match self {
            Self::Binary => 0,
            Self::Echo => 1,
            Self::SuppressGoAhead => 3,
            Self::ComPort => 44,
            Self::Unsupported(byte) => byte,
        }
    }
}

impl Intent {
    /// The command code that announces the intent on the wire.
    pub open spec fn code(self) -> u8 {
        match self {
            Intent::Will => codes::WILL,
            Intent::Wont => codes::WONT,
            Intent::Do => codes::DO,
            Intent::Dont => codes::DONT,
        }
    }

    /// Whether a command code announces a negotiation.
    pub open spec fn is_code(code: u8) -> bool {
        codes::WILL <= code <= codes::DONT
    }

    /// The intent that a command code announces.
    pub open spec fn from_code(code: u8) -> Intent
        recommends
            Intent::is_code(code),
    {
        if code == codes::WILL {
            Intent::Will
        } else if code == codes::WONT {
            Intent::Wont
        } else if code == codes::DO {
            Intent::Do
        } else {
            Intent::Dont
        }
    }

    /// The intent that `byte` announces; `byte` has to be the code of one.
    pub fn from_u8(byte: u8) -> (intent: Intent)
        requires
            Intent::is_code(byte),
        ensures
            intent == Intent::from_code(byte),
    {
        if byte == codes::WILL {
            Self::Will
        } else if byte == codes::WONT {
            Self::Wont
        } else if byte == codes::DO {
            Self::Do
        } else {
            Self::Dont
        }
    }

    pub fn to_u8(self) -> (byte: u8)
        ensures
            byte == self.code(),
    {
        match self {
            Self::Will => codes::WILL,
            Self::Wont => codes::WONT,
            Self::Do => codes::DO,
            Self::Dont => codes::DONT,
        }
    }
}

impl Negotiation {
    /// The three bytes of the negotiation on the wire.
    pub open spec fn wire(self) -> Seq<u8> {
        seq![codes::IAC, self.intent.code(), self.option.code()]
    }

    /// The negotiation that the first three bytes of a frame stand for.
    pub open spec fn decode(frame: Seq<u8>) -> Negotiation
        recommends
            frame.len() >= SIZE,
            frame[0] == codes::IAC,
            Intent::is_code(frame[1]),
    {
        Negotiation { intent: Intent::from_code(frame[1]), option: Option::from_code(frame[2]) }
    }

    /// Writes the wire form into the first three bytes of `buf`, which has
    /// to hold that many, and leaves the rest of `buf` as it was.
    pub fn serialize(&self, buf: &mut [u8])
        requires
            old(buf)@.len() >= SIZE,
        ensures
            final(buf)@.len() == old(buf)@.len(),
            final(buf)@.subrange(0, SIZE as int) == self.wire(),
            final(buf)@.subrange(SIZE as int, old(buf)@.len() as int) == old(buf)@.subrange(
                SIZE as int,
                old(buf)@.len() as int,
            ),
    {
        buf[0] = codes::IAC;
        buf[1] = self.intent.to_u8();
        buf[2] = self.option.to_u8();
    }

    /// Reads a negotiation back from its wire form: `buf` has to start with
    /// `IAC`, the code of an intent and the option.
    pub fn deserialize(buf: &[u8]) -> (negotiation: Self)
        requires
            buf@.len() >= SIZE,
            buf@[0] == codes::IAC,
            Intent::is_code(buf@[1]),
        ensures
            negotiation == Self::decode(buf@),
    {
        Self { intent: Intent::from_u8(buf[1]), option: Option::from_u8(buf[2]) }
    }
}

} // verus!
