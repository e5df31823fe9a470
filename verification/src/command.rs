//! Single-byte Telnet commands (RFC 854), without the ones that open a
//! negotiation or a subnegotiation.

use crate::codes;
use vstd::prelude::*;

verus! {

/// Wire size of a command: `IAC` followed by the command code.
pub const SIZE: usize = 2;

#[derive(Debug, PartialEq, Eq, Clone, Copy)]
pub enum Command {
    NoOp,
    DataMark,
    Break,
    InterruptProcess,
    AbortOutput,
    AreYouThere,
    EraseCharacter,
    EraseLine,
    GoAhead,
    Unsupported(u8),
}

impl Command {
    /// The command code that follows `IAC` on the wire.
    pub open spec fn code(self) -> u8 {
        match self {
            Command::NoOp => 241,
            Command::DataMark => 242,
            Command::Break => 243,
            Command::InterruptProcess => 244,
            Command::AbortOutput => 245,
            Command::AreYouThere => 246,
            Command::EraseCharacter => 247,
            Command::EraseLine => 248,
            Command::GoAhead => 249,
            Command::Unsupported(byte) => byte,
        }
    }

    /// The command that a code stands for. Codes without a name of their own
    /// are kept as they are.
    pub open spec fn from_code(code: u8) -> Command {
        match code {
            241 => Command::NoOp,
            242 => Command::DataMark,
            243 => Command::Break,
            244 => Command::InterruptProcess,
            245 => Command::AbortOutput,
            246 => Command::AreYouThere,
            247 => Command::EraseCharacter,
            248 => Command::EraseLine,
            249 => Command::GoAhead,
            _ => Command::Unsupported(code),
        }
    }

    /// Whether the command is read back as it is. An `Unsupported` one is,
    /// unless its code is a command's own, opens a negotiation or a
    /// subnegotiation, or is `IAC`: all of these lie above 240.
    pub open spec fn canonical(self) -> bool {
        match self {
            Command::Unsupported(byte) => byte <= 240,
            _ => true,
        }
    }

    /// The two bytes of the command on the wire.
    pub open spec fn wire(self) -> Seq<u8> {
        seq![codes::IAC, self.code()]
    }

    /// Writes the wire form into the first two bytes of `buf`, which has to
    /// hold that many, and leaves the rest of `buf` as it was.
    pub fn serialize(&self, buf: &mut [u8])
        requires
            old(buf)@.len() >= SIZE,
        ensures
            final(buf)@.len() == old(buf)@.len(),
            final(buf)@.subrange(0, SIZE as int) == self.wire(),
            final(buf)@.subrange(SIZE as int, old(buf)@.len() as int) == old(buf)@.subrange(
                SIZE as int,
                old(buf)@.len() as int,
            ),
    {
        buf[0] = codes::IAC;
        buf[1] = match *self {
            Self::NoOp => 241,
            Self::DataMark => 242,
            Self::Break => 243,
            Self::InterruptProcess => 244,
            Self::AbortOutput => 245,
            Self::AreYouThere => 246,
            Self::EraseCharacter => 247,
            Self::EraseLine => 248,
            Self::GoAhead => 249,
            Self::Unsupported(byte) => byte,
        };
    }

    /// Reads a command back from its wire form: `buf` has to start with
    /// `IAC` and the code.
    pub fn deserialize(buf: &[u8]) -> (command: Self)
        requires
            buf@.len() >= SIZE,
            buf@[0] == codes::IAC,
        ensures
            command == Self::from_code(buf@[1]),
    {
        match buf[1] {
            241 => Self::NoOp,
            242 => Self::DataMark,
            243 => Self::Break,
            244 => Self::InterruptProcess,
            245 => Self::AbortOutput,
            246 => Self::AreYouThere,
            247 => Self::EraseCharacter,
            248 => Self::EraseLine,
            249 => Self::GoAhead,
            _ => Self::Unsupported(buf[1]),
        }
    }
}

} // verus!
