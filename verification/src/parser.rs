//! The streaming parser: a state machine that takes one byte at a time and
//! tells user data from commands, negotiations and subnegotiations.

use crate::codes;
use crate::command;
use crate::command::Command;
use crate::negotiation;
use crate::negotiation::{Intent, Negotiation};
use crate::subnegotiation;
use crate::subnegotiation::Subnegotiation;
use vstd::prelude::*;

verus! {

/// What the parser has recognised in the stream.
#[derive(Debug, PartialEq, Eq, Clone, Copy)]
pub enum Event {
    Data(u8),
    Command(Command),
    Negotiation(Negotiation),
    Subnegotiation(Subnegotiation),
}

#[derive(Debug, PartialEq, Eq, Clone, Copy)]
pub enum Error {
    /// A subnegotiation frame that stands for no subnegotiation: a byte other
    /// than `IAC` or `SE` behind an `IAC`, or a complete frame that cannot be
    /// decoded.
    SubnegotiationParsing,
    /// A subnegotiation frame longer than `subnegotiation::MAX_SIZE`.
    BufferOverflow,
}

/// Where in a frame the parser stands.
#[derive(Debug, PartialEq, Eq, Clone, Copy)]
pub enum State {
    Data,
    Command,
    Negotiation,
    SubnegotiationOption,
    SubnegotiationSubOption,
    SubnegotiationData,
    SubnegotiationEnd,
}

/// The parser as the contracts see it: its state and the bytes of the frame
/// that it is in the middle of.
pub struct Progress {
    pub state: State,
    pub frame: Seq<u8>,
}

impl Progress {
    /// A parser that has seen nothing, or nothing since the last frame ended.
    pub open spec fn initial() -> Progress {
        Progress { state: State::Data, frame: Seq::empty() }
    }

    /// A parser that has just seen the `IAC` that opens a frame.
    pub open spec fn after_iac() -> Progress {
        Progress { state: State::Command, frame: Seq::empty() }
    }

    /// What every parser satisfies: outside a frame nothing is kept, and
    /// inside one the bytes kept are the frame's bytes so far.
    pub open spec fn wf(self) -> bool {
        match self.state {
            State::Data | State::Command => self.frame.len() == 0,
            State::Negotiation => {
                &&& self.frame.len() == 2
                &&& self.frame[0] == codes::IAC
                &&& Intent::is_code(self.frame[1])
            },
            State::SubnegotiationOption => self.frame == seq![codes::IAC, codes::SB],
            State::SubnegotiationSubOption => {
                &&& self.frame.len() == 3
                &&& self.frame[0] == codes::IAC
                &&& self.frame[1] == codes::SB
            },
            State::SubnegotiationData => {
                &&& 4 <= self.frame.len() <= subnegotiation::MAX_SIZE
                &&& self.frame[0] == codes::IAC
                &&& self.frame[1] == codes::SB
            },
            State::SubnegotiationEnd => {
                &&& 5 <= self.frame.len() <= subnegotiation::MAX_SIZE
                &&& self.frame[0] == codes::IAC
                &&& self.frame[1] == codes::SB
                &&& self.frame.last() == codes::IAC
            },
        }
    }

    /// The parser with one more byte of the frame, in the given state.
    pub open spec fn advance(self, state: State, byte: u8) -> Progress {
        Progress { state, frame: self.frame.push(byte) }
    }

    /// One byte: the parser after it, and what the byte yields. An error
    /// leaves the parser where it was.
    pub open spec fn step(self, byte: u8) -> (Progress, Result<Option<Event>, Error>) {
        match self.state {
            State::Data => {
                if byte == codes::IAC {
                    (Self::after_iac(), Ok(None))
                } else {
                    (self, Ok(Some(Event::Data(byte))))
                }
            },
            State::Command => {
                if byte == codes::IAC {
                    (Self::initial(), Ok(Some(Event::Data(byte))))
                } else if Intent::is_code(byte) {
                    (Progress { state: State::Negotiation, frame: seq![codes::IAC, byte] }, Ok(None))
                } else if byte == codes::SB {
                    (
                        Progress { state: State::SubnegotiationOption, frame: seq![codes::IAC, byte] },
                        Ok(None),
                    )
                } else {
                    (Self::initial(), Ok(Some(Event::Command(Command::from_code(byte)))))
                }
            },
            State::Negotiation => (
                Self::initial(),
                Ok(Some(Event::Negotiation(Negotiation::decode(self.frame.push(byte))))),
            ),
            State::SubnegotiationOption => (
                self.advance(State::SubnegotiationSubOption, byte),
                Ok(None),
            ),
            State::SubnegotiationSubOption => (self.advance(State::SubnegotiationData, byte), Ok(None)),
            State::SubnegotiationData => {
                if self.frame.len() >= subnegotiation::MAX_SIZE {
                    (self, Err(Error::BufferOverflow))
                } else if byte == codes::IAC {
                    (self.advance(State::SubnegotiationEnd, byte), Ok(None))
                } else {
                    (self.advance(State::SubnegotiationData, byte), Ok(None))
                }
            },
            State::SubnegotiationEnd => {
                if byte != codes::IAC && byte != codes::SE {
                    (self, Err(Error::SubnegotiationParsing))
                } else if self.frame.len() >= subnegotiation::MAX_SIZE {
                    (self, Err(Error::BufferOverflow))
                } else if byte == codes::IAC {
                    (self.advance(State::SubnegotiationData, byte), Ok(None))
                } else {
                    match Subnegotiation::decode(self.frame.push(byte)) {
                        Some(subnegotiation) => (
                            Self::initial(),
                            Ok(Some(Event::Subnegotiation(subnegotiation))),
                        ),
                        None => (self, Err(Error::SubnegotiationParsing)),
                    }
                }
            },
        }
    }
}

pub struct Parser {
    state: State,
    buf: [u8; subnegotiation::MAX_SIZE],
    buf_cnt: usize,
}

impl View for Parser {
    type V = Progress;

    /// Outside a frame the buffer's content counts for nothing.
    closed spec fn view(&self) -> Progress {
        Progress {
            state: self.state,
            frame: match self.state {
                State::Data | State::Command => Seq::empty(),
                _ => self.buf@.take(self.buf_cnt as int),
            },
        }
    }
}

impl Parser {
    /// The invariant of the parser: the cursor stays inside the buffer, and
    /// the state fits what the buffer holds.
    pub closed spec fn wf(&self) -> bool {
        &&& self.buf_cnt <= subnegotiation::MAX_SIZE
        &&& self@.wf()
    }

    /// What holds of the parser holds of its view.
    pub proof fn lemma_wf_view(&self)
        requires
            self.wf(),
        ensures
            self@.wf(),
    {
    }

    pub fn new() -> (parser: Self)
        ensures
            parser.wf(),
            parser@ == Progress::initial(),
    {
        Self { state: State::Data, buf: [0; subnegotiation::MAX_SIZE], buf_cnt: 0 }
    }

    /// Forgets the frame in progress, whatever the parser has taken in: the
    /// parser is as `new` makes it.
    pub fn reset(&mut self)
        ensures
            final(self).wf(),
            final(self)@ == Progress::initial(),
    {
        *self = Self::new();
    }

    /// Takes one byte of the stream in.
    pub fn process_byte(&mut self, byte: u8) -> (result: Result<Option<Event>, Error>)
        requires
            old(self).wf(),
        ensures
            final(self).wf(),
            (final(self)@, result) == old(self)@.step(byte),
    {
        let ghost frame = self@.frame;
        match self.state {
            State::Data => {
                if byte == codes::IAC {
                    self.state = State::Command;
                    return Ok(None);
                }
                Ok(Some(Event::Data(byte)))
            },
            State::Command => {
                if byte == codes::IAC {
                    self.state = State::Data;
                    return Ok(Some(Event::Data(byte)));
                }
                self.buf_cnt = 0;
                self.write_to_buf(codes::IAC)?;
                self.write_to_buf(byte)?;
                Ok(self.process_command_byte(byte))
            },
            State::Negotiation => {
                self.write_to_buf(byte)?;
                self.state = State::Data;
                assert(self.buf@.subrange(0, negotiation::SIZE as int) == frame.push(byte));
                Ok(Some(Event::Negotiation(Negotiation::deserialize(&self.buf[0..negotiation::SIZE]))))
            },
            State::SubnegotiationOption => {
                self.write_to_buf(byte)?;
                self.state = State::SubnegotiationSubOption;
                assert(self.buf@.take(self.buf_cnt as int) == frame.push(byte));
                Ok(None)
            },
            State::SubnegotiationSubOption => {
                self.write_to_buf(byte)?;
                self.state = State::SubnegotiationData;
                assert(self.buf@.take(self.buf_cnt as int) == frame.push(byte));
                Ok(None)
            },
            State::SubnegotiationData => {
                self.write_to_buf(byte)?;
                if byte == codes::IAC {
                    self.state = State::SubnegotiationEnd;
                }
                assert(self.buf@.take(self.buf_cnt as int) == frame.push(byte));
                Ok(None)
            },
            State::SubnegotiationEnd => {
                if byte == codes::IAC {
                    // A second IAC: the pair is one byte of payload.
                    self.write_to_buf(byte)?;
                    self.state = State::SubnegotiationData;
                    assert(self.buf@.take(self.buf_cnt as int) == frame.push(byte));
                    Ok(None)
                } else if byte == codes::SE {
                    self.write_to_buf(byte)?;
                    assert(self.buf@.subrange(0, self.buf_cnt as int) == frame.push(byte));
                    match Subnegotiation::try_deserialize(&self.buf[0..self.buf_cnt]) {
                        Some(subnegotiation) => {
                            self.state = State::Data;
                            Ok(Some(Event::Subnegotiation(subnegotiation)))
                        },
                        None => {
                            self.buf_cnt = self.buf_cnt - 1;
                            assert(self.buf@.take(self.buf_cnt as int) == frame);
                            Err(Error::SubnegotiationParsing)
                        },
                    }
                } else {
                    Err(Error::SubnegotiationParsing)
                }
            },
        }
    }

    /// Decides, by the byte behind `IAC`, what the frame is.
    fn process_command_byte(&mut self, command_code: u8) -> (event: Option<Event>)
        requires
            old(self).state == State::Command,
            old(self).buf_cnt == 2,
            old(self).buf@[0] == codes::IAC,
            old(self).buf@[1] == command_code,
            command_code != codes::IAC,
        ensures
            final(self).wf(),
            final(self)@ == Progress::after_iac().step(command_code).0,
            Progress::after_iac().step(command_code).1 == Ok::<Option<Event>, Error>(event),
    {
        if command_code == codes::WILL || command_code == codes::WONT || command_code == codes::DO
            || command_code == codes::DONT {
            self.state = State::Negotiation;
            assert(self.buf@.take(2) == seq![codes::IAC, command_code]);
            None
        } else if command_code == codes::SB {
            self.state = State::SubnegotiationOption;
            assert(self.buf@.take(2) == seq![codes::IAC, command_code]);
            None
        } else {
            self.state = State::Data;
            Some(Event::Command(Command::deserialize(&self.buf[0..command::SIZE])))
        }
    }

    /// Appends one byte to the frame, unless the buffer is full.
    fn write_to_buf(&mut self, byte: u8) -> (written: Result<(), Error>)
        requires
            old(self).buf_cnt <= subnegotiation::MAX_SIZE,
        ensures
            final(self).state == old(self).state,
            old(self).buf_cnt == subnegotiation::MAX_SIZE ==> written == Err::<(), Error>(
                Error::BufferOverflow,
            ),
            old(self).buf_cnt == subnegotiation::MAX_SIZE ==> *final(self) == *old(self),
            old(self).buf_cnt < subnegotiation::MAX_SIZE ==> written == Ok::<(), Error>(()),
            old(self).buf_cnt < subnegotiation::MAX_SIZE ==> final(self).buf_cnt == old(
                self,
            ).buf_cnt + 1,
            old(self).buf_cnt < subnegotiation::MAX_SIZE ==> final(self).buf@ == old(
                self,
            ).buf@.update(old(self).buf_cnt as int, byte),
    {
        if self.buf_cnt == self.buf.len() {
            return Err(Error::BufferOverflow);
        }
        self.buf[self.buf_cnt] = byte;
        self.buf_cnt += 1;
        Ok(())
    }
}

} // verus!
