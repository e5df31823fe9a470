//! Telnet command codes shared by the command, negotiation and
//! subnegotiation codecs.

use vstd::prelude::*;

verus! {

/// Interpret As Command: the Telnet escape byte.
pub const IAC: u8 = 255;

pub const WILL: u8 = 251;

pub const WONT: u8 = 252;

pub const DO: u8 = 253;

pub const DONT: u8 = 254;

/// Subnegotiation Begin.
pub const SB: u8 = 250;

/// Subnegotiation End.
pub const SE: u8 = 240;

/// The Telnet option number of the Com Port Control Option.
pub const COM_PORT_OPTION: u8 = 44;

} // verus!
