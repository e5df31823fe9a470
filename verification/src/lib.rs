//! RFC 2217, the Telnet Com Port Control Option: a serial line over a TCP
//! connection, with the means to configure the port from the far end.
//!
//! The crate holds the protocol and does no I/O:
//! - `codes`, `command`, `negotiation`, `subnegotiation`, `escaping`: the
//!   constructs of the protocol and their wire form;
//! - `parser`: the state machine that takes a stream apart, byte by byte;
//! - `stream`: what the parser makes of whole streams, proved;
//! - `port`: the serial port's settings and the operations asked of it;
//! - `server`: the server's reactions and replies.

pub mod codes;
pub mod command;
pub mod escaping;
pub mod negotiation;
pub mod parser;
pub mod port;
pub mod server;
pub mod stream;
pub mod subnegotiation;

pub use command::Command;
pub use negotiation::Negotiation;
pub use parser::Parser;
pub use server::Server;
pub use subnegotiation::Subnegotiation;
