//! The server side of the protocol: which options the server agrees to, how
//! it reacts to a subnegotiation, and what it replies.
//!
//! The server decides and the caller acts. Every function here takes what
//! has come in and returns an `Action`: a byte to write to the serial port,
//! an operation for the serial port to carry out, or a frame to send to the
//! peer. What the serial port gave back for an operation goes into `resume`,
//! which returns the next action.

use crate::command::Command;
use crate::negotiation;
use crate::negotiation::{Intent, Negotiation};
use crate::parser::{Error, Event, Parser, Progress};
use crate::port::{
    data_bits_to_u8, flow_control_to_u8, parity_to_u8, stop_bits_to_u8, u8_to_data_bits,
    u8_to_flow_control, u8_to_parity, u8_to_stop_bits, ClearBuffer, DataBits, FlowControl, Parity,
    Request, Response, StopBits,
};
use crate::subnegotiation::{
    lemma_padded, lemma_wire_len, padded, zero_extended, OptionKind, Subnegotiation,
    MAX_DATA_SIZE, MAX_ESCAPED_SIZE,
};
use vstd::prelude::*;

verus! {

impl Negotiation {
    /// Whether the server agrees to an option.
    pub open spec fn accepted(option: negotiation::Option) -> bool {
        option == negotiation::Option::Binary || option == negotiation::Option::ComPort || option
            == negotiation::Option::SuppressGoAhead
    }

    /// The server's answer to a negotiation: it agrees to an option that the
    /// peer offers if it accepts the option and refuses it if not, it
    /// refuses to perform an option that it does not accept, and it says
    /// nothing to anything else.
    pub open spec fn answer(self) -> Option<Negotiation> {
        match self.intent {
            Intent::Will => Some(
                Negotiation {
                    intent: if Self::accepted(self.option) {
                        Intent::Do
                    } else {
                        Intent::Dont
                    },
                    option: self.option,
                },
            ),
            Intent::Do => if Self::accepted(self.option) {
                None
            } else {
                Some(Negotiation { intent: Intent::Wont, option: self.option })
            },
            Intent::Wont | Intent::Dont => None,
        }
    }

    pub fn get_answer(&self) -> (answer: Option<Negotiation>)
        ensures
            answer == self.answer(),
    {
        match (self.intent, self.option) {
            (
                Intent::Will,
                negotiation::Option::Binary
                | negotiation::Option::ComPort
                | negotiation::Option::SuppressGoAhead,
            ) => Some(Negotiation { intent: Intent::Do, option: self.option }),
            (
                Intent::Do,
                negotiation::Option::Binary
                | negotiation::Option::ComPort
                | negotiation::Option::SuppressGoAhead,
            ) => None,
            (Intent::Will, _) => Some(Negotiation { intent: Intent::Dont, option: self.option }),
            (Intent::Do, _) => Some(Negotiation { intent: Intent::Wont, option: self.option }),
            _ => None,
        }
    }
}

/// An answer of the server calls for no answer in turn: two servers never
/// keep answering each other.
pub proof fn lemma_answer_ends_negotiation(negotiation: Negotiation)
    ensures
        negotiation.answer() matches Some(answer) ==> answer.answer() is None,
{
}

/// What the caller has to do next.
#[derive(Debug, PartialEq, Eq)]
pub enum Action {
    /// Nothing: go on with the next byte from the peer.
    Idle,
    /// Write this byte of user data to the serial port.
    Forward(u8),
    /// Have the serial port carry out this operation. If it fails, the
    /// reaction ends there; if not, hand what it gave back to
    /// `Server::resume`.
    Ask(Request),
    /// Send these bytes to the peer.
    Reply(Vec<u8>),
}

/// An `Action` as the contracts see it.
pub enum ActionView {
    Idle,
    Forward(u8),
    Ask(Request),
    Reply(Seq<u8>),
}

impl View for Action {
    type V = ActionView;

    open spec fn view(&self) -> ActionView {
        match self {
            Action::Idle => ActionView::Idle,
            Action::Forward(byte) => ActionView::Forward(*byte),
            Action::Ask(request) => ActionView::Ask(*request),
            Action::Reply(frame) => ActionView::Reply(frame@),
        }
    }
}

/// A reaction that waits for the serial port: the subnegotiation that the
/// server is reacting to, and the operation that the port was asked for.
#[derive(Debug, PartialEq, Eq, Clone, Copy)]
pub struct Pending {
    pub cause: Subnegotiation,
    pub request: Request,
}

/// The server as the contracts see it.
pub struct ServerState {
    pub parser: Progress,
    /// The signature that the peer has set, empty if it has set none.
    pub signature: Seq<u8>,
    /// The flow control that was in force when the peer suspended it.
    pub suspended_flow_control: FlowControl,
    /// Whether the server has put the line into the break state.
    pub break_state: bool,
    pub pending: Option<Pending>,
}

/// What the server does with an answer that it has made up its mind on: it
/// sends the frame, in the server's direction, or has nothing to send.
pub open spec fn reply_with(answer: Option<Subnegotiation>) -> ActionView {
    match answer {
        Some(subnegotiation) => ActionView::Reply(subnegotiation.wire(OptionKind::ServerToClient)),
        None => ActionView::Idle,
    }
}

/// The first operation on the serial port that a value of Set Control asks
/// for, if it asks for one.
pub open spec fn control_operation(value: u8) -> Option<Request> {
    match value {
        0 => Some(Request::FlowControl),
        1 => Some(Request::SetFlowControl(FlowControl::Off)),
        2 => Some(Request::SetFlowControl(FlowControl::Software)),
        3 => Some(Request::SetFlowControl(FlowControl::Hardware)),
        5 => Some(Request::SetBreak),
        6 => Some(Request::ClearBreak),
        7 => Some(Request::ReadDataSetReady),
        8 => Some(Request::WriteDataTerminalReady(true)),
        9 => Some(Request::WriteDataTerminalReady(false)),
        10 => Some(Request::ReadClearToSend),
        11 => Some(Request::WriteRequestToSend(true)),
        12 => Some(Request::WriteRequestToSend(false)),
        _ => None,
    }
}

/// The operation that follows `request` in the reaction to `cause`, if the
/// reaction is not over: suspending the flow control reads the setting and
/// then switches it off, and purging both directions clears one after the
/// other.
pub open spec fn next_operation(cause: Subnegotiation, request: Request) -> Option<Request> {
    if cause == Subnegotiation::FlowControlSuspend && request == Request::FlowControl {
        Some(Request::SetFlowControl(FlowControl::Off))
    } else if cause == Subnegotiation::PurgeData(3) && request == Request::Clear(
        ClearBuffer::Input,
    ) {
        Some(Request::Clear(ClearBuffer::Output))
    } else {
        None
    }
}

impl ServerState {
    /// A server that has seen nothing.
    pub open spec fn initial() -> ServerState {
        ServerState {
            parser: Progress::initial(),
            signature: Seq::empty(),
            suspended_flow_control: FlowControl::Off,
            break_state: false,
            pending: None,
        }
    }

    /// The first operation on the serial port that a subnegotiation asks
    /// for, if it asks for one. A value that names a setting sets it; any
    /// other value asks for the setting in force.
    pub open spec fn first_operation(self, subnegotiation: Subnegotiation) -> Option<Request> {
        match subnegotiation {
            Subnegotiation::SetBaudRate(value) => Some(
                if value == 0 {
                    Request::BaudRate
                } else {
                    Request::SetBaudRate(value)
                },
            ),
            Subnegotiation::SetDataSize(value) => Some(
                match DataBits::from_code(value) {
                    Some(data_bits) => Request::SetDataBits(data_bits),
                    None => Request::DataBits,
                },
            ),
            Subnegotiation::SetParity(value) => Some(
                match Parity::from_code(value) {
                    Some(parity) => Request::SetParity(parity),
                    None => Request::Parity,
                },
            ),
            Subnegotiation::SetStopSize(value) => Some(
                match StopBits::from_code(value) {
                    Some(stop_bits) => Request::SetStopBits(stop_bits),
                    None => Request::StopBits,
                },
            ),
            Subnegotiation::SetControl(value) => control_operation(value),
            Subnegotiation::FlowControlSuspend => Some(Request::FlowControl),
            Subnegotiation::FlowControlResume => Some(
                Request::SetFlowControl(self.suspended_flow_control),
            ),
            Subnegotiation::PurgeData(value) => if value == 1 || value == 3 {
                Some(Request::Clear(ClearBuffer::Input))
            } else if value == 2 {
                Some(Request::Clear(ClearBuffer::Output))
            } else {
                None
            },
            _ => None,
        }
    }

    /// The server once it has taken note of a subnegotiation: a signature
    /// that is not empty is stored.
    pub open spec fn noting(self, subnegotiation: Subnegotiation) -> ServerState {
        match subnegotiation {
            Subnegotiation::SetSignature { data, size } if size > 0 => ServerState {
                signature: data@.take(size as int),
                ..self
            },
            _ => self,
        }
    }

    /// The server once the serial port has carried out `request` in the
    /// reaction to `cause`: it remembers the break state that it has set,
    /// and the flow control that it is about to suspend.
    pub open spec fn noting_response(
        self,
        cause: Subnegotiation,
        request: Request,
        response: Response,
    ) -> ServerState {
        match (request, response) {
            (Request::SetBreak, _) => ServerState { break_state: true, ..self },
            (Request::ClearBreak, _) => ServerState { break_state: false, ..self },
            (Request::FlowControl, Response::FlowControl(flow_control)) if cause
                == Subnegotiation::FlowControlSuspend => ServerState {
                suspended_flow_control: flow_control,
                ..self
            },
            _ => self,
        }
    }

    /// The answer to `cause` when the reaction is over, `response` being
    /// what the serial port gave back last. An empty signature and the
    /// values that ask for a setting are answered with what is in force;
    /// what was set is answered with itself; the rest gets no answer.
    pub open spec fn answer(self, cause: Subnegotiation, response: Response) -> Option<
        Subnegotiation,
    > {
        match cause {
            Subnegotiation::SetSignature { data, size } => Some(
                if size == 0 {
                    Subnegotiation::SetSignature {
                        data: padded(self.signature),
                        size: self.signature.len() as u8,
                    }
                } else {
                    cause
                },
            ),
            Subnegotiation::SetBaudRate(_) => Some(
                match response {
                    Response::BaudRate(baud_rate) => Subnegotiation::SetBaudRate(baud_rate),
                    _ => cause,
                },
            ),
            Subnegotiation::SetDataSize(_) => Some(
                match response {
                    Response::DataBits(data_bits) => Subnegotiation::SetDataSize(data_bits.code()),
                    _ => cause,
                },
            ),
            Subnegotiation::SetParity(_) => Some(
                match response {
                    Response::Parity(parity) => Subnegotiation::SetParity(parity.code()),
                    _ => cause,
                },
            ),
            Subnegotiation::SetStopSize(_) => Some(
                match response {
                    Response::StopBits(stop_bits) => Subnegotiation::SetStopSize(stop_bits.code()),
                    _ => cause,
                },
            ),
            Subnegotiation::SetControl(value) => self.control_answer(value, response),
            Subnegotiation::FlowControlSuspend | Subnegotiation::FlowControlResume => Some(cause),
            Subnegotiation::PurgeData(value) => if 1 <= value <= 3 {
                Some(cause)
            } else {
                None
            },
            _ => None,
        }
    }

    /// The answer to a value of Set Control.
    pub open spec fn control_answer(self, value: u8, response: Response) -> Option<
        Subnegotiation,
    > {
        match (value, response) {
            (0, Response::FlowControl(flow_control)) => Some(
                Subnegotiation::SetControl(flow_control.code()),
            ),
            (4, _) => Some(
                Subnegotiation::SetControl(
                    if self.break_state {
                        5
                    } else {
                        6
                    },
                ),
            ),
            (7, Response::Level(on)) => Some(
                Subnegotiation::SetControl(
                    if on {
                        8
                    } else {
                        9
                    },
                ),
            ),
            (10, Response::Level(on)) => Some(
                Subnegotiation::SetControl(
                    if on {
                        11
                    } else {
                        12
                    },
                ),
            ),
            (1, _) | (2, _) | (3, _) | (5, _) | (6, _) | (8, _) | (9, _) | (11, _) | (12, _) => Some(
                Subnegotiation::SetControl(value),
            ),
            _ => None,
        }
    }

    /// The reaction to a subnegotiation: the server asks the serial port for
    /// the first operation, or, where there is none, answers at once.
    pub open spec fn process_subnegotiation(self, subnegotiation: Subnegotiation) -> (
        ServerState,
        ActionView,
    ) {
        match self.first_operation(subnegotiation) {
            Some(request) => (
                ServerState { pending: Some(Pending { cause: subnegotiation, request }), ..self },
                ActionView::Ask(request),
            ),
            None => {
                let noted = ServerState { pending: None, ..self.noting(subnegotiation) };
                (noted, reply_with(noted.answer(subnegotiation, Response::Done)))
            },
        }
    }

    /// The reaction goes on with what the serial port gave back: the server
    /// asks for the next operation, or, where there is none, answers. What
    /// is not of the kind that the operation gives back ends the reaction
    /// without an answer.
    pub open spec fn resume(self, response: Response) -> (ServerState, ActionView) {
        match self.pending {
            None => (self, ActionView::Idle),
            Some(Pending { cause, request }) => {
                if !request.answered_by(response) {
                    (ServerState { pending: None, ..self }, ActionView::Idle)
                } else {
                    let noted = self.noting_response(cause, request, response);
                    match next_operation(cause, request) {
                        Some(next) => (
                            ServerState { pending: Some(Pending { cause, request: next }), ..noted },
                            ActionView::Ask(next),
                        ),
                        None => (
                            ServerState { pending: None, ..noted },
                            reply_with(noted.answer(cause, response)),
                        ),
                    }
                }
            },
        }
    }

    /// The reaction to a negotiation: the answer, if there is one, goes to
    /// the peer.
    pub open spec fn process_negotiation(self, negotiation: Negotiation) -> (
        ServerState,
        ActionView,
    ) {
        (
            ServerState { pending: None, ..self },
            match negotiation.answer() {
                Some(answer) => ActionView::Reply(answer.wire()),
                None => ActionView::Idle,
            },
        )
    }

    /// The reaction to an event of the parser: user data goes to the serial
    /// port, a command has no effect.
    pub open spec fn process_event(self, event: Event) -> (ServerState, ActionView) {
        match event {
            Event::Data(byte) => (ServerState { pending: None, ..self }, ActionView::Forward(byte)),
            Event::Command(_) => (ServerState { pending: None, ..self }, ActionView::Idle),
            Event::Negotiation(negotiation) => self.process_negotiation(negotiation),
            Event::Subnegotiation(subnegotiation) => self.process_subnegotiation(subnegotiation),
        }
    }

    /// One byte from the peer: the parser takes it in, and the server reacts
    /// to the event that it yields, if it yields one.
    pub open spec fn process_tcp_byte(self, byte: u8) -> (ServerState, Result<ActionView, Error>) {
        let taken = ServerState { parser: self.parser.step(byte).0, ..self };
        match self.parser.step(byte).1 {
            Err(error) => (taken, Err(error)),
            Ok(None) => (taken, Ok(ActionView::Idle)),
            Ok(Some(event)) => (taken.process_event(event).0, Ok(taken.process_event(event).1)),
        }
    }
}

pub struct Server {
    parser: Parser,
    signature: Vec<u8>,
    suspended_flow_control: FlowControl,
    break_state: bool,
    pending: Option<Pending>,
}

impl View for Server {
    type V = ServerState;

    closed spec fn view(&self) -> ServerState {
        ServerState {
            parser: self.parser@,
            signature: self.signature@,
            suspended_flow_control: self.suspended_flow_control,
            break_state: self.break_state,
            pending: self.pending,
        }
    }
}

/// The frame of an answer, in the server's direction.
fn frame_of(answer: &Subnegotiation) -> (frame: Vec<u8>)
    ensures
        frame@ == answer.wire(OptionKind::ServerToClient),
{
    proof {
        lemma_wire_len(*answer, OptionKind::ServerToClient);
    }
    let mut buf: [u8; MAX_ESCAPED_SIZE] = [0u8; MAX_ESCAPED_SIZE];
    let n: usize = answer.serialize_server(&mut buf);
    let frame = vstd::slice::slice_to_vec(&buf[0..n]);
    assert(buf@.subrange(0, n as int) == buf@.take(n as int));
    frame
}

/// The action that an answer calls for.
fn reply(answer: Option<Subnegotiation>) -> (action: Action)
    ensures
        action@ == reply_with(answer),
{
    match answer {
        Some(subnegotiation) => Action::Reply(frame_of(&subnegotiation)),
        None => Action::Idle,
    }
}

impl Server {
    /// The invariant of the server: that of its parser, and a signature that
    /// an answer can hold.
    pub closed spec fn wf(&self) -> bool {
        &&& self.parser.wf()
        &&& self.signature@.len() < MAX_DATA_SIZE
    }

    pub fn new() -> (server: Self)
        ensures
            server.wf(),
            server@ == ServerState::initial(),
    {
        Server {
            parser: Parser::new(),
            signature: Vec::new(),
            suspended_flow_control: FlowControl::Off,
            break_state: false,
            pending: None,
        }
    }

    /// Takes one byte from the peer in and says what to do about it.
    pub fn process_tcp_byte(&mut self, byte: u8) -> (result: Result<Action, Error>)
        requires
            old(self).wf(),
        ensures
            final(self).wf(),
            final(self)@ == old(self)@.process_tcp_byte(byte).0,
            (match result {
                Ok(action) => Ok(action@),
                Err(error) => Err(error),
            }) == old(self)@.process_tcp_byte(byte).1,
    {
        match self.parser.process_byte(byte) {
            Err(error) => Err(error),
            Ok(None) => Ok(Action::Idle),
            Ok(Some(event)) => Ok(self.process_event(event)),
        }
    }

    /// Reacts to an event of the parser.
    pub fn process_event(&mut self, event: Event) -> (action: Action)
        requires
            old(self).wf(),
        ensures
            final(self).wf(),
            (final(self)@, action@) == old(self)@.process_event(event),
    {
        match event {
            Event::Data(byte) => {
                self.pending = None;
                Action::Forward(byte)
            },
            Event::Command(command) => self.process_command(command),
            Event::Negotiation(negotiation) => self.process_negotiation(negotiation),
            Event::Subnegotiation(subnegotiation) => self.process_subnegotiation(subnegotiation),
        }
    }

    /// Reacts to a command: no command has an effect.
    pub fn process_command(&mut self, command: Command) -> (action: Action)
        requires
            old(self).wf(),
        ensures
            final(self).wf(),
            (final(self)@, action@) == old(self)@.process_event(Event::Command(command)),
    {
        self.pending = None;
        Action::Idle
    }

    /// Reacts to a negotiation.
    pub fn process_negotiation(&mut self, negotiation: Negotiation) -> (action: Action)
        requires
            old(self).wf(),
        ensures
            final(self).wf(),
            (final(self)@, action@) == old(self)@.process_negotiation(negotiation),
    {
        self.pending = None;
        match negotiation.get_answer() {
            Some(answer) => {
                let mut buf: [u8; negotiation::SIZE] = [0u8; negotiation::SIZE];
                answer.serialize(&mut buf);
                let frame = vstd::slice::slice_to_vec(buf.as_slice());
                assert(buf@.subrange(0, negotiation::SIZE as int) == buf@);
                Action::Reply(frame)
            },
            None => Action::Idle,
        }
    }

    /// Reacts to a subnegotiation.
    pub fn process_subnegotiation(&mut self, subnegotiation: Subnegotiation) -> (action: Action)
        requires
            old(self).wf(),
        ensures
            final(self).wf(),
            (final(self)@, action@) == old(self)@.process_subnegotiation(subnegotiation),
    {
        match subnegotiation {
            Subnegotiation::SetSignature { data, size } => {
                // An empty signature asks for the one that is stored.
                if size > 0 {
                    self.signature = vstd::slice::slice_to_vec(&data[0..size as usize]);
                    assert(data@.subrange(0, size as int) == data@.take(size as int));
                }
                self.pending = None;
                reply(self.answer(subnegotiation, Response::Done))
            },
            Subnegotiation::SetBaudRate(val) => {
                if val == 0 {
                    self.ask(subnegotiation, Request::BaudRate)
                } else {
                    self.ask(subnegotiation, Request::SetBaudRate(val))
                }
            },
            Subnegotiation::SetDataSize(val) => match u8_to_data_bits(val) {
                Some(data_bits) => self.ask(subnegotiation, Request::SetDataBits(data_bits)),
                None => self.ask(subnegotiation, Request::DataBits),
            },
            Subnegotiation::SetParity(val) => match u8_to_parity(val) {
                Some(parity) => self.ask(subnegotiation, Request::SetParity(parity)),
                None => self.ask(subnegotiation, Request::Parity),
            },
            Subnegotiation::SetStopSize(val) => match u8_to_stop_bits(val) {
                Some(stop_bits) => self.ask(subnegotiation, Request::SetStopBits(stop_bits)),
                None => self.ask(subnegotiation, Request::StopBits),
            },
            Subnegotiation::SetControl(val) => self.handle_set_control(val),
            Subnegotiation::FlowControlSuspend => self.ask(subnegotiation, Request::FlowControl),
            Subnegotiation::FlowControlResume => {
                let suspended = self.suspended_flow_control;
                self.ask(subnegotiation, Request::SetFlowControl(suspended))
            },
            Subnegotiation::PurgeData(val) => self.handle_purge_data(val),
            _ => {
                self.pending = None;
                Action::Idle
            },
        }
    }

    /// Goes on with the reaction under way, given what the serial port gave
    /// back for the operation that was asked of it.
    pub fn resume(&mut self, response: Response) -> (action: Action)
        requires
            old(self).wf(),
        ensures
            final(self).wf(),
            (final(self)@, action@) == old(self)@.resume(response),
    {
        let (cause, request) = match self.pending {
            Some(Pending { cause, request }) => (cause, request),
            None => {
                return Action::Idle;
            },
        };
        let expected: bool = match request {
            Request::BaudRate => matches!(response, Response::BaudRate(_)),
            Request::DataBits => matches!(response, Response::DataBits(_)),
            Request::Parity => matches!(response, Response::Parity(_)),
            Request::StopBits => matches!(response, Response::StopBits(_)),
            Request::FlowControl => matches!(response, Response::FlowControl(_)),
            Request::ReadDataSetReady | Request::ReadClearToSend => matches!(
                response,
                Response::Level(_)
            ),
            _ => matches!(response, Response::Done),
        };
        if !expected {
            self.pending = None;
            return Action::Idle;
        }
        match (request, response) {
            (Request::SetBreak, _) => {
                self.break_state = true;
            },
            (Request::ClearBreak, _) => {
                self.break_state = false;
            },
            (Request::FlowControl, Response::FlowControl(flow_control)) => {
                if let Subnegotiation::FlowControlSuspend = cause {
                    self.suspended_flow_control = flow_control;
                }
            },
            _ => {},
        }
        match (cause, request) {
            (Subnegotiation::FlowControlSuspend, Request::FlowControl) => self.ask(
                cause,
                Request::SetFlowControl(FlowControl::Off),
            ),
            (Subnegotiation::PurgeData(3), Request::Clear(ClearBuffer::Input)) => self.ask(
                cause,
                Request::Clear(ClearBuffer::Output),
            ),
            _ => {
                self.pending = None;
                reply(self.answer(cause, response))
            },
        }
    }

    /// Starts the reaction to a value of Set Control.
    fn handle_set_control(&mut self, val: u8) -> (action: Action)
        requires
            old(self).wf(),
        ensures
            final(self).wf(),
            (final(self)@, action@) == old(self)@.process_subnegotiation(
                Subnegotiation::SetControl(val),
            ),
    {
        let cause = Subnegotiation::SetControl(val);
        match val {
            0 => self.ask(cause, Request::FlowControl),
            1 | 2 | 3 => {
                let flow_control = u8_to_flow_control(val).unwrap();
                self.ask(cause, Request::SetFlowControl(flow_control))
            },
            5 => self.ask(cause, Request::SetBreak),
            6 => self.ask(cause, Request::ClearBreak),
            7 => self.ask(cause, Request::ReadDataSetReady),
            8 => self.ask(cause, Request::WriteDataTerminalReady(true)),
            9 => self.ask(cause, Request::WriteDataTerminalReady(false)),
            10 => self.ask(cause, Request::ReadClearToSend),
            11 => self.ask(cause, Request::WriteRequestToSend(true)),
            12 => self.ask(cause, Request::WriteRequestToSend(false)),
            _ => {
                self.pending = None;
                reply(self.answer(cause, Response::Done))
            },
        }
    }

    /// Starts the reaction to a value of Purge Data.
    fn handle_purge_data(&mut self, val: u8) -> (action: Action)
        requires
            old(self).wf(),
        ensures
            final(self).wf(),
            (final(self)@, action@) == old(self)@.process_subnegotiation(
                Subnegotiation::PurgeData(val),
            ),
    {
        let cause = Subnegotiation::PurgeData(val);
        match val {
            1 | 3 => self.ask(cause, Request::Clear(ClearBuffer::Input)),
            2 => self.ask(cause, Request::Clear(ClearBuffer::Output)),
            _ => {
                self.pending = None;
                Action::Idle
            },
        }
    }

    /// Notes that the reaction to `cause` waits for the serial port.
    fn ask(&mut self, cause: Subnegotiation, request: Request) -> (action: Action)
        ensures
            *final(self) == (Server { pending: Some(Pending { cause, request }), ..*old(self) }),
            action == Action::Ask(request),
    {
        self.pending = Some(Pending { cause, request });
        Action::Ask(request)
    }

    /// The answer to `cause` when the reaction is over.
    fn answer(&self, cause: Subnegotiation, response: Response) -> (answer: Option<Subnegotiation>)
        requires
            self.wf(),
        ensures
            answer == self@.answer(cause, response),
    {
        match cause {
            Subnegotiation::SetSignature { data, size } => {
                if size == 0 {
                    let mut stored: [u8; MAX_DATA_SIZE] = [0u8; MAX_DATA_SIZE];
                    let mut i: usize = 0;
                    while i < self.signature.len()
                        invariant
                            i <= self.signature@.len() < MAX_DATA_SIZE,
                            forall|k: int| 0 <= k < i ==> stored@[k] == self.signature@[k],
                            forall|k: int| i <= k < MAX_DATA_SIZE ==> stored@[k] == 0u8,
                        decreases self.signature@.len() - i,
                    {
                        stored[i] = self.signature[i];
                        i += 1;
                    }
                    proof {
                        lemma_padded(self.signature@);
                        assert(stored@ == zero_extended(self.signature@));
                        assert(stored =~= padded(self.signature@));
                    }
                    Some(
                        Subnegotiation::SetSignature {
                            data: stored,
                            size: self.signature.len() as u8,
                        },
                    )
                } else {
                    Some(cause)
                }
            },
            Subnegotiation::SetBaudRate(_) => match response {
                Response::BaudRate(baud_rate) => Some(Subnegotiation::SetBaudRate(baud_rate)),
                _ => Some(cause),
            },
            Subnegotiation::SetDataSize(_) => match response {
                Response::DataBits(data_bits) => Some(
                    Subnegotiation::SetDataSize(data_bits_to_u8(data_bits)),
                ),
                _ => Some(cause),
            },
            Subnegotiation::SetParity(_) => match response {
                Response::Parity(parity) => Some(Subnegotiation::SetParity(parity_to_u8(parity))),
                _ => Some(cause),
            },
            Subnegotiation::SetStopSize(_) => match response {
                Response::StopBits(stop_bits) => Some(
                    Subnegotiation::SetStopSize(stop_bits_to_u8(stop_bits)),
                ),
                _ => Some(cause),
            },
            Subnegotiation::SetControl(val) => match (val, response) {
                (0, Response::FlowControl(flow_control)) => Some(
                    Subnegotiation::SetControl(flow_control_to_u8(flow_control)),
                ),
                (4, _) => match self.break_state {
                    true => Some(Subnegotiation::SetControl(5)),
                    false => Some(Subnegotiation::SetControl(6)),
                },
                (7, Response::Level(on)) => match on {
                    true => Some(Subnegotiation::SetControl(8)),
                    false => Some(Subnegotiation::SetControl(9)),
                },
                (10, Response::Level(on)) => match on {
                    true => Some(Subnegotiation::SetControl(11)),
                    false => Some(Subnegotiation::SetControl(12)),
                },
                (1, _) | (2, _) | (3, _) | (5, _) | (6, _) | (8, _) | (9, _) | (11, _) | (12, _) => Some(
                    Subnegotiation::SetControl(val),
                ),
                _ => None,
            },
            Subnegotiation::FlowControlSuspend | Subnegotiation::FlowControlResume => Some(cause),
            Subnegotiation::PurgeData(val) => match val {
                1 | 2 | 3 => Some(cause),
                _ => None,
            },
            _ => None,
        }
    }
}

} // verus!
