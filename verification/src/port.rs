//! The serial port as the server sees it: its settings, their values on the
//! wire, and the operations that the server asks of it.

use vstd::prelude::*;

verus! {

/// Number of bits per character.
#[derive(Debug, PartialEq, Eq, Clone, Copy)]
pub enum DataBits {
    Five,
    Six,
    Seven,
    Eight,
}

#[derive(Debug, PartialEq, Eq, Clone, Copy)]
pub enum Parity {
    Off,
    Odd,
    Even,
}

#[derive(Debug, PartialEq, Eq, Clone, Copy)]
pub enum StopBits {
    One,
    Two,
}

#[derive(Debug, PartialEq, Eq, Clone, Copy)]
pub enum FlowControl {
    Off,
    Software,
    Hardware,
}

/// The direction in which buffered bytes are discarded.
#[derive(Debug, PartialEq, Eq, Clone, Copy)]
pub enum ClearBuffer {
    Input,
    Output,
}

/// One operation on the serial port.
#[derive(Debug, PartialEq, Eq, Clone, Copy)]
pub enum Request {
    BaudRate,
    SetBaudRate(u32),
    DataBits,
    SetDataBits(DataBits),
    Parity,
    SetParity(Parity),
    StopBits,
    SetStopBits(StopBits),
    FlowControl,
    SetFlowControl(FlowControl),
    SetBreak,
    ClearBreak,
    ReadDataSetReady,
    WriteDataTerminalReady(bool),
    ReadClearToSend,
    WriteRequestToSend(bool),
    Clear(ClearBuffer),
}

/// What the serial port gave back for an operation that it carried out.
#[derive(Debug, PartialEq, Eq, Clone, Copy)]
pub enum Response {
    /// The operation asked for no value.
    Done,
    BaudRate(u32),
    DataBits(DataBits),
    Parity(Parity),
    StopBits(StopBits),
    FlowControl(FlowControl),
    /// The level of a modem line.
    Level(bool),
}

impl Request {
    /// Whether `response` is of the kind that the operation gives back.
    pub open spec fn answered_by(self, response: Response) -> bool {
        match self {
            Request::BaudRate => response is BaudRate,
            Request::DataBits => response is DataBits,
            Request::Parity => response is Parity,
            Request::StopBits => response is StopBits,
            Request::FlowControl => response is FlowControl,
            Request::ReadDataSetReady | Request::ReadClearToSend => response is Level,
            _ => response is Done,
        }
    }
}

impl DataBits {
    /// The value on the wire: the number of bits.
    pub open spec fn code(self) -> u8 {
        match self {
            DataBits::Five => 5,
            DataBits::Six => 6,
            DataBits::Seven => 7,
            DataBits::Eight => 8,
        }
    }

    /// The setting that a value on the wire names, if it names one.
    pub open spec fn from_code(value: u8) -> Option<DataBits> {
        match value {
            5 => Some(DataBits::Five),
            6 => Some(DataBits::Six),
            7 => Some(DataBits::Seven),
            8 => Some(DataBits::Eight),
            _ => None,
        }
    }
}

impl Parity {
    /// The value on the wire.
    pub open spec fn code(self) -> u8 {
        match self {
            Parity::Off => 1,
            Parity::Odd => 2,
            Parity::Even => 3,
        }
    }

    /// The setting that a value on the wire names, if it names one.
    pub open spec fn from_code(value: u8) -> Option<Parity> {
        match value {
            1 => Some(Parity::Off),
            2 => Some(Parity::Odd),
            3 => Some(Parity::Even),
            _ => None,
        }
    }
}

impl StopBits {
    /// The value on the wire: the number of stop bits.
    pub open spec fn code(self) -> u8 {
        match self {
            StopBits::One => 1,
            StopBits::Two => 2,
        }
    }

    /// The setting that a value on the wire names, if it names one.
    pub open spec fn from_code(value: u8) -> Option<StopBits> {
        match value {
            1 => Some(StopBits::One),
            2 => Some(StopBits::Two),
            _ => None,
        }
    }
}

impl FlowControl {
    /// The value on the wire.
    pub open spec fn code(self) -> u8 {
        match self {
            FlowControl::Off => 1,
            FlowControl::Software => 2,
            FlowControl::Hardware => 3,
        }
    }

    /// The setting that a value on the wire names, if it names one.
    pub open spec fn from_code(value: u8) -> Option<FlowControl> {
        match value {
            1 => Some(FlowControl::Off),
            2 => Some(FlowControl::Software),
            3 => Some(FlowControl::Hardware),
            _ => None,
        }
    }
}

pub fn data_bits_to_u8(data_bits: DataBits) -> (value: u8)
    ensures
        value == data_bits.code(),
{
    match data_bits {
        DataBits::Five => 5,
        DataBits::Six => 6,
        DataBits::Seven => 7,
        DataBits::Eight => 8,
    }
}

pub fn u8_to_data_bits(value: u8) -> (data_bits: Option<DataBits>)
    ensures
        data_bits == DataBits::from_code(value),
{
    match value {
        5 => Some(DataBits::Five),
        6 => Some(DataBits::Six),
        7 => Some(DataBits::Seven),
        8 => Some(DataBits::Eight),
        _ => None,
    }
}

pub fn parity_to_u8(parity: Parity) -> (value: u8)
    ensures
        value == parity.code(),
{
    match parity {
        Parity::Off => 1,
        Parity::Odd => 2,
        Parity::Even => 3,
    }
}

pub fn u8_to_parity(value: u8) -> (parity: Option<Parity>)
    ensures
        parity == Parity::from_code(value),
{
    match value {
        1 => Some(Parity::Off),
        2 => Some(Parity::Odd),
        3 => Some(Parity::Even),
        _ => None,
    }
}

pub fn stop_bits_to_u8(stop_bits: StopBits) -> (value: u8)
    ensures
        value == stop_bits.code(),
{
    match stop_bits {
        StopBits::One => 1,
        StopBits::Two => 2,
    }
}

pub fn u8_to_stop_bits(value: u8) -> (stop_bits: Option<StopBits>)
    ensures
        stop_bits == StopBits::from_code(value),
{
    match value {
        1 => Some(StopBits::One),
        2 => Some(StopBits::Two),
        _ => None,
    }
}

pub fn flow_control_to_u8(flow_control: FlowControl) -> (value: u8)
    ensures
        value == flow_control.code(),
{
    match flow_control {
        FlowControl::Off => 1,
        FlowControl::Software => 2,
        FlowControl::Hardware => 3,
    }
}

pub fn u8_to_flow_control(value: u8) -> (flow_control: Option<FlowControl>)
    ensures
        flow_control == FlowControl::from_code(value),
{
    match value {
        1 => Some(FlowControl::Off),
        2 => Some(FlowControl::Software),
        3 => Some(FlowControl::Hardware),
        _ => None,
    }
}

/// A setting and its value on the wire stand for each other: the value of a
/// setting is read back as that setting, and no other value is read as one.
pub proof fn lemma_codes_are_one_to_one(value: u8)
    ensures
        DataBits::from_code(value) matches Some(data_bits) ==> data_bits.code() == value,
        Parity::from_code(value) matches Some(parity) ==> parity.code() == value,
        StopBits::from_code(value) matches Some(stop_bits) ==> stop_bits.code() == value,
        FlowControl::from_code(value) matches Some(flow_control) ==> flow_control.code() == value,
        forall|data_bits: DataBits| DataBits::from_code(#[trigger] data_bits.code()) == Some(data_bits),
        forall|parity: Parity| Parity::from_code(#[trigger] parity.code()) == Some(parity),
        forall|stop_bits: StopBits| StopBits::from_code(#[trigger] stop_bits.code()) == Some(stop_bits),
        forall|flow_control: FlowControl|
            FlowControl::from_code(#[trigger] flow_control.code()) == Some(flow_control),
{
}

} // verus!
