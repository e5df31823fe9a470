//! Subnegotiations of the Com Port Control Option (RFC 2217) and their wire
//! form: `IAC SB <option> <code> <payload> IAC SE`, the payload escaped.

use crate::codes::{COM_PORT_OPTION, IAC, SB, SE};
use crate::escaping::{escape, unescape};
use vstd::prelude::*;

verus! {

/// The most payload bytes that a subnegotiation holds.
pub const MAX_DATA_SIZE: usize = 256;

/// The bytes of a frame that are not payload: `IAC SB <option> <code>` and
/// `IAC SE`.
pub const NONDATA_SIZE: usize = 6;

/// The longest frame that the parser accepts.
pub const MAX_SIZE: usize = MAX_DATA_SIZE + NONDATA_SIZE;

/// The longest frame that serializing gives: a full payload in which every
/// byte is doubled.
pub const MAX_ESCAPED_SIZE: usize = 2 * MAX_DATA_SIZE + NONDATA_SIZE;

#[derive(Debug, PartialEq, Eq, Clone, Copy)]
pub enum Subnegotiation {
    SetSignature { data: [u8; MAX_DATA_SIZE], size: u8 },
    SetBaudRate(u32),
    SetDataSize(u8),
    SetParity(u8),
    SetStopSize(u8),
    SetControl(u8),
    NotifyLineState(u8),
    NotifyModemState(u8),
    FlowControlSuspend,
    FlowControlResume,
    SetLinestateMask(u8),
    SetModemStateMask(u8),
    PurgeData(u8),
    Unsupported { base_option_code: u8, option_code: u8, data: [u8; MAX_DATA_SIZE], data_cnt: u8 },
}

/// The two directions of a Com Port subnegotiation. The codes of the two
/// differ by 100.
#[derive(Debug, PartialEq, Eq, Clone, Copy)]
pub enum OptionKind {
    ClientToServer,
    ServerToClient,
}

/// `payload` followed by zeros, up to `MAX_DATA_SIZE` entries.
pub open spec fn zero_extended(payload: Seq<u8>) -> Seq<u8> {
    Seq::new(MAX_DATA_SIZE as nat, |i: int| if i < payload.len() { payload[i] } else { 0u8 })
}

/// The array that holds `payload` followed by zeros.
pub open spec fn padded(payload: Seq<u8>) -> [u8; MAX_DATA_SIZE] {
    choose|data: [u8; MAX_DATA_SIZE]| data@ == zero_extended(payload)
}

spec fn filled(content: Seq<u8>, n: nat) -> [u8; MAX_DATA_SIZE]
    decreases n,
{
    if n == 0 {
        vstd::array::spec_array_fill_for_copy_type::<u8, MAX_DATA_SIZE>(0u8)
    } else {
        vstd::array::spec_array_update(filled(content, (n - 1) as nat), n - 1, content[n - 1])
    }
}

proof fn lemma_filled(content: Seq<u8>, n: nat)
    requires
        n <= MAX_DATA_SIZE,
    ensures
        forall|i: int| 0 <= i < n ==> filled(content, n)@[i] == content[i],
    decreases n,
{
    if n > 0 {
        lemma_filled(content, (n - 1) as nat);
    }
}

/// There is an array for every payload: `padded` holds what its name says.
pub proof fn lemma_padded(payload: Seq<u8>)
    ensures
        padded(payload)@ == zero_extended(payload),
{
    let content = zero_extended(payload);
    lemma_filled(content, MAX_DATA_SIZE as nat);
    assert(filled(content, MAX_DATA_SIZE as nat)@ == content);
}

/// The four bytes of a number, most significant first.
pub open spec fn be_bytes(value: u32) -> Seq<u8> {
    seq![
        (value / 0x100_0000) as u8,
        (value / 0x1_0000 % 0x100) as u8,
        (value / 0x100 % 0x100) as u8,
        (value % 0x100) as u8,
    ]
}

/// The number that the first four bytes stand for, most significant first.
pub open spec fn from_be_bytes(bytes: Seq<u8>) -> u32
    recommends
        bytes.len() >= 4,
{
    (bytes[0] * 0x100_0000 + bytes[1] * 0x1_0000 + bytes[2] * 0x100 + bytes[3]) as u32
}

/// A payload length as a one-byte length field holds it: a full payload of
/// `MAX_DATA_SIZE` bytes wraps to zero.
pub open spec fn short_len(payload: Seq<u8>) -> u8 {
    if payload.len() < MAX_DATA_SIZE {
        payload.len() as u8
    } else {
        0
    }
}

/// The code of a Com Port subnegotiation in the given direction: a server
/// adds 100 to the code that a client sends.
pub open spec fn directed(code: u8, kind: OptionKind) -> u8 {
    match kind {
        OptionKind::ClientToServer => code,
        OptionKind::ServerToClient => (code + 100) as u8,
    }
}

/// A frame on the wire: `IAC SB`, the option and the code, the payload with
/// every `IAC` byte doubled, and `IAC SE`.
pub open spec fn frame(option: u8, code: u8, payload: Seq<u8>) -> Seq<u8> {
    seq![IAC, SB, option, code] + escape(payload) + seq![IAC, SE]
}

impl Subnegotiation {
    /// The Telnet option that the subnegotiation belongs to.
    pub open spec fn option(self) -> u8 {
        match self {
            Subnegotiation::Unsupported { base_option_code, .. } => base_option_code,
            _ => COM_PORT_OPTION,
        }
    }

    /// The code of the subnegotiation as a client sends it.
    pub open spec fn base_code(self) -> u8 {
        match self {
            Subnegotiation::SetSignature { .. } => 0,
            Subnegotiation::SetBaudRate(_) => 1,
            Subnegotiation::SetDataSize(_) => 2,
            Subnegotiation::SetParity(_) => 3,
            Subnegotiation::SetStopSize(_) => 4,
            Subnegotiation::SetControl(_) => 5,
            Subnegotiation::NotifyLineState(_) => 6,
            Subnegotiation::NotifyModemState(_) => 7,
            Subnegotiation::FlowControlSuspend => 8,
            Subnegotiation::FlowControlResume => 9,
            Subnegotiation::SetLinestateMask(_) => 10,
            Subnegotiation::SetModemStateMask(_) => 11,
            Subnegotiation::PurgeData(_) => 12,
            Subnegotiation::Unsupported { option_code, .. } => option_code,
        }
    }

    /// The code on the wire: that of a Com Port subnegotiation depends on
    /// the direction; the code of any other option travels as it is.
    pub open spec fn code(self, kind: OptionKind) -> u8 {
        if self is Unsupported {
            self.base_code()
        } else {
            directed(self.base_code(), kind)
        }
    }

    /// The payload before escaping.
    pub open spec fn payload(self) -> Seq<u8> {
        match self {
            Subnegotiation::SetSignature { data, size } => data@.take(size as int),
            Subnegotiation::SetBaudRate(baud) => be_bytes(baud),
            Subnegotiation::SetDataSize(value) => seq![value],
            Subnegotiation::SetParity(value) => seq![value],
            Subnegotiation::SetStopSize(value) => seq![value],
            Subnegotiation::SetControl(value) => seq![value],
            Subnegotiation::NotifyLineState(value) => seq![value],
            Subnegotiation::NotifyModemState(value) => seq![value],
            Subnegotiation::FlowControlSuspend => Seq::empty(),
            Subnegotiation::FlowControlResume => Seq::empty(),
            Subnegotiation::SetLinestateMask(value) => seq![value],
            Subnegotiation::SetModemStateMask(value) => seq![value],
            Subnegotiation::PurgeData(value) => seq![value],
            Subnegotiation::Unsupported { data, data_cnt, .. } => data@.take(data_cnt as int),
        }
    }

    /// The frame of the subnegotiation on the wire.
    pub open spec fn wire(self, kind: OptionKind) -> Seq<u8> {
        frame(self.option(), self.code(kind), self.payload())
    }

    /// Whether `frame` has the shape of a subnegotiation that fits the
    /// parser's buffer: opened by `IAC SB`, closed by `IAC SE`.
    pub open spec fn framed(frame: Seq<u8>) -> bool {
        &&& NONDATA_SIZE <= frame.len() <= MAX_SIZE
        &&& frame[0] == IAC
        &&& frame[1] == SB
        &&& frame[frame.len() - 2] == IAC
        &&& frame[frame.len() - 1] == SE
    }

    /// The payload that a frame carries, with the escapes removed.
    pub open spec fn frame_payload(frame: Seq<u8>) -> Seq<u8> {
        unescape(frame.subrange(4, frame.len() - 2))
    }

    /// The Com Port subnegotiation with this code and payload, in either
    /// direction. Bytes after a fixed-width value are ignored. There is none
    /// for an unknown code, nor for a payload shorter than the value.
    pub open spec fn com_port(code: u8, payload: Seq<u8>) -> Option<Subnegotiation> {
        let base = if 100 <= code <= 112 {
            code - 100
        } else {
            code as int
        };
        if base == 0 {
            Some(Subnegotiation::SetSignature { data: padded(payload), size: short_len(payload) })
        } else if base == 1 {
            if payload.len() >= 4 {
                Some(Subnegotiation::SetBaudRate(from_be_bytes(payload)))
            } else {
                None
            }
        } else if base == 8 {
            Some(Subnegotiation::FlowControlSuspend)
        } else if base == 9 {
            Some(Subnegotiation::FlowControlResume)
        } else if base > 12 || payload.len() == 0 {
            None
        } else if base == 2 {
            Some(Subnegotiation::SetDataSize(payload[0]))
        } else if base == 3 {
            Some(Subnegotiation::SetParity(payload[0]))
        } else if base == 4 {
            Some(Subnegotiation::SetStopSize(payload[0]))
        } else if base == 5 {
            Some(Subnegotiation::SetControl(payload[0]))
        } else if base == 6 {
            Some(Subnegotiation::NotifyLineState(payload[0]))
        } else if base == 7 {
            Some(Subnegotiation::NotifyModemState(payload[0]))
        } else if base == 10 {
            Some(Subnegotiation::SetLinestateMask(payload[0]))
        } else if base == 11 {
            Some(Subnegotiation::SetModemStateMask(payload[0]))
        } else {
            Some(Subnegotiation::PurgeData(payload[0]))
        }
    }

    /// The subnegotiation that a frame stands for, if it stands for one.
    /// The frame of another option than Com Port is kept as `Unsupported`.
    pub open spec fn decode(frame: Seq<u8>) -> Option<Subnegotiation> {
        if !Self::framed(frame) {
            None
        } else if frame[2] == COM_PORT_OPTION {
            Self::com_port(frame[3], Self::frame_payload(frame))
        } else {
            Some(
                Subnegotiation::Unsupported {
                    base_option_code: frame[2],
                    option_code: frame[3],
                    data: padded(Self::frame_payload(frame)),
                    data_cnt: short_len(Self::frame_payload(frame)),
                },
            )
        }
    }

    /// The value with zeros behind its payload: the bytes of the array that
    /// the length leaves out do not travel, and decoding fills them with
    /// zeros.
    pub open spec fn normalized(self) -> Subnegotiation {
        match self {
            Subnegotiation::SetSignature { data, size } => Subnegotiation::SetSignature {
                data: padded(data@.take(size as int)),
                size,
            },
            Subnegotiation::Unsupported {
                base_option_code,
                option_code,
                data,
                data_cnt,
            } => Subnegotiation::Unsupported {
                base_option_code,
                option_code,
                data: padded(data@.take(data_cnt as int)),
                data_cnt,
            },
            _ => self,
        }
    }

    /// Whether the frame of the value is read back as a value of its kind:
    /// not so an `Unsupported` of the Com Port option, whose frame is read
    /// as a Com Port subnegotiation or not at all.
    pub open spec fn reads_back(self) -> bool {
        self is Unsupported ==> self.option() != COM_PORT_OPTION
    }
}

/// A frame holds at most `MAX_DATA_SIZE` bytes of payload, each of them
/// once or twice, and the six bytes of framing: a buffer of
/// `MAX_ESCAPED_SIZE` bytes takes every frame.
pub proof fn lemma_wire_len(sub: Subnegotiation, kind: OptionKind)
    ensures
        sub.payload().len() <= MAX_DATA_SIZE,
        NONDATA_SIZE + sub.payload().len() <= sub.wire(kind).len() <= NONDATA_SIZE + 2
            * sub.payload().len(),
        sub.wire(kind).len() <= MAX_ESCAPED_SIZE,
{
    crate::escaping::lemma_escape_len(sub.payload());
}

/// Four bytes, most significant first, are read back as the number that
/// they were made from.
pub proof fn lemma_be_bytes_round_trip(value: u32)
    ensures
        be_bytes(value).len() == 4,
        from_be_bytes(be_bytes(value)) == value,
{
}

/// Normalizing changes nothing that travels; it changes nothing at all where
/// the bytes behind the payload are zero already.
pub proof fn lemma_normalized(sub: Subnegotiation, kind: OptionKind)
    ensures
        sub.normalized().payload() == sub.payload(),
        sub.normalized().wire(kind) == sub.wire(kind),
        sub.normalized().normalized() == sub.normalized(),
        (sub matches Subnegotiation::SetSignature { data, size } && data@ == zero_extended(
            data@.take(size as int),
        )) ==> sub.normalized() == sub,
        (sub matches Subnegotiation::Unsupported { data, data_cnt, .. } && data@ == zero_extended(
            data@.take(data_cnt as int),
        )) ==> sub.normalized() == sub,
        !(sub is SetSignature) && !(sub is Unsupported) ==> sub.normalized() == sub,
{
    match sub {
        Subnegotiation::SetSignature { data, size } => {
            let payload = data@.take(size as int);
            lemma_padded(payload);
            assert(padded(payload)@.take(size as int) == payload);
            if data@ == zero_extended(payload) {
                assert(padded(payload) =~= data);
            }
        },
        Subnegotiation::Unsupported { data, data_cnt, .. } => {
            let payload = data@.take(data_cnt as int);
            lemma_padded(payload);
            assert(padded(payload)@.take(data_cnt as int) == payload);
            if data@ == zero_extended(payload) {
                assert(padded(payload) =~= data);
            }
        },
        _ => {},
    }
}

/// A frame is read back as the subnegotiation that it was made from, in
/// either direction, whatever bytes the payload holds: the doubled `IAC`
/// bytes of the payload are taken for data, never for the end of the frame.
/// This holds of every value whose frame fits the parser's buffer, but
/// for an `Unsupported` of the Com Port option.
pub proof fn lemma_decode_wire(sub: Subnegotiation, kind: OptionKind)
    requires
        sub.reads_back(),
        sub.wire(kind).len() <= MAX_SIZE,
    ensures
        Subnegotiation::decode(sub.wire(kind)) == Some(sub.normalized()),
{
    let frame = sub.wire(kind);
    let payload = sub.payload();
    assert(frame.subrange(4, frame.len() - 2) == escape(payload));
    crate::escaping::lemma_unescape_escape(payload);
    assert(Subnegotiation::frame_payload(frame) == payload);
    if let Subnegotiation::SetBaudRate(baud) = sub {
        lemma_be_bytes_round_trip(baud);
    }
}

/// Writes `data` into `buf` from `start` on, every `IAC` byte twice, and
/// returns the index behind the last byte written.
fn write_escaped(buf: &mut [u8], start: usize, data: &[u8]) -> (end: usize)
    requires
        start + escape(data@).len() <= old(buf)@.len(),
    ensures
        end == start + escape(data@).len(),
        final(buf)@.len() == old(buf)@.len(),
        final(buf)@.subrange(start as int, end as int) == escape(data@),
        forall|k: int|
            0 <= k < start || end <= k < old(buf)@.len() ==> final(buf)@[k] == old(buf)@[k],
{
    let mut end: usize = start;
    let mut i: usize = 0;
    assert(data@.skip(0) == data@);
    assert(buf@.subrange(start as int, end as int) + escape(data@) == escape(data@));
    while i < data.len()
        invariant
            i <= data@.len(),
            buf@.len() == old(buf)@.len(),
            start + escape(data@).len() <= buf@.len(),
            end + escape(data@.skip(i as int)).len() == start + escape(data@).len(),
            buf@.subrange(start as int, end as int) + escape(data@.skip(i as int)) == escape(
                data@,
            ),
            forall|k: int|
                0 <= k < start || end <= k < old(buf)@.len() ==> buf@[k] == old(buf)@[k],
        decreases data@.len() - i,
    {
        let byte: u8 = data[i];
        let ghost rest = data@.skip(i as int);
        let ghost written = buf@.subrange(start as int, end as int);
        proof {
            assert(rest.drop_first() == data@.skip(i + 1));
            assert(rest[0] == byte);
        }
        buf[end] = byte;
        end += 1;
        if byte == IAC {
            buf[end] = byte;
            end += 1;
            assert(buf@.subrange(start as int, end as int) == written.push(byte).push(byte));
            assert(written.push(byte).push(byte) + escape(rest.drop_first()) == written + escape(
                rest,
            ));
        } else {
            assert(buf@.subrange(start as int, end as int) == written.push(byte));
            assert(written.push(byte) + escape(rest.drop_first()) == written + escape(rest));
        }
        i += 1;
    }
    proof {
        assert(data@.skip(i as int) == Seq::<u8>::empty());
        let written = buf@.subrange(start as int, end as int);
        assert(written + Seq::<u8>::empty() == written);
    }
    end
}

/// Reads the payload of a frame: copies `region` into an array, every pair
/// of `IAC` bytes as one, and returns the array with the number of bytes
/// that it holds.
fn read_escaped(region: &[u8]) -> (read: ([u8; MAX_DATA_SIZE], usize))
    requires
        region@.len() <= MAX_DATA_SIZE,
    ensures
        read.0 == padded(unescape(region@)),
        read.1 == unescape(region@).len(),
        read.1 <= MAX_DATA_SIZE,
{
    let mut data: [u8; MAX_DATA_SIZE] = [0u8; MAX_DATA_SIZE];
    let mut size: usize = 0;
    let mut i: usize = 0;
    assert(region@.skip(0) == region@);
    assert(data@.take(0) + unescape(region@) == unescape(region@));
    while i < region.len()
        invariant
            i <= region@.len() <= MAX_DATA_SIZE,
            size <= i,
            data@.take(size as int) + unescape(region@.skip(i as int)) == unescape(region@),
            forall|k: int| size <= k < MAX_DATA_SIZE ==> data@[k] == 0u8,
        decreases region@.len() - i,
    {
        let byte: u8 = region[i];
        let ghost rest = region@.skip(i as int);
        let ghost kept = data@.take(size as int);
        data[size] = byte;
        size += 1;
        assert(data@.take(size as int) == kept.push(byte));
        if byte == IAC && i + 1 < region.len() && region[i + 1] == IAC {
            assert(rest.skip(2) == region@.skip(i + 2));
            assert(kept.push(byte) + unescape(rest.skip(2)) == kept + unescape(rest));
            i += 2;
        } else {
            assert(rest.drop_first() == region@.skip(i + 1));
            assert(kept.push(byte) + unescape(rest.drop_first()) == kept + unescape(rest));
            i += 1;
        }
    }
    proof {
        assert(region@.skip(i as int) == Seq::<u8>::empty());
        assert(data@.take(size as int) + Seq::<u8>::empty() == data@.take(size as int));
        lemma_padded(unescape(region@));
        assert(data@ == zero_extended(unescape(region@)));
    }
    (data, size)
}

/// Writes a whole frame into the front of `buf`, leaves the rest of `buf`
/// as it was, and returns the frame's length.
fn write_frame(buf: &mut [u8], option: u8, code: u8, data: &[u8]) -> (n: usize)
    requires
        frame(option, code, data@).len() <= old(buf)@.len(),
    ensures
        n == frame(option, code, data@).len(),
        final(buf)@.len() == old(buf)@.len(),
        final(buf)@.take(n as int) == frame(option, code, data@),
        final(buf)@.skip(n as int) == old(buf)@.skip(n as int),
{
    buf[0] = IAC;
    buf[1] = SB;
    buf[2] = option;
    buf[3] = code;
    let end: usize = write_escaped(buf, 4, data);
    buf[end] = IAC;
    buf[end + 1] = SE;
    proof {
        let written = buf@.take(end + 2);
        let expected = frame(option, code, data@);
        assert(written.len() == expected.len());
        assert forall|k: int| 0 <= k < written.len() implies written[k] == expected[k] by {
            if 4 <= k < end {
                assert(buf@.subrange(4, end as int)[k - 4] == escape(data@)[k - 4]);
            }
        }
        assert(written == expected);
    }
    end + 2
}

/// Writes the frame of a Com Port subnegotiation into the front of `buf`,
/// with the code that the direction asks for, and returns the frame's
/// length.
fn subnegotiate(
    buf: &mut [u8],
    option_kind: OptionKind,
    option_code: u8,
    data: &[u8],
) -> (n: usize)
    requires
        option_code <= 12,
        frame(COM_PORT_OPTION, directed(option_code, option_kind), data@).len() <= old(buf)@.len(),
    ensures
        n == frame(COM_PORT_OPTION, directed(option_code, option_kind), data@).len(),
        final(buf)@.len() == old(buf)@.len(),
        final(buf)@.take(n as int) == frame(
            COM_PORT_OPTION,
            directed(option_code, option_kind),
            data@,
        ),
        final(buf)@.skip(n as int) == old(buf)@.skip(n as int),
{
    let code: u8 = match option_kind {
        OptionKind::ClientToServer => option_code,
        OptionKind::ServerToClient => option_code + 100,
    };
    write_frame(buf, COM_PORT_OPTION, code, data)
}

impl Subnegotiation {
    /// Writes the frame as a client sends it into the front of `buf` and
    /// returns its length. `buf` has to take the whole frame.
    pub fn serialize_client(&self, buf: &mut [u8]) -> (n: usize)
        requires
            self.wire(OptionKind::ClientToServer).len() <= old(buf)@.len(),
        ensures
            n == self.wire(OptionKind::ClientToServer).len(),
            final(buf)@.len() == old(buf)@.len(),
            final(buf)@.take(n as int) == self.wire(OptionKind::ClientToServer),
            final(buf)@.skip(n as int) == old(buf)@.skip(n as int),
    {
        self.serialize(buf, OptionKind::ClientToServer)
    }

    /// Writes the frame as a server sends it into the front of `buf` and
    /// returns its length. `buf` has to take the whole frame.
    pub fn serialize_server(&self, buf: &mut [u8]) -> (n: usize)
        requires
            self.wire(OptionKind::ServerToClient).len() <= old(buf)@.len(),
        ensures
            n == self.wire(OptionKind::ServerToClient).len(),
            final(buf)@.len() == old(buf)@.len(),
            final(buf)@.take(n as int) == self.wire(OptionKind::ServerToClient),
            final(buf)@.skip(n as int) == old(buf)@.skip(n as int),
    {
        self.serialize(buf, OptionKind::ServerToClient)
    }

    /// Writes the frame for the given direction into the front of `buf`,
    /// leaves the rest of `buf` as it was, and returns the frame's length.
    /// `buf` has to take the whole frame.
    pub fn serialize(&self, buf: &mut [u8], option_kind: OptionKind) -> (n: usize)
        requires
            self.wire(option_kind).len() <= old(buf)@.len(),
        ensures
            n == self.wire(option_kind).len(),
            final(buf)@.len() == old(buf)@.len(),
            final(buf)@.take(n as int) == self.wire(option_kind),
            final(buf)@.skip(n as int) == old(buf)@.skip(n as int),
    {
        match self {
            Self::SetSignature { data, size } => {
                let signature = &data[0..*size as usize];
                assert(signature@ == data@.take(*size as int));
                subnegotiate(buf, option_kind, 0, signature)
            },
            Self::Unsupported { base_option_code, option_code, data, data_cnt } => {
                let payload = &data[0..*data_cnt as usize];
                assert(payload@ == data@.take(*data_cnt as int));
                write_frame(buf, *base_option_code, *option_code, payload)
            },
            _ => {
                let (option_code, value, width) = self.fixed_width();
                let payload = &value[0..width];
                assert(payload@ == value@.take(width as int));
                subnegotiate(buf, option_kind, option_code, payload)
            },
        }
    }

    /// The code of a subnegotiation with a payload of fixed width, as a
    /// client sends it, and the payload: an array, and the number of its
    /// bytes that count.
    fn fixed_width(&self) -> (fixed: (u8, [u8; 4], usize))
        requires
            !(self is SetSignature),
            !(self is Unsupported),
        ensures
            fixed.0 == self.base_code(),
            fixed.0 <= 12,
            fixed.2 <= 4,
            fixed.1@.take(fixed.2 as int) == self.payload(),
    {
        let (option_code, value, width): (u8, [u8; 4], usize) = match *self {
            Self::SetBaudRate(baud) => (
                1,
                [
                    (baud / 0x100_0000) as u8,
                    (baud / 0x1_0000 % 0x100) as u8,
                    (baud / 0x100 % 0x100) as u8,
                    (baud % 0x100) as u8,
                ],
                4,
            ),
            Self::SetDataSize(data_size) => (2, [data_size, 0, 0, 0], 1),
            Self::SetParity(parity) => (3, [parity, 0, 0, 0], 1),
            Self::SetStopSize(stopsize) => (4, [stopsize, 0, 0, 0], 1),
            Self::SetControl(control) => (5, [control, 0, 0, 0], 1),
            Self::NotifyLineState(linestate) => (6, [linestate, 0, 0, 0], 1),
            Self::NotifyModemState(modemstate) => (7, [modemstate, 0, 0, 0], 1),
            Self::FlowControlSuspend => (8, [0, 0, 0, 0], 0),
            Self::FlowControlResume => (9, [0, 0, 0, 0], 0),
            Self::SetLinestateMask(linestate_mask) => (10, [linestate_mask, 0, 0, 0], 1),
            Self::SetModemStateMask(modemstate_mask) => (11, [modemstate_mask, 0, 0, 0], 1),
            Self::PurgeData(purge_data) => (12, [purge_data, 0, 0, 0], 1),
            Self::SetSignature { .. } | Self::Unsupported { .. } => vstd::pervasive::unreached(),
        };
        assert(value@.take(width as int) == self.payload());
        (option_code, value, width)
    }

    /// Reads a subnegotiation back from a frame that stands for one.
    pub fn deserialize(buf: &[u8]) -> (subnegotiation: Self)
        requires
            Self::decode(buf@) is Some,
        ensures
            Some(subnegotiation) == Self::decode(buf@),
    {
        match Self::try_deserialize(buf) {
            Some(subnegotiation) => subnegotiation,
            None => vstd::pervasive::unreached(),
        }
    }

    /// Reads a subnegotiation back from a frame, or finds that the frame
    /// stands for none.
    pub fn try_deserialize(buf: &[u8]) -> (decoded: Option<Self>)
        ensures
            decoded == Self::decode(buf@),
    {
        let len: usize = buf.len();
        if len < NONDATA_SIZE || len > MAX_SIZE {
            return None;
        }
        if buf[0] != IAC || buf[1] != SB || buf[len - 2] != IAC || buf[len - 1] != SE {
            return None;
        }
        let base_option_code: u8 = buf[2];
        let option_code: u8 = buf[3];
        let (data, size) = read_escaped(&buf[4..len - 2]);
        let ghost payload = Self::frame_payload(buf@);
        let short: u8 = if size < MAX_DATA_SIZE {
            size as u8
        } else {
            0
        };
        if base_option_code != COM_PORT_OPTION {
            return Some(
                Self::Unsupported { base_option_code, option_code, data, data_cnt: short },
            );
        }
        let base: u8 = if 100 <= option_code && option_code <= 112 {
            option_code - 100
        } else {
            option_code
        };
        proof {
            lemma_padded(payload);
        }
        if base == 0 {
            Some(Self::SetSignature { data, size: short })
        } else if base == 1 {
            if size >= 4 {
                let baud: u32 = data[0] as u32 * 0x100_0000 + data[1] as u32 * 0x1_0000 + data[2] as u32
                    * 0x100 + data[3] as u32;
                Some(Self::SetBaudRate(baud))
            } else {
                None
            }
        } else if base == 8 {
            Some(Self::FlowControlSuspend)
        } else if base == 9 {
            Some(Self::FlowControlResume)
        } else if base > 12 || size == 0 {
            None
        } else {
            let value: u8 = data[0];
            Some(
                match base {
                    2 => Self::SetDataSize(value),
                    3 => Self::SetParity(value),
                    4 => Self::SetStopSize(value),
                    5 => Self::SetControl(value),
                    6 => Self::NotifyLineState(value),
                    7 => Self::NotifyModemState(value),
                    10 => Self::SetLinestateMask(value),
                    11 => Self::SetModemStateMask(value),
                    _ => Self::PurgeData(value),
                },
            )
        }
    }
}

} // verus!
