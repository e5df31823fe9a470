//! The parser on whole streams: what it makes of a sequence of bytes, and
//! what that is for the streams that the codec writes.

use crate::codes;
use crate::command::Command;
use crate::escaping::escape;
use crate::negotiation::Negotiation;
use crate::parser::{Error, Event, Progress, State};
use crate::subnegotiation;
use crate::subnegotiation::{frame, OptionKind, Subnegotiation};
use vstd::prelude::*;

verus! {

/// The event that a step yields, as a stream of events: one or none.
pub open spec fn yielded(result: Result<Option<Event>, Error>) -> Seq<Event> {
    match result {
        Ok(Some(event)) => seq![event],
        _ => Seq::empty(),
    }
}

impl Progress {
    /// The parser after it has taken `bytes` in, one by one.
    pub open spec fn feed(self, bytes: Seq<u8>) -> Progress
        decreases bytes.len(),
    {
        if bytes.len() == 0 {
            self
        } else {
            self.step(bytes[0]).0.feed(bytes.drop_first())
        }
    }

    /// Whether the parser takes all of `bytes` in without an error.
    pub open spec fn accepts(self, bytes: Seq<u8>) -> bool
        decreases bytes.len(),
    {
        bytes.len() == 0 || (self.step(bytes[0]).1 is Ok && self.step(bytes[0]).0.accepts(
            bytes.drop_first(),
        ))
    }

    /// The events that `bytes` yield, in their order.
    pub open spec fn events(self, bytes: Seq<u8>) -> Seq<Event>
        decreases bytes.len(),
    {
        if bytes.len() == 0 {
            Seq::empty()
        } else {
            yielded(self.step(bytes[0]).1) + self.step(bytes[0]).0.events(bytes.drop_first())
        }
    }
}

/// Every step keeps the parser's invariant.
pub proof fn lemma_step_wf(progress: Progress, byte: u8)
    requires
        progress.wf(),
    ensures
        progress.step(byte).0.wf(),
{
}

/// A stream in two parts: the parser takes the second part in from where
/// the first has left it.
pub proof fn lemma_feed_concat(progress: Progress, first: Seq<u8>, second: Seq<u8>)
    ensures
        progress.feed(first + second) == progress.feed(first).feed(second),
        progress.accepts(first + second) == (progress.accepts(first) && progress.feed(
            first,
        ).accepts(second)),
        progress.events(first + second) == progress.events(first) + progress.feed(first).events(
            second,
        ),
    decreases first.len(),
{
    if first.len() == 0 {
        assert(first + second == second);
        assert(Seq::<Event>::empty() + progress.events(second) == progress.events(second));
    } else {
        let next = progress.step(first[0]).0;
        let now = yielded(progress.step(first[0]).1);
        assert((first + second).drop_first() == first.drop_first() + second);
        lemma_feed_concat(next, first.drop_first(), second);
        let rest = next.events(first.drop_first());
        let tail = next.feed(first.drop_first()).events(second);
        assert(now + (rest + tail) == (now + rest) + tail);
    }
}

/// A stream of one byte is one step.
pub proof fn lemma_feed_one(progress: Progress, byte: u8)
    ensures
        progress.feed(seq![byte]) == progress.step(byte).0,
        progress.accepts(seq![byte]) == (progress.step(byte).1 is Ok),
        progress.events(seq![byte]) == yielded(progress.step(byte).1),
{
    let rest = seq![byte].drop_first();
    let next = progress.step(byte).0;
    assert(rest.len() == 0);
    assert(next.feed(rest) == next);
    assert(next.accepts(rest));
    assert(next.events(rest) == Seq::<Event>::empty());
    assert(yielded(progress.step(byte).1) + Seq::<Event>::empty() == yielded(
        progress.step(byte).1,
    ));
}

/// A stream with one more byte at its end is one more step.
pub proof fn lemma_feed_push(progress: Progress, bytes: Seq<u8>, byte: u8)
    ensures
        progress.feed(bytes.push(byte)) == progress.feed(bytes).step(byte).0,
        progress.accepts(bytes.push(byte)) == (progress.accepts(bytes) && progress.feed(bytes).step(
            byte,
        ).1 is Ok),
        progress.events(bytes.push(byte)) == progress.events(bytes) + yielded(
            progress.feed(bytes).step(byte).1,
        ),
{
    assert(bytes.push(byte) == bytes + seq![byte]);
    lemma_feed_concat(progress, bytes, seq![byte]);
    lemma_feed_one(progress.feed(bytes), byte);
}

/// The buffer overflows exactly when a subnegotiation frame that already
/// holds `MAX_SIZE` bytes, framing included, is to take one more.
pub proof fn lemma_overflow_iff_frame_full(progress: Progress, byte: u8)
    requires
        progress.wf(),
    ensures
        progress.step(byte).1 == Err::<Option<Event>, Error>(Error::BufferOverflow) <==> {
            &&& progress.frame.len() == subnegotiation::MAX_SIZE
            &&& (progress.state == State::SubnegotiationData || (progress.state
                == State::SubnegotiationEnd && (byte == codes::IAC || byte == codes::SE)))
        },
{
}

/// One byte of user data, escaped: a fresh parser yields it as data and is
/// fresh again.
proof fn lemma_escaped_byte_is_data(byte: u8)
    ensures
        Progress::initial().accepts(escape(seq![byte])),
        Progress::initial().feed(escape(seq![byte])) == Progress::initial(),
        Progress::initial().events(escape(seq![byte])) == seq![Event::Data(byte)],
{
    let start = Progress::initial();
    crate::escaping::lemma_escape_one(byte);
    lemma_feed_one(start, byte);
    if byte == codes::IAC {
        assert(escape(seq![byte]) == seq![byte].push(byte));
        lemma_feed_push(start, seq![byte], byte);
        assert(Seq::<Event>::empty() + seq![Event::Data(byte)] == seq![Event::Data(byte)]);
    }
}

/// User data in which every `IAC` byte is doubled comes out of a fresh
/// parser as it went into the escaping: one `Data` event for each byte, in
/// order, and nothing else.
pub proof fn lemma_escaped_data_is_transparent(data: Seq<u8>)
    ensures
        Progress::initial().accepts(escape(data)),
        Progress::initial().feed(escape(data)) == Progress::initial(),
        Progress::initial().events(escape(data)) == data.map_values(|byte: u8| Event::Data(byte)),
    decreases data.len(),
{
    let start = Progress::initial();
    let expected = data.map_values(|byte: u8| Event::Data(byte));
    if data.len() == 0 {
        assert(start.events(escape(data)) == expected);
    } else {
        let head = seq![data[0]];
        let rest = data.drop_first();
        assert(data == head + rest);
        crate::escaping::lemma_escape_concat(head, rest);
        lemma_escaped_byte_is_data(data[0]);
        lemma_escaped_data_is_transparent(rest);
        lemma_feed_concat(start, escape(head), escape(rest));
        assert(seq![Event::Data(data[0])] + rest.map_values(|byte: u8| Event::Data(byte))
            == expected);
    }
}

/// One byte of payload, escaped: inside a subnegotiation it is taken in as
/// data, where the frame has room for it.
proof fn lemma_escaped_byte_is_payload(progress: Progress, byte: u8)
    requires
        progress.wf(),
        progress.state == State::SubnegotiationData,
        progress.frame.len() + escape(seq![byte]).len() <= subnegotiation::MAX_SIZE,
    ensures
        progress.accepts(escape(seq![byte])),
        progress.events(escape(seq![byte])) == Seq::<Event>::empty(),
        progress.feed(escape(seq![byte])) == (Progress {
            state: State::SubnegotiationData,
            frame: progress.frame + escape(seq![byte]),
        }),
{
    crate::escaping::lemma_escape_one(byte);
    lemma_feed_one(progress, byte);
    if byte == codes::IAC {
        assert(escape(seq![byte]) == seq![byte].push(byte));
        lemma_feed_push(progress, seq![byte], byte);
        assert(progress.frame.push(byte).push(byte) == progress.frame + seq![byte].push(byte));
        assert(Seq::<Event>::empty() + Seq::<Event>::empty() == Seq::<Event>::empty());
    } else {
        assert(progress.frame.push(byte) == progress.frame + seq![byte]);
    }
}

/// Inside a subnegotiation an escaped payload is taken in as data, every
/// byte of it, as long as the frame fits the buffer: none of its `IAC`
/// bytes ends the frame.
pub proof fn lemma_escaped_payload_is_data(progress: Progress, payload: Seq<u8>)
    requires
        progress.wf(),
        progress.state == State::SubnegotiationData,
        progress.frame.len() + escape(payload).len() <= subnegotiation::MAX_SIZE,
    ensures
        progress.accepts(escape(payload)),
        progress.events(escape(payload)) == Seq::<Event>::empty(),
        progress.feed(escape(payload)) == (Progress {
            state: State::SubnegotiationData,
            frame: progress.frame + escape(payload),
        }),
    decreases payload.len(),
{
    if payload.len() == 0 {
        assert(progress.frame + escape(payload) == progress.frame);
    } else {
        let head = seq![payload[0]];
        let rest = payload.drop_first();
        assert(payload == head + rest);
        crate::escaping::lemma_escape_concat(head, rest);
        lemma_escaped_byte_is_payload(progress, payload[0]);
        let next = progress.feed(escape(head));
        lemma_escaped_payload_is_data(next, rest);
        lemma_feed_concat(progress, escape(head), escape(rest));
        assert((progress.frame + escape(head)) + escape(rest) == progress.frame + escape(payload));
        assert(Seq::<Event>::empty() + Seq::<Event>::empty() == Seq::<Event>::empty());
    }
}

/// The four bytes that open a frame take a fresh parser to the payload.
proof fn lemma_opening(option: u8, code: u8)
    ensures
        Progress::initial().accepts(seq![codes::IAC, codes::SB, option, code]),
        Progress::initial().events(seq![codes::IAC, codes::SB, option, code]) == Seq::<
            Event,
        >::empty(),
        Progress::initial().feed(seq![codes::IAC, codes::SB, option, code]) == (Progress {
            state: State::SubnegotiationData,
            frame: seq![codes::IAC, codes::SB, option, code],
        }),
{
    let start = Progress::initial();
    let one = seq![codes::IAC];
    let two = one.push(codes::SB);
    let three = two.push(option);
    let four = three.push(code);
    lemma_feed_one(start, codes::IAC);
    assert(start.feed(one) == Progress::after_iac());
    lemma_feed_push(start, one, codes::SB);
    assert(two == seq![codes::IAC, codes::SB]);
    assert(start.feed(two) == (Progress { state: State::SubnegotiationOption, frame: two }));
    lemma_feed_push(start, two, option);
    assert(start.feed(three) == (Progress { state: State::SubnegotiationSubOption, frame: three }));
    lemma_feed_push(start, three, code);
    assert(start.feed(four) == (Progress { state: State::SubnegotiationData, frame: four }));
    assert(four == seq![codes::IAC, codes::SB, option, code]);
    assert(start.events(four) == Seq::<Event>::empty());
}

/// Parsing what was serialized gives the subnegotiation back, in either
/// direction and whatever bytes its payload holds: a fresh parser takes the
/// frame in without an error, yields this one event, and is ready for the
/// next frame. This holds of every value whose frame fits the parser's
/// buffer, but for an `Unsupported` of the Com Port option.
pub proof fn lemma_subnegotiation_round_trip(subnegotiation: Subnegotiation, kind: OptionKind)
    requires
        subnegotiation.reads_back(),
        subnegotiation.wire(kind).len() <= subnegotiation::MAX_SIZE,
    ensures
        Progress::initial().accepts(subnegotiation.wire(kind)),
        Progress::initial().feed(subnegotiation.wire(kind)) == Progress::initial(),
        Progress::initial().events(subnegotiation.wire(kind)) == seq![
            Event::Subnegotiation(subnegotiation.normalized()),
        ],
{
    let start = Progress::initial();
    let wire = subnegotiation.wire(kind);
    let opening = seq![codes::IAC, codes::SB, subnegotiation.option(), subnegotiation.code(kind)];
    let payload = escape(subnegotiation.payload());
    let opened = Progress { state: State::SubnegotiationData, frame: opening };
    let filled = Progress { state: State::SubnegotiationData, frame: opening + payload };
    let closing = Progress {
        state: State::SubnegotiationEnd,
        frame: (opening + payload).push(codes::IAC),
    };
    let event = seq![Event::Subnegotiation(subnegotiation.normalized())];

    lemma_opening(subnegotiation.option(), subnegotiation.code(kind));
    lemma_escaped_payload_is_data(opened, subnegotiation.payload());
    lemma_feed_concat(start, opening, payload);
    assert(start.feed(opening + payload) == filled);

    lemma_feed_push(start, opening + payload, codes::IAC);
    assert(start.feed((opening + payload).push(codes::IAC)) == closing);

    assert((opening + payload).push(codes::IAC).push(codes::SE) == wire);
    subnegotiation::lemma_decode_wire(subnegotiation, kind);
    assert(closing.step(codes::SE) == (start, Ok::<Option<Event>, Error>(Some(event[0]))));
    lemma_feed_push(start, (opening + payload).push(codes::IAC), codes::SE);
    assert(Seq::<Event>::empty() + Seq::<Event>::empty() + Seq::<Event>::empty() + event == event);
}

/// A signature comes back with the bytes that it was sent with, `IAC`
/// bytes among them, and with its length.
pub proof fn lemma_signature_round_trip(
    data: [u8; subnegotiation::MAX_DATA_SIZE],
    size: u8,
    kind: OptionKind,
)
    requires
        (Subnegotiation::SetSignature { data, size }).wire(kind).len() <= subnegotiation::MAX_SIZE,
    ensures
        Progress::initial().accepts((Subnegotiation::SetSignature { data, size }).wire(kind)),
        Progress::initial().events((Subnegotiation::SetSignature { data, size }).wire(kind)).len()
            == 1,
        Progress::initial().events((Subnegotiation::SetSignature { data, size }).wire(kind))[0]
            matches Event::Subnegotiation(Subnegotiation::SetSignature { data: read, size: length })
            && length == size && read@.take(size as int) == data@.take(size as int),
{
    let signature = Subnegotiation::SetSignature { data, size };
    lemma_subnegotiation_round_trip(signature, kind);
    subnegotiation::lemma_normalized(signature, kind);
}

/// Inside a subnegotiation any part of an escaped payload, from its start,
/// is taken in as long as the frame fits the buffer. The parser then waits
/// for data, or, where the part ends between the two bytes of a doubled
/// `IAC`, for the second of them.
proof fn lemma_escaped_prefix_is_data(progress: Progress, payload: Seq<u8>, k: int)
    requires
        progress.wf(),
        progress.state == State::SubnegotiationData,
        0 <= k <= escape(payload).len(),
        progress.frame.len() + k <= subnegotiation::MAX_SIZE,
    ensures
        progress.accepts(escape(payload).take(k)),
        progress.feed(escape(payload).take(k)).frame == progress.frame + escape(payload).take(k),
        progress.feed(escape(payload).take(k)).state == State::SubnegotiationData || (progress.feed(
            escape(payload).take(k),
        ).state == State::SubnegotiationEnd && k < escape(payload).len() && escape(payload)[k]
            == codes::IAC),
    decreases payload.len(),
{
    let part = escape(payload).take(k);
    if k == 0 {
        assert(progress.frame + part == progress.frame);
    } else {
        let head = seq![payload[0]];
        let rest = payload.drop_first();
        assert(payload == head + rest);
        crate::escaping::lemma_escape_concat(head, rest);
        crate::escaping::lemma_escape_one(payload[0]);
        if k < escape(head).len() {
            // the part ends between the two bytes of a doubled `IAC`
            assert(part == seq![codes::IAC]);
            lemma_feed_one(progress, codes::IAC);
            assert(progress.frame.push(codes::IAC) == progress.frame + part);
        } else {
            let behind = k - escape(head).len();
            assert(part == escape(head) + escape(rest).take(behind));
            lemma_escaped_byte_is_payload(progress, payload[0]);
            let next = progress.feed(escape(head));
            lemma_escaped_prefix_is_data(next, rest, behind);
            lemma_feed_concat(progress, escape(head), escape(rest).take(behind));
            assert((progress.frame + escape(head)) + escape(rest).take(behind) == progress.frame
                + part);
        }
    }
}

/// A frame longer than the parser's buffer overflows it: a fresh parser
/// takes the first `MAX_SIZE` bytes in and reports the overflow on the next
/// one.
pub proof fn lemma_long_frame_overflows(subnegotiation: Subnegotiation, kind: OptionKind)
    requires
        subnegotiation.wire(kind).len() > subnegotiation::MAX_SIZE,
    ensures
        Progress::initial().accepts(subnegotiation.wire(kind).take(subnegotiation::MAX_SIZE as int)),
        Progress::initial().feed(
            subnegotiation.wire(kind).take(subnegotiation::MAX_SIZE as int),
        ).step(subnegotiation.wire(kind)[subnegotiation::MAX_SIZE as int]).1 == Err::<
            Option<Event>,
            Error,
        >(Error::BufferOverflow),
        !Progress::initial().accepts(subnegotiation.wire(kind)),
{
    let start = Progress::initial();
    let wire = subnegotiation.wire(kind);
    let full = subnegotiation::MAX_SIZE as int;
    let room = full - 4;
    let front = wire.take(full);
    let opening = seq![codes::IAC, codes::SB, subnegotiation.option(), subnegotiation.code(kind)];
    let payload = escape(subnegotiation.payload());
    let opened = Progress { state: State::SubnegotiationData, frame: opening };

    lemma_opening(subnegotiation.option(), subnegotiation.code(kind));
    if payload.len() >= room {
        // the buffer is full before the payload is over
        let part = payload.take(room);
        assert(front == opening + part);
        lemma_escaped_prefix_is_data(opened, subnegotiation.payload(), room);
        lemma_feed_concat(start, opening, part);
        if payload.len() > room {
            assert(wire[full] == payload[room]);
        }
    } else {
        // the buffer is full between the `IAC` and the `SE` that close the frame
        assert(payload.len() == room - 1);
        assert(front == (opening + payload).push(codes::IAC));
        lemma_escaped_payload_is_data(opened, subnegotiation.payload());
        lemma_feed_concat(start, opening, payload);
        lemma_feed_push(start, opening + payload, codes::IAC);
        assert(wire[full] == codes::SE);
    }
    assert(wire == front.push(wire[full]) + wire.skip(full + 1));
    lemma_feed_push(start, front, wire[full]);
    lemma_feed_concat(start, front.push(wire[full]), wire.skip(full + 1));
}

/// Parsing what was serialized gives the negotiation back. This holds of
/// every negotiation but one whose option is an `Unsupported` with the
/// number of a named option.
pub proof fn lemma_negotiation_round_trip(negotiation: Negotiation)
    requires
        negotiation.option.canonical(),
    ensures
        Progress::initial().accepts(negotiation.wire()),
        Progress::initial().feed(negotiation.wire()) == Progress::initial(),
        Progress::initial().events(negotiation.wire()) == seq![Event::Negotiation(negotiation)],
{
    let start = Progress::initial();
    let one = seq![codes::IAC];
    let two = one.push(negotiation.intent.code());
    let three = two.push(negotiation.option.code());
    let event = seq![Event::Negotiation(negotiation)];
    lemma_feed_one(start, codes::IAC);
    assert(start.feed(one) == Progress::after_iac());
    lemma_feed_push(start, one, negotiation.intent.code());
    assert(two == seq![codes::IAC, negotiation.intent.code()]);
    assert(start.feed(two) == (Progress { state: State::Negotiation, frame: two }));
    assert(Negotiation::decode(three) == negotiation);
    lemma_feed_push(start, two, negotiation.option.code());
    assert(three == negotiation.wire());
    assert(Seq::<Event>::empty() + Seq::<Event>::empty() + event == event);
}

/// Parsing what was serialized gives the command back. This holds of every
/// command but an `Unsupported` with a code above 240.
pub proof fn lemma_command_round_trip(command: Command)
    requires
        command.canonical(),
    ensures
        Progress::initial().accepts(command.wire()),
        Progress::initial().feed(command.wire()) == Progress::initial(),
        Progress::initial().events(command.wire()) == seq![Event::Command(command)],
{
    let start = Progress::initial();
    let one = seq![codes::IAC];
    let event = seq![Event::Command(command)];
    lemma_feed_one(start, codes::IAC);
    assert(start.feed(one) == Progress::after_iac());
    assert(Command::from_code(command.code()) == command);
    lemma_feed_push(start, one, command.code());
    assert(one.push(command.code()) == command.wire());
    assert(Seq::<Event>::empty() + event == event);
}

} // verus!
