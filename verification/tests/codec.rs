use rfc2217_rs::escaping::escape_iac;
use rfc2217_rs::port::{
    data_bits_to_u8, flow_control_to_u8, parity_to_u8, stop_bits_to_u8, u8_to_data_bits,
    u8_to_flow_control, u8_to_parity, u8_to_stop_bits, DataBits, FlowControl, Parity, StopBits,
};
use rfc2217_rs::subnegotiation::{
    OptionKind, MAX_DATA_SIZE, MAX_ESCAPED_SIZE, MAX_SIZE, NONDATA_SIZE,
};
use rfc2217_rs::{command, negotiation, Command, Negotiation, Subnegotiation};

fn data_of(bytes: &[u8]) -> [u8; MAX_DATA_SIZE] {
    let mut data = [0; MAX_DATA_SIZE];
    data[..bytes.len()].copy_from_slice(bytes);
    data
}

fn client_frame(subnegotiation: Subnegotiation) -> Vec<u8> {
    let mut buf = [0xAA; 600];
    let n = subnegotiation.serialize_client(&mut buf);
    assert!(buf[n..].iter().all(|&byte| byte == 0xAA));
    buf[..n].to_vec()
}

fn server_frame(subnegotiation: Subnegotiation) -> Vec<u8> {
    let mut buf = [0xAA; 600];
    let n = subnegotiation.serialize_server(&mut buf);
    assert!(buf[n..].iter().all(|&byte| byte == 0xAA));
    buf[..n].to_vec()
}

#[test]
fn sizes_are_those_of_the_wire() {
    assert_eq!(command::SIZE, 2);
    assert_eq!(negotiation::SIZE, 3);
    assert_eq!(NONDATA_SIZE, 6);
    assert_eq!(MAX_DATA_SIZE, 256);
    assert_eq!(MAX_SIZE, 262);
    assert_eq!(MAX_ESCAPED_SIZE, 518);
}

#[test]
fn command_codes() {
    let commands = [
        (Command::NoOp, 241),
        (Command::DataMark, 242),
        (Command::Break, 243),
        (Command::InterruptProcess, 244),
        (Command::AbortOutput, 245),
        (Command::AreYouThere, 246),
        (Command::EraseCharacter, 247),
        (Command::EraseLine, 248),
        (Command::GoAhead, 249),
        (Command::Unsupported(7), 7),
    ];
    for (command, code) in commands {
        let mut buf = [0; 2];
        command.serialize(&mut buf);
        assert_eq!(buf, [255, code]);
        assert_eq!(Command::deserialize(&buf), command);
    }
}

#[test]
fn command_serialize_leaves_the_rest_of_the_buffer() {
    let mut buf = [9; 4];
    Command::Break.serialize(&mut buf);
    assert_eq!(buf, [255, 243, 9, 9]);
}

#[test]
fn command_deserialize_names_a_known_code() {
    assert_eq!(Command::deserialize(&[255, 246]), Command::AreYouThere);
    assert_eq!(Command::deserialize(&[255, 240]), Command::Unsupported(240));
}

#[test]
fn negotiation_bytes() {
    let cases = [
        (negotiation::Intent::Will, 251),
        (negotiation::Intent::Wont, 252),
        (negotiation::Intent::Do, 253),
        (negotiation::Intent::Dont, 254),
    ];
    let options = [
        (negotiation::Option::Binary, 0),
        (negotiation::Option::Echo, 1),
        (negotiation::Option::SuppressGoAhead, 3),
        (negotiation::Option::ComPort, 44),
        (negotiation::Option::Unsupported(200), 200),
    ];
    for (intent, intent_code) in cases {
        assert_eq!(intent.to_u8(), intent_code);
        assert_eq!(negotiation::Intent::from_u8(intent_code), intent);
        for (option, option_code) in options {
            assert_eq!(option.to_u8(), option_code);
            assert_eq!(negotiation::Option::from_u8(option_code), option);
            let negotiation = Negotiation { intent, option };
            let mut buf = [7; 5];
            negotiation.serialize(&mut buf);
            assert_eq!(buf, [255, intent_code, option_code, 7, 7]);
            assert_eq!(Negotiation::deserialize(&buf), negotiation);
        }
    }
}

#[test]
fn negotiation_answers() {
    let accepted = [
        negotiation::Option::Binary,
        negotiation::Option::ComPort,
        negotiation::Option::SuppressGoAhead,
    ];
    let refused = [negotiation::Option::Echo, negotiation::Option::Unsupported(31)];
    for option in accepted {
        let offer = Negotiation { intent: negotiation::Intent::Will, option };
        let agreed = Negotiation { intent: negotiation::Intent::Do, option };
        assert_eq!(offer.get_answer(), Some(agreed));
        assert_eq!(agreed.get_answer(), None);
    }
    for option in refused {
        let offer = Negotiation { intent: negotiation::Intent::Will, option };
        let demand = Negotiation { intent: negotiation::Intent::Do, option };
        assert_eq!(
            offer.get_answer(),
            Some(Negotiation { intent: negotiation::Intent::Dont, option })
        );
        assert_eq!(
            demand.get_answer(),
            Some(Negotiation { intent: negotiation::Intent::Wont, option })
        );
    }
    for option in accepted.into_iter().chain(refused) {
        for intent in [negotiation::Intent::Wont, negotiation::Intent::Dont] {
            assert_eq!(Negotiation { intent, option }.get_answer(), None);
        }
    }
}

#[test]
fn an_answer_is_never_answered() {
    let intents = [
        negotiation::Intent::Will,
        negotiation::Intent::Wont,
        negotiation::Intent::Do,
        negotiation::Intent::Dont,
    ];
    for intent in intents {
        for code in 0..=255 {
            let negotiation = Negotiation { intent, option: negotiation::Option::from_u8(code) };
            if let Some(answer) = negotiation.get_answer() {
                assert_eq!(answer.get_answer(), None);
            }
        }
    }
}

#[test]
fn subnegotiation_frames_in_both_directions() {
    let cases: [(Subnegotiation, u8, &[u8]); 12] = [
        (Subnegotiation::SetBaudRate(115200), 1, &[0x00, 0x01, 0xC2, 0x00]),
        (Subnegotiation::SetDataSize(8), 2, &[8]),
        (Subnegotiation::SetParity(3), 3, &[3]),
        (Subnegotiation::SetStopSize(2), 4, &[2]),
        (Subnegotiation::SetControl(11), 5, &[11]),
        (Subnegotiation::NotifyLineState(0x10), 6, &[0x10]),
        (Subnegotiation::NotifyModemState(0x80), 7, &[0x80]),
        (Subnegotiation::FlowControlSuspend, 8, &[]),
        (Subnegotiation::FlowControlResume, 9, &[]),
        (Subnegotiation::SetLinestateMask(0x0F), 10, &[0x0F]),
        (Subnegotiation::SetModemStateMask(0xF0), 11, &[0xF0]),
        (Subnegotiation::PurgeData(3), 12, &[3]),
    ];
    for (subnegotiation, code, payload) in cases {
        let mut client = vec![0xFF, 0xFA, 44, code];
        client.extend_from_slice(payload);
        client.extend_from_slice(&[0xFF, 0xF0]);
        let mut server = client.clone();
        server[3] = code + 100;

        assert_eq!(client_frame(subnegotiation), client);
        assert_eq!(server_frame(subnegotiation), server);
        let mut buf = [0; 16];
        assert_eq!(subnegotiation.serialize(&mut buf, OptionKind::ClientToServer), client.len());
        assert_eq!(&buf[..client.len()], &client[..]);
        assert_eq!(subnegotiation.serialize(&mut buf, OptionKind::ServerToClient), server.len());
        assert_eq!(&buf[..server.len()], &server[..]);

        assert_eq!(Subnegotiation::deserialize(&client), subnegotiation);
        assert_eq!(Subnegotiation::deserialize(&server), subnegotiation);
        assert_eq!(Subnegotiation::try_deserialize(&client), Some(subnegotiation));
        assert_eq!(Subnegotiation::try_deserialize(&server), Some(subnegotiation));
    }
}

#[test]
fn baud_rate_is_big_endian() {
    assert_eq!(
        client_frame(Subnegotiation::SetBaudRate(9600)),
        [0xFF, 0xFA, 0x2C, 0x01, 0x00, 0x00, 0x25, 0x80, 0xFF, 0xF0]
    );
    assert_eq!(
        server_frame(Subnegotiation::SetBaudRate(0x1234_5678)),
        [0xFF, 0xFA, 0x2C, 0x65, 0x12, 0x34, 0x56, 0x78, 0xFF, 0xF0]
    );
    assert_eq!(
        Subnegotiation::deserialize(&[0xFF, 0xFA, 0x2C, 0x01, 0x12, 0x34, 0x56, 0x78, 0xFF, 0xF0]),
        Subnegotiation::SetBaudRate(0x1234_5678)
    );
}

#[test]
fn iac_in_any_payload_is_doubled() {
    assert_eq!(
        client_frame(Subnegotiation::SetBaudRate(0x0000_FFFF)),
        [0xFF, 0xFA, 0x2C, 0x01, 0x00, 0x00, 0xFF, 0xFF, 0xFF, 0xFF, 0xFF, 0xF0]
    );
    assert_eq!(
        client_frame(Subnegotiation::SetBaudRate(0xFF00_0000)),
        [0xFF, 0xFA, 0x2C, 0x01, 0xFF, 0xFF, 0x00, 0x00, 0x00, 0xFF, 0xF0]
    );
    assert_eq!(
        server_frame(Subnegotiation::SetControl(0xFF)),
        [0xFF, 0xFA, 0x2C, 0x69, 0xFF, 0xFF, 0xFF, 0xF0]
    );
    for baud_rate in [0xFF00_0000, 0x00FF_0000, 0x0000_FF00, 0x0000_00FF, 0xFFFF_FFFF, 0xFF00_FF00] {
        let subnegotiation = Subnegotiation::SetBaudRate(baud_rate);
        assert_eq!(Subnegotiation::deserialize(&client_frame(subnegotiation)), subnegotiation);
        assert_eq!(Subnegotiation::deserialize(&server_frame(subnegotiation)), subnegotiation);
    }
}

#[test]
fn signature_frame_escapes_iac() {
    let signature = Subnegotiation::SetSignature {
        data: data_of(&[0x63, 0x6F, 0x20, 0xFF, 0x0A, 0x2C]),
        size: 6,
    };
    let wire = [0xFF, 0xFA, 0x2C, 0x00, 0x63, 0x6F, 0x20, 0xFF, 0xFF, 0x0A, 0x2C, 0xFF, 0xF0];
    assert_eq!(client_frame(signature), wire);
    assert_eq!(Subnegotiation::deserialize(&wire), signature);
    let mut from_server = wire;
    from_server[3] = 100;
    assert_eq!(server_frame(signature), from_server);
    assert_eq!(Subnegotiation::deserialize(&from_server), signature);
}

#[test]
fn signature_serializes_the_used_prefix_only() {
    let mut data = data_of(b"abc");
    data[3] = b'x';
    let frame = client_frame(Subnegotiation::SetSignature { data, size: 3 });
    assert_eq!(frame, [0xFF, 0xFA, 0x2C, 0x00, b'a', b'b', b'c', 0xFF, 0xF0]);
    assert_eq!(
        Subnegotiation::deserialize(&frame),
        Subnegotiation::SetSignature { data: data_of(b"abc"), size: 3 }
    );
}

#[test]
fn empty_signature() {
    let query = Subnegotiation::SetSignature { data: [0; MAX_DATA_SIZE], size: 0 };
    assert_eq!(client_frame(query), [0xFF, 0xFA, 0x2C, 0x00, 0xFF, 0xF0]);
    assert_eq!(Subnegotiation::deserialize(&[0xFF, 0xFA, 0x2C, 0x00, 0xFF, 0xF0]), query);
}

#[test]
fn signature_of_all_iac_round_trips() {
    let signature = Subnegotiation::SetSignature { data: data_of(&[0xFF; 128]), size: 128 };
    let frame = server_frame(signature);
    assert_eq!(frame.len(), MAX_SIZE);
    assert!(frame[4..260].iter().all(|&byte| byte == 0xFF));
    assert_eq!(Subnegotiation::deserialize(&frame), signature);
}

#[test]
fn longest_signature_takes_twice_its_size() {
    let signature = Subnegotiation::SetSignature { data: [0xFF; MAX_DATA_SIZE], size: 255 };
    assert_eq!(client_frame(signature).len(), 2 * 255 + NONDATA_SIZE);
    let mut buf = [0; MAX_ESCAPED_SIZE];
    assert_eq!(signature.serialize_server(&mut buf), 516);
}

#[test]
fn a_full_payload_wraps_the_length_to_zero() {
    let mut frame = vec![0xFF, 0xFA, 0x2C, 0x00];
    frame.extend_from_slice(&[b'z'; MAX_DATA_SIZE]);
    frame.extend_from_slice(&[0xFF, 0xF0]);
    assert_eq!(frame.len(), MAX_SIZE);
    assert_eq!(
        Subnegotiation::deserialize(&frame),
        Subnegotiation::SetSignature { data: [b'z'; MAX_DATA_SIZE], size: 0 }
    );
    frame[2] = 0x18;
    assert_eq!(
        Subnegotiation::deserialize(&frame),
        Subnegotiation::Unsupported {
            base_option_code: 0x18,
            option_code: 0,
            data: [b'z'; MAX_DATA_SIZE],
            data_cnt: 0
        }
    );
}

#[test]
fn unsupported_keeps_option_and_code() {
    let unsupported = Subnegotiation::Unsupported {
        base_option_code: 0x18,
        option_code: 101,
        data: data_of(&[1, 0xFF, 2]),
        data_cnt: 3,
    };
    let wire = [0xFF, 0xFA, 0x18, 101, 1, 0xFF, 0xFF, 2, 0xFF, 0xF0];
    assert_eq!(client_frame(unsupported), wire);
    assert_eq!(server_frame(unsupported), wire);
    assert_eq!(Subnegotiation::deserialize(&wire), unsupported);
}

#[test]
fn bytes_behind_a_fixed_value_are_ignored() {
    assert_eq!(
        Subnegotiation::deserialize(&[0xFF, 0xFA, 0x2C, 3, 2, 9, 9, 0xFF, 0xF0]),
        Subnegotiation::SetParity(2)
    );
    assert_eq!(
        Subnegotiation::deserialize(&[0xFF, 0xFA, 0x2C, 1, 0, 0, 0x25, 0x80, 7, 0xFF, 0xF0]),
        Subnegotiation::SetBaudRate(9600)
    );
    assert_eq!(
        Subnegotiation::deserialize(&[0xFF, 0xFA, 0x2C, 108, 5, 0xFF, 0xF0]),
        Subnegotiation::FlowControlSuspend
    );
}

#[test]
fn frames_that_stand_for_nothing() {
    // too short, or not opened and closed as a frame is
    assert_eq!(Subnegotiation::try_deserialize(&[]), None);
    assert_eq!(Subnegotiation::try_deserialize(&[0xFF, 0xFA, 0x2C, 0xFF, 0xF0]), None);
    assert_eq!(Subnegotiation::try_deserialize(&[0xFE, 0xFA, 0x2C, 8, 0xFF, 0xF0]), None);
    assert_eq!(Subnegotiation::try_deserialize(&[0xFF, 0xFB, 0x2C, 8, 0xFF, 0xF0]), None);
    assert_eq!(Subnegotiation::try_deserialize(&[0xFF, 0xFA, 0x2C, 8, 0xFE, 0xF0]), None);
    assert_eq!(Subnegotiation::try_deserialize(&[0xFF, 0xFA, 0x2C, 8, 0xFF, 0xF1]), None);
    // not a code of the Com Port option
    for code in (13..100).chain(113..=255) {
        assert_eq!(Subnegotiation::try_deserialize(&[0xFF, 0xFA, 0x2C, code, 1, 0xFF, 0xF0]), None);
    }
    // a payload shorter than the value
    assert_eq!(Subnegotiation::try_deserialize(&[0xFF, 0xFA, 0x2C, 1, 0, 0, 0x25, 0xFF, 0xF0]), None);
    assert_eq!(
        Subnegotiation::try_deserialize(&[0xFF, 0xFA, 0x2C, 1, 0, 0xFF, 0xFF, 0x25, 0xFF, 0xF0]),
        None
    );
    assert_eq!(Subnegotiation::try_deserialize(&[0xFF, 0xFA, 0x2C, 2, 0xFF, 0xF0]), None);
    assert_eq!(Subnegotiation::try_deserialize(&[0xFF, 0xFA, 0x2C, 112, 0xFF, 0xF0]), None);
    // longer than the parser's buffer
    let mut long = vec![0xFF, 0xFA, 0x2C, 0x00];
    long.extend_from_slice(&[b'z'; MAX_DATA_SIZE + 1]);
    long.extend_from_slice(&[0xFF, 0xF0]);
    assert_eq!(Subnegotiation::try_deserialize(&long), None);
}

#[test]
fn escape_iac_doubles_every_iac() {
    assert_eq!(escape_iac(&[]), Vec::<u8>::new());
    assert_eq!(escape_iac(&[0x41, 0xFF, 0x42]), [0x41, 0xFF, 0xFF, 0x42]);
    assert_eq!(escape_iac(&[0xFF, 0xFF]), [0xFF, 0xFF, 0xFF, 0xFF]);
    assert_eq!(escape_iac(&[0xFE, 0x00, 0xF0]), [0xFE, 0x00, 0xF0]);
}

#[test]
fn settings_and_their_wire_values() {
    let data_bits = [
        (DataBits::Five, 5),
        (DataBits::Six, 6),
        (DataBits::Seven, 7),
        (DataBits::Eight, 8),
    ];
    let parities = [(Parity::Off, 1), (Parity::Odd, 2), (Parity::Even, 3)];
    let stop_bits = [(StopBits::One, 1), (StopBits::Two, 2)];
    let flow_controls = [
        (FlowControl::Off, 1),
        (FlowControl::Software, 2),
        (FlowControl::Hardware, 3),
    ];
    for value in 0..=255 {
        let expected = data_bits.iter().find(|(_, code)| *code == value).map(|(setting, _)| *setting);
        assert_eq!(u8_to_data_bits(value), expected);
        let expected = parities.iter().find(|(_, code)| *code == value).map(|(setting, _)| *setting);
        assert_eq!(u8_to_parity(value), expected);
        let expected = stop_bits.iter().find(|(_, code)| *code == value).map(|(setting, _)| *setting);
        assert_eq!(u8_to_stop_bits(value), expected);
        let expected =
            flow_controls.iter().find(|(_, code)| *code == value).map(|(setting, _)| *setting);
        assert_eq!(u8_to_flow_control(value), expected);
    }
    for (setting, code) in data_bits {
        assert_eq!(data_bits_to_u8(setting), code);
    }
    for (setting, code) in parities {
        assert_eq!(parity_to_u8(setting), code);
    }
    for (setting, code) in stop_bits {
        assert_eq!(stop_bits_to_u8(setting), code);
    }
    for (setting, code) in flow_controls {
        assert_eq!(flow_control_to_u8(setting), code);
    }
}
