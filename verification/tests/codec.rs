//! Frame codec behaviour: round trips, frozen discriminants, exact wire
//! bytes, decode failures, and interoperability with an independent CBOR
//! implementation.

use autobahn::message::{Connection, DecodeError, Message, MessageType};

fn all_messages() -> Vec<Message> {
    vec![
        Message::Authenticate(String::from("hunter2")),
        Message::Authentication(true),
        Message::ChildDeath(42),
        Message::ConnectionType(Connection::Port(8080)),
        Message::EndSession,
        Message::Error,
        Message::Hello(0, 2),
        Message::SignalContinue,
        Message::SignalStop,
        Message::SignalWinch(120, 40),
        Message::SocketClose,
        Message::SocketInput(vec![1, 2, 3]),
        Message::SocketOutput(vec![]),
        Message::TerminalInput(b"exit\n".to_vec()),
        Message::TerminalOutput(vec![0xff, 0x00, 0x80]),
    ]
}

#[test]
fn round_trip_every_kind() {
    for m in all_messages() {
        let frame = m.encode();
        assert_eq!(Message::decode(&frame), Ok(m));
    }
}

#[test]
fn round_trip_shell_selector() {
    let m = Message::ConnectionType(Connection::Shell);
    assert_eq!(Message::decode(&m.encode()), Ok(m));
}

#[test]
fn round_trip_large_payloads() {
    let big: Vec<u8> = (0..70000u32).map(|i| (i % 251) as u8).collect();
    let m = Message::TerminalOutput(big.clone());
    assert_eq!(Message::decode(&m.encode()), Ok(m));
    let pw: String = std::iter::repeat('\u{00e9}').take(300).collect();
    let m = Message::Authenticate(pw);
    assert_eq!(Message::decode(&m.encode()), Ok(m));
}

#[test]
fn discriminants_are_frozen() {
    let kinds = [
        MessageType::Authenticate,
        MessageType::Authentication,
        MessageType::ChildDeath,
        MessageType::ConnectionType,
        MessageType::EndSession,
        MessageType::Error,
        MessageType::Hello,
        MessageType::SignalContinue,
        MessageType::SignalStop,
        MessageType::SignalWinch,
        MessageType::SocketClose,
        MessageType::SocketInput,
        MessageType::SocketOutput,
        MessageType::TerminalInput,
        MessageType::TerminalOutput,
    ];
    for (i, k) in kinds.iter().enumerate() {
        assert_eq!(k.as_u8(), i as u8);
        assert_eq!(MessageType::from_u8(i as u8), Some(*k));
    }
    assert_eq!(MessageType::from_u8(15), None);
}

#[test]
fn first_byte_is_discriminant() {
    for m in all_messages() {
        let frame = m.encode();
        assert!(!frame.is_empty());
        assert_eq!(frame[0], m.message_type().as_u8());
    }
}

#[test]
fn hello_exact_bytes() {
    assert_eq!(Message::Hello(0, 2).encode(), vec![6, 0, 2]);
}

#[test]
fn authentication_exact_bytes() {
    assert_eq!(Message::Authentication(true).encode(), vec![1, 0xf5]);
    assert_eq!(Message::Authentication(false).encode(), vec![1, 0xf4]);
}

#[test]
fn winch_exact_bytes() {
    assert_eq!(Message::SignalWinch(120, 40).encode(), vec![9, 0x18, 120, 0x18, 40]);
    assert_eq!(Message::SignalWinch(3, 300).encode(), vec![9, 3, 0x19, 0x01, 0x2c]);
}

#[test]
fn terminal_input_exact_bytes() {
    assert_eq!(Message::TerminalInput(vec![1, 2, 3]).encode(), vec![13, 0x43, 1, 2, 3]);
}

#[test]
fn authenticate_exact_bytes() {
    let mut expected = vec![0u8, 0x67];
    expected.extend_from_slice(b"hunter2");
    assert_eq!(Message::Authenticate(String::from("hunter2")).encode(), expected);
}

#[test]
fn connection_type_exact_bytes() {
    assert_eq!(Message::ConnectionType(Connection::Shell).encode(), vec![3, 0]);
    assert_eq!(
        Message::ConnectionType(Connection::Port(8080)).encode(),
        vec![3, 0x19, 0x1f, 0x90]
    );
}

#[test]
fn unknown_discriminant_is_rejected() {
    assert_eq!(Message::decode(&[15]), Err(DecodeError::UnknownTag));
    assert_eq!(Message::decode(&[0x18, 200]), Err(DecodeError::UnknownTag));
}

#[test]
fn malformed_frames_are_rejected() {
    // An empty frame has no discriminant.
    assert_eq!(Message::decode(&[]), Err(DecodeError::Malformed));
    // A discriminant that is not an unsigned integer item.
    assert_eq!(Message::decode(&[0xf5]), Err(DecodeError::Malformed));
    // A `Hello` frame missing its payload.
    assert_eq!(Message::decode(&[6]), Err(DecodeError::Malformed));
    assert_eq!(Message::decode(&[6, 0]), Err(DecodeError::Malformed));
    // An `Authenticate` frame whose payload is a byte string, not text.
    assert_eq!(Message::decode(&[0, 0x41, 0x61]), Err(DecodeError::Malformed));
    // An `Authenticate` frame whose text is not valid UTF-8.
    assert_eq!(Message::decode(&[0, 0x61, 0xff]), Err(DecodeError::Malformed));
    // A byte string that announces more bytes than the frame holds.
    assert_eq!(Message::decode(&[13, 0x43, 1, 2]), Err(DecodeError::Malformed));
}

#[test]
fn trailing_bytes_are_ignored() {
    assert_eq!(Message::decode(&[4, 99]), Ok(Message::EndSession));
    assert_eq!(Message::decode(&[6, 0, 2, 7, 7]), Ok(Message::Hello(0, 2)));
}

#[test]
fn connection_selector_wire_values() {
    assert_eq!(Connection::from_u16(0), Connection::Shell);
    assert_eq!(Connection::from_u16(8080), Connection::Port(8080));
    assert_eq!(Connection::Shell.to_u16(), 0);
    assert_eq!(Connection::Port(5).to_u16(), 5);
}

#[test]
fn message_type_of_each_variant() {
    assert_eq!(Message::EndSession.message_type(), MessageType::EndSession);
    assert_eq!(
        Message::Authenticate(String::new()).message_type(),
        MessageType::Authenticate
    );
    assert_eq!(Message::SocketInput(vec![]).message_type(), MessageType::SocketInput);
}

#[test]
fn minicbor_reads_our_frames() {
    let frame = Message::Hello(0, 2).encode();
    let mut d = minicbor::Decoder::new(&frame);
    assert_eq!(d.u8().unwrap(), 6);
    assert_eq!(d.u8().unwrap(), 0);
    assert_eq!(d.u8().unwrap(), 2);

    let frame = Message::Authenticate(String::from("hunter2")).encode();
    let mut d = minicbor::Decoder::new(&frame);
    assert_eq!(d.u8().unwrap(), 0);
    assert_eq!(d.str().unwrap(), "hunter2");

    let frame = Message::SignalWinch(120, 40).encode();
    let mut d = minicbor::Decoder::new(&frame);
    assert_eq!(d.u8().unwrap(), 9);
    assert_eq!(d.u16().unwrap(), 120);
    assert_eq!(d.u16().unwrap(), 40);

    let frame = Message::Authentication(true).encode();
    let mut d = minicbor::Decoder::new(&frame);
    assert_eq!(d.u8().unwrap(), 1);
    assert!(d.bool().unwrap());

    let frame = Message::SocketOutput(vec![9, 8, 7]).encode();
    let mut d = minicbor::Decoder::new(&frame);
    assert_eq!(d.u8().unwrap(), 12);
    assert_eq!(d.bytes().unwrap(), &[9, 8, 7]);
}

#[test]
fn we_read_minicbor_frames() {
    let mut buf = [0u8; 128];
    let written = {
        let mut e = minicbor::Encoder::new(&mut buf[..]);
        e.u8(0).unwrap();
        e.str("hunter2").unwrap();
        128 - e.into_writer().len()
    };
    assert_eq!(
        Message::decode(&buf[..written]),
        Ok(Message::Authenticate(String::from("hunter2")))
    );

    let written = {
        let mut e = minicbor::Encoder::new(&mut buf[..]);
        e.u8(9).unwrap();
        e.u16(120).unwrap();
        e.u16(40).unwrap();
        128 - e.into_writer().len()
    };
    assert_eq!(Message::decode(&buf[..written]), Ok(Message::SignalWinch(120, 40)));

    let written = {
        let mut e = minicbor::Encoder::new(&mut buf[..]);
        e.u8(3).unwrap();
        e.u16(8080).unwrap();
        128 - e.into_writer().len()
    };
    assert_eq!(
        Message::decode(&buf[..written]),
        Ok(Message::ConnectionType(Connection::Port(8080)))
    );

    let written = {
        let mut e = minicbor::Encoder::new(&mut buf[..]);
        e.u8(13).unwrap();
        e.bytes(b"exit\n").unwrap();
        128 - e.into_writer().len()
    };
    assert_eq!(
        Message::decode(&buf[..written]),
        Ok(Message::TerminalInput(b"exit\n".to_vec()))
    );
}

#[test]
fn round_trip_generated_messages() {
    // A small linear congruential generator keeps this reproducible.
    let mut state: u64 = 0x243f_6a88_85a3_08d3;
    let mut next = move || {
        state = state.wrapping_mul(6364136223846793005).wrapping_add(1442695040888963407);
        (state >> 33) as u32
    };
    for _ in 0..200 {
        let kind = next() % 6;
        let m = match kind {
            0 => {
                let len = (next() % 40) as usize;
                let s: String = (0..len)
                    .map(|_| char::from_u32(next() % 0xd700).unwrap_or('x'))
                    .collect();
                Message::Authenticate(s)
            },
            1 => Message::ChildDeath((next() % 256) as u8),
            2 => {
                let port = (next() % 65536) as u16;
                Message::ConnectionType(if port == 0 {
                    Connection::Shell
                } else {
                    Connection::Port(port)
                })
            },
            3 => Message::SignalWinch((next() % 65536) as u16, (next() % 65536) as u16),
            4 => {
                let len = (next() % 512) as usize;
                Message::TerminalInput((0..len).map(|_| (next() % 256) as u8).collect())
            },
            _ => Message::Hello((next() % 256) as u8, (next() % 256) as u8),
        };
        let frame = m.encode();
        assert_eq!(Message::decode(&frame), Ok(m));
    }
}
