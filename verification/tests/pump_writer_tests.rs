use native_messaging_proxy::codec::{decode, encode, Decoded};
use native_messaging_proxy::message::Message;
use native_messaging_proxy::pump::{
    pump_step, split_into_messages, transport_pump_step, PumpAction, ReadEvent, TransportAction,
};
use native_messaging_proxy::writer::{writer_step, SinkSet, WriteAction};

#[test]
fn nonempty_read_becomes_one_message() {
    match pump_step(1, ReadEvent::Data(b"chunk".to_vec())) {
        PumpAction::Forward(m) => {
            assert_eq!(m.fd(), 1);
            assert_eq!(m.data(), &b"chunk".to_vec());
        },
        PumpAction::Finish => panic!("a non-empty read must be forwarded"),
    }
}

#[test]
fn eof_error_and_empty_read_finish_the_pump() {
    assert!(matches!(pump_step(0, ReadEvent::Eof), PumpAction::Finish));
    assert!(matches!(pump_step(0, ReadEvent::ReadFailed), PumpAction::Finish));
    assert!(matches!(pump_step(0, ReadEvent::Data(Vec::new())), PumpAction::Finish));
}

#[test]
fn large_write_splits_into_decodable_frames_in_order() {
    let data: Vec<u8> = (0..600).map(|i| (i % 256) as u8).collect();
    let messages = split_into_messages(0, &data, 255);
    assert_eq!(messages.len(), 3);

    // Each piece fits one frame; the whole wire stream decodes back, in
    // order, to the original bytes.
    let mut wire: Vec<u8> = Vec::new();
    for m in &messages {
        assert_eq!(m.fd(), 0);
        assert!(!m.data().is_empty() && m.data().len() <= 255);
        wire.extend_from_slice(&encode(m.fd(), m.data()).unwrap());
    }
    let mut reassembled: Vec<u8> = Vec::new();
    let mut at = 0usize;
    loop {
        match decode(&wire, at) {
            Decoded::Frame { tag, payload, next } => {
                assert_eq!(tag, 0);
                reassembled.extend_from_slice(&payload);
                at = next;
            },
            Decoded::Eof => break,
            Decoded::Truncated => panic!("every split frame must be decodable"),
        }
    }
    assert_eq!(reassembled, data);
}

#[test]
fn small_write_is_one_message() {
    let data = b"hello".to_vec();
    let messages = split_into_messages(1, &data, 32);
    assert_eq!(messages.len(), 1);
    assert_eq!(messages[0].data(), &data);
}

#[test]
fn decoded_data_frame_is_delivered() {
    let frame = encode(1, &b"hello".to_vec()).unwrap();
    match transport_pump_step(decode(&frame, 0)) {
        TransportAction::Deliver(m) => {
            assert_eq!(m.fd(), 1);
            assert_eq!(m.data(), &b"hello".to_vec());
        },
        _ => panic!("a data frame must be delivered"),
    }
}

#[test]
fn sentinel_frame_finishes_never_delivers() {
    let sentinel_frame: Vec<u8> = vec![0, 1];
    match transport_pump_step(decode(&sentinel_frame, 0)) {
        TransportAction::Deliver(_) => {
            panic!("a size-0 frame is end of stream for its tag, never data")
        },
        TransportAction::Finish => {},
        TransportAction::Fail => panic!("a size-0 frame is not an error"),
    }
}

#[test]
fn truncated_frame_fails_eof_finishes() {
    let buf: Vec<u8> = vec![5, 0, b'x'];
    assert!(matches!(transport_pump_step(decode(&buf, 0)), TransportAction::Fail));
    let empty: Vec<u8> = Vec::new();
    assert!(matches!(transport_pump_step(decode(&empty, 0)), TransportAction::Finish));
}

#[test]
fn writer_never_writes_a_sentinel() {
    let sinks = SinkSet::new(true, true, true);
    for tag in 0u8..3u8 {
        match writer_step(&sinks, Message::sentinel(tag)) {
            WriteAction::CloseRouter => {},
            WriteAction::Write { .. } => {
                panic!("a sentinel must never reach a sink as data")
            },
            WriteAction::Skip => panic!("a sentinel closes the router"),
        }
    }
}

#[test]
fn writer_routes_data_to_registered_sink() {
    let sinks = SinkSet::new(false, true, true);
    match writer_step(&sinks, Message::new(1, b"out".to_vec())) {
        WriteAction::Write { tag, data } => {
            assert_eq!(tag, 1);
            assert_eq!(data, b"out".to_vec());
        },
        _ => panic!("tag 1 has a sink"),
    }
}

#[test]
fn writer_drops_data_without_a_sink() {
    let sinks = SinkSet::new(false, true, true);
    assert!(matches!(
        writer_step(&sinks, Message::new(0, b"in".to_vec())),
        WriteAction::Skip
    ));
}

#[test]
fn writer_drops_unknown_tags() {
    let sinks = SinkSet::new(true, true, true);
    assert!(matches!(
        writer_step(&sinks, Message::new(7, b"???".to_vec())),
        WriteAction::Skip
    ));
}
