use karo_bus::codec::{
    decode_message, encode_frame, encode_message, try_read_frame, FrameRead, MAX_FRAME_LEN,
};
use karo_bus::errors::BusError;
use karo_bus::messages::{Message, MessageBody, Response};

fn round_trip(m: &Message) -> Message {
    let bytes = encode_message(m).expect("encoding a small message must succeed");
    decode_message(&bytes).expect("decoding an encoded message must succeed")
}

fn assert_same_seq(a: &Message, b: &Message) {
    assert_eq!(a.seq(), b.seq());
}

#[test]
fn register_round_trips() {
    let m = Message::new(7, MessageBody::Register(String::from("com.example.service")));
    let d = round_trip(&m);
    assert_same_seq(&m, &d);
    match d.body() {
        MessageBody::Register(s) => assert_eq!(s, "com.example.service"),
        _ => panic!("wrong body after round trip"),
    }
}

#[test]
fn connect_round_trips() {
    let m = Message::new(1, MessageBody::Connect(String::from("target")));
    let d = round_trip(&m);
    assert_same_seq(&m, &d);
    match d.body() {
        MessageBody::Connect(s) => assert_eq!(s, "target"),
        _ => panic!("wrong body after round trip"),
    }
}

#[test]
fn method_call_round_trips() {
    let m = Message::new(
        99,
        MessageBody::MethodCall(
            String::from("peer"),
            String::from("method"),
            vec![1, 2, 3, 255],
        ),
    );
    let d = round_trip(&m);
    assert_same_seq(&m, &d);
    match d.body() {
        MessageBody::MethodCall(t, name, p) => {
            assert_eq!(t, "peer");
            assert_eq!(name, "method");
            assert_eq!(p, &vec![1, 2, 3, 255]);
        }
        _ => panic!("wrong body after round trip"),
    }
}

#[test]
fn subscribe_and_watch_round_trip() {
    let m = Message::new(4, MessageBody::Subscribe(String::from("sig")));
    match round_trip(&m).body() {
        MessageBody::Subscribe(s) => assert_eq!(s, "sig"),
        _ => panic!("wrong body after round trip"),
    }
    let w = Message::new(5, MessageBody::Watch(String::from("st")));
    match round_trip(&w).body() {
        MessageBody::Watch(s) => assert_eq!(s, "st"),
        _ => panic!("wrong body after round trip"),
    }
}

#[test]
fn responses_round_trip() {
    let cases = vec![
        Response::Success,
        Response::Return(vec![9, 8, 7]),
        Response::Signal(vec![]),
        Response::StateChanged(vec![0]),
        Response::Error(BusError::PermissionDenied),
        Response::Shutdown(String::from("com.leaving")),
    ];
    let mut seq: u64 = 10;
    for r in cases {
        let m = Message::new(seq, MessageBody::Response(r.clone()));
        let d = round_trip(&m);
        assert_eq!(d.seq(), seq);
        match (d.body(), &r) {
            (MessageBody::Response(Response::Success), Response::Success) => {}
            (MessageBody::Response(Response::Return(a)), Response::Return(b)) => {
                assert_eq!(a, b)
            }
            (MessageBody::Response(Response::Signal(a)), Response::Signal(b)) => {
                assert_eq!(a, b)
            }
            (
                MessageBody::Response(Response::StateChanged(a)),
                Response::StateChanged(b),
            ) => assert_eq!(a, b),
            (MessageBody::Response(Response::Error(a)), Response::Error(b)) => {
                assert_eq!(a, b)
            }
            (MessageBody::Response(Response::Shutdown(a)), Response::Shutdown(b)) => {
                assert_eq!(a, b)
            }
            _ => panic!("wrong body after round trip"),
        }
        seq += 1;
    }
}

#[test]
fn error_frame_has_exact_bytes() {
    let m = Message::new(5, MessageBody::Response(Response::Error(BusError::Disconnected)));
    let bytes = encode_message(&m).unwrap();
    // eight bytes of little-endian seq, the error tag, the kind's code
    assert_eq!(bytes, vec![5, 0, 0, 0, 0, 0, 0, 0, 10, 11]);
}

#[test]
fn success_frame_has_exact_bytes() {
    let m = Message::new(258, MessageBody::Response(Response::Success));
    let bytes = encode_message(&m).unwrap();
    assert_eq!(bytes, vec![2, 1, 0, 0, 0, 0, 0, 0, 6]);
}

#[test]
fn register_document_layout_is_exact() {
    let m = Message::new(0, MessageBody::Register(String::from("ab")));
    let bytes = encode_message(&m).unwrap();
    // seq, register tag, u32 length prefix, UTF-8 bytes
    assert_eq!(bytes, vec![0, 0, 0, 0, 0, 0, 0, 0, 1, 2, 0, 0, 0, 97, 98]);
}

#[test]
fn truncated_document_is_a_violation() {
    let m = Message::new(3, MessageBody::Register(String::from("name")));
    let mut bytes = encode_message(&m).unwrap();
    bytes.pop();
    assert!(matches!(decode_message(&bytes), Err(BusError::ProtocolViolation)));
}

#[test]
fn trailing_garbage_is_a_violation() {
    let m = Message::new(3, MessageBody::Register(String::from("name")));
    let mut bytes = encode_message(&m).unwrap();
    bytes.push(0);
    assert!(matches!(decode_message(&bytes), Err(BusError::ProtocolViolation)));
}

#[test]
fn unknown_tag_is_a_violation() {
    let bytes = vec![0, 0, 0, 0, 0, 0, 0, 0, 200];
    assert!(matches!(decode_message(&bytes), Err(BusError::ProtocolViolation)));
}

#[test]
fn non_utf8_name_is_a_violation() {
    // register tag with a one-byte string field that is not UTF-8
    let bytes = vec![0, 0, 0, 0, 0, 0, 0, 0, 1, 1, 0, 0, 0, 0xFF];
    assert!(matches!(decode_message(&bytes), Err(BusError::ProtocolViolation)));
}

#[test]
fn frame_round_trips_with_remainder() {
    let m = Message::new(21, MessageBody::Subscribe(String::from("s")));
    let mut frame = encode_frame(&m).unwrap();
    let frame_len = frame.len();
    frame.push(77);
    match try_read_frame(&frame, false) {
        FrameRead::Frame(d, consumed) => {
            assert_eq!(consumed, frame_len);
            assert_eq!(d.seq(), 21);
            assert!(matches!(d.body(), MessageBody::Subscribe(s) if s == "s"));
        }
        _ => panic!("expected a whole frame"),
    }
}

#[test]
fn empty_buffer_at_eof_is_a_clean_close() {
    assert!(matches!(try_read_frame(&[], true), FrameRead::Closed));
    assert!(matches!(try_read_frame(&[], false), FrameRead::NeedMore));
}

#[test]
fn eof_mid_frame_is_a_violation() {
    let m = Message::new(21, MessageBody::Subscribe(String::from("s")));
    let frame = encode_frame(&m).unwrap();
    let partial = &frame[..frame.len() - 1];
    assert!(matches!(try_read_frame(partial, true), FrameRead::Violation));
    assert!(matches!(try_read_frame(partial, false), FrameRead::NeedMore));
    assert!(matches!(try_read_frame(&frame[..2], true), FrameRead::Violation));
    assert!(matches!(try_read_frame(&frame[..2], false), FrameRead::NeedMore));
}

#[test]
fn oversized_length_prefix_is_a_violation() {
    let too_long = (MAX_FRAME_LEN as u32) + 1;
    let mut bytes = too_long.to_le_bytes().to_vec();
    bytes.extend_from_slice(&[0; 16]);
    assert!(matches!(try_read_frame(&bytes, false), FrameRead::Violation));
}

#[test]
fn oversized_payload_is_refused_by_the_encoder() {
    let big = vec![0u8; MAX_FRAME_LEN + 1];
    let m = Message::new(1, MessageBody::Response(Response::Return(big)));
    assert!(matches!(encode_message(&m), Err(BusError::ProtocolViolation)));
}

#[test]
fn every_error_kind_round_trips_through_its_code() {
    let kinds = vec![
        BusError::ServiceNotFound,
        BusError::NameTaken,
        BusError::ServiceNotAllowed,
        BusError::PermissionDenied,
        BusError::MethodNotFound,
        BusError::SignalNotFound,
        BusError::StateNotFound,
        BusError::AlreadyRegistered,
        BusError::InvalidMessage,
        BusError::InvalidResponse,
        BusError::ProtocolViolation,
        BusError::Disconnected,
        BusError::Internal,
    ];
    for (i, k) in kinds.iter().enumerate() {
        assert_eq!(k.code(), i as u8);
        assert_eq!(BusError::from_code(k.code()), Some(*k));
        assert!(!k.describe().is_empty());
    }
    assert_eq!(BusError::from_code(13), None);
    assert_eq!(BusError::from_code(255), None);
}
