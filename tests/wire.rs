use familycom::client::{check_response, next_send_step, ClientError, SendStep};
use familycom::protocol::{
    encode_frame, frame_length, next_frame, respond_to_frame, PeerMessage, ProtocolError,
    MAX_FRAME_SIZE,
};
use familycom::types::{MessageId, PeerId, Timestamp};

fn chat(id: &str) -> PeerMessage {
    PeerMessage::Chat {
        id: MessageId::new(id),
        sender_id: PeerId::new("aaa"),
        sender_name: "Sala".to_string(),
        content: "Hola".to_string(),
        timestamp: Timestamp::from_millis(1707849600000),
    }
}

#[test]
fn frame_prefix_is_big_endian_length() {
    let payload = vec![7u8; 300];
    let frame = encode_frame(&payload);
    assert_eq!(&frame[..4], &[0, 0, 1, 44]);
    assert_eq!(&frame[4..], &payload[..]);
    assert_eq!(encode_frame(&[]), vec![0, 0, 0, 0]);
}

#[test]
fn frame_round_trip() {
    let payload: Vec<u8> = (0..=255u8).collect();
    let frame = encode_frame(&payload);
    let n = next_frame(&frame).unwrap() as usize;
    assert_eq!(n, payload.len());
    assert_eq!(&frame[4..4 + n], &payload[..]);
    assert_eq!(frame_length(&frame[..4]).unwrap(), 256);
}

#[test]
fn oversize_frame_is_rejected() {
    let prefix = 2_000_000u32.to_be_bytes();
    assert!(matches!(
        frame_length(&prefix),
        Err(ProtocolError::FrameTooLarge { size: 2_000_000 })
    ));
    assert!(matches!(
        next_frame(&prefix),
        Err(ProtocolError::FrameTooLarge { size: 2_000_000 })
    ));
    let limit = MAX_FRAME_SIZE.to_be_bytes();
    assert_eq!(frame_length(&limit).unwrap(), 1_048_576);
    let over = (MAX_FRAME_SIZE + 1).to_be_bytes();
    assert!(matches!(frame_length(&over), Err(ProtocolError::FrameTooLarge { size: 1_048_577 })));
}

#[test]
fn eof_before_prefix_is_connection_closed() {
    assert!(matches!(frame_length(&[]), Err(ProtocolError::ConnectionClosed)));
    assert!(matches!(next_frame(&[]), Err(ProtocolError::ConnectionClosed)));
}

#[test]
fn eof_inside_prefix_is_io() {
    assert!(matches!(next_frame(&[0, 0]), Err(ProtocolError::Io(_))));
    assert!(matches!(frame_length(&[0]), Err(ProtocolError::Io(_))));
    assert!(matches!(frame_length(&[0, 0, 1]), Err(ProtocolError::Io(_))));
}

#[test]
fn eof_inside_payload_is_io() {
    let mut frame = encode_frame(&[1, 2, 3, 4, 5]);
    frame.truncate(7);
    assert!(matches!(next_frame(&frame), Err(ProtocolError::Io(_))));
}

#[test]
fn inbound_chat_is_acked_and_forwarded() {
    let (reply, forward) = respond_to_frame(&chat("M1"));
    assert!(forward);
    match reply {
        Some(PeerMessage::Ack { message_id }) => assert_eq!(message_id.as_str(), "M1"),
        other => panic!("expected an ack, got {other:?}"),
    }
}

#[test]
fn inbound_ping_pong_ack() {
    assert!(matches!(respond_to_frame(&PeerMessage::Ping), (Some(PeerMessage::Pong), false)));
    assert!(matches!(respond_to_frame(&PeerMessage::Pong), (None, false)));
    let ack = PeerMessage::Ack { message_id: MessageId::new("x") };
    assert!(matches!(respond_to_frame(&ack), (None, true)));
}

#[test]
fn ack_with_same_id_is_success() {
    let ack = PeerMessage::Ack { message_id: MessageId::new("M1") };
    assert!(check_response("10.0.0.1:9", &chat("M1"), &ack).is_ok());
}

#[test]
fn ack_with_other_id_is_unexpected() {
    let ack = PeerMessage::Ack { message_id: MessageId::new("M2") };
    match check_response("10.0.0.1:9", &chat("M1"), &ack) {
        Err(ClientError::UnexpectedResponse { addr }) => assert_eq!(addr, "10.0.0.1:9"),
        other => panic!("unexpected {other:?}"),
    }
    assert!(check_response("h:1", &chat("M1"), &PeerMessage::Pong).is_err());
    assert!(check_response("h:1", &PeerMessage::Ping, &PeerMessage::Pong).is_ok());
}

#[test]
fn send_steps_try_addresses_in_order() {
    assert!(matches!(next_send_step(0, 0, None), SendStep::Done(Err(ClientError::NoAddress))));
    assert!(matches!(next_send_step(3, 0, None), SendStep::Try(0)));
    let timeout = || Err(ClientError::AckTimeout { addr: "a".to_string() });
    assert!(matches!(next_send_step(3, 1, Some(timeout())), SendStep::Try(1)));
    assert!(matches!(next_send_step(3, 2, Some(Ok(()))), SendStep::Done(Ok(()))));
    match next_send_step(2, 2, Some(Err(ClientError::ConnectTimeout { addr: "b".to_string(), timeout_secs: 5 }))) {
        SendStep::Done(Err(ClientError::ConnectTimeout { addr, timeout_secs })) => {
            assert_eq!(addr, "b");
            assert_eq!(timeout_secs, 5);
        }
        other => panic!("unexpected {other:?}"),
    }
}
