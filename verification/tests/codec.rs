use gameserver::frames::encode_frame;
use gameserver::frames::FrameDecoder;
use gameserver::frames::FrameError;
use gameserver::frames::DEFAULT_MAX_FRAME;
use gameserver::ident::Uuid;
use gameserver::proto::Message;
use gameserver::proto::ConnectionRequest;
use gameserver::proto::ServerChallenge;
use gameserver::proto::ChallengeResponse;
use gameserver::proto::SignedMessage;
use gameserver::proto::ServerMessage;

#[test]
fn frame_round_trip() {
    let payload: Vec<u8> = vec![1, 2, 3, 4, 5];
    let framed = encode_frame(&payload, DEFAULT_MAX_FRAME).unwrap();
    assert_eq!(framed.len(), 4 + payload.len());
    assert_eq!(&framed[..4], &[0, 0, 0, 5]);
    let mut dec = FrameDecoder::new(DEFAULT_MAX_FRAME);
    dec.push_bytes(&framed);
    let got = dec.poll_frame().unwrap().unwrap();
    assert_eq!(got, payload);
    assert!(dec.poll_frame().unwrap().is_none());
}

#[test]
fn frame_empty_payload() {
    let payload: Vec<u8> = Vec::new();
    let framed = encode_frame(&payload, DEFAULT_MAX_FRAME).unwrap();
    assert_eq!(framed, vec![0, 0, 0, 0]);
    let mut dec = FrameDecoder::new(DEFAULT_MAX_FRAME);
    dec.push_bytes(&framed);
    assert_eq!(dec.poll_frame().unwrap().unwrap(), payload);
}

#[test]
fn frame_resumes_across_chunks() {
    let payload: Vec<u8> = (0..200u8).collect();
    let framed = encode_frame(&payload, DEFAULT_MAX_FRAME).unwrap();
    let mut dec = FrameDecoder::new(DEFAULT_MAX_FRAME);
    dec.push_bytes(&framed[..3].to_vec());
    assert!(dec.poll_frame().unwrap().is_none());
    dec.push_bytes(&framed[3..10].to_vec());
    assert!(dec.poll_frame().unwrap().is_none());
    dec.push_bytes(&framed[10..].to_vec());
    assert_eq!(dec.poll_frame().unwrap().unwrap(), payload);
}

#[test]
fn frame_two_in_one_buffer() {
    let a: Vec<u8> = vec![9, 9];
    let b: Vec<u8> = vec![7];
    let mut buf = encode_frame(&a, DEFAULT_MAX_FRAME).unwrap();
    buf.extend_from_slice(&encode_frame(&b, DEFAULT_MAX_FRAME).unwrap());
    let mut dec = FrameDecoder::new(DEFAULT_MAX_FRAME);
    dec.push_bytes(&buf);
    assert_eq!(dec.poll_frame().unwrap().unwrap(), a);
    assert_eq!(dec.poll_frame().unwrap().unwrap(), b);
    assert!(dec.poll_frame().unwrap().is_none());
}

#[test]
fn frame_too_long_is_protocol_violation() {
    let payload: Vec<u8> = vec![0; 11];
    assert_eq!(encode_frame(&payload, 10).unwrap_err(), FrameError::ProtocolViolation);
    let framed = encode_frame(&payload, DEFAULT_MAX_FRAME).unwrap();
    let mut dec = FrameDecoder::new(10);
    dec.push_bytes(&framed);
    assert_eq!(dec.poll_frame().unwrap_err(), FrameError::ProtocolViolation);
}

#[test]
fn envelope_round_trip() {
    let m = Message {
        sender: Uuid { hi: 0x0102030405060708, lo: 0x090a0b0c0d0e0f10 },
        receiver: Uuid { hi: 7, lo: 9 },
        kind: b"greeting".to_vec(),
        payload: vec![0, 255, 128, 3],
    };
    let bytes = m.to_bytes();
    let back = Message::from_bytes(&bytes).unwrap();
    assert_eq!(back.sender, m.sender);
    assert_eq!(back.receiver, m.receiver);
    assert_eq!(back.kind, m.kind);
    assert_eq!(back.payload, m.payload);
}

#[test]
fn envelope_rejects_trailing_bytes() {
    let m = Message {
        sender: Uuid { hi: 1, lo: 2 },
        receiver: Uuid { hi: 3, lo: 4 },
        kind: vec![1],
        payload: vec![2],
    };
    let mut bytes = m.to_bytes();
    bytes.push(0);
    assert!(Message::from_bytes(&bytes).is_none());
}

#[test]
fn envelope_rejects_garbage() {
    assert!(Message::from_bytes(&vec![0xff, 0xff, 0xff]).is_none());
    assert!(Message::from_bytes(&Vec::new()).is_none());
}

#[test]
fn envelope_long_payload_round_trip() {
    let m = Message {
        sender: Uuid { hi: 0, lo: 0 },
        receiver: Uuid { hi: u64::MAX, lo: u64::MAX },
        kind: Vec::new(),
        payload: (0..1000).map(|i| (i % 251) as u8).collect(),
    };
    let bytes = m.to_bytes();
    let back = Message::from_bytes(&bytes).unwrap();
    assert_eq!(back.payload, m.payload);
    assert_eq!(back.kind, m.kind);
    assert_eq!(back.receiver, m.receiver);
}

#[test]
fn connection_request_round_trip() {
    let r = ConnectionRequest { client_nonce: vec![5; 32], message: b"token".to_vec() };
    let back = ConnectionRequest::from_bytes(&r.to_bytes()).unwrap();
    assert_eq!(back.client_nonce, r.client_nonce);
    assert_eq!(back.message, r.message);
}

#[test]
fn server_challenge_round_trip() {
    let c = ServerChallenge { server_nonce: vec![1; 32], kx_server_pk: vec![2; 32] };
    let back = ServerChallenge::from_bytes(&c.to_bytes()).unwrap();
    assert_eq!(back.server_nonce, c.server_nonce);
    assert_eq!(back.kx_server_pk, c.kx_server_pk);
}

#[test]
fn challenge_response_round_trip() {
    let c = ChallengeResponse { server_nonce: vec![8; 32], kx_client_pk: vec![9; 32] };
    let back = ChallengeResponse::from_bytes(&c.to_bytes()).unwrap();
    assert_eq!(back.server_nonce, c.server_nonce);
    assert_eq!(back.kx_client_pk, c.kx_client_pk);
}

#[test]
fn signed_message_round_trip() {
    let s = SignedMessage { data: vec![1, 2, 3], signature: vec![4; 64] };
    let back = SignedMessage::from_bytes(&s.to_bytes()).unwrap();
    assert_eq!(back.data, s.data);
    assert_eq!(back.signature, s.signature);
}

#[test]
fn server_message_round_trips() {
    let c = ServerMessage::Challenge(ServerChallenge {
        server_nonce: vec![3; 32],
        kx_server_pk: vec![4; 32],
    });
    match ServerMessage::from_bytes(&c.to_bytes()).unwrap() {
        ServerMessage::Challenge(ch) => {
            assert_eq!(ch.server_nonce, vec![3; 32]);
            assert_eq!(ch.kx_server_pk, vec![4; 32]);
        },
        _ => panic!("expected a challenge"),
    }
    match ServerMessage::from_bytes(&ServerMessage::Accepted.to_bytes()).unwrap() {
        ServerMessage::Accepted => {},
        _ => panic!("expected an acceptance"),
    }
    let r = ServerMessage::Refused(b"invalid token".to_vec());
    match ServerMessage::from_bytes(&r.to_bytes()).unwrap() {
        ServerMessage::Refused(m) => assert_eq!(m, b"invalid token".to_vec()),
        _ => panic!("expected a refusal"),
    }
}

#[test]
fn eof_mid_frame_is_connection_aborted() {
    let payload: Vec<u8> = vec![1, 2, 3];
    let framed = encode_frame(&payload, DEFAULT_MAX_FRAME).unwrap();
    let mut dec = FrameDecoder::new(DEFAULT_MAX_FRAME);
    dec.push_bytes(&framed[..5].to_vec());
    assert!(dec.poll_frame().unwrap().is_none());
    // the stream ends here: half a frame is an abort
    assert_eq!(dec.finish().unwrap_err(), FrameError::ConnectionAborted);
    let mut clean = FrameDecoder::new(DEFAULT_MAX_FRAME);
    clean.push_bytes(&framed);
    clean.poll_frame().unwrap().unwrap();
    assert!(clean.finish().is_ok());
}
