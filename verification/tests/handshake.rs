use gameserver::handshake::ClientHandshake;
use gameserver::handshake::ClientStep;
use gameserver::handshake::HandshakeError;
use gameserver::handshake::HandshakeReply;
use gameserver::handshake::NonceCache;
use gameserver::handshake::RefusalReason;
use gameserver::handshake::ServerHandshake;
use gameserver::handshake::Session;
use gameserver::ident::Uuid;
use gameserver::router::RouteEntry;
use gameserver::router::RoutingTable;

fn keypair() -> (Vec<u8>, Vec<u8>) {
    sodiumoxide::init().unwrap();
    let (pk, sk) = sodiumoxide::crypto::sign::gen_keypair();
    (pk.as_ref().to_vec(), sk[..].to_vec())
}

fn table_with(token: &[u8], client_id: Uuid, pk: &[u8]) -> RoutingTable {
    let mut table = RoutingTable::new();
    table.register(RouteEntry {
        token: token.to_vec(),
        client_id,
        sign_pk: pk.to_vec(),
    });
    table
}

fn run_handshake(
    client: &mut ClientHandshake,
    server: &mut ServerHandshake,
    table: &RoutingTable,
    cache: &mut NonceCache,
) -> (Session, Vec<u8>, Vec<u8>) {
    let req = client.encode_connection_request();
    let challenge = match server.handle_request(&req, table, cache).unwrap() {
        HandshakeReply::Challenge(b) => b,
        _ => panic!("expected a challenge"),
    };
    let resp = match client.handle_message(&challenge).unwrap() {
        ClientStep::SendResponse(b) => b,
        _ => panic!("expected a response to send"),
    };
    let (accept, session) = match server.handle_response(&resp, cache).unwrap() {
        HandshakeReply::Accept(b, s) => (b, s),
        _ => panic!("expected an acceptance"),
    };
    let (rx, tx) = match client.handle_message(&accept).unwrap() {
        ClientStep::Done(rx, tx) => (rx, tx),
        _ => panic!("expected completion"),
    };
    (session, rx, tx)
}

#[test]
fn handshake_happy_path() {
    let (client_pk, client_sk) = keypair();
    let (server_pk, server_sk) = keypair();
    let identity = Uuid { hi: 0x01, lo: 0x01 };
    let table = table_with(b"tok", identity, &client_pk);
    let mut cache = NonceCache::new(1024);
    let mut client = ClientHandshake::new(client_sk, server_pk, b"tok".to_vec());
    let mut server = ServerHandshake::new(server_sk);
    let (session, client_rx, client_tx) = run_handshake(&mut client, &mut server, &table, &mut cache);
    assert_eq!(session.client_id, identity);
    assert_eq!(session.rx.len(), 32);
    assert_eq!(session.tx.len(), 32);
    // the pair is asymmetric by role: what the client sends, the server reads
    assert_eq!(client_tx, session.rx);
    assert_eq!(client_rx, session.tx);
}

#[test]
fn handshake_replay_is_refused() {
    let (client_pk, client_sk) = keypair();
    let (server_pk, server_sk) = keypair();
    let identity = Uuid { hi: 0x01, lo: 0x02 };
    let table = table_with(b"tok", identity, &client_pk);
    let mut cache = NonceCache::new(1024);
    let mut client = ClientHandshake::new(client_sk, server_pk.clone(), b"tok".to_vec());
    let replayed_request = client.encode_connection_request();
    let mut server = ServerHandshake::new(server_sk.clone());
    run_handshake(&mut client, &mut server, &table, &mut cache);
    // the very same signed request again, after the accepted handshake
    let mut server2 = ServerHandshake::new(server_sk);
    match server2.handle_request(&replayed_request, &table, &cache).unwrap() {
        HandshakeReply::Refusal(frame, reason) => {
            assert_eq!(reason, RefusalReason::ReplayDetected);
            let mut probe = ClientHandshake::new(keypair().1, server_pk, Vec::new());
            match probe.handle_message(&frame).unwrap() {
                ClientStep::Refused(msg) => assert_eq!(msg, b"replay detected".to_vec()),
                _ => panic!("expected a refusal"),
            }
        },
        _ => panic!("expected a refusal"),
    }
}

#[test]
fn handshake_unknown_token_is_refused() {
    let (client_pk, client_sk) = keypair();
    let (server_pk, server_sk) = keypair();
    let table = table_with(b"known", Uuid { hi: 1, lo: 3 }, &client_pk);
    let cache = NonceCache::new(1024);
    let mut client = ClientHandshake::new(client_sk, server_pk.clone(), b"unknown".to_vec());
    let req = client.encode_connection_request();
    let mut server = ServerHandshake::new(server_sk);
    match server.handle_request(&req, &table, &cache).unwrap() {
        HandshakeReply::Refusal(frame, reason) => {
            assert_eq!(reason, RefusalReason::InvalidToken);
            let mut probe = ClientHandshake::new(keypair().1, server_pk, Vec::new());
            match probe.handle_message(&frame).unwrap() {
                ClientStep::Refused(msg) => assert_eq!(msg, b"invalid token".to_vec()),
                _ => panic!("expected a refusal"),
            }
        },
        _ => panic!("expected a refusal"),
    }
}

#[test]
fn handshake_wrong_key_is_refused() {
    let (_client_pk, client_sk) = keypair();
    let (other_pk, _other_sk) = keypair();
    let (server_pk, server_sk) = keypair();
    // the table knows the token, but under somebody else's key
    let table = table_with(b"tok", Uuid { hi: 1, lo: 4 }, &other_pk);
    let cache = NonceCache::new(1024);
    let mut client = ClientHandshake::new(client_sk, server_pk.clone(), b"tok".to_vec());
    let req = client.encode_connection_request();
    let mut server = ServerHandshake::new(server_sk);
    match server.handle_request(&req, &table, &cache).unwrap() {
        HandshakeReply::Refusal(frame, reason) => {
            assert_eq!(reason, RefusalReason::InvalidSignature);
            let mut probe = ClientHandshake::new(keypair().1, server_pk, Vec::new());
            match probe.handle_message(&frame).unwrap() {
                ClientStep::Refused(msg) => assert_eq!(msg, b"invalid signature".to_vec()),
                _ => panic!("expected a refusal"),
            }
        },
        _ => panic!("expected a refusal"),
    }
}

#[test]
fn handshake_garbage_frame_is_protocol_violation() {
    let (_client_pk, _client_sk) = keypair();
    let (_server_pk, server_sk) = keypair();
    let table = RoutingTable::new();
    let cache = NonceCache::new(1024);
    let mut server = ServerHandshake::new(server_sk);
    match server.handle_request(&vec![1, 2, 3], &table, &cache) {
        Err(e) => assert_eq!(e, HandshakeError::ProtocolViolation),
        Ok(_) => panic!("expected a protocol violation"),
    }
}

#[test]
fn handshake_nonce_echo_mismatch_is_replay() {
    let (client_pk, client_sk) = keypair();
    let (server_pk, server_sk) = keypair();
    let identity = Uuid { hi: 1, lo: 5 };
    let table = table_with(b"tok", identity, &client_pk);
    let mut cache = NonceCache::new(1024);
    let mut client = ClientHandshake::new(client_sk.clone(), server_pk, b"tok".to_vec());
    let req = client.encode_connection_request();
    let mut server = ServerHandshake::new(server_sk);
    match server.handle_request(&req, &table, &cache).unwrap() {
        HandshakeReply::Challenge(_) => {},
        _ => panic!("expected a challenge"),
    }
    // a response echoing the wrong server nonce, but properly signed
    let wrong = gameserver::proto::ChallengeResponse {
        server_nonce: vec![0; 32],
        kx_client_pk: vec![1; 32],
    };
    let data = wrong.to_bytes();
    let sk = sodiumoxide::crypto::sign::SecretKey::from_slice(&client_sk).unwrap();
    let sig = sodiumoxide::crypto::sign::sign_detached(&data, &sk);
    let frame = gameserver::proto::SignedMessage {
        data,
        signature: sig.to_bytes().to_vec(),
    }
    .to_bytes();
    match server.handle_response(&frame, &mut cache).unwrap() {
        HandshakeReply::Refusal(_, reason) => assert_eq!(reason, RefusalReason::ReplayDetected),
        _ => panic!("expected a refusal"),
    }
}

#[test]
fn handshake_bad_kx_key_is_cryptographic_error() {
    let (client_pk, client_sk) = keypair();
    let (server_pk, server_sk) = keypair();
    let identity = Uuid { hi: 1, lo: 6 };
    let table = table_with(b"tok", identity, &client_pk);
    let mut cache = NonceCache::new(1024);
    let mut client = ClientHandshake::new(client_sk.clone(), server_pk, b"tok".to_vec());
    let req = client.encode_connection_request();
    let mut server = ServerHandshake::new(server_sk);
    let challenge = match server.handle_request(&req, &table, &cache).unwrap() {
        HandshakeReply::Challenge(b) => b,
        _ => panic!("expected a challenge"),
    };
    let echoed = match gameserver::proto::SignedMessage::from_bytes(&challenge) {
        Some(sm) => match gameserver::proto::ServerMessage::from_bytes(&sm.data).unwrap() {
            gameserver::proto::ServerMessage::Challenge(c) => c.server_nonce,
            _ => panic!("expected a challenge payload"),
        },
        None => panic!("expected a signed message"),
    };
    // a key-exchange public key of the wrong length
    let bad = gameserver::proto::ChallengeResponse {
        server_nonce: echoed,
        kx_client_pk: vec![1; 7],
    };
    let data = bad.to_bytes();
    let sk = sodiumoxide::crypto::sign::SecretKey::from_slice(&client_sk).unwrap();
    let sig = sodiumoxide::crypto::sign::sign_detached(&data, &sk);
    let frame = gameserver::proto::SignedMessage {
        data,
        signature: sig.to_bytes().to_vec(),
    }
    .to_bytes();
    match server.handle_response(&frame, &mut cache) {
        Err(e) => assert_eq!(e, HandshakeError::Cryptographic),
        Ok(_) => panic!("expected a cryptographic error"),
    }
}

#[test]
fn nonce_cache_evicts_oldest() {
    let mut cache = NonceCache::new(2);
    let a = vec![1u8; 32];
    let b = vec![2u8; 32];
    let c = vec![3u8; 32];
    cache.record(&a);
    cache.record(&b);
    assert!(cache.contains(&a));
    assert!(cache.contains(&b));
    cache.record(&c);
    assert!(!cache.contains(&a));
    assert!(cache.contains(&b));
    assert!(cache.contains(&c));
}

#[test]
fn session_frames_round_trip_in_order() {
    sodiumoxide::init().unwrap();
    let key = vec![7u8; 32];
    let mut tx = gameserver::session::SendChannel::new(key.clone());
    let mut rx = gameserver::session::RecvChannel::new(key);
    let c1 = tx.seal_next(&vec![1, 2, 3]);
    let c2 = tx.seal_next(&vec![4, 5]);
    assert_eq!(c1.len(), 3 + 16);
    assert_eq!(rx.open_next(&c1).unwrap(), vec![1, 2, 3]);
    assert_eq!(rx.open_next(&c2).unwrap(), vec![4, 5]);
}

#[test]
fn session_replayed_frame_is_rejected() {
    sodiumoxide::init().unwrap();
    let key = vec![9u8; 32];
    let mut tx = gameserver::session::SendChannel::new(key.clone());
    let mut rx = gameserver::session::RecvChannel::new(key);
    let c1 = tx.seal_next(&vec![1]);
    let c2 = tx.seal_next(&vec![2]);
    assert_eq!(rx.open_next(&c1).unwrap(), vec![1]);
    // the same frame again: the sequence moved on, so it fails to open
    assert!(rx.open_next(&c1).is_none());
    // the channel did not advance on the bad frame; the next one opens
    assert_eq!(rx.open_next(&c2).unwrap(), vec![2]);
}

#[test]
fn session_reordered_frame_is_rejected() {
    sodiumoxide::init().unwrap();
    let key = vec![3u8; 32];
    let mut tx = gameserver::session::SendChannel::new(key.clone());
    let mut rx = gameserver::session::RecvChannel::new(key);
    let _c1 = tx.seal_next(&vec![1]);
    let c2 = tx.seal_next(&vec![2]);
    assert!(rx.open_next(&c2).is_none());
}

#[test]
fn session_tampered_frame_is_rejected() {
    sodiumoxide::init().unwrap();
    let key = vec![5u8; 32];
    let mut tx = gameserver::session::SendChannel::new(key.clone());
    let mut rx = gameserver::session::RecvChannel::new(key);
    let mut c = tx.seal_next(&vec![1, 2, 3]);
    c[0] ^= 0xff;
    assert!(rx.open_next(&c).is_none());
}

#[test]
fn handshake_keys_drive_the_session_layer() {
    let (client_pk, client_sk) = keypair();
    let (server_pk, server_sk) = keypair();
    let identity = Uuid { hi: 2, lo: 2 };
    let table = table_with(b"tok", identity, &client_pk);
    let mut cache = NonceCache::new(1024);
    let mut client = ClientHandshake::new(client_sk, server_pk, b"tok".to_vec());
    let mut server = ServerHandshake::new(server_sk);
    let (session, client_rx, client_tx) = run_handshake(&mut client, &mut server, &table, &mut cache);
    // the client seals under its tx key; the server opens under its rx key
    let mut tx = gameserver::session::SendChannel::new(client_tx);
    let mut rx = gameserver::session::RecvChannel::new(session.rx);
    let frame = tx.seal_next(&b"move 1 2 3".to_vec());
    assert_eq!(rx.open_next(&frame).unwrap(), b"move 1 2 3".to_vec());
    // the other direction under the other pair
    let mut tx2 = gameserver::session::SendChannel::new(session.tx);
    let mut rx2 = gameserver::session::RecvChannel::new(client_rx);
    let frame2 = tx2.seal_next(&b"state".to_vec());
    assert_eq!(rx2.open_next(&frame2).unwrap(), b"state".to_vec());
}

#[test]
fn client_rejects_bad_challenge_key() {
    let (_client_pk, client_sk) = keypair();
    let (server_pk, server_sk) = keypair();
    let mut client = ClientHandshake::new(client_sk, server_pk, b"tok".to_vec());
    // a properly signed challenge whose key-exchange key is too short
    let challenge = gameserver::proto::ServerMessage::Challenge(
        gameserver::proto::ServerChallenge {
            server_nonce: vec![0; 32],
            kx_server_pk: vec![1; 7],
        },
    );
    let data = challenge.to_bytes();
    let sk = sodiumoxide::crypto::sign::SecretKey::from_slice(&server_sk).unwrap();
    let sig = sodiumoxide::crypto::sign::sign_detached(&data, &sk);
    let frame = gameserver::proto::SignedMessage {
        data,
        signature: sig.to_bytes().to_vec(),
    }
    .to_bytes();
    // the client fails at once, before sending any response
    match client.handle_message(&frame) {
        Err(e) => assert_eq!(e, HandshakeError::Cryptographic),
        Ok(_) => panic!("expected a cryptographic error"),
    }
}

#[test]
fn client_rejects_forged_server_frame() {
    let (_client_pk, client_sk) = keypair();
    let (server_pk, _server_sk) = keypair();
    let (_imposter_pk, imposter_sk) = keypair();
    let mut client = ClientHandshake::new(client_sk, server_pk, b"tok".to_vec());
    // a refusal signed by somebody other than the server
    let refusal = gameserver::proto::ServerMessage::Refused(b"invalid token".to_vec());
    let data = refusal.to_bytes();
    let sk = sodiumoxide::crypto::sign::SecretKey::from_slice(&imposter_sk).unwrap();
    let sig = sodiumoxide::crypto::sign::sign_detached(&data, &sk);
    let frame = gameserver::proto::SignedMessage {
        data,
        signature: sig.to_bytes().to_vec(),
    }
    .to_bytes();
    match client.handle_message(&frame) {
        Err(e) => assert_eq!(e, HandshakeError::Cryptographic),
        Ok(_) => panic!("expected the forged frame to be rejected"),
    }
}
