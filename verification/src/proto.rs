//! The frozen wire schemas.
//!
//! Handshake messages and the message envelope are records in the format
//! of `wire`: field order and tag numbers are fixed. Parsers are strict:
//! the expected tags in the expected order and nothing after the last
//! field.

use vstd::prelude::*;
use crate::wire::spec_field;
use crate::wire::spec_parse_field;
use crate::wire::spec_varint;
use crate::wire::encode_field;
use crate::wire::parse_field;
use crate::wire::lemma_field_round_trip;
use crate::ident::Uuid;
use crate::ident::spec_uuid_bytes;
use crate::ident::spec_uuid_of_bytes;
use crate::ident::uuid_to_bytes;
use crate::ident::uuid_of_bytes;
use crate::ident::lemma_uuid_bytes_round_trip;

verus! {

/// Tag bytes of fields one to four, all length-delimited.
pub const TAG1: u8 = 0x0a;

pub const TAG2: u8 = 0x12;

pub const TAG3: u8 = 0x1a;

pub const TAG4: u8 = 0x22;

/// A field payload short enough that every message built from such
/// payloads has a length a varint can carry.
pub open spec fn field_len_ok(d: Seq<u8>) -> bool {
    d.len() < 0x1000000000000000
}

/// A varint is one to ten bytes, by magnitude.
pub proof fn lemma_varint_len(n: u64)
    ensures
        1 <= spec_varint(n).len() <= 10,
        n < 0x1000000000000000 ==> spec_varint(n).len() <= 9,
    decreases n,
{
    if n >= 128 {
        lemma_varint_len(n / 128);
        if n < 0x1000000000000000 {
            assert(spec_varint(n / 128).len() <= 9);
            // one level deeper the value fits eight bytes
            assert(n / 128 < 0x20000000000000);
            lemma_varint_len_small(n / 128);
        }
    }
}

/// Bytes one to eight of a varint, by magnitude.
proof fn lemma_varint_len_small(n: u64)
    ensures
        n < 0x80 ==> spec_varint(n).len() <= 1,
        n < 0x4000 ==> spec_varint(n).len() <= 2,
        n < 0x200000 ==> spec_varint(n).len() <= 3,
        n < 0x10000000 ==> spec_varint(n).len() <= 4,
        n < 0x800000000 ==> spec_varint(n).len() <= 5,
        n < 0x40000000000 ==> spec_varint(n).len() <= 6,
        n < 0x2000000000000 ==> spec_varint(n).len() <= 7,
        n < 0x100000000000000 ==> spec_varint(n).len() <= 8,
    decreases n,
{
    if n >= 128 {
        lemma_varint_len_small(n / 128);
    }
}

/// An encoded field is the payload plus at most eleven bytes of framing.
pub proof fn lemma_field_len(tag: u8, d: Seq<u8>)
    ensures
        spec_field(tag, d).len() == 1 + spec_varint(d.len() as u64).len() + d.len(),
        d.len() <= u64::MAX ==> spec_field(tag, d).len() <= 11 + d.len(),
{
    if d.len() <= u64::MAX {
        lemma_varint_len(d.len() as u64);
    }
}

// ---------------------------------------------------------------------
// Generic one- and two-field records.
// ---------------------------------------------------------------------

/// A record of exactly one field.
pub open spec fn spec_one_field(tag: u8, d: Seq<u8>) -> Seq<u8> {
    spec_field(tag, d)
}

/// Parse a record of exactly one field, returning its tag and payload.
pub open spec fn spec_parse_one_field(s: Seq<u8>) -> Option<(u8, Seq<u8>)> {
    match spec_parse_field(s) {
        None => None,
        Some((t, d, r)) => {
            if r.len() == 0 {
                Some((t, d))
            } else {
                None
            }
        },
    }
}

/// Encode a record of exactly one field.
pub fn encode_one_field(tag: u8, d: &Vec<u8>) -> (r: Vec<u8>)
    ensures
        r@ == spec_one_field(tag, d@),
{
    let mut out: Vec<u8> = Vec::new();
    encode_field(tag, d, &mut out);
    assert(out@ =~= spec_one_field(tag, d@));
    out
}

/// Parse a record of exactly one field.
pub fn parse_one_field(buf: &Vec<u8>) -> (r: Option<(u8, Vec<u8>)>)
    ensures
        r matches Some(p) ==> spec_parse_one_field(buf@) == Some((p.0, p.1@)),
        r is None ==> spec_parse_one_field(buf@) is None,
{
    assert(buf@.skip(0) =~= buf@);
    match parse_field(buf, 0) {
        None => None,
        Some((t, d, p)) => {
            if p != buf.len() {
                return None;
            }
            Some((t, d))
        },
    }
}

/// Round trip of a one-field record.
pub proof fn lemma_one_field_round_trip(tag: u8, d: Seq<u8>)
    requires
        d.len() <= u64::MAX,
    ensures
        spec_parse_one_field(spec_one_field(tag, d)) == Some((tag, d)),
{
    lemma_field_round_trip(tag, d, Seq::<u8>::empty());
    assert(spec_field(tag, d) + Seq::<u8>::empty() =~= spec_one_field(tag, d));
}

/// A record of exactly two fields, tags one and two.
pub open spec fn spec_two_fields(d1: Seq<u8>, d2: Seq<u8>) -> Seq<u8> {
    spec_field(TAG1, d1) + spec_field(TAG2, d2)
}

/// Parse a record of exactly two fields with tags one and two.
pub open spec fn spec_parse_two_fields(s: Seq<u8>) -> Option<(Seq<u8>, Seq<u8>)> {
    match spec_parse_field(s) {
        None => None,
        Some((t1, d1, r1)) => {
            if t1 != TAG1 {
                None
            } else {
                match spec_parse_field(r1) {
                    None => None,
                    Some((t2, d2, r2)) => {
                        if t2 == TAG2 && r2.len() == 0 {
                            Some((d1, d2))
                        } else {
                            None
                        }
                    },
                }
            }
        },
    }
}

/// Encode a record of exactly two fields, tags one and two.
pub fn encode_two_fields(d1: &Vec<u8>, d2: &Vec<u8>) -> (r: Vec<u8>)
    ensures
        r@ == spec_two_fields(d1@, d2@),
{
    let mut out: Vec<u8> = Vec::new();
    encode_field(TAG1, d1, &mut out);
    encode_field(TAG2, d2, &mut out);
    assert(out@ =~= spec_two_fields(d1@, d2@));
    out
}

/// Parse a record of exactly two fields with tags one and two.
pub fn parse_two_fields(buf: &Vec<u8>) -> (r: Option<(Vec<u8>, Vec<u8>)>)
    ensures
        r matches Some(p) ==> spec_parse_two_fields(buf@) == Some((p.0@, p.1@)),
        r is None ==> spec_parse_two_fields(buf@) is None,
{
    assert(buf@.skip(0) =~= buf@);
    match parse_field(buf, 0) {
        None => None,
        Some((t1, d1, p1)) => {
            if t1 != TAG1 {
                return None;
            }
            match parse_field(buf, p1) {
                None => None,
                Some((t2, d2, p2)) => {
                    if t2 != TAG2 {
                        return None;
                    }
                    if p2 != buf.len() {
                        return None;
                    }
                    Some((d1, d2))
                },
            }
        },
    }
}

/// Round trip of a two-field record.
pub proof fn lemma_two_fields_round_trip(d1: Seq<u8>, d2: Seq<u8>)
    requires
        d1.len() <= u64::MAX,
        d2.len() <= u64::MAX,
    ensures
        spec_parse_two_fields(spec_two_fields(d1, d2)) == Some((d1, d2)),
{
    lemma_field_round_trip(TAG1, d1, spec_field(TAG2, d2));
    lemma_field_round_trip(TAG2, d2, Seq::<u8>::empty());
    assert(spec_field(TAG2, d2) + Seq::<u8>::empty() =~= spec_field(TAG2, d2));
}

// ---------------------------------------------------------------------
// Handshake messages.
// ---------------------------------------------------------------------

/// A payload wrapped in a detached signature.
pub struct SignedMessage {
    pub data: Vec<u8>,
    pub signature: Vec<u8>,
}

pub struct SignedMessageView {
    pub data: Seq<u8>,
    pub signature: Seq<u8>,
}

impl View for SignedMessage {
    type V = SignedMessageView;

    open spec fn view(&self) -> SignedMessageView {
        SignedMessageView { data: self.data@, signature: self.signature@ }
    }
}

pub open spec fn spec_signed_message_bytes(v: SignedMessageView) -> Seq<u8> {
    spec_two_fields(v.data, v.signature)
}

pub open spec fn spec_parse_signed_message(s: Seq<u8>) -> Option<SignedMessageView> {
    match spec_parse_two_fields(s) {
        None => None,
        Some((d1, d2)) => Some(SignedMessageView { data: d1, signature: d2 }),
    }
}

impl SignedMessage {
    pub fn to_bytes(&self) -> (r: Vec<u8>)
        ensures
            r@ == spec_signed_message_bytes(self@),
    {
        encode_two_fields(&self.data, &self.signature)
    }

    pub fn from_bytes(buf: &Vec<u8>) -> (r: Option<SignedMessage>)
        ensures
            r matches Some(m) ==> spec_parse_signed_message(buf@) == Some(m@),
            r is None ==> spec_parse_signed_message(buf@) is None,
    {
        match parse_two_fields(buf) {
            None => None,
            Some((d1, d2)) => Some(SignedMessage { data: d1, signature: d2 }),
        }
    }
}

/// Round trip of the signed wrapper.
pub proof fn lemma_signed_message_round_trip(v: SignedMessageView)
    requires
        field_len_ok(v.data),
        field_len_ok(v.signature),
    ensures
        spec_parse_signed_message(spec_signed_message_bytes(v)) == Some(v),
{
    lemma_two_fields_round_trip(v.data, v.signature);
}

/// The first message of the handshake, sent by the client.
pub struct ConnectionRequest {
    pub client_nonce: Vec<u8>,
    pub message: Vec<u8>,
}

pub struct ConnectionRequestView {
    pub client_nonce: Seq<u8>,
    pub message: Seq<u8>,
}

impl View for ConnectionRequest {
    type V = ConnectionRequestView;

    open spec fn view(&self) -> ConnectionRequestView {
        ConnectionRequestView { client_nonce: self.client_nonce@, message: self.message@ }
    }
}

pub open spec fn spec_connection_request_bytes(v: ConnectionRequestView) -> Seq<u8> {
    spec_two_fields(v.client_nonce, v.message)
}

pub open spec fn spec_parse_connection_request(s: Seq<u8>) -> Option<ConnectionRequestView> {
    match spec_parse_two_fields(s) {
        None => None,
        Some((d1, d2)) => Some(ConnectionRequestView { client_nonce: d1, message: d2 }),
    }
}

impl ConnectionRequest {
    pub fn to_bytes(&self) -> (r: Vec<u8>)
        ensures
            r@ == spec_connection_request_bytes(self@),
    {
        encode_two_fields(&self.client_nonce, &self.message)
    }

    pub fn from_bytes(buf: &Vec<u8>) -> (r: Option<ConnectionRequest>)
        ensures
            r matches Some(m) ==> spec_parse_connection_request(buf@) == Some(m@),
            r is None ==> spec_parse_connection_request(buf@) is None,
    {
        match parse_two_fields(buf) {
            None => None,
            Some((d1, d2)) => Some(ConnectionRequest { client_nonce: d1, message: d2 }),
        }
    }
}

/// Round trip of the connection request.
pub proof fn lemma_connection_request_round_trip(v: ConnectionRequestView)
    requires
        field_len_ok(v.client_nonce),
        field_len_ok(v.message),
    ensures
        spec_parse_connection_request(spec_connection_request_bytes(v)) == Some(v),
{
    lemma_two_fields_round_trip(v.client_nonce, v.message);
}

/// The server's challenge: its nonce and its key-exchange public key.
pub struct ServerChallenge {
    pub server_nonce: Vec<u8>,
    pub kx_server_pk: Vec<u8>,
}

pub struct ServerChallengeView {
    pub server_nonce: Seq<u8>,
    pub kx_server_pk: Seq<u8>,
}

impl View for ServerChallenge {
    type V = ServerChallengeView;

    open spec fn view(&self) -> ServerChallengeView {
        ServerChallengeView { server_nonce: self.server_nonce@, kx_server_pk: self.kx_server_pk@ }
    }
}

pub open spec fn spec_server_challenge_bytes(v: ServerChallengeView) -> Seq<u8> {
    spec_two_fields(v.server_nonce, v.kx_server_pk)
}

pub open spec fn spec_parse_server_challenge(s: Seq<u8>) -> Option<ServerChallengeView> {
    match spec_parse_two_fields(s) {
        None => None,
        Some((d1, d2)) => Some(ServerChallengeView { server_nonce: d1, kx_server_pk: d2 }),
    }
}

impl ServerChallenge {
    pub fn to_bytes(&self) -> (r: Vec<u8>)
        ensures
            r@ == spec_server_challenge_bytes(self@),
    {
        encode_two_fields(&self.server_nonce, &self.kx_server_pk)
    }

    pub fn from_bytes(buf: &Vec<u8>) -> (r: Option<ServerChallenge>)
        ensures
            r matches Some(m) ==> spec_parse_server_challenge(buf@) == Some(m@),
            r is None ==> spec_parse_server_challenge(buf@) is None,
    {
        match parse_two_fields(buf) {
            None => None,
            Some((d1, d2)) => Some(ServerChallenge { server_nonce: d1, kx_server_pk: d2 }),
        }
    }
}

/// Round trip of the server challenge.
pub proof fn lemma_server_challenge_round_trip(v: ServerChallengeView)
    requires
        field_len_ok(v.server_nonce),
        field_len_ok(v.kx_server_pk),
    ensures
        spec_parse_server_challenge(spec_server_challenge_bytes(v)) == Some(v),
{
    lemma_two_fields_round_trip(v.server_nonce, v.kx_server_pk);
}

/// The client's answer: the echoed server nonce and the client's
/// key-exchange public key.
pub struct ChallengeResponse {
    pub server_nonce: Vec<u8>,
    pub kx_client_pk: Vec<u8>,
}

pub struct ChallengeResponseView {
    pub server_nonce: Seq<u8>,
    pub kx_client_pk: Seq<u8>,
}

impl View for ChallengeResponse {
    type V = ChallengeResponseView;

    open spec fn view(&self) -> ChallengeResponseView {
        ChallengeResponseView { server_nonce: self.server_nonce@, kx_client_pk: self.kx_client_pk@ }
    }
}

pub open spec fn spec_challenge_response_bytes(v: ChallengeResponseView) -> Seq<u8> {
    spec_two_fields(v.server_nonce, v.kx_client_pk)
}

pub open spec fn spec_parse_challenge_response(s: Seq<u8>) -> Option<ChallengeResponseView> {
    match spec_parse_two_fields(s) {
        None => None,
        Some((d1, d2)) => Some(ChallengeResponseView { server_nonce: d1, kx_client_pk: d2 }),
    }
}

impl ChallengeResponse {
    pub fn to_bytes(&self) -> (r: Vec<u8>)
        ensures
            r@ == spec_challenge_response_bytes(self@),
    {
        encode_two_fields(&self.server_nonce, &self.kx_client_pk)
    }

    pub fn from_bytes(buf: &Vec<u8>) -> (r: Option<ChallengeResponse>)
        ensures
            r matches Some(m) ==> spec_parse_challenge_response(buf@) == Some(m@),
            r is None ==> spec_parse_challenge_response(buf@) is None,
    {
        match parse_two_fields(buf) {
            None => None,
            Some((d1, d2)) => Some(ChallengeResponse { server_nonce: d1, kx_client_pk: d2 }),
        }
    }
}

/// Round trip of the challenge response.
pub proof fn lemma_challenge_response_round_trip(v: ChallengeResponseView)
    requires
        field_len_ok(v.server_nonce),
        field_len_ok(v.kx_client_pk),
    ensures
        spec_parse_challenge_response(spec_challenge_response_bytes(v)) == Some(v),
{
    lemma_two_fields_round_trip(v.server_nonce, v.kx_client_pk);
}

/// One signed server message: a challenge, an acceptance, or a refusal
/// with a reason.
pub enum ServerMessage {
    Challenge(ServerChallenge),
    Accepted,
    Refused(Vec<u8>),
}

pub enum ServerMessageView {
    Challenge(ServerChallengeView),
    Accepted,
    Refused(Seq<u8>),
}

impl View for ServerMessage {
    type V = ServerMessageView;

    open spec fn view(&self) -> ServerMessageView {
        match self {
            ServerMessage::Challenge(c) => ServerMessageView::Challenge(c@),
            ServerMessage::Accepted => ServerMessageView::Accepted,
            ServerMessage::Refused(m) => ServerMessageView::Refused(m@),
        }
    }
}

pub open spec fn spec_server_message_bytes(v: ServerMessageView) -> Seq<u8> {
    match v {
        ServerMessageView::Challenge(c) => spec_one_field(TAG1, spec_server_challenge_bytes(c)),
        ServerMessageView::Accepted => spec_one_field(TAG2, Seq::<u8>::empty()),
        ServerMessageView::Refused(m) => spec_one_field(TAG3, spec_one_field(TAG1, m)),
    }
}

pub open spec fn spec_parse_server_message(s: Seq<u8>) -> Option<ServerMessageView> {
    match spec_parse_one_field(s) {
        None => None,
        Some((t, d)) => {
            if t == TAG1 {
                match spec_parse_server_challenge(d) {
                    None => None,
                    Some(c) => Some(ServerMessageView::Challenge(c)),
                }
            } else if t == TAG2 {
                if d.len() == 0 {
                    Some(ServerMessageView::Accepted)
                } else {
                    None
                }
            } else if t == TAG3 {
                match spec_parse_one_field(d) {
                    None => None,
                    Some((t2, m)) => {
                        if t2 == TAG1 {
                            Some(ServerMessageView::Refused(m))
                        } else {
                            None
                        }
                    },
                }
            } else {
                None
            }
        },
    }
}

impl ServerMessage {
    pub fn to_bytes(&self) -> (r: Vec<u8>)
        ensures
            r@ == spec_server_message_bytes(self@),
    {
        match self {
            ServerMessage::Challenge(c) => {
                let inner = c.to_bytes();
                encode_one_field(TAG1, &inner)
            },
            ServerMessage::Accepted => {
                let inner: Vec<u8> = Vec::new();
                encode_one_field(TAG2, &inner)
            },
            ServerMessage::Refused(m) => {
                let inner = encode_one_field(TAG1, m);
                encode_one_field(TAG3, &inner)
            },
        }
    }

    pub fn from_bytes(buf: &Vec<u8>) -> (r: Option<ServerMessage>)
        ensures
            r matches Some(m) ==> spec_parse_server_message(buf@) == Some(m@),
            r is None ==> spec_parse_server_message(buf@) is None,
    {
        match parse_one_field(buf) {
            None => None,
            Some((t, d)) => {
                if t == TAG1 {
                    match ServerChallenge::from_bytes(&d) {
                        None => None,
                        Some(c) => Some(ServerMessage::Challenge(c)),
                    }
                } else if t == TAG2 {
                    if d.len() == 0 {
                        Some(ServerMessage::Accepted)
                    } else {
                        None
                    }
                } else if t == TAG3 {
                    match parse_one_field(&d) {
                        None => None,
                        Some((t2, m)) => {
                            if t2 == TAG1 {
                                Some(ServerMessage::Refused(m))
                            } else {
                                None
                            }
                        },
                    }
                } else {
                    None
                }
            },
        }
    }
}

/// Round trip of the server message, for reasonably sized fields.
pub proof fn lemma_server_message_round_trip(v: ServerMessageView)
    requires
        v matches ServerMessageView::Challenge(c) ==> field_len_ok(c.server_nonce) && field_len_ok(
            c.kx_server_pk,
        ),
        v matches ServerMessageView::Refused(m) ==> field_len_ok(m),
    ensures
        spec_parse_server_message(spec_server_message_bytes(v)) == Some(v),
{
    match v {
        ServerMessageView::Challenge(c) => {
            lemma_field_len(TAG1, c.server_nonce);
            lemma_field_len(TAG2, c.kx_server_pk);
            lemma_one_field_round_trip(TAG1, spec_server_challenge_bytes(c));
            lemma_server_challenge_round_trip(c);
        },
        ServerMessageView::Accepted => {
            lemma_one_field_round_trip(TAG2, Seq::<u8>::empty());
        },
        ServerMessageView::Refused(m) => {
            lemma_field_len(TAG1, m);
            lemma_one_field_round_trip(TAG3, spec_one_field(TAG1, m));
            lemma_one_field_round_trip(TAG1, m);
        },
    }
}

// ---------------------------------------------------------------------
// The message envelope.
// ---------------------------------------------------------------------

/// A typed envelope: sender and receiver identity, an opaque kind tag,
/// and the opaque serialized payload.
pub struct Message {
    pub sender: Uuid,
    pub receiver: Uuid,
    pub kind: Vec<u8>,
    pub payload: Vec<u8>,
}

pub struct MessageView {
    pub sender: Uuid,
    pub receiver: Uuid,
    pub kind: Seq<u8>,
    pub payload: Seq<u8>,
}

impl View for Message {
    type V = MessageView;

    open spec fn view(&self) -> MessageView {
        MessageView {
            sender: self.sender,
            receiver: self.receiver,
            kind: self.kind@,
            payload: self.payload@,
        }
    }
}

impl Message {
    pub fn clone(&self) -> (r: Message)
        ensures
            r@ == self@,
    {
        let kind = crate::wire::copy_range(&self.kind, 0, self.kind.len());
        let payload = crate::wire::copy_range(&self.payload, 0, self.payload.len());
        assert(kind@ =~= self.kind@);
        assert(payload@ =~= self.payload@);
        Message { sender: self.sender, receiver: self.receiver, kind, payload }
    }
}

pub open spec fn spec_message_bytes(v: MessageView) -> Seq<u8> {
    spec_field(TAG1, spec_uuid_bytes(v.sender)) + spec_field(TAG2, spec_uuid_bytes(v.receiver))
        + spec_field(TAG3, v.kind) + spec_field(TAG4, v.payload)
}

pub open spec fn spec_parse_message(s: Seq<u8>) -> Option<MessageView> {
    match spec_parse_field(s) {
        None => None,
        Some((t1, d1, r1)) => {
            if t1 != TAG1 || d1.len() != 16 {
                None
            } else {
                match spec_parse_field(r1) {
                    None => None,
                    Some((t2, d2, r2)) => {
                        if t2 != TAG2 || d2.len() != 16 {
                            None
                        } else {
                            match spec_parse_field(r2) {
                                None => None,
                                Some((t3, d3, r3)) => {
                                    if t3 != TAG3 {
                                        None
                                    } else {
                                        match spec_parse_field(r3) {
                                            None => None,
                                            Some((t4, d4, r4)) => {
                                                if t4 != TAG4 || r4.len() != 0 {
                                                    None
                                                } else {
                                                    Some(
                                                        MessageView {
                                                            sender: spec_uuid_of_bytes(d1),
                                                            receiver: spec_uuid_of_bytes(d2),
                                                            kind: d3,
                                                            payload: d4,
                                                        },
                                                    )
                                                }
                                            },
                                        }
                                    }
                                },
                            }
                        }
                    },
                }
            }
        },
    }
}

impl Message {
    /// Serialize the envelope.
    pub fn to_bytes(&self) -> (r: Vec<u8>)
        ensures
            r@ == spec_message_bytes(self@),
    {
        let mut sender_bytes: Vec<u8> = Vec::new();
        uuid_to_bytes(&self.sender, &mut sender_bytes);
        let mut receiver_bytes: Vec<u8> = Vec::new();
        uuid_to_bytes(&self.receiver, &mut receiver_bytes);
        let mut out: Vec<u8> = Vec::new();
        encode_field(TAG1, &sender_bytes, &mut out);
        encode_field(TAG2, &receiver_bytes, &mut out);
        encode_field(TAG3, &self.kind, &mut out);
        encode_field(TAG4, &self.payload, &mut out);
        assert(out@ =~= spec_message_bytes(self@));
        out
    }

    /// Parse an envelope; succeeds exactly on the strict four-field form.
    pub fn from_bytes(buf: &Vec<u8>) -> (r: Option<Message>)
        ensures
            r matches Some(m) ==> spec_parse_message(buf@) == Some(m@),
            r is None ==> spec_parse_message(buf@) is None,
    {
        assert(buf@.skip(0) =~= buf@);
        match parse_field(buf, 0) {
            None => None,
            Some((t1, d1, p1)) => {
                if t1 != TAG1 || d1.len() != 16 {
                    return None;
                }
                match parse_field(buf, p1) {
                    None => None,
                    Some((t2, d2, p2)) => {
                        if t2 != TAG2 || d2.len() != 16 {
                            return None;
                        }
                        match parse_field(buf, p2) {
                            None => None,
                            Some((t3, d3, p3)) => {
                                if t3 != TAG3 {
                                    return None;
                                }
                                match parse_field(buf, p3) {
                                    None => None,
                                    Some((t4, d4, p4)) => {
                                        if t4 != TAG4 || p4 != buf.len() {
                                            return None;
                                        }
                                        let sender = uuid_of_bytes(&d1);
                                        let receiver = uuid_of_bytes(&d2);
                                        Some(Message { sender, receiver, kind: d3, payload: d4 })
                                    },
                                }
                            },
                        }
                    },
                }
            },
        }
    }
}

/// Round trip of the envelope: an envelope with reasonably sized kind
/// and payload parses back to exactly itself.
pub proof fn lemma_message_round_trip(v: MessageView)
    requires
        field_len_ok(v.kind),
        field_len_ok(v.payload),
    ensures
        spec_parse_message(spec_message_bytes(v)) == Some(v),
{
    lemma_uuid_bytes_round_trip(v.sender);
    lemma_uuid_bytes_round_trip(v.receiver);
    let f1 = spec_field(TAG1, spec_uuid_bytes(v.sender));
    let f2 = spec_field(TAG2, spec_uuid_bytes(v.receiver));
    let f3 = spec_field(TAG3, v.kind);
    let f4 = spec_field(TAG4, v.payload);
    let s = spec_message_bytes(v);
    assert(s =~= f1 + (f2 + f3 + f4));
    lemma_field_round_trip(TAG1, spec_uuid_bytes(v.sender), f2 + f3 + f4);
    assert(f2 + f3 + f4 =~= f2 + (f3 + f4));
    lemma_field_round_trip(TAG2, spec_uuid_bytes(v.receiver), f3 + f4);
    lemma_field_round_trip(TAG3, v.kind, f4);
    lemma_field_round_trip(TAG4, v.payload, Seq::<u8>::empty());
    assert(f4 + Seq::<u8>::empty() =~= f4);
}

} // verus!
