//! The connection handshake.
//!
//! A two-message exchange: the client sends a signed connection request
//! carrying a fresh nonce and a routing token; the server answers with a
//! signed challenge carrying its own nonce and key-exchange public key;
//! the client echoes the server nonce and sends its key-exchange public
//! key, signed; both sides then derive per-direction session keys. A
//! request whose nonce was seen in a recently accepted handshake is
//! refused as a replay.

use vstd::prelude::*;
use crate::crypto::sig_of;
use crate::crypto::spec_sig_accepts;
use crate::crypto::kx_acceptable;
use crate::crypto::kx_client_keys_of;
use crate::crypto::kx_server_keys_of;
use crate::crypto::random_nonce;
use crate::crypto::kx_gen_keypair;
use crate::crypto::sign_payload;
use crate::crypto::verify_payload;
use crate::crypto::kx_client_session;
use crate::crypto::kx_server_session;
use crate::ident::Uuid;
use crate::proto::SignedMessage;
use crate::proto::SignedMessageView;
use crate::proto::ConnectionRequest;
use crate::proto::ConnectionRequestView;
use crate::proto::ServerChallenge;
use crate::proto::ServerChallengeView;
use crate::proto::ChallengeResponse;
use crate::proto::ChallengeResponseView;
use crate::proto::ServerMessage;
use crate::proto::ServerMessageView;
use crate::proto::spec_parse_signed_message;
use crate::proto::spec_parse_connection_request;
use crate::proto::spec_parse_challenge_response;
use crate::proto::spec_signed_message_bytes;
use crate::proto::spec_server_message_bytes;
use crate::proto::spec_connection_request_bytes;
use crate::proto::spec_challenge_response_bytes;
use crate::router::RoutingTable;
use crate::router::RouteEntryView;
use crate::router::spec_lookup;
use crate::wire::bytes_eq;
use crate::wire::copy_range;

verus! {

/// Errors that abort a handshake outright (auth failures instead send a
/// refusal to the peer).
#[derive(Clone, Copy, Debug, PartialEq, Eq, Structural)]
pub enum HandshakeError {
    /// A frame did not parse as the expected schema.
    ProtocolViolation,
    /// A key-exchange input was rejected by the cryptographic library.
    Cryptographic,
}

/// Why a connection request or response is turned down.
#[derive(Clone, Copy, Debug, PartialEq, Eq, Structural)]
pub enum RefusalReason {
    InvalidToken,
    InvalidSignature,
    ReplayDetected,
}

/// The refusal text sent to the peer: "invalid token",
/// "invalid signature" or "replay detected", as ASCII bytes.
pub open spec fn spec_reason_bytes(r: RefusalReason) -> Seq<u8> {
    match r {
        RefusalReason::InvalidToken => seq![
            105u8, 110, 118, 97, 108, 105, 100, 32, 116, 111, 107, 101, 110,
        ],
        RefusalReason::InvalidSignature => seq![
            105u8, 110, 118, 97, 108, 105, 100, 32, 115, 105, 103, 110, 97, 116, 117, 114, 101,
        ],
        RefusalReason::ReplayDetected => seq![
            114u8, 101, 112, 108, 97, 121, 32, 100, 101, 116, 101, 99, 116, 101, 100,
        ],
    }
}

/// Executable form of `spec_reason_bytes`.
pub fn reason_bytes(r: RefusalReason) -> (v: Vec<u8>)
    ensures
        v@ == spec_reason_bytes(r),
{
    let v: Vec<u8> = match r {
        RefusalReason::InvalidToken => vec![
            105u8, 110, 118, 97, 108, 105, 100, 32, 116, 111, 107, 101, 110,
        ],
        RefusalReason::InvalidSignature => vec![
            105u8, 110, 118, 97, 108, 105, 100, 32, 115, 105, 103, 110, 97, 116, 117, 114, 101,
        ],
        RefusalReason::ReplayDetected => vec![
            114u8, 101, 112, 108, 97, 121, 32, 100, 101, 116, 101, 99, 116, 101, 100,
        ],
    };
    assert(v@ =~= spec_reason_bytes(r));
    v
}

/// A payload wrapped with its detached signature under `sk`, serialized.
pub open spec fn spec_signed_payload(data: Seq<u8>, sk: Seq<u8>) -> Seq<u8> {
    spec_signed_message_bytes(SignedMessageView { data, signature: sig_of(data, sk) })
}

/// Sign `data` and serialize the signed wrapper.
fn sign_frame(data: Vec<u8>, sk: &Vec<u8>) -> (r: Vec<u8>)
    requires
        sk@.len() == 64,
    ensures
        r@ == spec_signed_payload(data@, sk@),
{
    let signature = match sign_payload(&data, sk) {
        Some(s) => s,
        None => {
            assert(false);
            Vec::new()
        },
    };
    let sm = SignedMessage { data, signature };
    sm.to_bytes()
}

// ---------------------------------------------------------------------
// The replay cache.
// ---------------------------------------------------------------------

/// Whether a nonce is among the cached ones.
pub open spec fn spec_cache_contains(c: Seq<Seq<u8>>, n: Seq<u8>) -> bool {
    exists|i: int| 0 <= i < c.len() && c[i] == n
}

/// The cache contents after recording a nonce: the newest entry evicts
/// the oldest once the cache is full.
pub open spec fn spec_cache_after(c: Seq<Seq<u8>>, cap: nat, n: Seq<u8>) -> Seq<Seq<u8>> {
    if c.len() < cap {
        c.push(n)
    } else {
        c.drop_first().push(n)
    }
}

/// The nonces of the most recently accepted handshakes, newest last,
/// bounded by a fixed capacity.
pub struct NonceCache {
    entries: Vec<Vec<u8>>,
    cap: usize,
}

impl View for NonceCache {
    type V = Seq<Seq<u8>>;

    closed spec fn view(&self) -> Seq<Seq<u8>> {
        self.entries@.map(|i: int, v: Vec<u8>| v@)
    }
}

impl NonceCache {
    /// How many nonces the cache retains.
    pub closed spec fn capacity(&self) -> nat {
        self.cap as nat
    }

    pub open spec fn wf(&self) -> bool {
        self@.len() <= self.capacity() && self.capacity() >= 1
    }

    pub fn new(cap: usize) -> (r: Self)
        requires
            cap >= 1,
        ensures
            r@ == Seq::<Seq<u8>>::empty(),
            r.capacity() == cap,
            r.wf(),
    {
        let r = NonceCache { entries: Vec::new(), cap };
        assert(r@ =~= Seq::<Seq<u8>>::empty());
        r
    }

    /// Whether this nonce was recorded and not yet evicted.
    pub fn contains(&self, nonce: &Vec<u8>) -> (r: bool)
        ensures
            r == spec_cache_contains(self@, nonce@),
    {
        let mut i: usize = 0;
        while i < self.entries.len()
            invariant
                i <= self@.len(),
                self@.len() == self.entries@.len(),
                forall|j: int| 0 <= j < i ==> self@[j] != nonce@,
            decreases self@.len() - i,
        {
            if bytes_eq(&self.entries[i], nonce) {
                assert(self@[i as int] == nonce@);
                return true;
            }
            i += 1;
        }
        false
    }

    /// Record a nonce, evicting the oldest entry if the cache is full.
    pub fn record(&mut self, nonce: &Vec<u8>)
        requires
            old(self).wf(),
        ensures
            final(self).wf(),
            final(self).capacity() == old(self).capacity(),
            final(self)@ == spec_cache_after(old(self)@, old(self).capacity(), nonce@),
    {
        if self.entries.len() >= self.cap {
            self.entries.remove(0);
            assert(self@ =~= old(self)@.drop_first());
        }
        let n = copy_range(nonce, 0, nonce.len());
        assert(n@ =~= nonce@);
        self.entries.push(n);
        assert(self@ =~= spec_cache_after(old(self)@, old(self).capacity(), nonce@));
    }
}

// ---------------------------------------------------------------------
// The server side.
// ---------------------------------------------------------------------

/// Where a server-side handshake stands.
#[derive(Clone, Copy, Debug, PartialEq, Eq, Structural)]
pub enum ServerState {
    /// Nothing received yet; the connection request is due.
    AwaitRequest,
    /// The challenge went out; the response is due.
    AwaitResponse,
    /// Finished: accepted or refused.
    Terminal,
}

/// The reply the server hands back to the transport.
pub enum HandshakeReply {
    /// Send this signed challenge and await the response.
    Challenge(Vec<u8>),
    /// Send this signed refusal and close; the reason is recorded
    /// alongside.
    Refusal(Vec<u8>, RefusalReason),
    /// Send this signed acceptance; the handshake produced a session.
    Accept(Vec<u8>, Session),
}

/// An established session: the authenticated identity and the derived
/// per-direction keys.
pub struct Session {
    pub client_id: Uuid,
    pub rx: Vec<u8>,
    pub tx: Vec<u8>,
}

/// What a connection request amounts to, before any reply is built.
pub enum RequestOutcome {
    /// The frame is not a signed connection request.
    Malformed,
    /// The request is turned down.
    Refuse(RefusalReason),
    /// The request is in order: the identity, nonce and signing key the
    /// handshake proceeds with.
    Proceed(Uuid, Seq<u8>, Seq<u8>),
}

/// The server's decision on one connection-request frame: parse the
/// signed request, look the token up, check the signature against the
/// key on record, and refuse nonces seen in recently accepted
/// handshakes.
pub open spec fn spec_request_outcome(
    frame: Seq<u8>,
    table: Seq<RouteEntryView>,
    cache: Seq<Seq<u8>>,
) -> RequestOutcome {
    match spec_parse_signed_message(frame) {
        None => RequestOutcome::Malformed,
        Some(sm) => match spec_parse_connection_request(sm.data) {
            None => RequestOutcome::Malformed,
            Some(req) => match spec_lookup(table, req.message) {
                None => RequestOutcome::Refuse(RefusalReason::InvalidToken),
                Some(e) => {
                    if !spec_sig_accepts(sm.signature, sm.data, e.sign_pk) {
                        RequestOutcome::Refuse(RefusalReason::InvalidSignature)
                    } else if spec_cache_contains(cache, req.client_nonce) {
                        RequestOutcome::Refuse(RefusalReason::ReplayDetected)
                    } else {
                        RequestOutcome::Proceed(e.client_id, req.client_nonce, e.sign_pk)
                    }
                },
            },
        },
    }
}

/// What a challenge-response frame amounts to.
pub enum ResponseOutcome {
    /// The frame is not a signed challenge response.
    Malformed,
    /// The signature does not verify under the requester's key.
    BadSignature,
    /// The echoed server nonce is not ours.
    EchoMismatch,
    /// The response is in order: the client's key-exchange public key.
    Proceed(Seq<u8>),
}

/// The server's decision on one challenge-response frame.
pub open spec fn spec_response_outcome(
    frame: Seq<u8>,
    client_sign_pk: Seq<u8>,
    server_nonce: Seq<u8>,
) -> ResponseOutcome {
    match spec_parse_signed_message(frame) {
        None => ResponseOutcome::Malformed,
        Some(sm) => match spec_parse_challenge_response(sm.data) {
            None => ResponseOutcome::Malformed,
            Some(resp) => {
                if !spec_sig_accepts(sm.signature, sm.data, client_sign_pk) {
                    ResponseOutcome::BadSignature
                } else if resp.server_nonce != server_nonce {
                    ResponseOutcome::EchoMismatch
                } else {
                    ResponseOutcome::Proceed(resp.kx_client_pk)
                }
            },
        },
    }
}

/// One server-side handshake in progress.
pub struct ServerHandshake {
    pub sign_sk: Vec<u8>,
    pub kx_pk: Vec<u8>,
    pub kx_sk: Vec<u8>,
    pub server_nonce: Vec<u8>,
    pub client_id: Uuid,
    pub client_nonce: Vec<u8>,
    pub client_sign_pk: Vec<u8>,
    pub state: ServerState,
}

impl ServerHandshake {
    pub open spec fn wf(&self) -> bool {
        &&& self.sign_sk@.len() == 64
        &&& self.kx_pk@.len() == 32
        &&& self.kx_sk@.len() == 32
        &&& self.server_nonce@.len() == 32
    }

    /// The fields fixed at creation, unchanged by a step.
    pub open spec fn same_keys(&self, other: &Self) -> bool {
        &&& self.sign_sk@ == other.sign_sk@
        &&& self.kx_pk@ == other.kx_pk@
        &&& self.kx_sk@ == other.kx_sk@
        &&& self.server_nonce@ == other.server_nonce@
    }

    /// Start a handshake: draw a fresh server nonce and key-exchange
    /// keypair.
    pub fn new(sign_sk: Vec<u8>) -> (r: Self)
        requires
            sign_sk@.len() == 64,
        ensures
            r.wf(),
            r.state == ServerState::AwaitRequest,
            r.sign_sk@ == sign_sk@,
    {
        let (kx_pk, kx_sk) = kx_gen_keypair();
        let server_nonce = random_nonce();
        ServerHandshake {
            sign_sk,
            kx_pk,
            kx_sk,
            server_nonce,
            client_id: Uuid { hi: 0, lo: 0 },
            client_nonce: Vec::new(),
            client_sign_pk: Vec::new(),
            state: ServerState::AwaitRequest,
        }
    }

    /// Handle the first frame of a connection.
    ///
    /// A malformed frame is a protocol violation and aborts; an unknown
    /// token, a bad signature or a replayed nonce sends a signed refusal
    /// naming the reason; otherwise the signed challenge goes out,
    /// carrying this handshake's server nonce and key-exchange public
    /// key.
    pub fn handle_request(
        &mut self,
        frame: &Vec<u8>,
        table: &RoutingTable,
        cache: &NonceCache,
    ) -> (r: Result<HandshakeReply, HandshakeError>)
        requires
            old(self).wf(),
            old(self).state == ServerState::AwaitRequest,
        ensures
            final(self).wf(),
            final(self).same_keys(old(self)),
            match spec_request_outcome(frame@, table@, cache@) {
                RequestOutcome::Malformed => {
                    &&& r matches Err(e) && e == HandshakeError::ProtocolViolation
                    &&& final(self).state == ServerState::AwaitRequest
                },
                RequestOutcome::Refuse(reason) => {
                    &&& r matches Ok(rep) && rep matches HandshakeReply::Refusal(b, rr)
                        && rr == reason && b@ == spec_signed_payload(
                        spec_server_message_bytes(
                            ServerMessageView::Refused(spec_reason_bytes(reason)),
                        ),
                        old(self).sign_sk@,
                    )
                    &&& final(self).state == ServerState::Terminal
                },
                RequestOutcome::Proceed(cid, cnonce, cpk) => {
                    &&& r matches Ok(rep) && rep matches HandshakeReply::Challenge(b) && b@
                        == spec_signed_payload(
                        spec_server_message_bytes(
                            ServerMessageView::Challenge(
                                (ServerChallengeView {
                                    server_nonce: old(self).server_nonce@,
                                    kx_server_pk: old(self).kx_pk@,
                                }),
                            ),
                        ),
                        old(self).sign_sk@,
                    )
                    &&& final(self).state == ServerState::AwaitResponse
                    &&& final(self).client_id == cid
                    &&& final(self).client_nonce@ == cnonce
                    &&& final(self).client_sign_pk@ == cpk
                },
            },
    {
        let sm = match SignedMessage::from_bytes(frame) {
            None => {
                return Err(HandshakeError::ProtocolViolation);
            },
            Some(sm) => sm,
        };
        let req = match ConnectionRequest::from_bytes(&sm.data) {
            None => {
                return Err(HandshakeError::ProtocolViolation);
            },
            Some(req) => req,
        };
        let (client_id, sign_pk) = match table.lookup(&req.message) {
            None => {
                return Ok(self.refuse(RefusalReason::InvalidToken));
            },
            Some(p) => p,
        };
        if !verify_payload(&sm.signature, &sm.data, &sign_pk) {
            return Ok(self.refuse(RefusalReason::InvalidSignature));
        }
        if cache.contains(&req.client_nonce) {
            return Ok(self.refuse(RefusalReason::ReplayDetected));
        }
        let challenge = ServerChallenge {
            server_nonce: copy_range(&self.server_nonce, 0, self.server_nonce.len()),
            kx_server_pk: copy_range(&self.kx_pk, 0, self.kx_pk.len()),
        };
        assert(challenge.server_nonce@ =~= self.server_nonce@);
        assert(challenge.kx_server_pk@ =~= self.kx_pk@);
        let reply = ServerMessage::Challenge(challenge);
        let frame_out = sign_frame(reply.to_bytes(), &self.sign_sk);
        self.client_id = client_id;
        self.client_nonce = req.client_nonce;
        self.client_sign_pk = sign_pk;
        self.state = ServerState::AwaitResponse;
        Ok(HandshakeReply::Challenge(frame_out))
    }

    /// Build a signed refusal and end the handshake.
    fn refuse(&mut self, reason: RefusalReason) -> (r: HandshakeReply)
        requires
            old(self).wf(),
        ensures
            final(self).wf(),
            final(self).same_keys(old(self)),
            final(self).state == ServerState::Terminal,
            r matches HandshakeReply::Refusal(b, rr) && rr == reason && b@ == spec_signed_payload(
                spec_server_message_bytes(ServerMessageView::Refused(spec_reason_bytes(reason))),
                old(self).sign_sk@,
            ),
    {
        let msg = ServerMessage::Refused(reason_bytes(reason));
        let frame_out = sign_frame(msg.to_bytes(), &self.sign_sk);
        self.state = ServerState::Terminal;
        HandshakeReply::Refusal(frame_out, reason)
    }

    /// Handle the second frame of a connection.
    ///
    /// A malformed frame aborts; a bad signature or a wrong nonce echo
    /// sends a signed refusal; otherwise the server derives its session
    /// keys, records the client nonce as an accepted handshake, and
    /// sends the signed acceptance.
    pub fn handle_response(
        &mut self,
        frame: &Vec<u8>,
        cache: &mut NonceCache,
    ) -> (r: Result<HandshakeReply, HandshakeError>)
        requires
            old(self).wf(),
            old(self).state == ServerState::AwaitResponse,
            old(cache).wf(),
        ensures
            final(self).wf(),
            final(self).same_keys(old(self)),
            final(cache).wf(),
            final(cache).capacity() == old(cache).capacity(),
            match spec_response_outcome(frame@, old(self).client_sign_pk@, old(self).server_nonce@) {
                ResponseOutcome::Malformed => {
                    &&& r matches Err(e) && e == HandshakeError::ProtocolViolation
                    &&& final(self).state == ServerState::AwaitResponse
                    &&& final(cache)@ == old(cache)@
                },
                ResponseOutcome::BadSignature => {
                    &&& r matches Ok(rep) && rep matches HandshakeReply::Refusal(b, rr)
                        && rr == RefusalReason::InvalidSignature
                    &&& final(self).state == ServerState::Terminal
                    &&& final(cache)@ == old(cache)@
                },
                ResponseOutcome::EchoMismatch => {
                    &&& r matches Ok(rep) && rep matches HandshakeReply::Refusal(b, rr)
                        && rr == RefusalReason::ReplayDetected
                    &&& final(self).state == ServerState::Terminal
                    &&& final(cache)@ == old(cache)@
                },
                ResponseOutcome::Proceed(client_kx_pk) => {
                    &&& (r is Err <==> !(client_kx_pk.len() == 32 && kx_acceptable(client_kx_pk)))
                    &&& match r {
                    Err(e) => {
                        &&& e == HandshakeError::Cryptographic
                        &&& final(self).state == ServerState::AwaitResponse
                        &&& final(cache)@ == old(cache)@
                    },
                    Ok(rep) => {
                        &&& rep matches HandshakeReply::Accept(b, sess) && b@
                            == spec_signed_payload(
                            spec_server_message_bytes(ServerMessageView::Accepted),
                            old(self).sign_sk@,
                        ) && sess.client_id == old(self).client_id && (sess.rx@, sess.tx@)
                            == kx_server_keys_of(old(self).kx_pk@, old(self).kx_sk@, client_kx_pk)
                        &&& final(self).state == ServerState::Terminal
                        &&& final(cache)@ == spec_cache_after(
                            old(cache)@,
                            old(cache).capacity(),
                            old(self).client_nonce@,
                        )
                    },
                }
                },
            },
    {
        let sm = match SignedMessage::from_bytes(frame) {
            None => {
                return Err(HandshakeError::ProtocolViolation);
            },
            Some(sm) => sm,
        };
        let resp = match ChallengeResponse::from_bytes(&sm.data) {
            None => {
                return Err(HandshakeError::ProtocolViolation);
            },
            Some(resp) => resp,
        };
        if !verify_payload(&sm.signature, &sm.data, &self.client_sign_pk) {
            return Ok(self.refuse(RefusalReason::InvalidSignature));
        }
        if !bytes_eq(&resp.server_nonce, &self.server_nonce) {
            return Ok(self.refuse(RefusalReason::ReplayDetected));
        }
        let keys = match kx_server_session(&self.kx_pk, &self.kx_sk, &resp.kx_client_pk) {
            None => {
                return Err(HandshakeError::Cryptographic);
            },
            Some(keys) => keys,
        };
        cache.record(&self.client_nonce);
        let msg = ServerMessage::Accepted;
        let frame_out = sign_frame(msg.to_bytes(), &self.sign_sk);
        self.state = ServerState::Terminal;
        let session = Session { client_id: self.client_id, rx: keys.0, tx: keys.1 };
        Ok(HandshakeReply::Accept(frame_out, session))
    }
}

// ---------------------------------------------------------------------
// The client side.
// ---------------------------------------------------------------------

/// Where a client-side handshake stands.
#[derive(Clone, Copy, Debug, PartialEq, Eq, Structural)]
pub enum ClientState {
    /// The connection request may be sent; no challenge seen yet.
    Connecting,
    /// The challenge arrived and the response went out.
    Authenticating,
    /// Finished: accepted or refused.
    Terminal,
}

/// What the client should do after one server frame.
pub enum ClientStep {
    /// Send this signed challenge response.
    SendResponse(Vec<u8>),
    /// The server accepted; the session keys are derived.
    Done(Vec<u8>, Vec<u8>),
    /// The server refused with this message.
    Refused(Vec<u8>),
}

/// What one signed server frame amounts to on the client side: the
/// wrapper must parse, the server's signature must verify under the
/// server signing key on record, the payload must parse, and a
/// challenge must carry a 32-byte key-exchange key.
pub enum ClientOutcome {
    /// The frame is not a signed, well-formed server message.
    Malformed,
    /// The server's signature does not verify.
    BadServerSignature,
    /// A challenge whose key-exchange public key is not 32 bytes.
    BadChallengeKey,
    /// A well-formed challenge.
    Challenge(ServerChallengeView),
    /// The server accepted.
    Accepted,
    /// The server refused with this message.
    Refused(Seq<u8>),
}

/// The client's decision on one server frame.
pub open spec fn spec_client_outcome(frame: Seq<u8>, server_sign_pk: Seq<u8>) -> ClientOutcome {
    match spec_parse_signed_message(frame) {
        None => ClientOutcome::Malformed,
        Some(sm) => {
            if !spec_sig_accepts(sm.signature, sm.data, server_sign_pk) {
                ClientOutcome::BadServerSignature
            } else {
                match crate::proto::spec_parse_server_message(sm.data) {
                    None => ClientOutcome::Malformed,
                    Some(msg) => match msg {
                        ServerMessageView::Challenge(c) => {
                            if c.kx_server_pk.len() == 32 {
                                ClientOutcome::Challenge(c)
                            } else {
                                ClientOutcome::BadChallengeKey
                            }
                        },
                        ServerMessageView::Accepted => ClientOutcome::Accepted,
                        ServerMessageView::Refused(m) => ClientOutcome::Refused(m),
                    },
                }
            }
        },
    }
}

/// One client-side handshake in progress.
pub struct ClientHandshake {
    pub sign_sk: Vec<u8>,
    pub server_sign_pk: Vec<u8>,
    pub client_nonce: Vec<u8>,
    pub kx_pk: Vec<u8>,
    pub kx_sk: Vec<u8>,
    pub message: Vec<u8>,
    pub server_kx_pk: Vec<u8>,
    pub state: ClientState,
}

impl ClientHandshake {
    pub open spec fn wf(&self) -> bool {
        &&& self.sign_sk@.len() == 64
        &&& self.server_sign_pk@.len() == 32
        &&& self.client_nonce@.len() == 32
        &&& self.kx_pk@.len() == 32
        &&& self.kx_sk@.len() == 32
    }

    pub open spec fn same_keys(&self, other: &Self) -> bool {
        &&& self.sign_sk@ == other.sign_sk@
        &&& self.server_sign_pk@ == other.server_sign_pk@
        &&& self.client_nonce@ == other.client_nonce@
        &&& self.kx_pk@ == other.kx_pk@
        &&& self.kx_sk@ == other.kx_sk@
        &&& self.message@ == other.message@
    }

    /// Start a handshake: draw a fresh client nonce and key-exchange
    /// keypair. The handshake is mutually signed, so the client holds
    /// the server's signing public key and verifies every server frame
    /// against it. `message` is the opaque token for the router.
    pub fn new(sign_sk: Vec<u8>, server_sign_pk: Vec<u8>, message: Vec<u8>) -> (r: Self)
        requires
            sign_sk@.len() == 64,
            server_sign_pk@.len() == 32,
        ensures
            r.wf(),
            r.state == ClientState::Connecting,
            r.sign_sk@ == sign_sk@,
            r.server_sign_pk@ == server_sign_pk@,
            r.message@ == message@,
    {
        let client_nonce = random_nonce();
        let (kx_pk, kx_sk) = kx_gen_keypair();
        ClientHandshake {
            sign_sk,
            server_sign_pk,
            client_nonce,
            kx_pk,
            kx_sk,
            message,
            server_kx_pk: Vec::new(),
            state: ClientState::Connecting,
        }
    }

    /// The signed connection request: this handshake's nonce and token.
    pub fn encode_connection_request(&self) -> (r: Vec<u8>)
        requires
            self.wf(),
        ensures
            r@ == spec_signed_payload(
                spec_connection_request_bytes(
                    (ConnectionRequestView {
                        client_nonce: self.client_nonce@,
                        message: self.message@,
                    }),
                ),
                self.sign_sk@,
            ),
    {
        let req = ConnectionRequest {
            client_nonce: copy_range(&self.client_nonce, 0, self.client_nonce.len()),
            message: copy_range(&self.message, 0, self.message.len()),
        };
        assert(req.client_nonce@ =~= self.client_nonce@);
        assert(req.message@ =~= self.message@);
        sign_frame(req.to_bytes(), &self.sign_sk)
    }

    /// Handle one signed server frame.
    ///
    /// A frame that does not parse, or whose server signature does not
    /// verify, or that accepts before any challenge, aborts with the
    /// state unchanged; a challenge carrying a key-exchange key of the
    /// wrong length fails at once as a cryptographic error. A good
    /// challenge stores the server's key-exchange key and answers with
    /// the signed echo; an acceptance derives the session keys; a
    /// refusal reports the server's message.
    pub fn handle_message(&mut self, frame: &Vec<u8>) -> (r: Result<ClientStep, HandshakeError>)
        requires
            old(self).wf(),
        ensures
            final(self).wf(),
            final(self).same_keys(old(self)),
            match spec_client_outcome(frame@, old(self).server_sign_pk@) {
                ClientOutcome::Malformed => r matches Err(e) && e
                    == HandshakeError::ProtocolViolation && *final(self) == *old(self),
                ClientOutcome::BadServerSignature => r matches Err(e) && e
                    == HandshakeError::Cryptographic && *final(self) == *old(self),
                ClientOutcome::BadChallengeKey => r matches Err(e) && e
                    == HandshakeError::Cryptographic && *final(self) == *old(self),
                ClientOutcome::Challenge(c) => {
                    &&& r matches Ok(step) && step matches ClientStep::SendResponse(b) && b@
                        == spec_signed_payload(
                        spec_challenge_response_bytes(
                            (ChallengeResponseView {
                                server_nonce: c.server_nonce,
                                kx_client_pk: old(self).kx_pk@,
                            }),
                        ),
                        old(self).sign_sk@,
                    )
                    &&& final(self).state == ClientState::Authenticating
                    &&& final(self).server_kx_pk@ == c.kx_server_pk
                },
                ClientOutcome::Accepted => {
                    if old(self).state == ClientState::Authenticating {
                        &&& (r is Err <==> !(old(self).server_kx_pk@.len() == 32 && kx_acceptable(
                            old(self).server_kx_pk@,
                        )))
                        &&& match r {
                            Err(e) => e == HandshakeError::Cryptographic && *final(self) == *old(
                                self,
                            ),
                            Ok(step) => step matches ClientStep::Done(rx, tx) && (rx@, tx@)
                                == kx_client_keys_of(
                                old(self).kx_pk@,
                                old(self).kx_sk@,
                                old(self).server_kx_pk@,
                            ) && final(self).state == ClientState::Terminal,
                        }
                    } else {
                        r matches Err(e) && e == HandshakeError::ProtocolViolation && *final(self)
                            == *old(self)
                    }
                },
                ClientOutcome::Refused(m) => r matches Ok(step) && step matches ClientStep::Refused(
                    rm,
                ) && rm@ == m && final(self).state == ClientState::Terminal,
            },
    {
        let sm = match SignedMessage::from_bytes(frame) {
            None => {
                return Err(HandshakeError::ProtocolViolation);
            },
            Some(sm) => sm,
        };
        if !verify_payload(&sm.signature, &sm.data, &self.server_sign_pk) {
            return Err(HandshakeError::Cryptographic);
        }
        let msg = match ServerMessage::from_bytes(&sm.data) {
            None => {
                return Err(HandshakeError::ProtocolViolation);
            },
            Some(msg) => msg,
        };
        match msg {
            ServerMessage::Challenge(c) => {
                if c.kx_server_pk.len() != 32 {
                    return Err(HandshakeError::Cryptographic);
                }
                let resp = ChallengeResponse {
                    server_nonce: c.server_nonce,
                    kx_client_pk: copy_range(&self.kx_pk, 0, self.kx_pk.len()),
                };
                assert(resp.kx_client_pk@ =~= self.kx_pk@);
                let out = sign_frame(resp.to_bytes(), &self.sign_sk);
                self.server_kx_pk = c.kx_server_pk;
                self.state = ClientState::Authenticating;
                Ok(ClientStep::SendResponse(out))
            },
            ServerMessage::Accepted => {
                match self.state {
                    ClientState::Authenticating => {
                        let keys = match kx_client_session(
                            &self.kx_pk,
                            &self.kx_sk,
                            &self.server_kx_pk,
                        ) {
                            None => {
                                return Err(HandshakeError::Cryptographic);
                            },
                            Some(keys) => keys,
                        };
                        self.state = ClientState::Terminal;
                        Ok(ClientStep::Done(keys.0, keys.1))
                    },
                    _ => Err(HandshakeError::ProtocolViolation),
                }
            },
            ServerMessage::Refused(m) => {
                self.state = ClientState::Terminal;
                Ok(ClientStep::Refused(m))
            },
        }
    }
}

} // verus!
