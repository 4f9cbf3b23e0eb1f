//! Trusted bindings to the cryptographic primitives.
//!
//! Everything here is believed, not proved: each function wraps one call
//! into an outside crate and states only what that crate's source and
//! documentation show. Detached signatures and key-exchange session keys
//! are deterministic functions of their inputs, so their results are
//! named by uninterpreted spec functions; random values get no name, only
//! their lengths.

use vstd::prelude::*;

verus! {

/// The detached ed25519 signature of `m` under the 64-byte secret key
/// `sk`.
pub uninterp spec fn sig_of(m: Seq<u8>, sk: Seq<u8>) -> Seq<u8>;

/// Whether `sig` is a valid detached ed25519 signature of `m` under the
/// 32-byte public key `pk`.
pub uninterp spec fn sig_ok(sig: Seq<u8>, m: Seq<u8>, pk: Seq<u8>) -> bool;

/// Whether a verifier accepts `sig` for `m` under `pk`: the lengths are
/// right and the signature is valid.
pub open spec fn spec_sig_accepts(sig: Seq<u8>, m: Seq<u8>, pk: Seq<u8>) -> bool {
    sig.len() == 64 && pk.len() == 32 && sig_ok(sig, m, pk)
}

/// Whether the key exchange accepts this 32-byte peer public key: the
/// underlying scalar multiplication rejects degenerate points, and that
/// rejection depends on the peer key alone.
pub uninterp spec fn kx_acceptable(pk: Seq<u8>) -> bool;

/// The (rx, tx) session keys the client role derives from its keypair
/// and the server's key-exchange public key.
pub uninterp spec fn kx_client_keys_of(
    client_pk: Seq<u8>,
    client_sk: Seq<u8>,
    server_pk: Seq<u8>,
) -> (Seq<u8>, Seq<u8>);

/// The (rx, tx) session keys the server role derives from its keypair
/// and the client's key-exchange public key.
pub uninterp spec fn kx_server_keys_of(
    server_pk: Seq<u8>,
    server_sk: Seq<u8>,
    client_pk: Seq<u8>,
) -> (Seq<u8>, Seq<u8>);

/// Relies on rand::fill over the thread-local generator: 32 fresh random
/// bytes. Nothing is promised of the values.
#[verifier::external_body]
pub(crate) fn random_nonce() -> (r: Vec<u8>)
    ensures
        r@.len() == 32,
{
    let mut buf = [0u8; 32];
    rand::fill(&mut buf[..]);
    buf.to_vec()
}

/// Relies on sodiumoxide's crypto_kx gen_keypair: a fresh x25519 keypair,
/// public and secret key of 32 bytes each. Nothing is promised of the
/// values.
#[verifier::external_body]
pub(crate) fn kx_gen_keypair() -> (r: (Vec<u8>, Vec<u8>))
    ensures
        r.0@.len() == 32,
        r.1@.len() == 32,
{
    let (pk, sk) = sodiumoxide::crypto::kx::gen_keypair();
    (pk.as_ref().to_vec(), sk[..].to_vec())
}

/// Relies on sodiumoxide's crypto_sign sign_detached: the 64-byte
/// detached signature, a function of the message and the secret key
/// alone. Fails exactly when the key is not 64 bytes.
#[verifier::external_body]
pub(crate) fn sign_payload(m: &Vec<u8>, sk: &Vec<u8>) -> (r: Option<Vec<u8>>)
    ensures
        r is Some <==> sk@.len() == 64,
        r matches Some(s) ==> s@ == sig_of(m@, sk@) && s@.len() == 64,
{
    let key = sodiumoxide::crypto::sign::SecretKey::from_slice(sk)?;
    let sig = sodiumoxide::crypto::sign::sign_detached(m, &key);
    Some(sig.to_bytes().to_vec())
}

/// Relies on sodiumoxide's crypto_sign verify_detached: true exactly when
/// `sig` is a valid detached signature of `m` under `pk`. A signature or
/// key of the wrong length verifies as false.
#[verifier::external_body]
pub(crate) fn verify_payload(sig: &Vec<u8>, m: &Vec<u8>, pk: &Vec<u8>) -> (r: bool)
    ensures
        sig@.len() == 64 && pk@.len() == 32 ==> r == sig_ok(sig@, m@, pk@),
        !(sig@.len() == 64 && pk@.len() == 32) ==> r == false,
{
    let key = match sodiumoxide::crypto::sign::PublicKey::from_slice(pk) {
        Some(key) => key,
        None => return false,
    };
    let signature = match sodiumoxide::crypto::sign::ed25519::Signature::from_bytes(sig) {
        Ok(signature) => signature,
        Err(_) => return false,
    };
    sodiumoxide::crypto::sign::verify_detached(&signature, m, &key)
}

/// Relies on sodiumoxide's crypto_kx client_session_keys: the (rx, tx)
/// pair, a function of the three keys alone; 32 bytes each. Fails
/// exactly on a key of the wrong length or a server public key the
/// scalar multiplication rejects.
#[verifier::external_body]
pub(crate) fn kx_client_session(
    client_pk: &Vec<u8>,
    client_sk: &Vec<u8>,
    server_pk: &Vec<u8>,
) -> (r: Option<(Vec<u8>, Vec<u8>)>)
    ensures
        r is Some <==> (client_pk@.len() == 32 && client_sk@.len() == 32 && server_pk@.len() == 32
            && kx_acceptable(server_pk@)),
        r matches Some(k) ==> {
            &&& (k.0@, k.1@) == kx_client_keys_of(client_pk@, client_sk@, server_pk@)
            &&& k.0@.len() == 32
            &&& k.1@.len() == 32
        },
{
    let cpk = sodiumoxide::crypto::kx::PublicKey::from_slice(client_pk)?;
    let csk = sodiumoxide::crypto::kx::SecretKey::from_slice(client_sk)?;
    let spk = sodiumoxide::crypto::kx::PublicKey::from_slice(server_pk)?;
    let (rx, tx) = sodiumoxide::crypto::kx::client_session_keys(&cpk, &csk, &spk).ok()?;
    Some((rx[..].to_vec(), tx[..].to_vec()))
}

/// Relies on sodiumoxide's crypto_kx server_session_keys: the (rx, tx)
/// pair, a function of the three keys alone; 32 bytes each. Fails
/// exactly on a key of the wrong length or a client public key the
/// scalar multiplication rejects.
#[verifier::external_body]
pub(crate) fn kx_server_session(
    server_pk: &Vec<u8>,
    server_sk: &Vec<u8>,
    client_pk: &Vec<u8>,
) -> (r: Option<(Vec<u8>, Vec<u8>)>)
    ensures
        r is Some <==> (server_pk@.len() == 32 && server_sk@.len() == 32 && client_pk@.len() == 32
            && kx_acceptable(client_pk@)),
        r matches Some(k) ==> {
            &&& (k.0@, k.1@) == kx_server_keys_of(server_pk@, server_sk@, client_pk@)
            &&& k.0@.len() == 32
            &&& k.1@.len() == 32
        },
{
    let spk = sodiumoxide::crypto::kx::PublicKey::from_slice(server_pk)?;
    let ssk = sodiumoxide::crypto::kx::SecretKey::from_slice(server_sk)?;
    let cpk = sodiumoxide::crypto::kx::PublicKey::from_slice(client_pk)?;
    let (rx, tx) = sodiumoxide::crypto::kx::server_session_keys(&spk, &ssk, &cpk).ok()?;
    Some((rx[..].to_vec(), tx[..].to_vec()))
}

/// The ciphertext of the authenticated cipher over a message, a 24-byte
/// nonce and a 32-byte key.
pub uninterp spec fn sealed_of(m: Seq<u8>, nonce: Seq<u8>, key: Seq<u8>) -> Seq<u8>;

/// What opening a ciphertext under a nonce and key yields: the
/// plaintext, or nothing when authentication fails.
pub uninterp spec fn opened_of(c: Seq<u8>, nonce: Seq<u8>, key: Seq<u8>) -> Option<Seq<u8>>;

/// Relies on sodiumoxide's crypto_secretbox seal: the ciphertext is a
/// function of the message, nonce and key alone, and is the message
/// plus a 16-byte tag. Fails exactly on a nonce or key of the wrong
/// length.
#[verifier::external_body]
pub(crate) fn seal_box(m: &Vec<u8>, nonce: &Vec<u8>, key: &Vec<u8>) -> (r: Option<Vec<u8>>)
    ensures
        r is Some <==> (nonce@.len() == 24 && key@.len() == 32),
        r matches Some(c) ==> c@ == sealed_of(m@, nonce@, key@) && c@.len() == m@.len() + 16,
{
    let n = sodiumoxide::crypto::secretbox::Nonce::from_slice(nonce)?;
    let k = sodiumoxide::crypto::secretbox::Key::from_slice(key)?;
    Some(sodiumoxide::crypto::secretbox::seal(m, &n, &k))
}

/// Relies on sodiumoxide's crypto_secretbox open: what it yields is a
/// function of the ciphertext, nonce and key alone; a recovered
/// plaintext is 16 bytes shorter than its ciphertext. Wrong lengths
/// open as nothing.
#[verifier::external_body]
pub(crate) fn open_box(c: &Vec<u8>, nonce: &Vec<u8>, key: &Vec<u8>) -> (r: Option<Vec<u8>>)
    ensures
        r matches Some(m) ==> opened_of(c@, nonce@, key@) == Some(m@) && m@.len() + 16 == c@.len(),
        (r is None && nonce@.len() == 24 && key@.len() == 32) ==> opened_of(c@, nonce@, key@) is None,
{
    let n = match sodiumoxide::crypto::secretbox::Nonce::from_slice(nonce) {
        Some(n) => n,
        None => return None,
    };
    let k = match sodiumoxide::crypto::secretbox::Key::from_slice(key) {
        Some(k) => k,
        None => return None,
    };
    sodiumoxide::crypto::secretbox::open(c, &n, &k).ok()
}

} // verus!
