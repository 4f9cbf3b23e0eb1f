//! A verified message-routing runtime for a turn-locked game server.
//!
//! The crate models the core of the server: the length-prefixed frame
//! codec, the handshake wire schemas and state machines, the broker that
//! routes envelopes between actors, the reactor/link dispatch rules, the
//! step-lock turn barrier, and the routing table that binds authenticated
//! transports to client controllers. The surrounding I/O — sockets,
//! timers, task scheduling — stays outside; everything here is plain
//! values in, plain values out, with the cryptographic primitives behind
//! thin trusted bindings.

use vstd::prelude::*;

pub mod broker;
pub mod connection;
pub mod controller;
mod crypto;
pub mod frames;
pub mod handshake;
pub mod ident;
pub mod proto;
pub mod pw;
pub mod reactor;
pub mod router;
pub mod session;
pub mod steplock;
pub mod welcomer;
pub mod wire;

verus! {

} // verus!
