//! The connection controller.
//!
//! One controller binds one authenticated transport to one client
//! identity. Inbound frames become `Data` messages toward the game;
//! outbound sends are queued and drained whenever a transport is
//! attached; a transport loss detaches the controller without losing the
//! identity or the queue, and a later connect resumes with both intact.

use vstd::prelude::*;

verus! {

/// What the bound game receives about one client.
pub struct ClientMessage {
    pub client_id: usize,
    pub message: Message,
}

/// One event on a client connection.
pub enum Message {
    /// A payload frame arrived from the client.
    Data(Vec<u8>),
    /// A transport is attached and the client is reachable.
    Connected,
    /// The transport was lost.
    Disconnected,
}

/// A command toward the controller.
pub enum Command {
    /// Queue these bytes for the client.
    Send(Vec<u8>),
    /// A fresh transport replaces the current one.
    Connect,
}

/// Whether a transport is currently attached.
#[derive(Clone, Copy, Debug, PartialEq, Eq, Structural)]
pub enum ConnectionState {
    Attached,
    Detached,
}

/// The view of the outbound queue.
pub open spec fn spec_queue(q: Seq<Vec<u8>>) -> Seq<Seq<u8>> {
    q.map(|i: int, v: Vec<u8>| v@)
}

/// The controller: the bound identity, the attachment state, and the
/// queue of not-yet-flushed outbound payloads, oldest first.
pub struct ClientController {
    pub client_id: usize,
    pub state: ConnectionState,
    pub outbound: Vec<Vec<u8>>,
}

impl ClientController {
    pub open spec fn state(&self) -> ConnectionState {
        self.state
    }

    pub open spec fn outbound(&self) -> Seq<Seq<u8>> {
        spec_queue(self.outbound@)
    }

    /// A controller bound to `client_id` with a freshly attached
    /// transport and nothing queued.
    pub fn new(client_id: usize) -> (r: Self)
        ensures
            r.client_id == client_id,
            r.state() == ConnectionState::Attached,
            r.outbound() == Seq::<Seq<u8>>::empty(),
    {
        let r = ClientController {
            client_id,
            state: ConnectionState::Attached,
            outbound: Vec::new(),
        };
        assert(r.outbound() =~= Seq::<Seq<u8>>::empty());
        r
    }

    /// Queue one payload for the client; kept across a detach.
    pub fn queue_send(&mut self, data: Vec<u8>)
        ensures
            final(self).client_id == old(self).client_id,
            final(self).state() == old(self).state(),
            final(self).outbound() == old(self).outbound().push(data@),
    {
        let ghost d = data@;
        self.outbound.push(data);
        assert(self.outbound() =~= old(self).outbound().push(d));
    }

    /// A new transport is attached; the queue survives so that sends
    /// issued while detached are delivered on the new transport.
    pub fn connect(&mut self) -> (r: ClientMessage)
        ensures
            final(self).client_id == old(self).client_id,
            final(self).state() == ConnectionState::Attached,
            final(self).outbound() == old(self).outbound(),
            r.client_id == old(self).client_id,
            r.message is Connected,
    {
        self.state = ConnectionState::Attached;
        ClientMessage { client_id: self.client_id, message: Message::Connected }
    }

    /// The transport was lost; the identity and the queue stay.
    pub fn disconnect(&mut self) -> (r: ClientMessage)
        ensures
            final(self).client_id == old(self).client_id,
            final(self).state() == ConnectionState::Detached,
            final(self).outbound() == old(self).outbound(),
            r.client_id == old(self).client_id,
            r.message is Disconnected,
    {
        self.state = ConnectionState::Detached;
        ClientMessage { client_id: self.client_id, message: Message::Disconnected }
    }

    /// Wrap one inbound frame for the game.
    pub fn handle_client_frame(&self, bytes: Vec<u8>) -> (r: ClientMessage)
        ensures
            r.client_id == self.client_id,
            r.message matches Message::Data(d) && d@ == bytes@,
    {
        ClientMessage { client_id: self.client_id, message: Message::Data(bytes) }
    }

    /// Drain the outbound queue toward the attached transport, oldest
    /// first.
    pub fn take_outbound(&mut self) -> (r: Vec<Vec<u8>>)
        requires
            old(self).state() == ConnectionState::Attached,
        ensures
            final(self).client_id == old(self).client_id,
            final(self).state() == old(self).state(),
            final(self).outbound() == Seq::<Seq<u8>>::empty(),
            spec_queue(r@) == old(self).outbound(),
    {
        let mut r: Vec<Vec<u8>> = Vec::new();
        core::mem::swap(&mut r, &mut self.outbound);
        assert(self.outbound() =~= Seq::<Seq<u8>>::empty());
        r
    }

    /// Apply one command: queue a send, or attach a new transport.
    pub fn handle_command(&mut self, cmd: Command) -> (r: Option<ClientMessage>)
        ensures
            final(self).client_id == old(self).client_id,
            cmd matches Command::Send(d) ==> {
                &&& final(self).outbound() == old(self).outbound().push(d@)
                &&& final(self).state() == old(self).state()
                &&& r is None
            },
            cmd is Connect ==> {
                &&& final(self).outbound() == old(self).outbound()
                &&& final(self).state() == ConnectionState::Attached
                &&& r matches Some(m) && m.client_id == old(self).client_id
                    && m.message is Connected
            },
    {
        match cmd {
            Command::Send(data) => {
                self.queue_send(data);
                None
            },
            Command::Connect => Some(self.connect()),
        }
    }
}

} // verus!
