//! The match controller.
//!
//! The bridge between the clients and the game rules: client events are
//! routed into the step-lock, and once every expected client has
//! resolved, the turn's commands are taken out for the game-rules
//! stepper. Readiness is evaluated after every event; no further client
//! message is needed to admit a ready turn.

use vstd::prelude::*;
use crate::connection::Message;
use crate::steplock::StepLock;
use crate::steplock::spec_has_id;
use crate::steplock::spec_has_cmd;
use crate::steplock::spec_cmd_of;
use crate::steplock::spec_cmds;
use crate::steplock::spec_ids_unique;

verus! {

/// One participant of a match.
pub struct Client {
    pub id: usize,
    pub player_name: String,
}

/// The controller: the turn barrier it drives.
pub struct Controller {
    pub lock: StepLock,
}

impl Controller {
    /// A controller awaiting one response from each client.
    pub fn new(clients: &Vec<Client>) -> (r: Self)
        requires
            spec_ids_unique(clients@.map(|i: int, c: Client| c.id)),
        ensures
            r.lock.wf(),
            r.lock.expected() == clients@.map(|i: int, c: Client| c.id),
            r.lock.pending() == clients@.map(|i: int, c: Client| c.id),
            r.lock.collected() == Seq::<(usize, Seq<u8>)>::empty(),
            r.lock.generation() == 0,
    {
        let mut ids: Vec<usize> = Vec::new();
        let mut i: usize = 0;
        while i < clients.len()
            invariant
                i <= clients@.len(),
                ids@ == clients@.map(|k: int, c: Client| c.id).take(i as int),
            decreases clients@.len() - i,
        {
            ids.push(clients[i].id);
            assert(clients@.map(|k: int, c: Client| c.id).take(i + 1) == clients@.map(
                |k: int, c: Client| c.id,
            ).take(i as int).push(clients@[i as int].id));
            i += 1;
        }
        assert(ids@ =~= clients@.map(|k: int, c: Client| c.id));
        Controller { lock: StepLock::new(ids) }
    }

    /// Route one client event into the step-lock: a payload attaches
    /// the client's command, a connect admits the client, a disconnect
    /// retires it. Each clause mirrors the step-lock operation it
    /// invokes; nothing else about the lock changes.
    pub fn handle_message(&mut self, client_id: usize, msg: Message)
        requires
            old(self).lock.wf(),
        ensures
            final(self).lock.wf(),
            final(self).lock.generation() == old(self).lock.generation(),
            msg matches Message::Data(d) ==> {
                &&& final(self).lock.expected() == old(self).lock.expected()
                &&& (!spec_has_id(old(self).lock.pending(), client_id) ==> final(self).lock.pending() == old(self).lock.pending() && final(self).lock.collected()
                    == old(self).lock.collected())
                &&& (spec_has_id(old(self).lock.pending(), client_id) ==> {
                    &&& (forall|x: usize| #[trigger]
                        spec_has_id(final(self).lock.pending(), x) == (spec_has_id(
                            old(self).lock.pending(),
                            x,
                        ) && x != client_id))
                    &&& final(self).lock.collected() == old(self).lock.collected().push(
                        (client_id, d@),
                    )
                    &&& spec_has_cmd(final(self).lock.collected(), client_id)
                    &&& spec_cmd_of(final(self).lock.collected(), client_id) == d@
                })
            },
            msg is Connected ==> {
                &&& final(self).lock.collected() == old(self).lock.collected()
                &&& (spec_has_id(old(self).lock.expected(), client_id) ==> final(self).lock.expected() == old(self).lock.expected() && final(self).lock.pending()
                    == old(self).lock.pending())
                &&& (!spec_has_id(old(self).lock.expected(), client_id) ==> final(self).lock.expected() == old(self).lock.expected().push(client_id) && final(self).lock.pending() == old(self).lock.pending().push(client_id))
            },
            msg is Disconnected ==> {
                &&& (forall|x: usize| #[trigger]
                    spec_has_id(final(self).lock.expected(), x) == (spec_has_id(
                        old(self).lock.expected(),
                        x,
                    ) && x != client_id))
                &&& (forall|x: usize| #[trigger]
                    spec_has_id(final(self).lock.pending(), x) == (spec_has_id(
                        old(self).lock.pending(),
                        x,
                    ) && x != client_id))
                &&& (forall|x: usize| #[trigger]
                    spec_has_cmd(final(self).lock.collected(), x) == (spec_has_cmd(
                        old(self).lock.collected(),
                        x,
                    ) && x != client_id))
                &&& (forall|x: usize|
                    x != client_id && spec_has_cmd(old(self).lock.collected(), x)
                        ==> #[trigger] spec_cmd_of(final(self).lock.collected(), x) == spec_cmd_of(
                        old(self).lock.collected(),
                        x,
                    ))
            },
    {
        match msg {
            Message::Data(d) => {
                self.lock.attach_command(client_id, d);
            },
            Message::Connected => {
                self.lock.connect(client_id);
            },
            Message::Disconnected => {
                self.lock.disconnect(client_id);
            },
        }
    }

    /// Step the turn if every expected client has resolved: the turn's
    /// commands come out, the barrier rearms. Not ready means no change.
    pub fn try_step(&mut self) -> (r: Option<Vec<(usize, Vec<u8>)>>)
        requires
            old(self).lock.wf(),
            old(self).lock.generation() < u64::MAX,
        ensures
            final(self).lock.wf(),
            r is Some <==> old(self).lock.pending().len() == 0,
            r matches Some(cmds) ==> {
                &&& spec_cmds(cmds@) == old(self).lock.collected()
                &&& final(self).lock.generation() == old(self).lock.generation() + 1
                &&& final(self).lock.expected() == old(self).lock.expected()
                &&& final(self).lock.pending() == old(self).lock.expected()
                &&& final(self).lock.collected() == Seq::<(usize, Seq<u8>)>::empty()
            },
            r is None ==> *final(self) == *old(self),
    {
        if self.lock.is_ready() {
            Some(self.lock.do_step())
        } else {
            None
        }
    }

    /// The deadline fired: outstanding clients become empty responses,
    /// commands already attached stand untouched.
    pub fn deadline(&mut self)
        requires
            old(self).lock.wf(),
        ensures
            final(self).lock.wf(),
            final(self).lock.expected() == old(self).lock.expected(),
            final(self).lock.generation() == old(self).lock.generation(),
            final(self).lock.pending().len() == 0,
            forall|x: usize| #[trigger]
                spec_has_cmd(final(self).lock.collected(), x) == (spec_has_cmd(
                    old(self).lock.collected(),
                    x,
                ) || spec_has_id(old(self).lock.pending(), x)),
            forall|x: usize|
                spec_has_cmd(old(self).lock.collected(), x) ==> #[trigger] spec_cmd_of(
                    final(self).lock.collected(),
                    x,
                ) == spec_cmd_of(old(self).lock.collected(), x),
            forall|x: usize|
                spec_has_id(old(self).lock.pending(), x) ==> #[trigger] spec_cmd_of(
                    final(self).lock.collected(),
                    x,
                ) == Seq::<u8>::empty(),
    {
        self.lock.force_ready();
    }
}

} // verus!
