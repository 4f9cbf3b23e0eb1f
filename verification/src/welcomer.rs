//! The welcomer: the runtime's demo reactor.
//!
//! On `initialize` it links to the runtime and listens for joiners; a
//! joined actor announced by the runtime is reflected internally, then
//! greeted over a fresh link with a "hello"; once a greeting comes back
//! over such a link, the link is closed.

use vstd::prelude::*;
use crate::ident::Uuid;
use crate::ident::spec_uuid_bytes;
use crate::ident::spec_uuid_of_bytes;
use crate::ident::uuid_of_bytes;
use crate::proto::Message;
use crate::proto::MessageView;
use crate::reactor::Reactor;
use crate::reactor::Dispatch;
use crate::reactor::spec_dispatch;
use crate::reactor::spec_close_link;
use crate::reactor::spec_find_link;
use crate::reactor::LinkView;
use crate::reactor::LinkState;
use crate::reactor::kind_initialize;
use crate::reactor::kind_actor_joined;
use crate::reactor::kind_greeting;
use crate::reactor::spec_kind_actor_joined;
use crate::reactor::spec_kind_greeting;
use crate::reactor::spec_kind_initialize;
use crate::reactor::spec_kind_link_closed;
use crate::wire::bytes_eq;
use crate::wire::copy_range;

verus! {

/// The greeting text: "hello", as ASCII bytes.
pub open spec fn spec_hello() -> Seq<u8> {
    seq![104u8, 101, 108, 108, 111]
}

/// Executable form of `spec_hello`.
pub fn hello_bytes() -> (r: Vec<u8>)
    ensures
        r@ == spec_hello(),
{
    let r: Vec<u8> = vec![104u8, 101, 108, 108, 111];
    assert(r@ =~= spec_hello());
    r
}

/// The demo reactor: greets whoever the runtime announces.
pub struct Welcomer {
    pub reactor: Reactor,
    pub runtime_id: Uuid,
}

impl Welcomer {
    pub open spec fn wf(&self) -> bool {
        self.reactor.wf()
    }

    /// A welcomer whose frozen internal table registers exactly the
    /// kinds `initialize` and `actor_joined`.
    pub fn new(id: Uuid, runtime_id: Uuid) -> (r: Self)
        ensures
            r.wf(),
            r.reactor@.id == id,
            r.runtime_id == runtime_id,
            r.reactor@.links == Seq::<LinkView>::empty(),
            r.reactor@.internal_kinds == seq![spec_kind_initialize(), spec_kind_actor_joined()],
    {
        let mut kinds: Vec<Vec<u8>> = Vec::new();
        kinds.push(kind_initialize());
        kinds.push(kind_actor_joined());
        let r = Welcomer { reactor: Reactor::new(id, kinds), runtime_id };
        assert(r.reactor@.internal_kinds =~= seq![
            spec_kind_initialize(),
            spec_kind_actor_joined(),
        ]);
        r
    }

    /// The `initialize` handler: link to the runtime and announce.
    fn on_initialize(&mut self) -> (out: Vec<Message>)
        requires
            old(self).wf(),
        ensures
            final(self).wf(),
            final(self).runtime_id == old(self).runtime_id,
            final(self).reactor@.id == old(self).reactor@.id,
            spec_find_link(old(self).reactor@.links, old(self).runtime_id) is None ==> out@.len()
                == 1 && out@[0]@ == (MessageView {
                sender: old(self).reactor@.id,
                receiver: old(self).runtime_id,
                kind: spec_kind_actor_joined(),
                payload: spec_uuid_bytes(old(self).reactor@.id),
            }) && final(self).reactor@.links == old(self).reactor@.links.push(
                (LinkView {
                    foreign: old(self).runtime_id,
                    external_kinds: seq![spec_kind_actor_joined()],
                    state: LinkState::Open,
                }),
            ),
            spec_find_link(old(self).reactor@.links, old(self).runtime_id) is Some ==> out@.len()
                == 0 && final(self).reactor@.links == old(self).reactor@.links,
    {
        let mut ext: Vec<Vec<u8>> = Vec::new();
        ext.push(kind_actor_joined());
        assert(crate::reactor::spec_kinds(ext@) =~= seq![spec_kind_actor_joined()]);
        let mut out: Vec<Message> = Vec::new();
        match self.reactor.open_link(self.runtime_id, ext, true) {
            None => {},
            Some(m) => {
                out.push(m);
            },
        }
        out
    }

    /// The `actor_joined` handler: link to the joiner and greet it.
    fn on_welcome(&mut self, id: Uuid) -> (out: Vec<Message>)
        requires
            old(self).wf(),
        ensures
            final(self).wf(),
            final(self).runtime_id == old(self).runtime_id,
            final(self).reactor@.id == old(self).reactor@.id,
            spec_find_link(old(self).reactor@.links, id) is None ==> {
                &&& out@.len() == 1
                &&& out@[0]@ == (MessageView {
                    sender: old(self).reactor@.id,
                    receiver: id,
                    kind: spec_kind_greeting(),
                    payload: spec_hello(),
                })
                &&& final(self).reactor@.links == old(self).reactor@.links.push(
                    (LinkView {
                        foreign: id,
                        external_kinds: seq![spec_kind_greeting()],
                        state: LinkState::Open,
                    }),
                )
                &&& spec_find_link(final(self).reactor@.links, id) is Some
            },
            spec_find_link(old(self).reactor@.links, id) is Some ==> out@.len() == 0 && final(self).reactor@.links == old(self).reactor@.links,
    {
        let mut out: Vec<Message> = Vec::new();
        if self.reactor.has_link(id) {
            return out;
        }
        let mut ext: Vec<Vec<u8>> = Vec::new();
        ext.push(kind_greeting());
        assert(crate::reactor::spec_kinds(ext@) =~= seq![spec_kind_greeting()]);
        self.reactor.open_link(id, ext, false);
        proof {
            assert(spec_find_link(self.reactor@.links, id) is Some) by {
                let n = self.reactor@.links.len() - 1;
                assert(self.reactor@.links[n].foreign == id);
            }
        }
        let m = Message {
            sender: self.reactor.id,
            receiver: id,
            kind: kind_greeting(),
            payload: hello_bytes(),
        };
        out.push(m);
        out
    }

    /// A greeting arrived over a greeter link: close the link.
    fn on_greeting(&mut self, foreign: Uuid) -> (out: Vec<Message>)
        requires
            old(self).wf(),
        ensures
            final(self).wf(),
            final(self).runtime_id == old(self).runtime_id,
            final(self).reactor@.id == old(self).reactor@.id,
            final(self).reactor@.links == spec_close_link(old(self).reactor@.links, foreign).0,
            spec_close_link(old(self).reactor@.links, foreign).1 ==> out@.len() == 2 && out@[0]@
                == (MessageView {
                sender: old(self).reactor@.id,
                receiver: foreign,
                kind: spec_kind_link_closed(),
                payload: spec_uuid_bytes(foreign),
            }) && out@[1]@ == (MessageView {
                sender: old(self).reactor@.id,
                receiver: old(self).reactor@.id,
                kind: spec_kind_link_closed(),
                payload: spec_uuid_bytes(foreign),
            }),
            !spec_close_link(old(self).reactor@.links, foreign).1 ==> out@.len() == 0,
    {
        let mut out: Vec<Message> = Vec::new();
        match self.reactor.close_link(foreign) {
            None => {},
            Some((to_foreign, to_self)) => {
                out.push(to_foreign);
                out.push(to_self);
            },
        }
        out
    }

    /// The runtime announced a joiner: reflect it to this reactor's own
    /// `actor_joined` handler.
    fn on_runtime_joined(&self, payload: &Vec<u8>) -> (r: Message)
        ensures
            r@ == (MessageView {
                sender: self.reactor@.id,
                receiver: self.reactor@.id,
                kind: spec_kind_actor_joined(),
                payload: payload@,
            }),
    {
        let p = copy_range(payload, 0, payload.len());
        assert(p@ =~= payload@);
        Message {
            sender: self.reactor.id,
            receiver: self.reactor.id,
            kind: kind_actor_joined(),
            payload: p,
        }
    }

    /// Handle one inbox message: dispatch it, run the one handler it
    /// selects, and hand back the envelopes to route. An unregistered
    /// message is dropped and changes nothing.
    pub fn handle_message(&mut self, m: &Message) -> (out: Vec<Message>)
        requires
            old(self).wf(),
        ensures
            final(self).wf(),
            final(self).runtime_id == old(self).runtime_id,
            final(self).reactor@.id == old(self).reactor@.id,
            spec_dispatch(old(self).reactor@, m@) == Dispatch::Dropped ==> out@.len() == 0
                && final(self).reactor@.links == old(self).reactor@.links,
            spec_dispatch(old(self).reactor@, m@) == Dispatch::External(m@.sender) && m@.kind
                == spec_kind_greeting() ==> final(self).reactor@.links == spec_close_link(
                old(self).reactor@.links,
                m@.sender,
            ).0 && spec_close_link(old(self).reactor@.links, m@.sender).1 && out@.len() == 2
                && out@[0]@ == (MessageView {
                sender: old(self).reactor@.id,
                receiver: m@.sender,
                kind: spec_kind_link_closed(),
                payload: spec_uuid_bytes(m@.sender),
            }) && out@[1]@ == (MessageView {
                sender: old(self).reactor@.id,
                receiver: old(self).reactor@.id,
                kind: spec_kind_link_closed(),
                payload: spec_uuid_bytes(m@.sender),
            }),
            spec_dispatch(old(self).reactor@, m@) == Dispatch::External(m@.sender) && m@.kind
                == spec_kind_actor_joined() ==> out@.len() == 1 && out@[0]@ == (MessageView {
                sender: old(self).reactor@.id,
                receiver: old(self).reactor@.id,
                kind: spec_kind_actor_joined(),
                payload: m@.payload,
            }) && final(self).reactor@.links == old(self).reactor@.links,
            spec_dispatch(old(self).reactor@, m@) == Dispatch::Internal && m@.kind
                == spec_kind_initialize() && spec_find_link(
                old(self).reactor@.links,
                old(self).runtime_id,
            ) is None ==> out@.len() == 1 && out@[0]@ == (MessageView {
                sender: old(self).reactor@.id,
                receiver: old(self).runtime_id,
                kind: spec_kind_actor_joined(),
                payload: spec_uuid_bytes(old(self).reactor@.id),
            }) && final(self).reactor@.links == old(self).reactor@.links.push(
                (LinkView {
                    foreign: old(self).runtime_id,
                    external_kinds: seq![spec_kind_actor_joined()],
                    state: LinkState::Open,
                }),
            ),
            spec_dispatch(old(self).reactor@, m@) == Dispatch::Internal && m@.kind
                == spec_kind_initialize() && spec_find_link(
                old(self).reactor@.links,
                old(self).runtime_id,
            ) is Some ==> out@.len() == 0 && final(self).reactor@.links == old(
                self,
            ).reactor@.links,
            spec_dispatch(old(self).reactor@, m@) == Dispatch::Internal && m@.kind
                == spec_kind_actor_joined() && m@.payload.len() == 16 && spec_find_link(
                old(self).reactor@.links,
                spec_uuid_of_bytes(m@.payload),
            ) is None ==> out@.len() == 1 && out@[0]@ == (MessageView {
                sender: old(self).reactor@.id,
                receiver: spec_uuid_of_bytes(m@.payload),
                kind: spec_kind_greeting(),
                payload: spec_hello(),
            }) && final(self).reactor@.links == old(self).reactor@.links.push(
                (LinkView {
                    foreign: spec_uuid_of_bytes(m@.payload),
                    external_kinds: seq![spec_kind_greeting()],
                    state: LinkState::Open,
                }),
            ),
            spec_dispatch(old(self).reactor@, m@) == Dispatch::Internal && m@.kind
                == spec_kind_actor_joined() && m@.payload.len() == 16 && spec_find_link(
                old(self).reactor@.links,
                spec_uuid_of_bytes(m@.payload),
            ) is Some ==> out@.len() == 0 && final(self).reactor@.links == old(
                self,
            ).reactor@.links,
    {
        match self.reactor.dispatch(m) {
            Dispatch::Dropped => Vec::new(),
            Dispatch::Internal => {
                if bytes_eq(&m.kind, &kind_initialize()) {
                    self.on_initialize()
                } else if bytes_eq(&m.kind, &kind_actor_joined()) {
                    if m.payload.len() == 16 {
                        let id = uuid_of_bytes(&m.payload);
                        self.on_welcome(id)
                    } else {
                        Vec::new()
                    }
                } else {
                    Vec::new()
                }
            },
            Dispatch::External(f) => {
                if bytes_eq(&m.kind, &kind_greeting()) {
                    self.on_greeting(f)
                } else if bytes_eq(&m.kind, &kind_actor_joined()) {
                    let mut v: Vec<Message> = Vec::new();
                    v.push(self.on_runtime_joined(&m.payload));
                    v
                } else {
                    Vec::new()
                }
            },
        }
    }
}

} // verus!
