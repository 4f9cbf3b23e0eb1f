//! Reactors and links.
//!
//! A reactor is an actor with a frozen kind-to-handler table and a set
//! of links to peers. Dispatch of an inbox message is serial and picks
//! at most one handler: its own table for messages it sent to itself,
//! the matching open link's table for messages from that link's foreign
//! identity, and otherwise the message is dropped. Closing a link is
//! idempotent and emits one terminal notification to each endpoint.

use vstd::prelude::*;
use crate::ident::Uuid;
use crate::ident::spec_uuid_bytes;
use crate::ident::uuid_to_bytes;
use crate::proto::Message;
use crate::proto::MessageView;
use crate::wire::bytes_eq;

verus! {

// ---------------------------------------------------------------------
// Well-known kinds.
// ---------------------------------------------------------------------

/// "initialize": the first message a freshly spawned reactor receives.
pub open spec fn spec_kind_initialize() -> Seq<u8> {
    seq![105u8, 110, 105, 116, 105, 97, 108, 105, 122, 101]
}

/// "actor_joined": announces a newly attached participant.
pub open spec fn spec_kind_actor_joined() -> Seq<u8> {
    seq![97u8, 99, 116, 111, 114, 95, 106, 111, 105, 110, 101, 100]
}

/// "greeting": the demo application kind.
pub open spec fn spec_kind_greeting() -> Seq<u8> {
    seq![103u8, 114, 101, 101, 116, 105, 110, 103]
}

/// "link_closed": sent to a reactor when one of its links terminates.
pub open spec fn spec_kind_link_closed() -> Seq<u8> {
    seq![108u8, 105, 110, 107, 95, 99, 108, 111, 115, 101, 100]
}

pub fn kind_initialize() -> (r: Vec<u8>)
    ensures
        r@ == spec_kind_initialize(),
{
    let r: Vec<u8> = vec![105u8, 110, 105, 116, 105, 97, 108, 105, 122, 101];
    assert(r@ =~= spec_kind_initialize());
    r
}

pub fn kind_actor_joined() -> (r: Vec<u8>)
    ensures
        r@ == spec_kind_actor_joined(),
{
    let r: Vec<u8> = vec![97u8, 99, 116, 111, 114, 95, 106, 111, 105, 110, 101, 100];
    assert(r@ =~= spec_kind_actor_joined());
    r
}

pub fn kind_greeting() -> (r: Vec<u8>)
    ensures
        r@ == spec_kind_greeting(),
{
    let r: Vec<u8> = vec![103u8, 114, 101, 101, 116, 105, 110, 103];
    assert(r@ =~= spec_kind_greeting());
    r
}

pub fn kind_link_closed() -> (r: Vec<u8>)
    ensures
        r@ == spec_kind_link_closed(),
{
    let r: Vec<u8> = vec![108u8, 105, 110, 107, 95, 99, 108, 111, 115, 101, 100];
    assert(r@ =~= spec_kind_link_closed());
    r
}

// ---------------------------------------------------------------------
// Kind tables.
// ---------------------------------------------------------------------

/// Whether a kind table holds `k`.
pub open spec fn spec_has_kind(ks: Seq<Seq<u8>>, k: Seq<u8>) -> bool {
    exists|i: int| 0 <= i < ks.len() && ks[i] == k
}

/// The view of an executable kind table.
pub open spec fn spec_kinds(ks: Seq<Vec<u8>>) -> Seq<Seq<u8>> {
    ks.map(|i: int, v: Vec<u8>| v@)
}

/// Whether the table holds this kind.
pub fn has_kind(ks: &Vec<Vec<u8>>, k: &Vec<u8>) -> (r: bool)
    ensures
        r == spec_has_kind(spec_kinds(ks@), k@),
{
    let mut i: usize = 0;
    while i < ks.len()
        invariant
            i <= ks@.len(),
            forall|j: int| 0 <= j < i ==> spec_kinds(ks@)[j] != k@,
        decreases ks@.len() - i,
    {
        if bytes_eq(&ks[i], k) {
            assert(spec_kinds(ks@)[i as int] == k@);
            return true;
        }
        i += 1;
    }
    false
}

// ---------------------------------------------------------------------
// Links.
// ---------------------------------------------------------------------

#[derive(Clone, Copy, Debug, PartialEq, Eq, Structural)]
pub enum LinkState {
    Open,
    Closed,
}

/// A reactor's binding to a peer: the foreign identity, the kinds whose
/// inbound messages the link handles, and the lifecycle state.
pub struct Link {
    pub foreign: Uuid,
    pub external_kinds: Vec<Vec<u8>>,
    pub state: LinkState,
}

pub struct LinkView {
    pub foreign: Uuid,
    pub external_kinds: Seq<Seq<u8>>,
    pub state: LinkState,
}

impl View for Link {
    type V = LinkView;

    open spec fn view(&self) -> LinkView {
        LinkView {
            foreign: self.foreign,
            external_kinds: spec_kinds(self.external_kinds@),
            state: self.state,
        }
    }
}

/// The index of the link bound to `foreign`.
pub open spec fn spec_find_link(links: Seq<LinkView>, foreign: Uuid) -> Option<int> {
    if exists|i: int| 0 <= i < links.len() && links[i].foreign == foreign {
        Some(choose|i: int| 0 <= i < links.len() && links[i].foreign == foreign)
    } else {
        None
    }
}

/// In a table with one link per foreign identity, an entry holding
/// `foreign` is where the lookup lands.
proof fn link_find_unique(links: Seq<LinkView>, foreign: Uuid, i: int)
    requires
        0 <= i < links.len(),
        links[i].foreign == foreign,
        forall|a: int, b: int| 0 <= a < b < links.len() ==> links[a].foreign != links[b].foreign,
    ensures
        spec_find_link(links, foreign) == Some(i),
{
    let k = choose|k: int| 0 <= k < links.len() && links[k].foreign == foreign;
    if k != i {
        if k < i {
            assert(links[k].foreign != links[i].foreign);
        } else {
            assert(links[i].foreign != links[k].foreign);
        }
    }
}

// ---------------------------------------------------------------------
// The reactor.
// ---------------------------------------------------------------------

/// An actor with a frozen internal handler table and a set of links.
pub struct Reactor {
    pub id: Uuid,
    pub internal_kinds: Vec<Vec<u8>>,
    pub links: Vec<Link>,
}

pub struct ReactorView {
    pub id: Uuid,
    pub internal_kinds: Seq<Seq<u8>>,
    pub links: Seq<LinkView>,
}

impl View for Reactor {
    type V = ReactorView;

    open spec fn view(&self) -> ReactorView {
        ReactorView {
            id: self.id,
            internal_kinds: spec_kinds(self.internal_kinds@),
            links: self.links@.map(|i: int, l: Link| l@),
        }
    }
}

/// Where one inbox message goes: the reactor's own handler for the
/// kind, the handler of the open link whose foreign identity sent it,
/// or nowhere.
#[derive(Clone, Copy, Debug, PartialEq, Eq, Structural)]
pub enum Dispatch {
    /// Handled by the reactor's own table.
    Internal,
    /// Handled by the external table of the link to this foreign
    /// identity.
    External(Uuid),
    /// No handler: the message is dropped.
    Dropped,
}

/// The dispatch decision for one message.
pub open spec fn spec_dispatch(r: ReactorView, m: MessageView) -> Dispatch {
    if m.sender == r.id {
        if spec_has_kind(r.internal_kinds, m.kind) {
            Dispatch::Internal
        } else {
            Dispatch::Dropped
        }
    } else {
        match spec_find_link(r.links, m.sender) {
            Some(i) => {
                if r.links[i].state == LinkState::Open && spec_has_kind(
                    r.links[i].external_kinds,
                    m.kind,
                ) {
                    Dispatch::External(m.sender)
                } else {
                    Dispatch::Dropped
                }
            },
            None => Dispatch::Dropped,
        }
    }
}

impl Reactor {
    /// At most one link per foreign identity.
    pub open spec fn wf(&self) -> bool {
        forall|a: int, b: int|
            0 <= a < b < self@.links.len() ==> self@.links[a].foreign != self@.links[b].foreign
    }

    /// A reactor with a frozen internal table and no links yet.
    pub fn new(id: Uuid, internal_kinds: Vec<Vec<u8>>) -> (r: Self)
        ensures
            r.wf(),
            r@.id == id,
            r@.internal_kinds == spec_kinds(internal_kinds@),
            r@.links == Seq::<LinkView>::empty(),
    {
        let r = Reactor { id, internal_kinds, links: Vec::new() };
        assert(r@.links =~= Seq::<LinkView>::empty());
        r
    }

    /// The index of the link bound to `foreign`.
    fn find_link(&self, foreign: Uuid) -> (r: Option<usize>)
        ensures
            r matches Some(i) ==> i < self@.links.len() && self@.links[i as int].foreign == foreign
                && spec_find_link(self@.links, foreign) is Some,
            r is None ==> spec_find_link(self@.links, foreign) is None,
    {
        let mut i: usize = 0;
        while i < self.links.len()
            invariant
                i <= self@.links.len(),
                self@.links.len() == self.links@.len(),
                forall|j: int| 0 <= j < i ==> self@.links[j].foreign != foreign,
            decreases self@.links.len() - i,
        {
            if self.links[i].foreign == foreign {
                assert(self@.links[i as int].foreign == foreign);
                return Some(i);
            }
            i += 1;
        }
        proof {
            if exists|k: int| 0 <= k < self@.links.len() && self@.links[k].foreign == foreign {
                let k = choose|k: int|
                    0 <= k < self@.links.len() && self@.links[k].foreign == foreign;
                assert(self@.links[k].foreign != foreign);
            }
        }
        None
    }

    /// Whether a link to `foreign` exists, open or closed.
    pub fn has_link(&self, foreign: Uuid) -> (r: bool)
        ensures
            r == (spec_find_link(self@.links, foreign) is Some),
    {
        self.find_link(foreign).is_some()
    }

    /// Decide where one inbox message goes. Dispatch is serial: one
    /// call, one decision, at most one handler engaged.
    pub fn dispatch(&self, m: &Message) -> (d: Dispatch)
        requires
            self.wf(),
        ensures
            d == spec_dispatch(self@, m@),
    {
        if m.sender == self.id {
            if has_kind(&self.internal_kinds, &m.kind) {
                Dispatch::Internal
            } else {
                Dispatch::Dropped
            }
        } else {
            match self.find_link(m.sender) {
                None => Dispatch::Dropped,
                Some(i) => {
                    let is_open = match self.links[i].state {
                        LinkState::Open => true,
                        LinkState::Closed => false,
                    };
                    if is_open && has_kind(&self.links[i].external_kinds, &m.kind) {
                        proof {
                            link_find_unique_weak(self@.links, m.sender, i as int);
                        }
                        Dispatch::External(m.sender)
                    } else {
                        proof {
                            link_find_unique_weak(self@.links, m.sender, i as int);
                        }
                        Dispatch::Dropped
                    }
                },
            }
        }
    }

    /// Open a link to `foreign`. Nothing changes if a link to that
    /// identity already exists. When a fresh link is opened with
    /// `announce`, the returned envelope publishes this reactor's
    /// joining to the foreign side.
    pub fn open_link(&mut self, foreign: Uuid, external_kinds: Vec<Vec<u8>>, announce: bool) -> (r:
        Option<Message>)
        requires
            old(self).wf(),
        ensures
            final(self).wf(),
            final(self)@.id == old(self)@.id,
            final(self)@.internal_kinds == old(self)@.internal_kinds,
            spec_find_link(old(self)@.links, foreign) is Some ==> final(self)@.links == old(
                self,
            )@.links && r is None,
            spec_find_link(old(self)@.links, foreign) is None ==> {
                &&& final(self)@.links == old(self)@.links.push(
                    (LinkView {
                        foreign,
                        external_kinds: spec_kinds(external_kinds@),
                        state: LinkState::Open,
                    }),
                )
                &&& (r is Some <==> announce)
                &&& r matches Some(m) ==> m@ == (MessageView {
                    sender: old(self)@.id,
                    receiver: foreign,
                    kind: spec_kind_actor_joined(),
                    payload: spec_uuid_bytes(old(self)@.id),
                })
            },
    {
        if self.find_link(foreign).is_some() {
            return None;
        }
        let link = Link { foreign, external_kinds, state: LinkState::Open };
        let ghost lv = link@;
        self.links.push(link);
        assert(self@.links =~= old(self)@.links.push(lv));
        assert forall|a: int, b: int|
            0 <= a < b < self@.links.len() implies self@.links[a].foreign
            != self@.links[b].foreign by {
            if b == self@.links.len() - 1 {
                if old(self)@.links[a].foreign == foreign {
                    assert(spec_find_link(old(self)@.links, foreign) is Some) by {
                        assert(0 <= a < old(self)@.links.len() && old(self)@.links[a].foreign
                            == foreign);
                    }
                }
            }
        }
        if announce {
            let mut payload: Vec<u8> = Vec::new();
            uuid_to_bytes(&self.id, &mut payload);
            let m = Message {
                sender: self.id,
                receiver: foreign,
                kind: kind_actor_joined(),
                payload,
            };
            Some(m)
        } else {
            None
        }
    }

    /// Close the link to `foreign`.
    ///
    /// The first close of an open link marks it closed and returns the
    /// two terminal notifications, one envelope per endpoint: first to
    /// the foreign side, then to this reactor itself, both of kind
    /// `link_closed` carrying the foreign identity. A second close, or a
    /// close of an unknown link, changes nothing and emits nothing.
    pub fn close_link(&mut self, foreign: Uuid) -> (r: Option<(Message, Message)>)
        requires
            old(self).wf(),
        ensures
            final(self).wf(),
            final(self)@.id == old(self)@.id,
            final(self)@.internal_kinds == old(self)@.internal_kinds,
            final(self)@.links == spec_close_link(old(self)@.links, foreign).0,
            (r is Some) == spec_close_link(old(self)@.links, foreign).1,
            r matches Some(p) ==> p.0@ == (MessageView {
                sender: old(self)@.id,
                receiver: foreign,
                kind: spec_kind_link_closed(),
                payload: spec_uuid_bytes(foreign),
            }) && p.1@ == (MessageView {
                sender: old(self)@.id,
                receiver: old(self)@.id,
                kind: spec_kind_link_closed(),
                payload: spec_uuid_bytes(foreign),
            }),
    {
        let i = match self.find_link(foreign) {
            None => {
                return None;
            },
            Some(i) => i,
        };
        proof {
            link_find_unique(self@.links, foreign, i as int);
        }
        let already_closed = match self.links[i].state {
            LinkState::Closed => true,
            LinkState::Open => false,
        };
        if already_closed {
            return None;
        }
        let link = &mut self.links[i];
        link.state = LinkState::Closed;
        proof {
            let ghost olds = old(self)@.links;
            let ghost news = self@.links;
            assert(news =~= olds.update(
                i as int,
                (LinkView {
                    foreign: olds[i as int].foreign,
                    external_kinds: olds[i as int].external_kinds,
                    state: LinkState::Closed,
                }),
            ));
            assert forall|a: int, b: int|
                0 <= a < b < news.len() implies news[a].foreign != news[b].foreign by {
                assert(news[a].foreign == olds[a].foreign);
                assert(news[b].foreign == olds[b].foreign);
            }
        }
        let mut payload1: Vec<u8> = Vec::new();
        uuid_to_bytes(&foreign, &mut payload1);
        let mut payload2: Vec<u8> = Vec::new();
        uuid_to_bytes(&foreign, &mut payload2);
        let to_foreign = Message {
            sender: self.id,
            receiver: foreign,
            kind: kind_link_closed(),
            payload: payload1,
        };
        let to_self = Message {
            sender: self.id,
            receiver: self.id,
            kind: kind_link_closed(),
            payload: payload2,
        };
        Some((to_foreign, to_self))
    }
}

/// Like `link_find_unique`, but needing uniqueness only to pin the
/// state and kinds the decision read.
proof fn link_find_unique_weak(links: Seq<LinkView>, foreign: Uuid, i: int)
    requires
        0 <= i < links.len(),
        links[i].foreign == foreign,
        spec_find_link(links, foreign) is Some,
        forall|a: int, b: int| 0 <= a < b < links.len() ==> links[a].foreign != links[b].foreign,
    ensures
        spec_find_link(links, foreign) == Some(i),
{
    link_find_unique(links, foreign, i);
}

/// The link table after a close, and whether notifications go out: an
/// open link to `foreign` becomes closed and notifies; anything else is
/// untouched and silent.
pub open spec fn spec_close_link(links: Seq<LinkView>, foreign: Uuid) -> (Seq<LinkView>, bool) {
    match spec_find_link(links, foreign) {
        None => (links, false),
        Some(i) => {
            if links[i].state == LinkState::Closed {
                (links, false)
            } else {
                (
                    links.update(
                        i,
                        (LinkView {
                            foreign: links[i].foreign,
                            external_kinds: links[i].external_kinds,
                            state: LinkState::Closed,
                        }),
                    ),
                    true,
                )
            }
        },
    }
}

/// A dispatch decision engages exactly one handler, determined by the
/// reactor state and the message alone: the internal table exactly for
/// registered self-sends, a link exactly for registered kinds from that
/// link's open foreign identity, and nothing otherwise.
pub proof fn lemma_dispatch_exclusive(r: ReactorView, m: MessageView)
    requires
        forall|a: int, b: int| 0 <= a < b < r.links.len() ==> r.links[a].foreign != r.links[b].foreign,
    ensures
        spec_dispatch(r, m) == Dispatch::Internal <==> m.sender == r.id && spec_has_kind(
            r.internal_kinds,
            m.kind,
        ),
        spec_dispatch(r, m) == Dispatch::External(m.sender) <==> m.sender != r.id && (exists|i: int|
            0 <= i < r.links.len() && r.links[i].foreign == m.sender && r.links[i].state
                == LinkState::Open && spec_has_kind(#[trigger] r.links[i].external_kinds, m.kind)),
        forall|f: Uuid| #[trigger]
            spec_dispatch(r, m) == Dispatch::External(f) ==> f == m.sender,
{
    if m.sender != r.id {
        match spec_find_link(r.links, m.sender) {
            Some(i) => {
                assert(r.links[i].foreign == m.sender);
                if exists|k: int|
                    0 <= k < r.links.len() && r.links[k].foreign == m.sender && r.links[k].state
                        == LinkState::Open && spec_has_kind(
                        #[trigger] r.links[k].external_kinds,
                        m.kind,
                    ) {
                    let k = choose|k: int|
                        0 <= k < r.links.len() && r.links[k].foreign == m.sender && r.links[k].state
                            == LinkState::Open && spec_has_kind(
                            #[trigger] r.links[k].external_kinds,
                            m.kind,
                        );
                    link_find_unique(r.links, m.sender, k);
                }
            },
            None => {
                if exists|k: int| 0 <= k < r.links.len() && r.links[k].foreign == m.sender {
                    let k = choose|k: int|
                        0 <= k < r.links.len() && r.links[k].foreign == m.sender;
                    assert(spec_find_link(r.links, m.sender) is Some);
                }
            },
        }
    }
}

/// Closing a link is idempotent: after one close, a second close of the
/// same link changes nothing and emits nothing — so the two terminal
/// notifications of the first close are the only ones either endpoint
/// ever receives for this link.
pub proof fn lemma_close_link_idempotent(links: Seq<LinkView>, foreign: Uuid)
    requires
        forall|a: int, b: int| 0 <= a < b < links.len() ==> links[a].foreign != links[b].foreign,
    ensures
        ({
            let once = spec_close_link(links, foreign);
            let twice = spec_close_link(once.0, foreign);
            &&& twice.0 == once.0
            &&& twice.1 == false
        }),
{
    let once = spec_close_link(links, foreign);
    match spec_find_link(links, foreign) {
        None => {
            assert(spec_find_link(once.0, foreign) is None);
        },
        Some(i) => {
            if links[i].state == LinkState::Closed {
            } else {
                assert(once.0[i].foreign == foreign);
                assert forall|a: int, b: int|
                    0 <= a < b < once.0.len() implies once.0[a].foreign != once.0[b].foreign by {
                    assert(once.0[a].foreign == links[a].foreign);
                    assert(once.0[b].foreign == links[b].foreign);
                }
                link_find_unique(once.0, foreign, i);
                assert(once.0[i].state == LinkState::Closed);
            }
        },
    }
}

} // verus!
