//! The broker: the process-wide registry of actor inboxes.
//!
//! Every actor owns one unbounded FIFO inbox, indexed here by identity.
//! Routing is best effort: an envelope for an unknown receiver is
//! dropped; an envelope for a registered receiver is appended to its
//! inbox, so messages from one sender to one receiver are observed in
//! send order.

use vstd::prelude::*;
use crate::ident::Uuid;
use crate::proto::Message;
use crate::proto::MessageView;

verus! {

/// One registered actor: its identity and its pending messages, oldest
/// first.
pub struct ActorEntry {
    pub id: Uuid,
    pub inbox: Vec<Message>,
}

pub struct ActorEntryView {
    pub id: Uuid,
    pub inbox: Seq<MessageView>,
}

impl View for ActorEntry {
    type V = ActorEntryView;

    open spec fn view(&self) -> ActorEntryView {
        ActorEntryView { id: self.id, inbox: self.inbox@.map(|i: int, m: Message| m@) }
    }
}

/// The index of the entry registered under `id`.
pub open spec fn spec_find(actors: Seq<ActorEntryView>, id: Uuid) -> Option<int> {
    if exists|i: int| 0 <= i < actors.len() && actors[i].id == id {
        Some(choose|i: int| 0 <= i < actors.len() && actors[i].id == id)
    } else {
        None
    }
}

/// Whether some actor is registered under `id`.
pub open spec fn spec_registered(actors: Seq<ActorEntryView>, id: Uuid) -> bool {
    spec_find(actors, id) is Some
}

/// The inbox registered under `id`.
pub open spec fn spec_inbox(actors: Seq<ActorEntryView>, id: Uuid) -> Seq<MessageView>
    recommends
        spec_registered(actors, id),
{
    actors[spec_find(actors, id).unwrap()].inbox
}

/// The registry of actor inboxes.
pub struct Broker {
    actors: Vec<ActorEntry>,
}

impl View for Broker {
    type V = Seq<ActorEntryView>;

    closed spec fn view(&self) -> Seq<ActorEntryView> {
        self.actors@.map(|i: int, a: ActorEntry| a@)
    }
}

impl Broker {
    /// No two entries share an identity.
    pub open spec fn wf(&self) -> bool {
        forall|i: int, j: int|
            0 <= i < j < self@.len() ==> self@[i].id != self@[j].id
    }

    pub fn new() -> (r: Self)
        ensures
            r@ == Seq::<ActorEntryView>::empty(),
            r.wf(),
    {
        let r = Broker { actors: Vec::new() };
        assert(r@ =~= Seq::<ActorEntryView>::empty());
        r
    }

    /// The index holding `id`, if any.
    fn find(&self, id: Uuid) -> (r: Option<usize>)
        ensures
            r matches Some(i) ==> i < self@.len() && self@[i as int].id == id
                && spec_registered(self@, id),
            r is None ==> !spec_registered(self@, id),
    {
        let mut i: usize = 0;
        while i < self.actors.len()
            invariant
                i <= self@.len(),
                self@.len() == self.actors@.len(),
                forall|j: int| 0 <= j < i ==> self@[j].id != id,
            decreases self@.len() - i,
        {
            if self.actors[i].id == id {
                assert(self@[i as int].id == id);
                return Some(i);
            }
            i += 1;
        }
        assert(!spec_registered(self@, id)) by {
            if exists|k: int| 0 <= k < self@.len() && self@[k].id == id {
                let k = choose|k: int| 0 <= k < self@.len() && self@[k].id == id;
                assert(self@[k].id != id);
            }
        }
        None
    }

    /// Whether an actor is registered under `id`.
    pub fn is_registered(&self, id: Uuid) -> (r: bool)
        ensures
            r == spec_registered(self@, id),
    {
        self.find(id).is_some()
    }

    /// How many actors are registered. The broker's own task may
    /// terminate exactly when this is zero.
    pub fn actor_count(&self) -> (r: usize)
        ensures
            r == self@.len(),
    {
        self.actors.len()
    }

    /// Register a fresh actor with an empty inbox under `id`. A spawn
    /// registers the identity the factory chose.
    pub fn add_actor(&mut self, id: Uuid) -> (r: bool)
        requires
            old(self).wf(),
        ensures
            final(self).wf(),
            r == !spec_registered(old(self)@, id),
            r ==> final(self)@ == old(self)@.push(
                (ActorEntryView { id, inbox: Seq::<MessageView>::empty() }),
            ),
            !r ==> final(self)@ == old(self)@,
    {
        if self.find(id).is_some() {
            return false;
        }
        let entry = ActorEntry { id, inbox: Vec::new() };
        assert(entry@.inbox =~= Seq::<MessageView>::empty());
        self.actors.push(entry);
        assert(self@ =~= old(self)@.push(
            (ActorEntryView { id, inbox: Seq::<MessageView>::empty() }),
        ));
        assert forall|i: int, j: int| 0 <= i < j < self@.len() implies self@[i].id != self@[j].id
        by {
            if j == self@.len() - 1 {
                assert(!spec_registered(old(self)@, id));
                if old(self)@[i].id == id {
                    assert(spec_registered(old(self)@, id)) by {
                        assert(0 <= i < old(self)@.len() && old(self)@[i].id == id);
                    }
                }
            }
        }
        true
    }

    /// Remove the actor registered under `id`; pending messages are
    /// dropped with it.
    pub fn unregister(&mut self, id: Uuid)
        requires
            old(self).wf(),
        ensures
            final(self).wf(),
            !spec_registered(final(self)@, id),
            // every other actor keeps its registration and inbox
            forall|other: Uuid|
                other != id ==> #[trigger] spec_registered(final(self)@, other)
                    == spec_registered(old(self)@, other),
            forall|other: Uuid|
                other != id && spec_registered(old(self)@, other) ==> #[trigger] spec_inbox(
                    final(self)@,
                    other,
                ) == spec_inbox(old(self)@, other),
    {
        match self.find(id) {
            None => {},
            Some(i) => {
                self.actors.remove(i);
                assert(self@ =~= old(self)@.remove(i as int));
                let ghost olds = old(self)@;
                let ghost news = self@;
                assert forall|other: Uuid| other != id implies #[trigger] spec_registered(
                    news,
                    other,
                ) == spec_registered(olds, other) by {
                    broker_remove_preserves(olds, news, i as int, other);
                }
                assert forall|other: Uuid|
                    other != id && spec_registered(olds, other) implies #[trigger] spec_inbox(
                    news,
                    other,
                ) == spec_inbox(olds, other) by {
                    broker_remove_preserves(olds, news, i as int, other);
                }
                proof {
                    if spec_registered(self@, id) {
                        let k = spec_find(self@, id).unwrap();
                        let oldk = if k < i {
                            k
                        } else {
                            k + 1
                        };
                        assert(old(self)@[oldk].id == id);
                        assert(old(self)@[i as int].id == id);
                    }
                }
            },
        }
    }

    /// Route one envelope: append it to the receiver's inbox if the
    /// receiver is registered, drop it otherwise.
    pub fn route_message(&mut self, message: Message) -> (r: bool)
        requires
            old(self).wf(),
        ensures
            final(self).wf(),
            r == spec_registered(old(self)@, message.receiver),
            r ==> spec_inbox(final(self)@, message.receiver) == spec_inbox(
                old(self)@,
                message.receiver,
            ).push(message@),
            !r ==> final(self)@ == old(self)@,
            // registration and the other inboxes are untouched
            forall|other: Uuid| #[trigger]
                spec_registered(final(self)@, other) == spec_registered(old(self)@, other),
            forall|other: Uuid|
                other != message.receiver && spec_registered(old(self)@, other)
                    ==> #[trigger] spec_inbox(final(self)@, other) == spec_inbox(old(self)@, other),
    {
        let receiver = message.receiver;
        match self.find(receiver) {
            None => false,
            Some(i) => {
                let entry = &mut self.actors[i];
                proof {
                    assert(old(self)@[i as int].id == receiver);
                }
                entry.inbox.push(message);
                proof {
                    let ghost olds = old(self)@;
                    let ghost news = self@;
                    assert(news.len() == olds.len());
                    assert forall|j: int| 0 <= j < news.len() && j != i implies news[j] == olds[j]
                    by {}
                    assert(news[i as int].id == olds[i as int].id);
                    assert(news[i as int].inbox =~= olds[i as int].inbox.push(message@));
                    broker_update_preserves(olds, news, i as int);
                    assert(spec_find(news, receiver) == Some(i as int)) by {
                        broker_find_unique(news, receiver, i as int);
                    }
                    assert(spec_find(olds, receiver) == Some(i as int)) by {
                        broker_find_unique(olds, receiver, i as int);
                    }
                }
                true
            },
        }
    }

    /// Take the oldest message off the inbox registered under `id`; the
    /// consuming actor drains its inbox through this.
    pub fn pop_message(&mut self, id: Uuid) -> (r: Option<Message>)
        requires
            old(self).wf(),
            spec_registered(old(self)@, id),
        ensures
            final(self).wf(),
            r is Some <==> spec_inbox(old(self)@, id).len() > 0,
            r matches Some(m) ==> m@ == spec_inbox(old(self)@, id)[0] && spec_inbox(
                final(self)@,
                id,
            ) == spec_inbox(old(self)@, id).drop_first(),
            r is None ==> final(self)@ == old(self)@,
            forall|other: Uuid| #[trigger]
                spec_registered(final(self)@, other) == spec_registered(old(self)@, other),
            forall|other: Uuid|
                other != id && spec_registered(old(self)@, other) ==> #[trigger] spec_inbox(
                    final(self)@,
                    other,
                ) == spec_inbox(old(self)@, other),
    {
        let i = match self.find(id) {
            Some(i) => i,
            None => {
                assert(false);
                0
            },
        };
        proof {
            broker_find_unique(old(self)@, id, i as int);
        }
        if self.actors[i].inbox.len() == 0 {
            assert(spec_inbox(old(self)@, id).len() == 0);
            return None;
        }
        let entry = &mut self.actors[i];
        let m = entry.inbox.remove(0);
        proof {
            let ghost olds = old(self)@;
            let ghost news = self@;
            assert(news.len() == olds.len());
            assert(news[i as int].id == olds[i as int].id);
            assert(news[i as int].inbox =~= olds[i as int].inbox.drop_first());
            broker_update_preserves(olds, news, i as int);
            broker_find_unique(news, id, i as int);
        }
        Some(m)
    }
}

/// In a well-formed registry, an entry holding `id` is where the lookup
/// lands.
proof fn broker_find_unique(actors: Seq<ActorEntryView>, id: Uuid, i: int)
    requires
        0 <= i < actors.len(),
        actors[i].id == id,
        forall|a: int, b: int| 0 <= a < b < actors.len() ==> actors[a].id != actors[b].id,
    ensures
        spec_find(actors, id) == Some(i),
{
    assert(exists|k: int| 0 <= k < actors.len() && actors[k].id == id);
    let k = choose|k: int| 0 <= k < actors.len() && actors[k].id == id;
    if k != i {
        if k < i {
            assert(actors[k].id != actors[i].id);
        } else {
            assert(actors[i].id != actors[k].id);
        }
    }
}

/// Replacing one entry without touching its identity leaves every other
/// actor's registration and inbox as it was.
proof fn broker_update_preserves(olds: Seq<ActorEntryView>, news: Seq<ActorEntryView>, i: int)
    requires
        olds.len() == news.len(),
        0 <= i < olds.len(),
        forall|j: int| 0 <= j < olds.len() && j != i ==> news[j] == olds[j],
        news[i].id == olds[i].id,
        forall|a: int, b: int| 0 <= a < b < olds.len() ==> olds[a].id != olds[b].id,
    ensures
        forall|a: int, b: int| 0 <= a < b < news.len() ==> news[a].id != news[b].id,
        forall|other: Uuid| #[trigger]
            spec_registered(news, other) == spec_registered(olds, other),
        forall|other: Uuid|
            other != olds[i].id && spec_registered(olds, other) ==> #[trigger] spec_inbox(
                news,
                other,
            ) == spec_inbox(olds, other),
{
    assert forall|a: int, b: int| 0 <= a < b < news.len() implies news[a].id != news[b].id by {
        assert(news[a].id == olds[a].id);
        assert(news[b].id == olds[b].id);
    }
    assert forall|other: Uuid| #[trigger] spec_registered(news, other) == spec_registered(
        olds,
        other,
    ) by {
        if spec_registered(olds, other) {
            let k = spec_find(olds, other).unwrap();
            assert(news[k].id == other);
        }
        if spec_registered(news, other) {
            let k = spec_find(news, other).unwrap();
            assert(olds[k].id == other);
        }
    }
    assert forall|other: Uuid|
        other != olds[i].id && spec_registered(olds, other) implies #[trigger] spec_inbox(
        news,
        other,
    ) == spec_inbox(olds, other) by {
        let k = spec_find(olds, other).unwrap();
        assert(k != i);
        broker_find_unique(news, other, k);
    }
}

/// Removing one entry leaves every other actor's registration and inbox
/// as it was.
proof fn broker_remove_preserves(
    olds: Seq<ActorEntryView>,
    news: Seq<ActorEntryView>,
    i: int,
    other: Uuid,
)
    requires
        0 <= i < olds.len(),
        news == olds.remove(i),
        forall|a: int, b: int| 0 <= a < b < olds.len() ==> olds[a].id != olds[b].id,
        other != olds[i].id,
    ensures
        spec_registered(news, other) == spec_registered(olds, other),
        spec_registered(olds, other) ==> spec_inbox(news, other) == spec_inbox(olds, other),
{
    if spec_registered(olds, other) {
        let k = spec_find(olds, other).unwrap();
        assert(k != i);
        let nk = if k < i {
            k
        } else {
            k - 1
        };
        assert(news[nk] == olds[k]);
        assert forall|a: int, b: int| 0 <= a < b < news.len() implies news[a].id != news[b].id by {
            let oa = if a < i {
                a
            } else {
                a + 1
            };
            let ob = if b < i {
                b
            } else {
                b + 1
            };
            assert(news[a] == olds[oa]);
            assert(news[b] == olds[ob]);
        }
        broker_find_unique(news, other, nk);
    }
    if spec_registered(news, other) {
        let k = spec_find(news, other).unwrap();
        let ok = if k < i {
            k
        } else {
            k + 1
        };
        assert(news[k] == olds[ok]);
        assert(exists|j: int| 0 <= j < olds.len() && olds[j].id == other);
    }
}

/// Per-pair FIFO ordering: two envelopes routed in order to the same
/// registered receiver sit in its inbox in that order, the first
/// strictly before the second.
pub proof fn lemma_send_order(
    b0: Seq<ActorEntryView>,
    b1: Seq<ActorEntryView>,
    b2: Seq<ActorEntryView>,
    m1: MessageView,
    m2: MessageView,
    r: Uuid,
)
    requires
        m1.receiver == r,
        m2.receiver == r,
        spec_registered(b0, r),
        spec_registered(b1, r),
        spec_inbox(b1, r) == spec_inbox(b0, r).push(m1),
        spec_inbox(b2, r) == spec_inbox(b1, r).push(m2),
    ensures
        ({
            let q = spec_inbox(b2, r);
            let n = spec_inbox(b0, r).len() as int;
            &&& q.len() == n + 2
            &&& q[n] == m1
            &&& q[n + 1] == m2
        }),
{
}

} // verus!
