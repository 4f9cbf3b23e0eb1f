//! The routing table.
//!
//! The table binds an opaque token to the identity of the controller a
//! connection presenting that token should be attached to, together with
//! the signing public key the handshake verifies the request against.
//! Lookup is first match; registering the same token twice shadows
//! nothing, the earlier entry wins.

use vstd::prelude::*;
use crate::ident::Uuid;
use crate::wire::bytes_eq;
use crate::wire::copy_range;

verus! {

/// One routing entry: a token, the bound identity, and the signing
/// public key of that identity.
pub struct RouteEntry {
    pub token: Vec<u8>,
    pub client_id: Uuid,
    pub sign_pk: Vec<u8>,
}

pub struct RouteEntryView {
    pub token: Seq<u8>,
    pub client_id: Uuid,
    pub sign_pk: Seq<u8>,
}

impl View for RouteEntry {
    type V = RouteEntryView;

    open spec fn view(&self) -> RouteEntryView {
        RouteEntryView { token: self.token@, client_id: self.client_id, sign_pk: self.sign_pk@ }
    }
}

/// The first entry whose token equals `token`.
pub open spec fn spec_lookup(entries: Seq<RouteEntryView>, token: Seq<u8>) -> Option<RouteEntryView>
    decreases entries.len(),
{
    if entries.len() == 0 {
        None
    } else if entries[0].token == token {
        Some(entries[0])
    } else {
        spec_lookup(entries.drop_first(), token)
    }
}

/// The shared map from tokens to bound controllers.
pub struct RoutingTable {
    entries: Vec<RouteEntry>,
}

impl View for RoutingTable {
    type V = Seq<RouteEntryView>;

    closed spec fn view(&self) -> Seq<RouteEntryView> {
        self.entries@.map(|i: int, e: RouteEntry| e@)
    }
}

impl RoutingTable {
    pub fn new() -> (r: Self)
        ensures
            r@ == Seq::<RouteEntryView>::empty(),
    {
        let r = RoutingTable { entries: Vec::new() };
        assert(r@ =~= Seq::<RouteEntryView>::empty());
        r
    }

    /// Bind a token to a controller identity and its signing key.
    pub fn register(&mut self, entry: RouteEntry)
        ensures
            final(self)@ == old(self)@.push(entry@),
    {
        let ghost e = entry@;
        self.entries.push(entry);
        assert(self@ =~= old(self)@.push(e));
    }

    /// Look up a token: the bound identity and signing key, if any.
    pub fn lookup(&self, token: &Vec<u8>) -> (r: Option<(Uuid, Vec<u8>)>)
        ensures
            r matches Some(p) ==> spec_lookup(self@, token@) matches Some(e) && p.0 == e.client_id
                && p.1@ == e.sign_pk,
            r is None ==> spec_lookup(self@, token@) is None,
    {
        let mut i: usize = 0;
        assert(self@.skip(0) =~= self@);
        while i < self.entries.len()
            invariant
                i <= self.entries@.len(),
                spec_lookup(self@, token@) == spec_lookup(self@.skip(i as int), token@),
            decreases self.entries@.len() - i,
        {
            assert(self@.skip(i as int)[0] == self@[i as int]);
            if bytes_eq(&self.entries[i].token, token) {
                let pk = copy_range(
                    &self.entries[i].sign_pk,
                    0,
                    self.entries[i].sign_pk.len(),
                );
                assert(pk@ =~= self@[i as int].sign_pk);
                return Some((self.entries[i].client_id, pk));
            }
            assert(self@.skip(i as int).drop_first() =~= self@.skip(i + 1));
            i += 1;
        }
        assert(self@.skip(i as int) =~= Seq::<RouteEntryView>::empty());
        None
    }
}

} // verus!
