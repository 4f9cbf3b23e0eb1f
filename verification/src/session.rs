//! The authenticated session layer.
//!
//! Once the handshake derived the per-direction keys, every frame
//! payload is authenticated-encrypted under a nonce carrying a
//! monotonically increasing 64-bit sequence number, one counter per
//! direction. The peers keep their counters in step, so a frame
//! replayed, dropped or reordered in session fails to open and the
//! receiver tears the connection down.

use vstd::prelude::*;
use crate::crypto::sealed_of;
use crate::crypto::opened_of;
use crate::crypto::seal_box;
use crate::crypto::open_box;
use crate::ident::spec_u64_be;
use crate::ident::push_u64_be;

verus! {

/// The 24-byte nonce of a sequence number: the eight big-endian bytes
/// of the counter followed by sixteen zero bytes.
pub open spec fn spec_seq_nonce(seq: u64) -> Seq<u8> {
    spec_u64_be(seq) + Seq::<u8>::new(16, |i: int| 0u8)
}

/// Executable form of `spec_seq_nonce`.
fn seq_nonce(seq: u64) -> (r: Vec<u8>)
    ensures
        r@ == spec_seq_nonce(seq),
        r@.len() == 24,
{
    let mut r: Vec<u8> = Vec::new();
    push_u64_be(seq, &mut r);
    let mut i: usize = 0;
    while i < 16
        invariant
            i <= 16,
            r@ == spec_u64_be(seq) + Seq::<u8>::new(i as nat, |k: int| 0u8),
        decreases 16 - i,
    {
        r.push(0u8);
        assert(r@ =~= spec_u64_be(seq) + Seq::<u8>::new((i + 1) as nat, |k: int| 0u8));
        i += 1;
    }
    assert(r@ =~= spec_seq_nonce(seq));
    r
}

/// The sealing half of one direction: the key and the next sequence
/// number to use.
pub struct SendChannel {
    pub key: Vec<u8>,
    pub seq: u64,
}

impl SendChannel {
    pub open spec fn wf(&self) -> bool {
        self.key@.len() == 32
    }

    /// A sender over a 32-byte session key, starting at sequence zero.
    pub fn new(key: Vec<u8>) -> (r: Self)
        requires
            key@.len() == 32,
        ensures
            r.wf(),
            r.key@ == key@,
            r.seq == 0,
    {
        SendChannel { key, seq: 0 }
    }

    /// Seal the next payload: encrypted and authenticated under this
    /// direction's key and the current sequence number, which is then
    /// spent.
    pub fn seal_next(&mut self, payload: &Vec<u8>) -> (r: Vec<u8>)
        requires
            old(self).wf(),
            old(self).seq < u64::MAX,
        ensures
            final(self).wf(),
            final(self).key@ == old(self).key@,
            final(self).seq == old(self).seq + 1,
            r@ == sealed_of(payload@, spec_seq_nonce(old(self).seq), old(self).key@),
            r@.len() == payload@.len() + 16,
    {
        let nonce = seq_nonce(self.seq);
        let sealed = match seal_box(payload, &nonce, &self.key) {
            Some(c) => c,
            None => {
                assert(false);
                Vec::new()
            },
        };
        self.seq = self.seq + 1;
        sealed
    }
}

/// The opening half of one direction: the key and the sequence number
/// the next frame must carry.
pub struct RecvChannel {
    pub key: Vec<u8>,
    pub seq: u64,
}

impl RecvChannel {
    pub open spec fn wf(&self) -> bool {
        self.key@.len() == 32
    }

    /// A receiver over a 32-byte session key, starting at sequence
    /// zero.
    pub fn new(key: Vec<u8>) -> (r: Self)
        requires
            key@.len() == 32,
        ensures
            r.wf(),
            r.key@ == key@,
            r.seq == 0,
    {
        RecvChannel { key, seq: 0 }
    }

    /// Open the next frame against the expected sequence number. A
    /// frame that does not authenticate at this position — forged,
    /// replayed or out of order — yields nothing and leaves the channel
    /// as it was; the caller tears the connection down.
    pub fn open_next(&mut self, cipher: &Vec<u8>) -> (r: Option<Vec<u8>>)
        requires
            old(self).wf(),
            old(self).seq < u64::MAX,
        ensures
            final(self).wf(),
            final(self).key@ == old(self).key@,
            r matches Some(m) ==> opened_of(cipher@, spec_seq_nonce(old(self).seq), old(self).key@)
                == Some(m@) && final(self).seq == old(self).seq + 1,
            r is None ==> opened_of(cipher@, spec_seq_nonce(old(self).seq), old(self).key@)
                is None && *final(self) == *old(self),
    {
        let nonce = seq_nonce(self.seq);
        match open_box(cipher, &nonce, &self.key) {
            Some(m) => {
                self.seq = self.seq + 1;
                Some(m)
            },
            None => None,
        }
    }
}

} // verus!
