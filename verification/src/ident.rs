//! 128-bit opaque identities.
//!
//! A `Uuid` names every actor: reactors, link endpoints, transient
//! participants. Only equality and hashing are meaningful; there is no
//! ordering semantics. On the wire an identity travels as 16 big-endian
//! bytes.

use vstd::prelude::*;

verus! {

/// An opaque 128-bit identifier.
#[derive(Clone, Copy, Debug, PartialEq, Eq, Hash, Structural)]
pub struct Uuid {
    pub hi: u64,
    pub lo: u64,
}

/// The eight big-endian bytes of a 64-bit value.
pub open spec fn spec_u64_be(n: u64) -> Seq<u8> {
    seq![
        ((n >> 56) & 0xff) as u8,
        ((n >> 48) & 0xff) as u8,
        ((n >> 40) & 0xff) as u8,
        ((n >> 32) & 0xff) as u8,
        ((n >> 24) & 0xff) as u8,
        ((n >> 16) & 0xff) as u8,
        ((n >> 8) & 0xff) as u8,
        (n & 0xff) as u8,
    ]
}

/// The 64-bit value read from eight big-endian bytes.
pub open spec fn spec_u64_of_be(
    b0: u8,
    b1: u8,
    b2: u8,
    b3: u8,
    b4: u8,
    b5: u8,
    b6: u8,
    b7: u8,
) -> u64 {
    (((b0 as u64) << 56) | ((b1 as u64) << 48) | ((b2 as u64) << 40) | ((b3 as u64) << 32)
        | ((b4 as u64) << 24) | ((b5 as u64) << 16) | ((b6 as u64) << 8) | (b7 as u64)) as u64
}

/// Reading back the eight bytes of a value yields the value.
pub proof fn lemma_u64_be_round_trip(n: u64)
    ensures
        ({
            let b = spec_u64_be(n);
            spec_u64_of_be(b[0], b[1], b[2], b[3], b[4], b[5], b[6], b[7]) == n
        }),
{
    let b0 = ((n >> 56) & 0xff) as u8;
    let b1 = ((n >> 48) & 0xff) as u8;
    let b2 = ((n >> 40) & 0xff) as u8;
    let b3 = ((n >> 32) & 0xff) as u8;
    let b4 = ((n >> 24) & 0xff) as u8;
    let b5 = ((n >> 16) & 0xff) as u8;
    let b6 = ((n >> 8) & 0xff) as u8;
    let b7 = (n & 0xff) as u8;
    assert((((b0 as u64) << 56) | ((b1 as u64) << 48) | ((b2 as u64) << 40) | ((b3 as u64) << 32)
        | ((b4 as u64) << 24) | ((b5 as u64) << 16) | ((b6 as u64) << 8) | (b7 as u64)) == n)
        by (bit_vector)
        requires
            b0 == ((n >> 56) & 0xff) as u8,
            b1 == ((n >> 48) & 0xff) as u8,
            b2 == ((n >> 40) & 0xff) as u8,
            b3 == ((n >> 32) & 0xff) as u8,
            b4 == ((n >> 24) & 0xff) as u8,
            b5 == ((n >> 16) & 0xff) as u8,
            b6 == ((n >> 8) & 0xff) as u8,
            b7 == (n & 0xff) as u8,
    ;
}

/// The sixteen wire bytes of an identity: `hi` then `lo`, big-endian.
pub open spec fn spec_uuid_bytes(u: Uuid) -> Seq<u8> {
    spec_u64_be(u.hi) + spec_u64_be(u.lo)
}

/// The identity read from sixteen wire bytes.
pub open spec fn spec_uuid_of_bytes(b: Seq<u8>) -> Uuid
    recommends
        b.len() == 16,
{
    Uuid {
        hi: spec_u64_of_be(b[0], b[1], b[2], b[3], b[4], b[5], b[6], b[7]),
        lo: spec_u64_of_be(b[8], b[9], b[10], b[11], b[12], b[13], b[14], b[15]),
    }
}

/// Reading back the sixteen bytes of an identity yields the identity.
pub proof fn lemma_uuid_bytes_round_trip(u: Uuid)
    ensures
        spec_uuid_bytes(u).len() == 16,
        spec_uuid_of_bytes(spec_uuid_bytes(u)) == u,
{
    lemma_u64_be_round_trip(u.hi);
    lemma_u64_be_round_trip(u.lo);
}

/// Append one 64-bit value as eight big-endian bytes.
pub(crate) fn push_u64_be(n: u64, out: &mut Vec<u8>)
    ensures
        final(out)@ == old(out)@ + spec_u64_be(n),
{
    out.push(((n >> 56) & 0xff) as u8);
    out.push(((n >> 48) & 0xff) as u8);
    out.push(((n >> 40) & 0xff) as u8);
    out.push(((n >> 32) & 0xff) as u8);
    out.push(((n >> 24) & 0xff) as u8);
    out.push(((n >> 16) & 0xff) as u8);
    out.push(((n >> 8) & 0xff) as u8);
    out.push((n & 0xff) as u8);
    assert(out@ =~= old(out)@ + spec_u64_be(n));
}

/// Append the sixteen wire bytes of an identity.
pub fn uuid_to_bytes(u: &Uuid, out: &mut Vec<u8>)
    ensures
        final(out)@ == old(out)@ + spec_uuid_bytes(*u),
{
    push_u64_be(u.hi, out);
    push_u64_be(u.lo, out);
    assert(out@ =~= old(out)@ + spec_uuid_bytes(*u));
}

/// Read one 64-bit value from eight bytes at `start`.
fn read_u64_be(v: &Vec<u8>, start: usize) -> (r: u64)
    requires
        start + 8 <= v@.len(),
    ensures
        r == spec_u64_of_be(
            v@[start as int],
            v@[start + 1],
            v@[start + 2],
            v@[start + 3],
            v@[start + 4],
            v@[start + 5],
            v@[start + 6],
            v@[start + 7],
        ),
{
    let l = v.len();
    ((v[start] as u64) << 56) | ((v[start + 1] as u64) << 48) | ((v[start + 2] as u64) << 40)
        | ((v[start + 3] as u64) << 32) | ((v[start + 4] as u64) << 24)
        | ((v[start + 5] as u64) << 16) | ((v[start + 6] as u64) << 8) | (v[start + 7] as u64)
}

/// Read an identity from its sixteen wire bytes.
pub fn uuid_of_bytes(v: &Vec<u8>) -> (r: Uuid)
    requires
        v@.len() == 16,
    ensures
        r == spec_uuid_of_bytes(v@),
{
    let hi = read_u64_be(v, 0);
    let lo = read_u64_be(v, 8);
    Uuid { hi, lo }
}

} // verus!
