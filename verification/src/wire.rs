//! The binary record format used by the wire protocol.
//!
//! A record is a sequence of fields; each field is a tag byte followed by
//! a varint length and that many payload bytes. Varints are little-endian
//! base-128 with a continuation bit, as in common tag-length-value
//! formats. The parsers here are strict about nothing but shape: schema
//! checks (expected tags, field order) live with each message type.

use vstd::prelude::*;
use vstd::arithmetic::div_mod::lemma_fundamental_div_mod;
use vstd::arithmetic::div_mod::lemma_div_is_ordered;
use vstd::arithmetic::div_mod::lemma_div_multiples_vanish;
use vstd::arithmetic::mul::lemma_mul_inequality;

verus! {

/// The varint encoding of a 64-bit value.
pub open spec fn spec_varint(n: u64) -> Seq<u8>
    decreases n,
{
    if n < 128 {
        seq![n as u8]
    } else {
        seq![(n % 128 + 128) as u8] + spec_varint(n / 128)
    }
}

/// Append the varint encoding of `n` to `out`.
pub fn encode_varint(n: u64, out: &mut Vec<u8>)
    ensures
        final(out)@ == old(out)@ + spec_varint(n),
    decreases n,
{
    if n < 128 {
        out.push(n as u8);
        assert(out@ =~= old(out)@ + spec_varint(n));
    } else {
        out.push((n % 128 + 128) as u8);
        encode_varint(n / 128, out);
        assert(out@ =~= old(out)@ + spec_varint(n));
    }
}

/// Parse one varint from the front of `s`; on success, the value and the
/// remaining bytes. Fails on an empty input, a truncated varint, or a
/// value that does not fit in 64 bits.
pub open spec fn spec_parse_varint(s: Seq<u8>) -> Option<(u64, Seq<u8>)>
    decreases s.len(),
{
    if s.len() == 0 {
        None
    } else if s[0] < 128 {
        Some((s[0] as u64, s.drop_first()))
    } else {
        match spec_parse_varint(s.drop_first()) {
            None => None,
            Some((hi, rest)) => {
                if (hi as int) * 128 + (s[0] - 128) <= u64::MAX {
                    Some((((hi as int) * 128 + (s[0] - 128)) as u64, rest))
                } else {
                    None
                }
            },
        }
    }
}

/// Parse one varint starting at `pos`; on success, the value and the
/// position just past it.
pub fn parse_varint(buf: &Vec<u8>, pos: usize) -> (r: Option<(u64, usize)>)
    requires
        pos <= buf@.len(),
    ensures
        r matches Some(p) ==> pos < p.1 <= buf@.len()
            && spec_parse_varint(buf@.skip(pos as int)) == Some((p.0, buf@.skip(p.1 as int))),
        r is None ==> spec_parse_varint(buf@.skip(pos as int)) is None,
    decreases buf@.len() - pos,
{
    let ghost s = buf@.skip(pos as int);
    if pos >= buf.len() {
        return None;
    }
    let b = buf[pos];
    assert(s[0] == b);
    assert(s.drop_first() =~= buf@.skip(pos + 1));
    if b < 128 {
        return Some((b as u64, pos + 1));
    }
    let lo: u64 = (b - 128) as u64;
    match parse_varint(buf, pos + 1) {
        None => {
            return None;
        },
        Some((hi, np)) => {
            if hi > (u64::MAX - lo) / 128 {
                proof {
                    // were hi * 128 + lo within range, hi would be at most
                    // (u64::MAX - lo) / 128
                    if (hi as int) * 128 + lo <= u64::MAX {
                        lemma_div_multiples_vanish(hi as int, 128);
                        lemma_div_is_ordered((hi as int) * 128, u64::MAX - lo, 128);
                        assert(((hi as int) * 128) / 128 <= (u64::MAX - lo as int) / 128);
                    }
                }
                return None;
            }
            proof {
                lemma_fundamental_div_mod(u64::MAX - lo as int, 128);
                lemma_mul_inequality(hi as int, (u64::MAX - lo as int) / 128, 128);
                assert((hi as int) * 128 + lo <= u64::MAX);
            }
            return Some((hi * 128 + lo, np));
        },
    }
}

/// One field: a tag byte, a varint length, and that many payload bytes.
pub open spec fn spec_field(tag: u8, data: Seq<u8>) -> Seq<u8>
    recommends
        data.len() <= u64::MAX,
{
    seq![tag] + spec_varint(data.len() as u64) + data
}

/// Append one field to `out`.
pub fn encode_field(tag: u8, data: &Vec<u8>, out: &mut Vec<u8>)
    ensures
        final(out)@ == old(out)@ + spec_field(tag, data@),
{
    out.push(tag);
    encode_varint(data.len() as u64, out);
    let mut i: usize = 0;
    while i < data.len()
        invariant
            i <= data@.len(),
            out@ == old(out)@ + seq![tag] + spec_varint(data@.len() as u64) + data@.take(i as int),
        decreases data@.len() - i,
    {
        out.push(data[i]);
        assert(data@.take(i + 1) == data@.take(i as int).push(data@[i as int]));
        i += 1;
    }
    assert(data@.take(data@.len() as int) == data@);
    assert(out@ =~= old(out)@ + spec_field(tag, data@));
}

/// Parse one field from the front of `s`: the tag, the payload, and the
/// remaining bytes.
pub open spec fn spec_parse_field(s: Seq<u8>) -> Option<(u8, Seq<u8>, Seq<u8>)> {
    if s.len() == 0 {
        None
    } else {
        match spec_parse_varint(s.drop_first()) {
            None => None,
            Some((len, rest)) => {
                if len <= rest.len() {
                    Some((s[0], rest.take(len as int), rest.skip(len as int)))
                } else {
                    None
                }
            },
        }
    }
}

/// Copy `v[start..end]` into a fresh vector.
pub fn copy_range(v: &Vec<u8>, start: usize, end: usize) -> (r: Vec<u8>)
    requires
        start <= end <= v@.len(),
    ensures
        r@ == v@.subrange(start as int, end as int),
{
    let mut r: Vec<u8> = Vec::new();
    let mut i: usize = start;
    while i < end
        invariant
            start <= i <= end <= v@.len(),
            r@ == v@.subrange(start as int, i as int),
        decreases end - i,
    {
        r.push(v[i]);
        assert(v@.subrange(start as int, i + 1)
            == v@.subrange(start as int, i as int).push(v@[i as int]));
        i += 1;
    }
    r
}

/// Parse one field starting at `pos`; on success, the tag, the payload,
/// and the position just past the field.
pub fn parse_field(buf: &Vec<u8>, pos: usize) -> (r: Option<(u8, Vec<u8>, usize)>)
    requires
        pos <= buf@.len(),
    ensures
        r matches Some(f) ==> pos < f.2 <= buf@.len()
            && spec_parse_field(buf@.skip(pos as int)) == Some((f.0, f.1@, buf@.skip(f.2 as int))),
        r is None ==> spec_parse_field(buf@.skip(pos as int)) is None,
{
    let ghost s = buf@.skip(pos as int);
    if pos >= buf.len() {
        return None;
    }
    let tag = buf[pos];
    assert(s[0] == tag);
    assert(s.drop_first() =~= buf@.skip(pos + 1));
    match parse_varint(buf, pos + 1) {
        None => {
            return None;
        },
        Some((len, p2)) => {
            let ghost rest = buf@.skip(p2 as int);
            if len > (buf.len() - p2) as u64 {
                return None;
            }
            let len_us = len as usize;
            let data = copy_range(buf, p2, p2 + len_us);
            assert(data@ =~= rest.take(len as int));
            assert(buf@.skip(p2 + len_us) =~= rest.skip(len as int));
            return Some((tag, data, p2 + len_us));
        },
    }
}

/// Byte-wise equality of two vectors.
pub fn bytes_eq(a: &Vec<u8>, b: &Vec<u8>) -> (r: bool)
    ensures
        r == (a@ == b@),
{
    if a.len() != b.len() {
        return false;
    }
    let mut i: usize = 0;
    while i < a.len()
        invariant
            i <= a@.len(),
            a@.len() == b@.len(),
            forall|j: int| 0 <= j < i ==> a@[j] == b@[j],
        decreases a@.len() - i,
    {
        if a[i] != b[i] {
            return false;
        }
        i += 1;
    }
    assert(a@ =~= b@);
    true
}

/// Round trip of the varint: the encoding of `n` parses back to `n`,
/// leaving any following bytes untouched.
pub proof fn lemma_varint_round_trip(n: u64, rest: Seq<u8>)
    ensures
        spec_parse_varint(spec_varint(n) + rest) == Some((n, rest)),
    decreases n,
{
    let s = spec_varint(n) + rest;
    if n < 128 {
        assert(s[0] == n as u8);
        assert(s.drop_first() =~= rest);
    } else {
        assert(s[0] == (n % 128 + 128) as u8);
        assert(s[0] >= 128);
        assert(s.drop_first() =~= spec_varint(n / 128) + rest);
        lemma_varint_round_trip(n / 128, rest);
        lemma_fundamental_div_mod(n as int, 128);
        assert(((n / 128) as int) * 128 + (s[0] - 128) == n);
    }
}

/// Round trip of one field, for any payload whose length a varint can
/// carry.
pub proof fn lemma_field_round_trip(tag: u8, data: Seq<u8>, rest: Seq<u8>)
    requires
        data.len() <= u64::MAX,
    ensures
        spec_parse_field(spec_field(tag, data) + rest) == Some((tag, data, rest)),
{
    let s = spec_field(tag, data) + rest;
    assert(s[0] == tag);
    assert(s.drop_first() =~= spec_varint(data.len() as u64) + (data + rest));
    lemma_varint_round_trip(data.len() as u64, data + rest);
    assert((data + rest).take(data.len() as int) =~= data);
    assert((data + rest).skip(data.len() as int) =~= rest);
}

} // verus!
