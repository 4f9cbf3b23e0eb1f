//! Length-prefixed framing over a reliable byte stream.
//!
//! Each frame is a 4-byte big-endian unsigned length followed by exactly
//! that many payload bytes. Frames longer than the configured maximum are
//! a protocol violation. The decoder is resumable: bytes arrive in
//! arbitrary chunks and a frame is produced once it is complete.

use vstd::prelude::*;

verus! {

/// Default maximum frame length: 16 MiB.
pub const DEFAULT_MAX_FRAME: usize = 16777216;

/// Errors of the framed transport.
#[derive(Clone, Copy, Debug, PartialEq, Eq, Structural)]
pub enum FrameError {
    /// The peer violated the framing protocol (frame too long).
    ProtocolViolation,
    /// The stream ended in the middle of a frame.
    ConnectionAborted,
}

/// The four big-endian bytes of a 32-bit length.
pub open spec fn spec_u32_be(n: u32) -> Seq<u8> {
    seq![
        ((n >> 24) & 0xff) as u8,
        ((n >> 16) & 0xff) as u8,
        ((n >> 8) & 0xff) as u8,
        (n & 0xff) as u8,
    ]
}

/// The 32-bit value read from four big-endian bytes.
pub open spec fn spec_u32_of_be(b0: u8, b1: u8, b2: u8, b3: u8) -> u32 {
    (((b0 as u32) << 24) | ((b1 as u32) << 16) | ((b2 as u32) << 8) | (b3 as u32)) as u32
}

/// Reading back the four bytes of a length yields the length.
pub proof fn lemma_u32_be_round_trip(n: u32)
    ensures
        spec_u32_of_be(
            spec_u32_be(n)[0],
            spec_u32_be(n)[1],
            spec_u32_be(n)[2],
            spec_u32_be(n)[3],
        ) == n,
{
    let b0 = ((n >> 24) & 0xff) as u8;
    let b1 = ((n >> 16) & 0xff) as u8;
    let b2 = ((n >> 8) & 0xff) as u8;
    let b3 = (n & 0xff) as u8;
    assert((((b0 as u32) << 24) | ((b1 as u32) << 16) | ((b2 as u32) << 8) | (b3 as u32)) == n)
        by (bit_vector)
        requires
            b0 == ((n >> 24) & 0xff) as u8,
            b1 == ((n >> 16) & 0xff) as u8,
            b2 == ((n >> 8) & 0xff) as u8,
            b3 == (n & 0xff) as u8,
    ;
}

/// The length field of a buffer that starts with a complete length prefix.
pub open spec fn spec_frame_len(s: Seq<u8>) -> nat
    recommends
        s.len() >= 4,
{
    spec_u32_of_be(s[0], s[1], s[2], s[3]) as nat
}

/// Encode one frame: big-endian length followed by the payload.
///
/// Succeeds exactly on payloads no longer than `max_len` (and than the
/// largest length the four-byte prefix can carry).
pub fn encode_frame(payload: &Vec<u8>, max_len: usize) -> (r: Result<Vec<u8>, FrameError>)
    ensures
        r is Ok <==> payload@.len() <= max_len && payload@.len() <= u32::MAX,
        r matches Ok(f) ==> f@ == spec_u32_be(payload@.len() as u32) + payload@,
        r matches Err(e) ==> e == FrameError::ProtocolViolation,
{
    if payload.len() > max_len || payload.len() > 0xffff_ffffusize {
        return Err(FrameError::ProtocolViolation);
    }
    let n = payload.len() as u32;
    let mut out: Vec<u8> = Vec::new();
    out.push(((n >> 24) & 0xff) as u8);
    out.push(((n >> 16) & 0xff) as u8);
    out.push(((n >> 8) & 0xff) as u8);
    out.push((n & 0xff) as u8);
    let mut i: usize = 0;
    while i < payload.len()
        invariant
            i <= payload@.len(),
            payload@.len() <= u32::MAX,
            n == payload@.len() as u32,
            out@ == spec_u32_be(n) + payload@.take(i as int),
        decreases payload@.len() - i,
    {
        out.push(payload[i]);
        assert(payload@.take(i + 1) == payload@.take(i as int).push(payload@[i as int]));
        i += 1;
    }
    assert(payload@.take(payload@.len() as int) == payload@);
    Ok(out)
}

/// Resumable decoder for length-prefixed frames.
pub struct FrameDecoder {
    buf: Vec<u8>,
    max_len: usize,
}

impl FrameDecoder {
    /// The bytes received and not yet consumed.
    pub closed spec fn buffered(&self) -> Seq<u8> {
        self.buf@
    }

    /// The configured maximum frame length.
    pub closed spec fn max_frame(&self) -> nat {
        self.max_len as nat
    }

    pub fn new(max_len: usize) -> (r: Self)
        ensures
            r.buffered() == Seq::<u8>::empty(),
            r.max_frame() == max_len,
    {
        FrameDecoder { buf: Vec::new(), max_len }
    }

    /// Feed a chunk of bytes received from the stream.
    pub fn push_bytes(&mut self, data: &Vec<u8>)
        ensures
            final(self).buffered() == old(self).buffered() + data@,
            final(self).max_frame() == old(self).max_frame(),
    {
        let mut i: usize = 0;
        while i < data.len()
            invariant
                i <= data@.len(),
                self.buf@ == old(self).buf@ + data@.take(i as int),
                self.max_len == old(self).max_len,
            decreases data@.len() - i,
        {
            self.buf.push(data[i]);
            assert(data@.take(i + 1) == data@.take(i as int).push(data@[i as int]));
            i += 1;
        }
        assert(data@.take(data@.len() as int) == data@);
    }

    /// Try to take one complete frame off the buffer.
    ///
    /// `Ok(None)` means more bytes are needed; `Ok(Some(f))` consumes the
    /// length prefix and the payload `f`; a frame announcing more than the
    /// maximum length is a protocol violation and consumes nothing.
    pub fn poll_frame(&mut self) -> (r: Result<Option<Vec<u8>>, FrameError>)
        ensures
            final(self).max_frame() == old(self).max_frame(),
            r matches Ok(Some(f)) ==> {
                &&& old(self).buffered().len() >= 4
                &&& f@.len() == spec_frame_len(old(self).buffered())
                &&& f@.len() <= old(self).max_frame()
                &&& old(self).buffered().len() >= 4 + f@.len()
                &&& f@ == old(self).buffered().subrange(4, 4 + f@.len() as int)
                &&& final(self).buffered() == old(self).buffered().skip(4 + f@.len() as int)
            },
            r matches Ok(None) ==> {
                &&& final(self).buffered() == old(self).buffered()
                &&& (old(self).buffered().len() < 4 || {
                    &&& spec_frame_len(old(self).buffered()) <= old(self).max_frame()
                    &&& old(self).buffered().len() < 4 + spec_frame_len(old(self).buffered())
                })
            },
            r matches Err(e) ==> {
                &&& e == FrameError::ProtocolViolation
                &&& final(self).buffered() == old(self).buffered()
                &&& old(self).buffered().len() >= 4
                &&& spec_frame_len(old(self).buffered()) > old(self).max_frame()
            },
    {
        if self.buf.len() < 4 {
            return Ok(None);
        }
        let n = spec_u32_of_be_exec(self.buf[0], self.buf[1], self.buf[2], self.buf[3]);
        if n as usize > self.max_len {
            return Err(FrameError::ProtocolViolation);
        }
        let frame_len = n as usize;
        if self.buf.len() - 4 < frame_len {
            return Ok(None);
        }
        let end: usize = 4 + frame_len;
        let mut payload: Vec<u8> = Vec::new();
        let mut i: usize = 4;
        while i < end
            invariant
                4 <= i <= end,
                end == 4 + frame_len,
                end <= self.buf@.len(),
                payload@ == self.buf@.subrange(4, i as int),
            decreases end - i,
        {
            payload.push(self.buf[i]);
            assert(self.buf@.subrange(4, i + 1)
                == self.buf@.subrange(4, i as int).push(self.buf@[i as int]));
            i += 1;
        }
        let mut rest: Vec<u8> = Vec::new();
        let mut j: usize = end;
        while j < self.buf.len()
            invariant
                end == 4 + frame_len,
                end <= j <= self.buf@.len(),
                rest@ == self.buf@.subrange(4 + frame_len as int, j as int),
            decreases self.buf@.len() - j,
        {
            rest.push(self.buf[j]);
            assert(self.buf@.subrange(4 + frame_len as int, j + 1)
                == self.buf@.subrange(4 + frame_len as int, j as int).push(self.buf@[j as int]));
            j += 1;
        }
        assert(rest@ == self.buf@.skip(4 + frame_len as int));
        self.buf = rest;
        Ok(Some(payload))
    }
}

impl FrameDecoder {
    /// The stream ended: an orderly close leaves nothing buffered, while
    /// end of file in the middle of a frame is an aborted connection.
    pub fn finish(&self) -> (r: Result<(), FrameError>)
        ensures
            r is Ok <==> self.buffered().len() == 0,
            r matches Err(e) ==> e == FrameError::ConnectionAborted,
    {
        if self.buf.len() == 0 {
            Ok(())
        } else {
            Err(FrameError::ConnectionAborted)
        }
    }
}

/// Executable form of `spec_u32_of_be`.
fn spec_u32_of_be_exec(b0: u8, b1: u8, b2: u8, b3: u8) -> (r: u32)
    ensures
        r == spec_u32_of_be(b0, b1, b2, b3),
{
    ((b0 as u32) << 24) | ((b1 as u32) << 16) | ((b2 as u32) << 8) | (b3 as u32)
}

/// Round trip of the framing: a frame encoded within the limit decodes to
/// exactly its payload, leaving any following bytes untouched.
pub proof fn lemma_frame_round_trip(payload: Seq<u8>, rest: Seq<u8>, max_len: nat)
    requires
        payload.len() <= max_len,
        payload.len() <= u32::MAX,
    ensures
        ({
            let buf = spec_u32_be(payload.len() as u32) + payload + rest;
            &&& spec_frame_len(buf) == payload.len()
            &&& buf.len() >= 4 + payload.len()
            &&& buf.subrange(4, 4 + payload.len() as int) == payload
            &&& buf.skip(4 + payload.len() as int) == rest
        }),
{
    let n = payload.len() as u32;
    let buf = spec_u32_be(n) + payload + rest;
    lemma_u32_be_round_trip(n);
    assert(buf[0] == spec_u32_be(n)[0]);
    assert(buf[1] == spec_u32_be(n)[1]);
    assert(buf[2] == spec_u32_be(n)[2]);
    assert(buf[3] == spec_u32_be(n)[3]);
    assert(buf.subrange(4, 4 + payload.len() as int) =~= payload);
    assert(buf.skip(4 + payload.len() as int) =~= rest);
}

} // verus!
