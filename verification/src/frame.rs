//! Length-delimited framing of a byte stream.
//!
//! After the handshake, every message travels as one frame: a 4-byte
//! big-endian length followed by exactly that many payload bytes. The length
//! counts the payload only, never the length field itself. The width and byte
//! order of the length field are fixed constants of the protocol, identical on
//! both peers and never negotiated.
//!
//! The decoder here is incremental: bytes arrive in chunks of arbitrary size
//! (network reads fragment freely) and are buffered until a whole frame is
//! present. Decoding depends only on the concatenation of everything fed in,
//! so fragmentation can never change what is decoded. A connection that
//! closes with buffered bytes left over closed in the middle of a frame:
//! that is a truncation error, while a close on an empty buffer ends the
//! stream cleanly.

use vstd::prelude::*;

verus! {

/// Everything that can go wrong while decoding an inbound byte stream. An
/// I/O failure of the transport itself is reported by the transport, not
/// here.
#[derive(Clone, Copy, Debug, PartialEq, Eq, Structural)]
pub enum DecodeError {
    /// The stream closed after a length prefix but before the full payload
    /// it announced.
    Truncated,
    /// A complete frame arrived but its payload does not deserialize into
    /// the message type.
    Deserialize,
}

/// The 4-byte big-endian encoding of a frame length.
pub open spec fn be32(n: u32) -> Seq<u8> {
    seq![
        ((n >> 24) & 0xff) as u8,
        ((n >> 16) & 0xff) as u8,
        ((n >> 8) & 0xff) as u8,
        (n & 0xff) as u8,
    ]
}

/// The length read back from the first four bytes of `b`.
pub open spec fn be32_val(b: Seq<u8>) -> int
    recommends
        b.len() >= 4,
{
    b[0] as int * 0x1000000 + b[1] as int * 0x10000 + b[2] as int * 0x100 + b[3] as int
}

/// One frame on the wire: the payload's length, then the payload.
pub open spec fn frame_of(payload: Seq<u8>) -> Seq<u8>
    recommends
        payload.len() <= 0xFFFF_FFFF,
{
    be32(payload.len() as u32) + payload
}

/// Whether `b` starts with one complete frame: a full length prefix and at
/// least as many payload bytes as it announces.
pub open spec fn has_frame(b: Seq<u8>) -> bool {
    b.len() >= 4 && b.len() >= 4 + be32_val(b.subrange(0, 4))
}

/// The payload of the first complete frame of `b`.
pub open spec fn first_payload(b: Seq<u8>) -> Seq<u8>
    recommends
        has_frame(b),
{
    b.subrange(4, 4 + be32_val(b.subrange(0, 4)))
}

/// What remains of `b` once the first complete frame is consumed.
pub open spec fn after_first(b: Seq<u8>) -> Seq<u8>
    recommends
        has_frame(b),
{
    b.skip(4 + be32_val(b.subrange(0, 4)))
}

/// Reading the four length bytes back gives the length they were built from.
pub proof fn lemma_be32_round_trip(n: u32)
    ensures
        be32_val(be32(n)) == n,
{
    assert(((n >> 24) & 0xff) < 256 && ((n >> 16) & 0xff) < 256 && ((n >> 8) & 0xff) < 256 && (
    n & 0xff) < 256) by (bit_vector);
    assert(((n >> 24) & 0xff) * 0x1000000 + ((n >> 16) & 0xff) * 0x10000 + ((n >> 8) & 0xff)
        * 0x100 + (n & 0xff) == n) by (bit_vector);
}

/// Wraps `payload` into one frame: its length, big-endian, then its bytes.
/// The length field is four bytes wide, so the payload must fit it; the
/// caller of the message layer never sees this bound because serialized
/// messages are small.
pub fn encode_frame(payload: &Vec<u8>) -> (r: Vec<u8>)
    requires
        payload@.len() <= 0xFFFF_FFFF,
    ensures
        r@ == frame_of(payload@),
        r@.len() == 4 + payload@.len(),
{
    let n32 = payload.len() as u32;
    proof {
        assert(((n32 >> 24) & 0xff) < 256 && ((n32 >> 16) & 0xff) < 256 && ((n32 >> 8) & 0xff)
            < 256 && (n32 & 0xff) < 256) by (bit_vector);
    }
    let mut out: Vec<u8> = Vec::new();
    out.push(((n32 >> 24) & 0xff) as u8);
    out.push(((n32 >> 16) & 0xff) as u8);
    out.push(((n32 >> 8) & 0xff) as u8);
    out.push((n32 & 0xff) as u8);
    proof {
        assert(out@ =~= be32(n32));
    }
    let mut i: usize = 0;
    while i < payload.len()
        invariant
            i <= payload@.len(),
            payload@.len() <= 0xFFFF_FFFF,
            n32 == payload@.len() as u32,
            out@ == be32(n32) + payload@.take(i as int),
        decreases payload@.len() - i,
    {
        out.push(payload[i]);
        proof {
            assert(out@ =~= be32(n32) + payload@.take(i + 1));
        }
        i = i + 1;
    }
    proof {
        assert(payload@.take(payload@.len() as int) =~= payload@);
    }
    out
}

/// An incremental decoder of the inbound byte stream. Its view is the bytes
/// fed but not yet consumed, in arrival order.
pub struct FrameDecoder {
    buf: Vec<u8>,
}

impl View for FrameDecoder {
    type V = Seq<u8>;

    closed spec fn view(&self) -> Seq<u8> {
        self.buf@
    }
}

impl FrameDecoder {
    /// A fresh decoder holding no bytes.
    pub fn new() -> (d: FrameDecoder)
        ensures
            d@ == Seq::<u8>::empty(),
    {
        FrameDecoder { buf: Vec::new() }
    }

    /// Hands the decoder the next chunk read from the transport. Chunks may
    /// be cut arbitrarily small: only their concatenation matters.
    pub fn feed(&mut self, chunk: &[u8])
        ensures
            final(self)@ == old(self)@ + chunk@,
    {
        let mut i: usize = 0;
        while i < chunk.len()
            invariant
                i <= chunk@.len(),
                self.buf@ == old(self).buf@ + chunk@.take(i as int),
            decreases chunk@.len() - i,
        {
            self.buf.push(chunk[i]);
            proof {
                assert(self.buf@ =~= old(self).buf@ + chunk@.take(i + 1));
            }
            i = i + 1;
        }
        proof {
            assert(chunk@.take(chunk@.len() as int) =~= chunk@);
        }
    }

    /// Takes the first complete frame off the buffer and returns its payload,
    /// or returns `None`, leaving the buffer untouched, when no complete
    /// frame has arrived yet.
    pub fn try_decode(&mut self) -> (r: Option<Vec<u8>>)
        ensures
            has_frame(old(self)@) ==> (r matches Some(p) && p@ == first_payload(old(self)@)
                && final(self)@ == after_first(old(self)@)),
            !has_frame(old(self)@) ==> r is None && final(self)@ == old(self)@,
    {
        let n = self.buf.len();
        if n < 4 {
            return None;
        }
        let len = (self.buf[0] as u32) * 0x1000000 + (self.buf[1] as u32) * 0x10000 + (
        self.buf[2] as u32) * 0x100 + (self.buf[3] as u32);
        proof {
            assert(len == be32_val(self.buf@.subrange(0, 4)));
        }
        if (n - 4) < len as usize {
            proof {
                assert(!has_frame(self.buf@));
            }
            return None;
        }
        let len_u = len as usize;
        let mut payload: Vec<u8> = Vec::new();
        let mut i: usize = 0;
        while i < len_u
            invariant
                len_u == be32_val(self.buf@.subrange(0, 4)),
                n == self.buf@.len(),
                n >= 4 + len_u,
                i <= len_u,
                payload@ == self.buf@.subrange(4, 4 + i as int),
            decreases len_u - i,
        {
            payload.push(self.buf[4 + i]);
            proof {
                assert(payload@ =~= self.buf@.subrange(4, 4 + (i + 1)));
            }
            i = i + 1;
        }
        let mut rest: Vec<u8> = Vec::new();
        let mut j: usize = 4 + len_u;
        while j < n
            invariant
                n == self.buf@.len(),
                4 + len_u <= j <= n,
                rest@ == self.buf@.subrange(4 + len_u as int, j as int),
            decreases n - j,
        {
            rest.push(self.buf[j]);
            proof {
                assert(rest@ =~= self.buf@.subrange(4 + len_u as int, j + 1));
            }
            j = j + 1;
        }
        proof {
            assert(payload@ == first_payload(self.buf@));
            assert(rest@ =~= after_first(self.buf@));
        }
        self.buf = rest;
        Some(payload)
    }

    /// Whether every byte fed so far has been consumed as complete frames.
    pub fn is_empty(&self) -> (r: bool)
        ensures
            r == (self@.len() == 0),
    {
        self.buf.len() == 0
    }

    /// Called when the transport closes. A close on an empty buffer ends the
    /// stream cleanly; a close with bytes still buffered means the peer went
    /// away in the middle of a frame, which is a truncation error, never a
    /// silent short value.
    pub fn finish(&self) -> (r: Result<(), DecodeError>)
        ensures
            r is Ok <==> self@.len() == 0,
            r matches Err(e) ==> e == DecodeError::Truncated,
    {
        if self.buf.len() == 0 {
            Ok(())
        } else {
            Err(DecodeError::Truncated)
        }
    }
}

/// Law: framing round-trips, whatever follows on the stream. A frame's
/// payload is decoded back exactly, and the bytes after the frame are left
/// for the next decode. Together with `FrameDecoder::feed`, which shows that
/// only the concatenation of the fed chunks matters, this holds however the
/// stream is fragmented in transit.
pub proof fn lemma_frame_round_trip(payload: Seq<u8>, rest: Seq<u8>)
    requires
        payload.len() <= 0xFFFF_FFFF,
    ensures
        has_frame(frame_of(payload) + rest),
        first_payload(frame_of(payload) + rest) == payload,
        after_first(frame_of(payload) + rest) == rest,
{
    let n32 = payload.len() as u32;
    lemma_be32_round_trip(n32);
    let b = frame_of(payload) + rest;
    assert(b.subrange(0, 4) =~= be32(n32));
    assert(b.subrange(4, 4 + payload.len() as int) =~= payload);
    assert(b.skip(4 + payload.len() as int) =~= rest);
}

/// The whole stream produced by sending `payloads` in order, one frame each.
pub open spec fn encode_all(payloads: Seq<Seq<u8>>) -> Seq<u8>
    decreases payloads.len(),
{
    if payloads.len() == 0 {
        Seq::<u8>::empty()
    } else {
        frame_of(payloads[0]) + encode_all(payloads.drop_first())
    }
}

/// Law: frames come back in send order, never reordered. The first decode of
/// an encoded stream yields exactly the first payload sent, leaving exactly
/// the stream of the remaining payloads; induction over this gives the whole
/// order.
pub proof fn lemma_frames_decode_in_order(payloads: Seq<Seq<u8>>)
    requires
        payloads.len() > 0,
        forall|i: int| 0 <= i < payloads.len() ==> #[trigger] payloads[i].len() <= 0xFFFF_FFFF,
    ensures
        has_frame(encode_all(payloads)),
        first_payload(encode_all(payloads)) == payloads[0],
        after_first(encode_all(payloads)) == encode_all(payloads.drop_first()),
{
    lemma_frame_round_trip(payloads[0], encode_all(payloads.drop_first()));
}

/// Law: a stream with nothing left in it ends cleanly: it holds no frame and
/// an empty buffer, so the decoder reports a clean close, not an error.
pub proof fn lemma_empty_stream_ends_cleanly()
    ensures
        encode_all(Seq::<Seq<u8>>::empty()) == Seq::<u8>::empty(),
        !has_frame(Seq::<u8>::empty()),
{
}

/// Law: a truncated stream is an error, never a silent short value. If the
/// stream announces `declared` payload bytes but closes after the shorter
/// `partial`, no frame is ever decoded from it, and the decoder's buffer is
/// nonempty at close, so the close reports truncation.
pub proof fn lemma_truncated_frame(declared: int, partial: Seq<u8>)
    requires
        0 <= declared <= 0xFFFF_FFFF,
        partial.len() < declared,
    ensures
        !has_frame(be32(declared as u32) + partial),
        (be32(declared as u32) + partial).len() > 0,
{
    lemma_be32_round_trip(declared as u32);
    assert((be32(declared as u32) + partial).subrange(0, 4) =~= be32(declared as u32));
}

} // verus!
