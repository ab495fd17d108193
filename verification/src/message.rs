//! The typed message channel layered on the framing.
//!
//! Once the handshake is done, the connection carries values of one
//! application-chosen payload type, serialized with bincode's fixed,
//! versionless binary encoding and framed by `crate::frame`. The channel
//! here carries `u64` payloads: each message serializes to its 8
//! little-endian bytes, travels as one frame, and is decoded back in arrival
//! order. The encoder is total for this payload type; the decoder reports a
//! deserialization error for a frame whose payload is not a message, and a
//! truncation error when the stream closes inside a frame.

use vstd::prelude::*;

use crate::frame::after_first;
use crate::frame::encode_frame;
use crate::frame::first_payload;
use crate::frame::frame_of;
use crate::frame::has_frame;
use crate::frame::lemma_frame_round_trip;
use crate::frame::DecodeError;
use crate::frame::FrameDecoder;

verus! {

/// The 8 little-endian bytes of a message value: exactly how bincode's
/// default configuration serializes a `u64`.
pub open spec fn u64_le(v: u64) -> Seq<u8> {
    seq![
        (v & 0xff) as u8,
        ((v >> 8) & 0xff) as u8,
        ((v >> 16) & 0xff) as u8,
        ((v >> 24) & 0xff) as u8,
        ((v >> 32) & 0xff) as u8,
        ((v >> 40) & 0xff) as u8,
        ((v >> 48) & 0xff) as u8,
        ((v >> 56) & 0xff) as u8,
    ]
}

/// The message value read back from 8 little-endian bytes.
pub open spec fn u64_of_le(b: Seq<u8>) -> u64
    recommends
        b.len() == 8,
{
    (b[0] as int + b[1] as int * 0x100 + b[2] as int * 0x10000 + b[3] as int * 0x1000000 + b[4]
        as int * 0x100000000 + b[5] as int * 0x10000000000 + b[6] as int * 0x1000000000000 + b[7]
        as int * 0x100000000000000) as u64
}

/// Reading the 8 bytes of a serialized message back gives the message.
pub proof fn lemma_u64_le_round_trip(v: u64)
    ensures
        u64_of_le(u64_le(v)) == v,
{
    assert((v & 0xff) < 256 && ((v >> 8) & 0xff) < 256 && ((v >> 16) & 0xff) < 256 && ((v >> 24)
        & 0xff) < 256 && ((v >> 32) & 0xff) < 256 && ((v >> 40) & 0xff) < 256 && ((v >> 48) & 0xff)
        < 256 && ((v >> 56) & 0xff) < 256) by (bit_vector);
    assert((v & 0xff) + ((v >> 8) & 0xff) * 0x100 + ((v >> 16) & 0xff) * 0x10000 + ((v >> 24)
        & 0xff) * 0x1000000 + ((v >> 32) & 0xff) * 0x100000000 + ((v >> 40) & 0xff) * 0x10000000000
        + ((v >> 48) & 0xff) * 0x1000000000000 + ((v >> 56) & 0xff) * 0x100000000000000 == v)
        by (bit_vector);
}

/// Relies on bincode::serialize: under bincode's default configuration
/// (fixed-width integers, little-endian, writing into a `Vec`, which cannot
/// fail) a `u64` serializes to exactly its 8 little-endian bytes.
#[verifier::external_body]
fn serialize_payload(v: u64) -> (r: Vec<u8>)
    ensures
        r@ == u64_le(v),
{
    bincode::serialize(&v).expect("serializing an integer into a Vec cannot fail")
}

/// Relies on bincode::deserialize: under bincode's default configuration a
/// `u64` is read from the first 8 bytes of the slice, little-endian; fewer
/// than 8 bytes are an error, and trailing bytes are permitted and ignored.
#[verifier::external_body]
fn deserialize_payload(bytes: &Vec<u8>) -> (r: Option<u64>)
    ensures
        bytes@.len() >= 8 ==> r == Some(u64_of_le(bytes@.take(8))),
        bytes@.len() < 8 ==> r is None,
{
    bincode::deserialize(bytes).ok()
}

/// The bytes one message puts on the wire: a frame holding its serialized
/// form.
pub open spec fn message_frame(v: u64) -> Seq<u8> {
    frame_of(u64_le(v))
}

/// Serializes one message and wraps it into a frame, ready to be written to
/// the transport. Encoding a message is total: serialization of this payload
/// type cannot fail, and its 8 bytes always fit the length field.
pub fn encode_message(v: u64) -> (r: Vec<u8>)
    ensures
        r@ == message_frame(v),
        r@.len() == 12,
{
    let payload = serialize_payload(v);
    encode_frame(&payload)
}

/// The receive side of the typed channel: buffers inbound bytes and yields
/// messages, strictly in arrival order. Its view is the bytes fed but not
/// yet consumed.
pub struct MessageDecoder {
    frames: FrameDecoder,
}

impl View for MessageDecoder {
    type V = Seq<u8>;

    closed spec fn view(&self) -> Seq<u8> {
        self.frames@
    }
}

impl MessageDecoder {
    /// A fresh decoder holding no bytes.
    pub fn new() -> (d: MessageDecoder)
        ensures
            d@ == Seq::<u8>::empty(),
    {
        MessageDecoder { frames: FrameDecoder::new() }
    }

    /// Hands the decoder the next chunk read from the transport. Chunks may
    /// be cut arbitrarily small: only their concatenation matters.
    pub fn feed(&mut self, chunk: &[u8])
        ensures
            final(self)@ == old(self)@ + chunk@,
    {
        self.frames.feed(chunk);
    }

    /// Yields the next message if a complete frame has arrived: `Ok(None)`
    /// when more bytes are needed, `Ok(Some(v))` for a frame whose payload
    /// deserializes to `v`, and a deserialization error for a frame whose
    /// payload is no message; after the first error the caller abandons the
    /// stream.
    pub fn try_next(&mut self) -> (r: Result<Option<u64>, DecodeError>)
        ensures
            !has_frame(old(self)@) ==> r == Ok::<Option<u64>, DecodeError>(None)
                && final(self)@ == old(self)@,
            has_frame(old(self)@) ==> final(self)@ == after_first(old(self)@) && r == (
            if first_payload(old(self)@).len() >= 8 {
                Ok::<Option<u64>, DecodeError>(
                    Some(u64_of_le(first_payload(old(self)@).take(8))),
                )
            } else {
                Err::<Option<u64>, DecodeError>(DecodeError::Deserialize)
            }),
    {
        match self.frames.try_decode() {
            None => Ok(None),
            Some(payload) => match deserialize_payload(&payload) {
                None => Err(DecodeError::Deserialize),
                Some(v) => Ok(Some(v)),
            },
        }
    }

    /// Called when the transport closes: a close on an empty buffer is the
    /// clean end of the message sequence, a close inside a frame is a
    /// truncation error.
    pub fn finish(&self) -> (r: Result<(), DecodeError>)
        ensures
            r is Ok <==> self@.len() == 0,
            r matches Err(e) ==> e == DecodeError::Truncated,
    {
        self.frames.finish()
    }
}

/// Law: a message round-trips, whatever follows it on the stream. Decoding
/// the bytes produced by encoding `v` yields `v` back exactly and leaves the
/// rest of the stream untouched; with `MessageDecoder::feed` this holds
/// under arbitrary fragmentation of the byte delivery.
pub proof fn lemma_message_round_trip(v: u64, rest: Seq<u8>)
    ensures
        has_frame(message_frame(v) + rest),
        first_payload(message_frame(v) + rest) == u64_le(v),
        u64_of_le(first_payload(message_frame(v) + rest).take(8)) == v,
        after_first(message_frame(v) + rest) == rest,
{
    lemma_frame_round_trip(u64_le(v), rest);
    lemma_u64_le_round_trip(v);
    assert(u64_le(v).take(8) =~= u64_le(v));
}

} // verus!
