//! The fixed-size connection handshake.
//!
//! Every connection of this protocol opens with exactly 25 bytes: the 8-byte
//! magic sequence, a 128-bit session identifier copied byte-for-byte, and one
//! role byte (zero for the initiator, nonzero for the rendezvous responder).
//! This module builds and parses that frame; actually moving the 25 bytes over
//! a transport is the caller's affair. On receive, only the identifier and the
//! role are extracted; the magic bytes are not re-verified here, since the
//! sniffing stage has already vouched for them.

use vstd::prelude::*;

use crate::sniff::is_handshake_prefix;
use crate::sniff::protocol_magic;

verus! {

/// The exact length of a handshake frame on the wire.
pub open spec fn handshake_len() -> int {
    25
}

/// A 128-bit session identifier, always exactly 16 bytes, carried in the
/// handshake byte-for-byte and never interpreted as a machine integer.
pub struct SessionId {
    bytes: Vec<u8>,
}

impl View for SessionId {
    type V = Seq<u8>;

    closed spec fn view(&self) -> Seq<u8> {
        self.bytes@
    }
}

impl SessionId {
    #[verifier::type_invariant]
    spec fn well_formed(self) -> bool {
        self.bytes@.len() == 16
    }

    /// Builds a session identifier from its 16 bytes.
    pub fn new(bytes: Vec<u8>) -> (s: SessionId)
        requires
            bytes@.len() == 16,
        ensures
            s@ == bytes@,
    {
        SessionId { bytes }
    }

    /// The identifier's 16 bytes.
    pub fn bytes(&self) -> (r: &Vec<u8>)
        ensures
            r@ == self@,
            r@.len() == 16,
    {
        proof {
            use_type_invariant(self);
        }
        &self.bytes
    }
}

/// The 25 bytes sent on the wire for a given session identifier and role
/// flag: magic, then the identifier, then one role byte.
pub open spec fn handshake_frame(session: Seq<u8>, is_rendezvous: bool) -> Seq<u8> {
    protocol_magic() + session + seq![(if is_rendezvous { 1u8 } else { 0u8 })]
}

/// Builds the 25-byte handshake frame announcing `session` with the given
/// role. The caller writes the frame to the transport in full before the
/// handshake counts as sent.
pub fn encode_handshake(session: &SessionId, is_rendezvous: bool) -> (r: Vec<u8>)
    ensures
        r@ == handshake_frame(session@, is_rendezvous),
        r@.len() == handshake_len(),
{
    let id = session.bytes();
    let mut out: Vec<u8> = Vec::new();
    out.push(0x5f);
    out.push(0x65);
    out.push(0x44);
    out.push(0x90);
    out.push(0xaf);
    out.push(0x4b);
    out.push(0x3c);
    out.push(0xfc);
    proof {
        assert(out@ =~= protocol_magic());
    }
    let mut i: usize = 0;
    while i < 16
        invariant
            id@ == session@,
            id@.len() == 16,
            i <= 16,
            out@ == protocol_magic() + id@.take(i as int),
        decreases 16 - i,
    {
        out.push(id[i]);
        proof {
            assert(out@ =~= protocol_magic() + id@.take(i + 1));
        }
        i = i + 1;
    }
    out.push(if is_rendezvous {
        1
    } else {
        0
    });
    proof {
        assert(id@.take(16) =~= session@);
        assert(out@ =~= handshake_frame(session@, is_rendezvous));
    }
    out
}

/// Parses a received 25-byte handshake frame into the session identifier
/// (bytes 8 through 23) and the role flag (byte 24; any nonzero value means
/// rendezvous). The magic bytes are not inspected.
pub fn decode_handshake(frame: &[u8]) -> (r: (SessionId, bool))
    requires
        frame@.len() == handshake_len(),
    ensures
        r.0@ == frame@.subrange(8, 24),
        r.1 == (frame@[24] != 0),
{
    let mut id: Vec<u8> = Vec::new();
    let mut i: usize = 8;
    while i < 24
        invariant
            frame@.len() == 25,
            8 <= i <= 24,
            id@ == frame@.subrange(8, i as int),
        decreases 24 - i,
    {
        id.push(frame[i]);
        proof {
            assert(id@ =~= frame@.subrange(8, i + 1));
        }
        i = i + 1;
    }
    let session = SessionId::new(id);
    let is_rendezvous = frame[24] > 0;
    (session, is_rendezvous)
}

/// Law: the handshake round-trips. For any 16-byte session identifier and any
/// role flag, parsing a built frame recovers exactly that identifier and that
/// flag.
pub proof fn lemma_handshake_round_trip(session: Seq<u8>, is_rendezvous: bool)
    requires
        session.len() == 16,
    ensures
        handshake_frame(session, is_rendezvous).len() == handshake_len(),
        handshake_frame(session, is_rendezvous).subrange(8, 24) == session,
        (handshake_frame(session, is_rendezvous)[24] != 0) == is_rendezvous,
{
    let f = handshake_frame(session, is_rendezvous);
    assert(f.subrange(8, 24) =~= session);
}

/// Law: every handshake frame passes the protocol sniff, so a connection that
/// opens with a handshake is always routed to this protocol.
pub proof fn lemma_handshake_sniffs(session: Seq<u8>, is_rendezvous: bool)
    requires
        session.len() == 16,
    ensures
        is_handshake_prefix(handshake_frame(session, is_rendezvous)),
{
    assert(handshake_frame(session, is_rendezvous).subrange(0, 8) =~= protocol_magic());
}

} // verus!
