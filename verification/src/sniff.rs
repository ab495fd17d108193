//! Protocol sniffing: deciding, from the first bytes of an inbound connection,
//! whether the traffic belongs to this protocol.
//!
//! Several protocols may share one listening port; each connection opened by
//! this protocol starts with a fixed 8-byte magic sequence. Sniffing inspects
//! an already-buffered prefix and consumes nothing.

use vstd::prelude::*;

verus! {

/// The magic byte sequence sent at the beginning of every connection of this
/// protocol.
pub open spec fn protocol_magic() -> Seq<u8> {
    seq![0x5fu8, 0x65u8, 0x44u8, 0x90u8, 0xafu8, 0x4bu8, 0x3cu8, 0xfcu8]
}

/// A byte sequence is a handshake of this protocol when it holds at least 8
/// bytes and the first 8 equal the magic sequence.
pub open spec fn is_handshake_prefix(b: Seq<u8>) -> bool {
    b.len() >= 8 && b.subrange(0, 8) == protocol_magic()
}

/// Reports whether `buf` opens a connection of this protocol: true iff at
/// least 8 bytes are present and the first 8 equal the magic sequence. Fewer
/// than 8 bytes means "not (yet) this protocol"; the caller buffers more and
/// may ask again.
pub fn match_handshake(buf: &[u8]) -> (r: bool)
    ensures
        r == is_handshake_prefix(buf@),
{
    if buf.len() < 8 {
        return false;
    }
    let r = buf[0] == 0x5f && buf[1] == 0x65 && buf[2] == 0x44 && buf[3] == 0x90 && buf[4] == 0xaf
        && buf[5] == 0x4b && buf[6] == 0x3c && buf[7] == 0xfc;
    proof {
        if r {
            assert(buf@.subrange(0, 8) =~= protocol_magic());
        } else {
            let p = buf@.subrange(0, 8);
            assert(p[0] == buf@[0] && p[1] == buf@[1] && p[2] == buf@[2] && p[3] == buf@[3]
                && p[4] == buf@[4] && p[5] == buf@[5] && p[6] == buf@[6] && p[7] == buf@[7]);
            assert(p != protocol_magic());
        }
    }
    r
}

} // verus!
