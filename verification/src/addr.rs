//! The address model: a closed union naming a dialable endpoint.
//!
//! An address, unlike a live transport, must cross the network — a peer
//! tells another where to dial back — so every variant serializes to a
//! stable binary representation and round-trips losslessly. The
//! representation is a one-byte tag naming the transport kind, followed by
//! the UTF-8 bytes of the endpoint's textual form: a host-and-port string
//! for stream sockets, a filesystem path for local sockets.

use vstd::prelude::*;
use vstd::string::StringSliceAdditionalSpecFns;
use vstd::utf8::encode_utf8;
use vstd::utf8::encode_utf8_decode_utf8;
use vstd::utf8::encode_utf8_valid_utf8;
use vstd::utf8::valid_utf8;

verus! {

/// All known address kinds, one variant per supported transport.
#[derive(Clone, Debug, PartialEq, Eq, Hash)]
pub enum Addr {
    /// A network-socket endpoint, as a host-and-port string.
    Tcp(String),
    /// A local-socket endpoint, as a filesystem path.
    Unix(String),
}

/// The mathematical shape of an address: its kind and the characters of its
/// endpoint text.
pub enum AddrView {
    Tcp(Seq<char>),
    Unix(Seq<char>),
}

impl View for Addr {
    type V = AddrView;

    open spec fn view(&self) -> AddrView {
        match self {
            Addr::Tcp(s) => AddrView::Tcp(s@),
            Addr::Unix(s) => AddrView::Unix(s@),
        }
    }
}

/// The tag byte naming an address kind on the wire.
pub open spec fn addr_tag(a: AddrView) -> u8 {
    match a {
        AddrView::Tcp(_) => 0,
        AddrView::Unix(_) => 1,
    }
}

/// The serialized form of an address: its tag byte, then the UTF-8 bytes of
/// its endpoint text.
pub open spec fn spec_serialize_addr(a: AddrView) -> Seq<u8> {
    match a {
        AddrView::Tcp(s) => seq![0u8] + encode_utf8(s),
        AddrView::Unix(s) => seq![1u8] + encode_utf8(s),
    }
}

/// Relies on String::from_utf8: it succeeds exactly on valid UTF-8 input and
/// returns the string whose byte representation is that input, byte for
/// byte.
#[verifier::external_body]
fn string_from_utf8(bytes: Vec<u8>) -> (r: Option<String>)
    ensures
        r is Some <==> valid_utf8(bytes@),
        r matches Some(s) ==> encode_utf8(s@) == bytes@,
{
    String::from_utf8(bytes).ok()
}

/// Serializes an address for the wire. Conversion is total: every address
/// serializes.
pub fn serialize_addr(addr: &Addr) -> (r: Vec<u8>)
    ensures
        r@ == spec_serialize_addr(addr@),
{
    let mut out: Vec<u8> = Vec::new();
    let text: &String = match addr {
        Addr::Tcp(s) => {
            out.push(0);
            s
        },
        Addr::Unix(s) => {
            out.push(1);
            s
        },
    };
    let bs = text.as_str().as_bytes();
    let ghost tag = out@;
    let mut i: usize = 0;
    while i < bs.len()
        invariant
            i <= bs@.len(),
            out@ == tag + bs@.take(i as int),
        decreases bs@.len() - i,
    {
        out.push(bs[i]);
        proof {
            assert(out@ =~= tag + bs@.take(i + 1));
        }
        i = i + 1;
    }
    proof {
        assert(bs@.take(bs@.len() as int) =~= bs@);
        assert(out@ =~= spec_serialize_addr(addr@));
    }
    out
}

/// Deserializes an address from the wire: succeeds exactly on a known tag
/// byte followed by valid UTF-8, and returns the address that serializes to
/// these very bytes.
pub fn deserialize_addr(bytes: &[u8]) -> (r: Option<Addr>)
    ensures
        r is Some <==> (bytes@.len() >= 1 && (bytes@[0] == 0 || bytes@[0] == 1) && valid_utf8(
            bytes@.skip(1),
        )),
        r matches Some(a) ==> spec_serialize_addr(a@) == bytes@,
{
    if bytes.len() < 1 {
        return None;
    }
    let tag = bytes[0];
    if tag > 1 {
        return None;
    }
    let mut rest: Vec<u8> = Vec::new();
    let mut i: usize = 1;
    while i < bytes.len()
        invariant
            1 <= i <= bytes@.len(),
            rest@ == bytes@.subrange(1, i as int),
        decreases bytes@.len() - i,
    {
        rest.push(bytes[i]);
        proof {
            assert(rest@ =~= bytes@.subrange(1, i + 1));
        }
        i = i + 1;
    }
    proof {
        assert(rest@ =~= bytes@.skip(1));
    }
    match string_from_utf8(rest) {
        None => None,
        Some(s) => {
            let addr = if tag == 0 {
                Addr::Tcp(s)
            } else {
                Addr::Unix(s)
            };
            proof {
                assert(spec_serialize_addr(addr@) =~= bytes@);
            }
            Some(addr)
        },
    }
}

/// Law: a serialized address always deserializes — it is nonempty, carries a
/// known tag, and its payload is valid UTF-8 — so the round trip never
/// fails.
pub proof fn lemma_addr_serialization_parses(a: AddrView)
    ensures
        spec_serialize_addr(a).len() >= 1,
        spec_serialize_addr(a)[0] == addr_tag(a),
        addr_tag(a) == 0 || addr_tag(a) == 1,
        valid_utf8(spec_serialize_addr(a).skip(1)),
{
    match a {
        AddrView::Tcp(s) => {
            encode_utf8_valid_utf8(s);
            assert(spec_serialize_addr(a).skip(1) =~= encode_utf8(s));
        },
        AddrView::Unix(s) => {
            encode_utf8_valid_utf8(s);
            assert(spec_serialize_addr(a).skip(1) =~= encode_utf8(s));
        },
    }
}

/// Law: serialization is injective, so deserializing a serialized address
/// yields a structurally equal address — the round trip is lossless for
/// every variant.
pub proof fn lemma_addr_serialization_injective(a1: AddrView, a2: AddrView)
    requires
        spec_serialize_addr(a1) == spec_serialize_addr(a2),
    ensures
        a1 == a2,
{
    let b1 = spec_serialize_addr(a1);
    let b2 = spec_serialize_addr(a2);
    lemma_addr_serialization_parses(a1);
    lemma_addr_serialization_parses(a2);
    assert(addr_tag(a1) == addr_tag(a2));
    match (a1, a2) {
        (AddrView::Tcp(s1), AddrView::Tcp(s2)) => {
            assert(b1.skip(1) =~= encode_utf8(s1));
            assert(b2.skip(1) =~= encode_utf8(s2));
            encode_utf8_decode_utf8(s1);
            encode_utf8_decode_utf8(s2);
        },
        (AddrView::Unix(s1), AddrView::Unix(s2)) => {
            assert(b1.skip(1) =~= encode_utf8(s1));
            assert(b2.skip(1) =~= encode_utf8(s2));
            encode_utf8_decode_utf8(s1);
            encode_utf8_decode_utf8(s2);
        },
        _ => {},
    }
}

} // verus!
