//! Sniffing and handshake behaviour, exercised over concrete byte streams.

use comm::handshake::{decode_handshake, encode_handshake, SessionId};
use comm::sniff::match_handshake;

const MAGIC: [u8; 8] = [0x5f, 0x65, 0x44, 0x90, 0xaf, 0x4b, 0x3c, 0xfc];

#[test]
fn sniff_accepts_exact_magic() {
    assert!(match_handshake(&MAGIC));
}

#[test]
fn sniff_accepts_magic_with_more_bytes() {
    let mut buf = MAGIC.to_vec();
    buf.extend_from_slice(&[1, 2, 3, 4]);
    assert!(match_handshake(&buf));
}

#[test]
fn sniff_rejects_short_input() {
    assert!(!match_handshake(&[]));
    assert!(!match_handshake(&MAGIC[..7]));
}

#[test]
fn sniff_rejects_one_byte_difference() {
    for i in 0..8 {
        let mut buf = MAGIC;
        buf[i] ^= 0x01;
        assert!(!match_handshake(&buf), "byte {} flipped must not match", i);
    }
}

#[test]
fn sniff_rejects_other_traffic() {
    assert!(!match_handshake(b"GET / HTTP/1.1\r\n"));
}

#[test]
fn handshake_frame_layout() {
    let uuid: Vec<u8> = (0u8..16u8).collect();
    let session = SessionId::new(uuid.clone());
    let frame = encode_handshake(&session, true);
    assert_eq!(frame.len(), 25);
    assert_eq!(&frame[..8], &MAGIC);
    assert_eq!(&frame[8..24], &uuid[..]);
    assert_eq!(frame[24], 1);
    let plain = encode_handshake(&SessionId::new(uuid.clone()), false);
    assert_eq!(plain[24], 0);
}

#[test]
fn handshake_round_trip() {
    let uuid: Vec<u8> = vec![
        0xde, 0xad, 0xbe, 0xef, 0x01, 0x23, 0x45, 0x67, 0x89, 0xab, 0xcd, 0xef, 0x10, 0x20, 0x30,
        0x40,
    ];
    for &flag in &[false, true] {
        let frame = encode_handshake(&SessionId::new(uuid.clone()), flag);
        let (session, is_rendezvous) = decode_handshake(&frame);
        assert_eq!(session.bytes(), &uuid);
        assert_eq!(is_rendezvous, flag);
    }
}

#[test]
fn handshake_sent_frame_passes_sniff() {
    let uuid: Vec<u8> = vec![0x11; 16];
    let frame = encode_handshake(&SessionId::new(uuid), false);
    assert!(match_handshake(&frame));
}

#[test]
fn handshake_role_byte_nonzero_means_rendezvous() {
    let uuid: Vec<u8> = vec![0x22; 16];
    let mut frame = encode_handshake(&SessionId::new(uuid), false);
    frame[24] = 0x7f;
    let (_, is_rendezvous) = decode_handshake(&frame);
    assert!(is_rendezvous);
}

#[test]
fn handshake_receive_does_not_reverify_magic() {
    // Magic verification happens at the sniffing stage only: a 25-byte frame
    // with mangled magic bytes still parses on receive.
    let uuid: Vec<u8> = vec![0x33; 16];
    let mut frame = encode_handshake(&SessionId::new(uuid.clone()), true);
    frame[0] = 0x00;
    frame[7] = 0x00;
    let (session, is_rendezvous) = decode_handshake(&frame);
    assert_eq!(session.bytes(), &uuid);
    assert!(is_rendezvous);
}

#[test]
fn scenario_client_dials_and_shakes_hands() {
    // The client dials this address; the dial itself is transport work, and
    // the bytes below are what flow once the connection stands.
    let addr = comm::addr::Addr::Tcp("127.0.0.1:9000".to_string());
    assert_eq!(addr, comm::addr::Addr::Tcp("127.0.0.1:9000".to_string()));

    let uuid = uuid::Uuid::parse_str("11111111-1111-1111-1111-111111111111").unwrap();
    let session = SessionId::new(uuid.as_bytes().to_vec());
    let wire = encode_handshake(&session, false);

    // The server accepts, sniffs, and receives the handshake.
    assert!(match_handshake(&wire));
    let (got_session, is_rendezvous) = decode_handshake(&wire);
    let got_uuid = uuid::Uuid::from_slice(got_session.bytes()).unwrap();
    assert_eq!(got_uuid, uuid);
    assert!(!is_rendezvous);
}
