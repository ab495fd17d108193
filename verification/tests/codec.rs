//! Framing and message codec behaviour: round trips under fragmentation,
//! ordering, truncation, and clean close.

use comm::frame::{encode_frame, DecodeError, FrameDecoder};
use comm::message::{encode_message, MessageDecoder};

#[test]
fn encode_message_exact_bytes() {
    // 4-byte big-endian length (8), then the u64 little-endian.
    let wire = encode_message(1);
    assert_eq!(wire, vec![0, 0, 0, 8, 1, 0, 0, 0, 0, 0, 0, 0]);
}

#[test]
fn encode_frame_exact_bytes() {
    let wire = encode_frame(&vec![9, 9, 9]);
    assert_eq!(wire, vec![0, 0, 0, 3, 9, 9, 9]);
}

#[test]
fn frame_round_trip() {
    let payload: Vec<u8> = (0u8..50u8).collect();
    let wire = encode_frame(&payload);
    let mut dec = FrameDecoder::new();
    dec.feed(&wire);
    assert_eq!(dec.try_decode(), Some(payload));
    assert_eq!(dec.try_decode(), None);
    assert!(dec.finish().is_ok());
}

#[test]
fn message_round_trip() {
    let v: u64 = 0xdead_beef_0102_0304;
    let wire = encode_message(v);
    let mut dec = MessageDecoder::new();
    dec.feed(&wire);
    assert_eq!(dec.try_next(), Ok(Some(v)));
    assert_eq!(dec.try_next(), Ok(None));
    assert!(dec.finish().is_ok());
}

#[test]
fn message_round_trip_byte_by_byte() {
    // Fragmenting the delivery into single bytes changes nothing: the frame
    // is reassembled across reads.
    let v: u64 = u64::MAX - 7;
    let wire = encode_message(v);
    let mut dec = MessageDecoder::new();
    let mut seen = Vec::new();
    for b in &wire {
        dec.feed(std::slice::from_ref(b));
        match dec.try_next() {
            Ok(Some(got)) => seen.push(got),
            Ok(None) => {}
            Err(e) => panic!("unexpected decode error: {:?}", e),
        }
    }
    assert_eq!(seen, vec![v]);
    assert!(dec.finish().is_ok());
}

#[test]
fn messages_decode_in_send_order() {
    let values: [u64; 3] = [11, 22, 33];
    let mut wire = Vec::new();
    for &v in &values {
        wire.extend_from_slice(&encode_message(v));
    }
    // Deliver in ragged chunks of five bytes.
    let mut dec = MessageDecoder::new();
    let mut seen = Vec::new();
    for chunk in wire.chunks(5) {
        dec.feed(chunk);
        loop {
            match dec.try_next() {
                Ok(Some(got)) => seen.push(got),
                Ok(None) => break,
                Err(e) => panic!("unexpected decode error: {:?}", e),
            }
        }
    }
    assert_eq!(seen, vec![11, 22, 33]);
    assert!(dec.finish().is_ok());
}

#[test]
fn truncated_stream_is_an_error_not_a_short_value() {
    // A frame announcing 8 payload bytes, closed after only 3.
    let mut dec = MessageDecoder::new();
    dec.feed(&[0, 0, 0, 8, 1, 2, 3]);
    assert_eq!(dec.try_next(), Ok(None));
    assert_eq!(dec.finish(), Err(DecodeError::Truncated));
}

#[test]
fn truncated_length_prefix_is_an_error() {
    let mut dec = MessageDecoder::new();
    dec.feed(&[0, 0]);
    assert_eq!(dec.try_next(), Ok(None));
    assert_eq!(dec.finish(), Err(DecodeError::Truncated));
}

#[test]
fn clean_close_ends_stream_without_error() {
    let mut dec = MessageDecoder::new();
    assert_eq!(dec.try_next(), Ok(None));
    assert!(dec.finish().is_ok());

    // After a whole message, a close is clean too.
    dec.feed(&encode_message(5));
    assert_eq!(dec.try_next(), Ok(Some(5)));
    assert!(dec.finish().is_ok());
}

#[test]
fn malformed_payload_reports_deserialize_error() {
    // A complete frame whose 3-byte payload is no message.
    let mut dec = MessageDecoder::new();
    dec.feed(&[0, 0, 0, 3, 1, 2, 3]);
    assert_eq!(dec.try_next(), Err(DecodeError::Deserialize));
}

#[test]
fn trailing_payload_bytes_are_ignored_by_deserialization() {
    // A 9-byte payload: the message is read from the first 8 bytes.
    let mut dec = MessageDecoder::new();
    dec.feed(&[0, 0, 0, 9, 7, 0, 0, 0, 0, 0, 0, 0, 0xaa]);
    assert_eq!(dec.try_next(), Ok(Some(7)));
    assert!(dec.finish().is_ok());
}

#[test]
fn empty_payload_frame_round_trips_at_frame_level() {
    let wire = encode_frame(&vec![]);
    assert_eq!(wire, vec![0, 0, 0, 0]);
    let mut dec = FrameDecoder::new();
    dec.feed(&wire);
    assert_eq!(dec.try_decode(), Some(vec![]));
    assert!(dec.finish().is_ok());
}

#[test]
fn frames_split_across_decoders_queue_up() {
    // Two frames arriving back to back in one chunk decode one at a time.
    let a: Vec<u8> = vec![1];
    let b: Vec<u8> = vec![2, 3];
    let mut wire = encode_frame(&a);
    wire.extend_from_slice(&encode_frame(&b));
    let mut dec = FrameDecoder::new();
    dec.feed(&wire);
    assert_eq!(dec.try_decode(), Some(a));
    assert_eq!(dec.try_decode(), Some(b));
    assert_eq!(dec.try_decode(), None);
    assert!(dec.finish().is_ok());
}
