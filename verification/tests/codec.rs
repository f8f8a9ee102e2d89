//! The binary codecs: round trips, exact wire bytes (cross-checked against
//! an independent serializer of the same format), and rejection of
//! malformed input.

use free_voip::media::CallMedia;
use free_voip::ticket::{ContactTicket, NodeId};
use free_voip::varint::{varint_decode, varint_encode};
use free_voip::framing::{encode_frame, u64_from_be_bytes, u64_to_be_bytes};
use free_voip::ProtocolError;

fn node(fill: u8) -> NodeId {
    NodeId::new(vec![fill; 32]).unwrap()
}

fn node_array(fill: u8) -> [u8; 32] {
    [fill; 32]
}

#[test]
fn ticket_round_trip() {
    let t = ContactTicket::new("alice".to_string(), node(7));
    let bytes = t.to_bytes();
    let back = ContactTicket::from_bytes(&bytes).unwrap();
    assert_eq!(back, t);
}

#[test]
fn ticket_round_trip_empty_nickname() {
    let t = ContactTicket::new(String::new(), node(0));
    let back = ContactTicket::from_bytes(&t.to_bytes()).unwrap();
    assert_eq!(back, t);
}

#[test]
fn ticket_round_trip_unicode_nickname() {
    let t = ContactTicket::new("ålice ❤ 電話".to_string(), node(0xEE));
    let back = ContactTicket::from_bytes(&t.to_bytes()).unwrap();
    assert_eq!(back, t);
}

#[test]
fn ticket_wire_bytes_match_postcard() {
    let t = ContactTicket::new("alice".to_string(), node(7));
    let expected = postcard::to_allocvec(&("alice", node_array(7))).unwrap();
    assert_eq!(t.to_bytes(), expected);
}

#[test]
fn ticket_wire_bytes_match_postcard_long_nickname() {
    // A nickname long enough that its length takes a two-byte varint.
    let nickname: String = "n".repeat(200);
    let t = ContactTicket::new(nickname.clone(), node(1));
    let expected = postcard::to_allocvec(&(nickname.as_str(), node_array(1))).unwrap();
    assert_eq!(t.to_bytes(), expected);
}

#[test]
fn ticket_decode_rejects_empty() {
    assert_eq!(ContactTicket::from_bytes(&vec![]), Err(ProtocolError::Codec));
}

#[test]
fn ticket_decode_rejects_truncated_node_id() {
    let t = ContactTicket::new("bob".to_string(), node(2));
    let mut bytes = t.to_bytes();
    bytes.pop();
    assert_eq!(ContactTicket::from_bytes(&bytes), Err(ProtocolError::Codec));
}

#[test]
fn ticket_decode_rejects_bad_utf8() {
    // Nickname of length 2 whose bytes are not valid UTF-8.
    let mut bytes = vec![2u8, 0xFF, 0xFE];
    bytes.extend_from_slice(&[0u8; 32]);
    assert_eq!(ContactTicket::from_bytes(&bytes), Err(ProtocolError::Codec));
}

#[test]
fn ticket_decode_ignores_trailing_bytes() {
    let t = ContactTicket::new("carol".to_string(), node(9));
    let mut bytes = t.to_bytes();
    bytes.extend_from_slice(&[0xAA, 0xBB, 0xCC]);
    assert_eq!(ContactTicket::from_bytes(&bytes).unwrap(), t);
}

#[test]
fn media_round_trip_audio() {
    let m = CallMedia::new_audio("opus".to_string(), 123_456, None, vec![1, 2, 3, 4]);
    let back = CallMedia::from_bytes(&m.to_bytes()).unwrap();
    assert_eq!(back, m);
}

#[test]
fn media_round_trip_video_with_duration() {
    let m = CallMedia::new_video("vp9".to_string(), u64::MAX, Some(33_333), vec![0u8; 1000]);
    let back = CallMedia::from_bytes(&m.to_bytes()).unwrap();
    assert_eq!(back, m);
}

#[test]
fn media_round_trip_empty_frame_data() {
    let m = CallMedia::new_video("key".to_string(), 0, Some(0), vec![]);
    let back = CallMedia::from_bytes(&m.to_bytes()).unwrap();
    assert_eq!(back, m);
}

#[test]
fn media_wire_bytes_match_postcard_audio() {
    let data = vec![9u8, 8, 7];
    let m = CallMedia::new_audio("opus".to_string(), 42, None, data.clone());
    // An enum value serializes as its varint variant index followed by its
    // fields in order; audio is variant 1.
    let expected =
        postcard::to_allocvec(&(1u32, "opus", 42u64, Option::<u64>::None, 3u64, data)).unwrap();
    assert_eq!(m.to_bytes(), expected);
}

#[test]
fn media_wire_bytes_match_postcard_video() {
    let data = vec![5u8; 300];
    let m = CallMedia::new_video("vp9".to_string(), 1_000_000, Some(33_000), data.clone());
    let expected =
        postcard::to_allocvec(&(0u32, "vp9", 1_000_000u64, Some(33_000u64), 300u64, data))
            .unwrap();
    assert_eq!(m.to_bytes(), expected);
}

#[test]
fn media_constructor_sets_byte_length() {
    let m = CallMedia::new_audio("pcm".to_string(), 1, None, vec![0u8; 1024]);
    match m {
        CallMedia::Audio { byte_length, ref frame_data, .. } => {
            assert_eq!(byte_length, 1024);
            assert_eq!(byte_length as usize, frame_data.len());
        },
        _ => panic!("constructor built the wrong variant"),
    }
}

#[test]
fn media_decode_rejects_bad_discriminant() {
    let m = CallMedia::new_audio("opus".to_string(), 1, None, vec![1]);
    let mut bytes = m.to_bytes();
    bytes[0] = 2;
    assert_eq!(CallMedia::from_bytes(&bytes), Err(ProtocolError::Codec));
}

#[test]
fn media_decode_rejects_bad_option_tag() {
    // variant 1, empty frame type, timestamp 5, then an option byte that is
    // neither 0 nor 1.
    let bytes = vec![1u8, 0, 5, 9];
    assert_eq!(CallMedia::from_bytes(&bytes), Err(ProtocolError::Codec));
}

#[test]
fn media_decode_rejects_truncated_frame_data() {
    let m = CallMedia::new_video("vp9".to_string(), 7, None, vec![1, 2, 3, 4, 5]);
    let mut bytes = m.to_bytes();
    bytes.truncate(bytes.len() - 2);
    assert_eq!(CallMedia::from_bytes(&bytes), Err(ProtocolError::Codec));
}

#[test]
fn media_decode_ignores_trailing_bytes() {
    let m = CallMedia::new_audio("opus".to_string(), 8, Some(20), vec![7, 7]);
    let mut bytes = m.to_bytes();
    bytes.extend_from_slice(&[0x01, 0x02]);
    assert_eq!(CallMedia::from_bytes(&bytes).unwrap(), m);
}

#[test]
fn media_decode_accepts_its_own_wire_form_only_from_the_start() {
    let m = CallMedia::new_video("vp9".to_string(), 9, None, vec![1]);
    let bytes = m.to_bytes();
    // Dropping the discriminant shifts every field: not a frame any more.
    let shifted = bytes[1..].to_vec();
    assert!(CallMedia::from_bytes(&shifted).is_err() || CallMedia::from_bytes(&shifted).unwrap() != m);
}

#[test]
fn varint_encoding_boundaries() {
    for (value, expected) in [
        (0u64, vec![0u8]),
        (1, vec![1]),
        (127, vec![127]),
        (128, vec![128, 1]),
        (300, vec![0xAC, 0x02]),
        (16_383, vec![0xFF, 0x7F]),
        (16_384, vec![0x80, 0x80, 0x01]),
        (u64::MAX, vec![0xFF, 0xFF, 0xFF, 0xFF, 0xFF, 0xFF, 0xFF, 0xFF, 0xFF, 0x01]),
    ] {
        let mut out = Vec::new();
        varint_encode(value, &mut out);
        assert_eq!(out, expected, "encoding of {value}");
        let cross = postcard::to_allocvec(&value).unwrap();
        assert_eq!(out, cross, "postcard encoding of {value}");
        assert_eq!(varint_decode(&out, 0), Some((value, out.len())));
    }
}

#[test]
fn varint_decode_rejects_truncation_and_overflow() {
    // A continuation bit with nothing after it.
    assert_eq!(varint_decode(&vec![0x80], 0), None);
    assert_eq!(varint_decode(&vec![], 0), None);
    // Eleven value bytes: 2^70, past the largest 64-bit value.
    let too_big = vec![0x80u8, 0x80, 0x80, 0x80, 0x80, 0x80, 0x80, 0x80, 0x80, 0x80, 0x01];
    assert_eq!(varint_decode(&too_big, 0), None);
}

#[test]
fn frame_prefix_is_big_endian() {
    let frame = encode_frame(&vec![0xAB, 0xCD, 0xEF]);
    assert_eq!(frame, vec![0, 0, 0, 0, 0, 0, 0, 3, 0xAB, 0xCD, 0xEF]);
}

#[test]
fn frame_prefix_round_trip() {
    for n in [0u64, 1, 255, 256, 1 << 32, u64::MAX] {
        let bytes = u64_to_be_bytes(n);
        assert_eq!(bytes.len(), 8);
        assert_eq!(u64_from_be_bytes(&bytes), n);
    }
}
