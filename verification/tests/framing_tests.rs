use tonic_core::compression::IdentityCompressor;
use tonic_core::framing::{decode_frames, encode_frames};
use tonic_core::percent::percent_encode;
use tonic_core::status::Code;

#[test]
fn frame_layout_is_flag_length_payload() {
    let comp = IdentityCompressor {};
    let payloads = vec![vec![10u8, 20, 30]];
    let (wire, failure) = encode_frames(&comp, &payloads, false, 1024);
    assert!(failure.is_none());
    assert_eq!(wire, vec![0u8, 0, 0, 0, 3, 10, 20, 30]);
}

#[test]
fn round_trip_identity() {
    let comp = IdentityCompressor {};
    let payloads = vec![vec![1u8, 2, 3, 4, 5, 6, 7], vec![], vec![255u8, 0, 128]];
    let (wire, enc_failure) = encode_frames(&comp, &payloads, false, 4096);
    assert!(enc_failure.is_none());
    let (back, dec_failure) = decode_frames(&comp, &wire, false, 4096);
    assert!(dec_failure.is_none());
    assert_eq!(back, payloads);
}

#[test]
fn round_trip_compressed_flag() {
    // The identity transform through the compression plug-in interface:
    // frames carry flag one and decode back to the same messages.
    let comp = IdentityCompressor {};
    let payloads = vec![vec![9u8; 10], vec![7u8; 3]];
    let (wire, enc_failure) = encode_frames(&comp, &payloads, true, 4096);
    assert!(enc_failure.is_none());
    assert_eq!(wire[0], 1u8);
    let (back, dec_failure) = decode_frames(&comp, &wire, true, 4096);
    assert!(dec_failure.is_none());
    assert_eq!(back, payloads);
}

#[test]
fn encode_refuses_oversized_message_keeping_earlier_frames() {
    let comp = IdentityCompressor {};
    let payloads = vec![vec![1u8, 2], vec![0u8; 50]];
    let (prefix, failure) = encode_frames(&comp, &payloads, false, 16);
    let st = failure.unwrap();
    assert_eq!(st.code, Code::ResourceExhausted);
    // The first message's frame is emitted intact; no byte of the
    // offender follows it.
    assert_eq!(prefix, vec![0u8, 0, 0, 0, 2, 1, 2]);
}

#[test]
fn encode_refuses_oversized_first_message_with_no_output() {
    let comp = IdentityCompressor {};
    let payloads = vec![vec![0u8; 50], vec![1u8]];
    let (prefix, failure) = encode_frames(&comp, &payloads, false, 16);
    assert_eq!(failure.unwrap().code, Code::ResourceExhausted);
    assert!(prefix.is_empty());
}

#[test]
fn decode_refuses_oversized_declared_length() {
    let comp = IdentityCompressor {};
    // Header declares 2048 bytes against a 1024 limit; the body follows.
    let mut wire = vec![0u8, 0, 0, 8, 0];
    wire.extend(std::iter::repeat(0u8).take(2048));
    let (messages, failure) = decode_frames(&comp, &wire, false, 1024);
    assert!(messages.is_empty());
    assert_eq!(failure.unwrap().code, Code::ResourceExhausted);
}

#[test]
fn decode_keeps_messages_before_a_bad_frame() {
    let comp = IdentityCompressor {};
    let (mut wire, failure) = encode_frames(&comp, &vec![vec![5u8, 6]], false, 1024);
    assert!(failure.is_none());
    wire.extend_from_slice(&[9u8, 9]);
    let (messages, failure) = decode_frames(&comp, &wire, false, 1024);
    assert_eq!(messages, vec![vec![5u8, 6]]);
    assert_eq!(failure.unwrap().code, Code::Internal);
}

#[test]
fn oversized_decompressed_message_is_resource_exhausted() {
    // A compressed frame whose decompressed message exceeds the limit fails
    // with the library's own size-limit status.
    let comp = IdentityCompressor {};
    let (wire, enc_failure) = encode_frames(&comp, &vec![vec![0u8; 32]], true, 64);
    assert!(enc_failure.is_none());
    let (messages, failure) = decode_frames(&comp, &wire, true, 16);
    assert!(messages.is_empty());
    let st = failure.unwrap();
    assert_eq!(st.code, Code::ResourceExhausted);
    assert_eq!(st.message, "Error, message length too large");
}

#[test]
fn decode_refuses_truncated_header() {
    let comp = IdentityCompressor {};
    let wire = vec![0u8, 0, 0];
    let (messages, failure) = decode_frames(&comp, &wire, false, 1024);
    assert!(messages.is_empty());
    assert_eq!(failure.unwrap().code, Code::Internal);
}

#[test]
fn decode_refuses_truncated_body() {
    let comp = IdentityCompressor {};
    let wire = vec![0u8, 0, 0, 0, 4, 1, 2];
    let (messages, failure) = decode_frames(&comp, &wire, false, 1024);
    assert!(messages.is_empty());
    assert_eq!(failure.unwrap().code, Code::Internal);
}

#[test]
fn decode_refuses_compressed_flag_without_encoding() {
    let comp = IdentityCompressor {};
    let wire = vec![1u8, 0, 0, 0, 0];
    let (messages, failure) = decode_frames(&comp, &wire, false, 1024);
    assert!(messages.is_empty());
    assert_eq!(failure.unwrap().code, Code::Internal);
}

#[test]
fn decode_refuses_bad_flag() {
    let comp = IdentityCompressor {};
    let wire = vec![2u8, 0, 0, 0, 0];
    let (messages, failure) = decode_frames(&comp, &wire, true, 1024);
    assert!(messages.is_empty());
    assert_eq!(failure.unwrap().code, Code::Internal);
}

#[test]
fn empty_wire_decodes_to_no_messages() {
    let comp = IdentityCompressor {};
    let wire: Vec<u8> = Vec::new();
    let (messages, failure) = decode_frames(&comp, &wire, false, 1024);
    assert!(failure.is_none());
    assert!(messages.is_empty());
}

#[test]
fn percent_encoding_keeps_printable_ascii() {
    assert_eq!(percent_encode(&b"Missing request message.".to_vec()), "Missing request message.");
    assert_eq!(percent_encode(&b"a b%".to_vec()), "a b%25");
    assert_eq!(percent_encode(&vec![0x0au8, 0x7fu8, 0xffu8]), "%0A%7F%FF");
    assert_eq!(percent_encode(&Vec::new()), "");
}
