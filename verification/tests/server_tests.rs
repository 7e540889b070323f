use tonic_core::compression::{
    CompressionEncoding, EnabledCompressionEncodings, IdentityCompressor,
    SingleMessageCompressionOverride,
};
use tonic_core::framing::{decode_frames, encode_frames};
use tonic_core::metadata::MetadataMap;
use tonic_core::server::{
    compression_override_from_response, BytesCodec, EchoService, FailService, Grpc, HttpRequest,
    Response, StreamEchoService,
};
use tonic_core::base64::base64_encode;
use tonic_core::status::{Code, Status};

fn headers_of(pairs: &[(&str, &str)]) -> MetadataMap {
    let mut m = MetadataMap::new();
    for (k, v) in pairs {
        m.append_entry(k.to_string(), v.to_string());
    }
    m
}

fn request_with_body(body: Vec<u8>) -> HttpRequest {
    HttpRequest { headers: MetadataMap::new(), body, trailers: None }
}

fn framed(payloads: Vec<Vec<u8>>) -> Vec<u8> {
    let (wire, failure) = encode_frames(&IdentityCompressor {}, &payloads, false, 1 << 20);
    assert!(failure.is_none());
    wire
}

fn deframed(wire: &Vec<u8>) -> Vec<Vec<u8>> {
    let (messages, failure) = decode_frames(&IdentityCompressor {}, wire, false, 1 << 20);
    assert!(failure.is_none());
    messages
}

#[test]
fn new_has_empty_sets_and_default_limits() {
    let g = Grpc::new(BytesCodec {});
    assert!(!g.accept_compression_encodings.gzip);
    assert!(!g.accept_compression_encodings.zstd);
    assert!(!g.send_compression_encodings.gzip);
    assert!(!g.send_compression_encodings.zstd);
    assert!(g.max_decoding_message_size.is_none());
    assert!(g.max_encoding_message_size.is_none());
}

#[test]
fn builders_set_their_fields() {
    let g = Grpc::new(BytesCodec {})
        .accept_compressed(CompressionEncoding::Gzip)
        .send_compressed(CompressionEncoding::Zstd)
        .max_decoding_message_size(1024)
        .max_encoding_message_size(2048);
    assert!(g.accept_compression_encodings.gzip);
    assert!(!g.accept_compression_encodings.zstd);
    assert!(g.send_compression_encodings.zstd);
    assert!(!g.send_compression_encodings.gzip);
    assert_eq!(g.max_decoding_message_size, Some(1024));
    assert_eq!(g.max_encoding_message_size, Some(2048));
}

#[test]
fn apply_compression_config_unions_the_sets() {
    let g = Grpc::new(BytesCodec {}).accept_compressed(CompressionEncoding::Gzip);
    let g = g.apply_compression_config(
        EnabledCompressionEncodings { gzip: false, zstd: true },
        EnabledCompressionEncodings { gzip: true, zstd: false },
    );
    assert!(g.accept_compression_encodings.gzip);
    assert!(g.accept_compression_encodings.zstd);
    assert!(g.send_compression_encodings.gzip);
    assert!(!g.send_compression_encodings.zstd);
}

#[test]
fn apply_max_message_size_config_keeps_absent_limits() {
    let g = Grpc::new(BytesCodec {}).max_decoding_message_size(7);
    let g = g.apply_max_message_size_config(None, Some(9));
    assert_eq!(g.max_decoding_message_size, Some(7));
    assert_eq!(g.max_encoding_message_size, Some(9));
}

#[test]
fn status_code_wire_values() {
    assert_eq!(Code::Okay.to_wire(), 0);
    assert_eq!(Code::Cancelled.to_wire(), 1);
    assert_eq!(Code::ResourceExhausted.to_wire(), 8);
    assert_eq!(Code::Unimplemented.to_wire(), 12);
    assert_eq!(Code::Internal.to_wire(), 13);
    assert_eq!(Code::Unauthenticated.to_wire(), 16);
    for n in 0..17u32 {
        assert_eq!(Code::from_wire(n).to_wire(), n);
    }
    assert_eq!(Code::from_wire(99), Code::Unknown);
}

#[test]
fn unary_happy_path_echoes_seven_bytes() {
    let g = Grpc::new(BytesCodec {});
    let message = vec![1u8, 2, 3, 4, 5, 6, 7];
    let req = request_with_body(framed(vec![message.clone()]));
    let mut svc = EchoService {};
    let resp = g.unary(&mut svc, &IdentityCompressor {}, req);
    assert_eq!(resp.headers.get("content-type").unwrap(), "application/grpc");
    assert_eq!(resp.trailers.get("grpc-status").unwrap(), "0");
    let body = deframed(&resp.body);
    assert_eq!(body, vec![message]);
}

#[test]
fn unary_unknown_request_encoding_is_unimplemented() {
    let g = Grpc::new(BytesCodec {});
    let req = HttpRequest {
        headers: headers_of(&[("grpc-encoding", "gzip")]),
        body: framed(vec![vec![1u8]]),
        trailers: None,
    };
    let mut svc = EchoService {};
    let resp = g.unary(&mut svc, &IdentityCompressor {}, req);
    assert!(resp.body.is_empty());
    assert_eq!(resp.trailers.get("grpc-status").unwrap(), "12");
    assert!(resp.trailers.get("grpc-message").unwrap().contains("accept-encoding: identity"));
}

#[test]
fn unary_oversized_request_is_resource_exhausted() {
    let g = Grpc::new(BytesCodec {}).max_decoding_message_size(1024);
    let req = request_with_body(framed(vec![vec![0u8; 2048]]));
    let mut svc = EchoService {};
    let resp = g.unary(&mut svc, &IdentityCompressor {}, req);
    assert!(resp.body.is_empty());
    assert_eq!(resp.trailers.get("grpc-status").unwrap(), "8");
}

#[test]
fn unary_missing_request_message_is_internal() {
    let g = Grpc::new(BytesCodec {});
    let req = request_with_body(Vec::new());
    let mut svc = EchoService {};
    let resp = g.unary(&mut svc, &IdentityCompressor {}, req);
    assert!(resp.body.is_empty());
    assert_eq!(resp.trailers.get("grpc-status").unwrap(), "13");
    assert_eq!(resp.trailers.get("grpc-message").unwrap(), "Missing request message.");
}

#[test]
fn unary_second_message_before_trailers_is_internal() {
    let g = Grpc::new(BytesCodec {});
    let req = request_with_body(framed(vec![vec![1u8], vec![2u8]]));
    let mut svc = EchoService {};
    let resp = g.unary(&mut svc, &IdentityCompressor {}, req);
    assert_eq!(resp.trailers.get("grpc-status").unwrap(), "13");
}

#[test]
fn unary_merges_request_trailers_into_metadata() {
    let g = Grpc::new(BytesCodec {});
    let req = HttpRequest {
        headers: headers_of(&[("k", "a")]),
        body: framed(vec![vec![5u8]]),
        trailers: Some(headers_of(&[("k", "b"), ("t", "x")])),
    };
    let comp = IdentityCompressor {};
    let request = g.map_request_unary(&comp, req).unwrap();
    assert_eq!(request.metadata.get_all("k"), vec!["a".to_string(), "b".to_string()]);
    assert_eq!(request.metadata.get("t").unwrap(), "x");
}

#[test]
fn service_failure_status_is_reported_verbatim() {
    let g = Grpc::new(BytesCodec {});
    let req = request_with_body(framed(vec![vec![1u8]]));
    let mut svc = FailService { status: Status::new(Code::NotFound, "no such thing".to_string()) };
    let resp = g.unary(&mut svc, &IdentityCompressor {}, req);
    assert!(resp.body.is_empty());
    assert_eq!(resp.trailers.get("grpc-status").unwrap(), "5");
    assert_eq!(resp.trailers.get("grpc-message").unwrap(), "no such thing");
}

#[test]
fn streaming_echoes_every_message_in_order() {
    let g = Grpc::new(BytesCodec {});
    let messages = vec![vec![1u8, 2], vec![3u8], vec![], vec![4u8, 5, 6]];
    let req = request_with_body(framed(messages.clone()));
    let mut svc = StreamEchoService {};
    let resp = g.streaming(&mut svc, &IdentityCompressor {}, req);
    assert_eq!(resp.trailers.get("grpc-status").unwrap(), "0");
    let body = deframed(&resp.body);
    assert_eq!(body, messages);
}

#[test]
fn negotiated_response_encoding_sets_header_and_flag() {
    let g = Grpc::new(BytesCodec {}).send_compressed(CompressionEncoding::Gzip);
    let req = HttpRequest {
        headers: headers_of(&[("grpc-accept-encoding", "gzip")]),
        body: framed(vec![vec![7u8; 4]]),
        trailers: None,
    };
    let mut svc = EchoService {};
    let resp = g.unary(&mut svc, &IdentityCompressor {}, req);
    assert_eq!(resp.headers.get("grpc-encoding").unwrap(), "gzip");
    assert_eq!(resp.trailers.get("grpc-status").unwrap(), "0");
    // The per-frame compressed flag reflects the negotiated encoding.
    assert_eq!(resp.body[0], 1u8);
}

#[test]
fn compression_override_disables_the_single_frame_flag() {
    let g = Grpc::new(BytesCodec {}).send_compressed(CompressionEncoding::Gzip);
    let comp = IdentityCompressor {};
    let resp = Response {
        message: vec![vec![7u8; 4]],
        metadata: MetadataMap::new(),
        compression_override: SingleMessageCompressionOverride::Disable,
    };
    let http = g.map_response(
        &comp,
        Ok(resp),
        Some(CompressionEncoding::Gzip),
        SingleMessageCompressionOverride::Disable,
    );
    assert_eq!(http.body[0], 0u8);
}

#[test]
fn compression_override_is_read_from_the_response() {
    let ok: Result<Response<Vec<u8>>, Status> = Ok(Response {
        message: vec![1u8],
        metadata: MetadataMap::new(),
        compression_override: SingleMessageCompressionOverride::Disable,
    });
    assert_eq!(compression_override_from_response(&ok), SingleMessageCompressionOverride::Disable);
    let err: Result<Response<Vec<u8>>, Status> =
        Err(Status::new(Code::Internal, String::new()));
    assert_eq!(
        compression_override_from_response(&err),
        SingleMessageCompressionOverride::Inherit
    );
}

#[test]
fn oversized_response_message_is_resource_exhausted() {
    let g = Grpc::new(BytesCodec {}).max_encoding_message_size(4);
    let req = request_with_body(framed(vec![vec![0u8; 16]]));
    let mut svc = EchoService {};
    let resp = g.unary(&mut svc, &IdentityCompressor {}, req);
    assert!(resp.body.is_empty());
    assert_eq!(resp.trailers.get("grpc-status").unwrap(), "8");
}

#[test]
fn oversized_later_response_message_keeps_earlier_frames() {
    // The response stream fails at the over-limit message: the frames of
    // the messages before it ride the body intact, the trailers carry the
    // failure.
    let g = Grpc::new(BytesCodec {}).max_encoding_message_size(4);
    let small = vec![1u8, 2];
    let req = request_with_body(framed(vec![small.clone(), vec![0u8; 16]]));
    let mut svc = StreamEchoService {};
    let resp = g.streaming(&mut svc, &IdentityCompressor {}, req);
    assert_eq!(resp.body, framed(vec![small]));
    assert_eq!(resp.trailers.get("grpc-status").unwrap(), "8");
    assert_eq!(resp.trailers.get("grpc-message").unwrap(), "Error, message length too large");
}

#[test]
fn streaming_request_failure_reaches_the_service_with_the_prefix() {
    // A malformed later frame does not preempt the service: the messages
    // before it are handed over, with the failure in the stream.
    let g = Grpc::new(BytesCodec {});
    let mut body = framed(vec![vec![5u8, 6]]);
    body.extend_from_slice(&[9u8, 9]);
    let req = request_with_body(body);
    let comp = IdentityCompressor {};
    let request = g.map_request_streaming(&comp, req).unwrap();
    assert_eq!(request.message.messages, vec![vec![5u8, 6]]);
    assert_eq!(request.message.failure.unwrap().code, Code::Internal);
}

#[test]
fn metadata_lookup_folds_ascii_case() {
    let m = headers_of(&[("Content-Type", "application/grpc"), ("K", "a"), ("k", "b")]);
    assert_eq!(m.get("content-type").unwrap(), "application/grpc");
    assert_eq!(m.get_all("k"), vec!["a".to_string(), "b".to_string()]);
    assert_eq!(m.get_all("K"), vec!["a".to_string(), "b".to_string()]);
}

#[test]
fn base64_renders_standard_alphabet_with_padding() {
    assert_eq!(base64_encode(&Vec::new()), "");
    assert_eq!(base64_encode(&b"f".to_vec()), "Zg==");
    assert_eq!(base64_encode(&b"fo".to_vec()), "Zm8=");
    assert_eq!(base64_encode(&b"foo".to_vec()), "Zm9v");
    assert_eq!(base64_encode(&b"foobar".to_vec()), "Zm9vYmFy");
    assert_eq!(base64_encode(&vec![0xffu8, 0xff, 0xfe]), "///+");
}

#[test]
fn status_details_ride_the_trailers_as_base64() {
    let g = Grpc::new(BytesCodec {});
    let comp = IdentityCompressor {};
    let st = Status::with_details(Code::FailedPrecondition, "precondition".to_string(), b"foo".to_vec());
    let http = g.map_response::<IdentityCompressor>(
        &comp,
        Err::<Response<Vec<Vec<u8>>>, Status>(st),
        None,
        SingleMessageCompressionOverride::Inherit,
    );
    assert_eq!(http.trailers.get("grpc-status").unwrap(), "9");
    assert_eq!(http.trailers.get("grpc-message").unwrap(), "precondition");
    assert_eq!(http.trailers.get("grpc-status-details-bin").unwrap(), "Zm9v");
}
