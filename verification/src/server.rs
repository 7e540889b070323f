//! The server-side dispatcher: wires a message codec and optional
//! per-direction compression into the four gRPC call shapes, negotiates
//! encodings from request headers, enforces message size bounds, and builds
//! a well-formed HTTP response — failures become trailer-only responses,
//! never HTTP-level errors.

use vstd::prelude::*;
use crate::compression::{
    CompressionEncoding, Compressor, EnabledCompressionEncodings, SingleMessageCompressionOverride,
    spec_pick_accept, spec_request_encoding, spec_unsupported_encoding_message,
};
use crate::framing::{spec_decode_frames, spec_encode_frames, decode_frames, encode_frames};
use crate::metadata::MetadataMap;
use crate::status::{Code, Status};
use crate::DEFAULT_MAX_MESSAGE_SIZE;

verus! {

/// The pluggable message codec: per-message encode and decode between a
/// typed message and its wire bytes. Implementations are supplied by the
/// host (Protocol Buffers and the like); encoders and decoders are
/// single-call and carry no cross-call state, so both directions are plain
/// functions of the message or the bytes.
pub trait Codec {
    /// The message type the server sends.
    type Encode: View;

    /// The message type the server receives.
    type Decode: View;

    /// The bytes that encoding a message with this abstract value yields,
    /// or `None` when the codec refuses the message.
    spec fn spec_encode(&self, m: <Self::Encode as View>::V) -> Option<Seq<u8>>;

    /// The abstract message value that decoding `b` yields, or `None` when
    /// the bytes are malformed for this codec.
    spec fn spec_decode(&self, b: Seq<u8>) -> Option<<Self::Decode as View>::V>;

    /// Encode one message; a refused message is a codec error, `Internal`,
    /// with no structured error details.
    fn encode(&self, m: &Self::Encode) -> (r: Result<Vec<u8>, Status>)
        ensures
            match r {
                Ok(b) => self.spec_encode(m@) == Some(b@),
                Err(st) => self.spec_encode(m@) is None && st.code == Code::Internal
                    && st.details@.len() == 0,
            },
    ;

    /// Decode one message; malformed bytes are a codec error, `Internal`,
    /// with no structured error details.
    fn decode(&self, b: &Vec<u8>) -> (r: Result<Self::Decode, Status>)
        ensures
            match r {
                Ok(m) => self.spec_decode(b@) == Some(m@),
                Err(st) => self.spec_decode(b@) is None && st.code == Code::Internal
                    && st.details@.len() == 0,
            },
    ;
}

/// The codec that carries raw bytes unchanged: every byte vector is a valid
/// message and is its own encoding.
pub struct BytesCodec {}

impl Codec for BytesCodec {
    type Encode = Vec<u8>;

    type Decode = Vec<u8>;

    open spec fn spec_encode(&self, m: Seq<u8>) -> Option<Seq<u8>> {
        Some(m)
    }

    open spec fn spec_decode(&self, b: Seq<u8>) -> Option<Seq<u8>> {
        Some(b)
    }

    fn encode(&self, m: &Vec<u8>) -> (r: Result<Vec<u8>, Status>) {
        Ok(crate::compression::copy_bytes(m))
    }

    fn decode(&self, b: &Vec<u8>) -> (r: Result<Vec<u8>, Status>) {
        Ok(crate::compression::copy_bytes(b))
    }
}

/// A typed request as the user service sees it: the decoded message (or the
/// gathered message sequence for streaming shapes) plus the request
/// metadata, headers and trailers merged.
pub struct Request<M> {
    pub message: M,
    pub metadata: MetadataMap,
}

/// A typed response as the user service returns it: the message (or message
/// sequence), response metadata, and the single-message compression
/// override carried as a closed extension.
pub struct Response<M> {
    pub message: M,
    pub metadata: MetadataMap,
    pub compression_override: SingleMessageCompressionOverride,
}

/// An HTTP request as the dispatcher consumes it: headers, the gathered
/// body bytes, and the trailers the body ended with, if any.
pub struct HttpRequest {
    pub headers: MetadataMap,
    pub body: Vec<u8>,
    pub trailers: Option<MetadataMap>,
}

/// An HTTP response as the dispatcher produces it: headers, framed body
/// bytes, and the gRPC trailers.
pub struct HttpResponse {
    pub headers: MetadataMap,
    pub body: Vec<u8>,
    pub trailers: MetadataMap,
}

/// A unary user service: one request message, one response message.
pub trait UnaryService<M, R> {
    fn call(&mut self, request: Request<M>) -> Result<Response<R>, Status>;
}

/// A server-streaming user service: one request message, a response
/// message sequence.
pub trait ServerStreamingService<M, R> {
    fn call(&mut self, request: Request<M>) -> Result<Response<Vec<R>>, Status>;
}

/// A gathered framed-message stream as a streaming service consumes it:
/// the messages decoded in order, and the failure the stream ended with,
/// if it did not end cleanly in trailers. The service sees every message
/// that preceded a failure, exactly as it would have read them lazily.
pub struct MessageStream<M> {
    pub messages: Vec<M>,
    pub failure: Option<Status>,
}

/// A client-streaming user service: a request message stream, one
/// response message.
pub trait ClientStreamingService<M, R> {
    fn call(&mut self, request: Request<MessageStream<M>>) -> Result<Response<R>, Status>;
}

/// A bidirectional user service: a request message stream in, a message
/// sequence out.
pub trait StreamingService<M, R> {
    fn call(&mut self, request: Request<MessageStream<M>>) -> Result<Response<Vec<R>>, Status>;
}

/// A unary service that echoes the request message back with no metadata:
/// the simplest service a host can mount.
pub struct EchoService {}

impl UnaryService<Vec<u8>, Vec<u8>> for EchoService {
    fn call(&mut self, request: Request<Vec<u8>>) -> Result<Response<Vec<u8>>, Status> {
        Ok(
            Response {
                message: request.message,
                metadata: MetadataMap::new(),
                compression_override: SingleMessageCompressionOverride::Inherit,
            },
        )
    }
}

/// A bidirectional service that echoes the request stream back: the
/// gathered messages on a clean stream, the stream's own failure otherwise.
pub struct StreamEchoService {}

impl StreamingService<Vec<u8>, Vec<u8>> for StreamEchoService {
    fn call(&mut self, request: Request<MessageStream<Vec<u8>>>) -> Result<
        Response<Vec<Vec<u8>>>,
        Status,
    > {
        match request.message.failure {
            Some(st) => Err(st),
            None => Ok(
                Response {
                    message: request.message.messages,
                    metadata: MetadataMap::new(),
                    compression_override: SingleMessageCompressionOverride::Inherit,
                },
            ),
        }
    }
}

/// A unary service that always fails with a fixed status, reported
/// verbatim in the response trailers.
pub struct FailService {
    pub status: Status,
}

impl UnaryService<Vec<u8>, Vec<u8>> for FailService {
    fn call(&mut self, _request: Request<Vec<u8>>) -> Result<Response<Vec<u8>>, Status> {
        Err(self.status.clone())
    }
}

/// The decimal rendering of a status code for the `grpc-status` trailer.
pub open spec fn spec_code_string(c: Code) -> Seq<char> {
    match c {
        Code::Okay => "0"@,
        Code::Cancelled => "1"@,
        Code::Unknown => "2"@,
        Code::InvalidArgument => "3"@,
        Code::DeadlineExceeded => "4"@,
        Code::NotFound => "5"@,
        Code::AlreadyExists => "6"@,
        Code::PermissionDenied => "7"@,
        Code::ResourceExhausted => "8"@,
        Code::FailedPrecondition => "9"@,
        Code::Aborted => "10"@,
        Code::OutOfRange => "11"@,
        Code::Unimplemented => "12"@,
        Code::Internal => "13"@,
        Code::Unavailable => "14"@,
        Code::DataLoss => "15"@,
        Code::Unauthenticated => "16"@,
    }
}

/// The decimal rendering of a status code.
pub fn code_string(c: Code) -> (r: &'static str)
    ensures
        r@ == spec_code_string(c),
{
    match c {
        Code::Okay => "0",
        Code::Cancelled => "1",
        Code::Unknown => "2",
        Code::InvalidArgument => "3",
        Code::DeadlineExceeded => "4",
        Code::NotFound => "5",
        Code::AlreadyExists => "6",
        Code::PermissionDenied => "7",
        Code::ResourceExhausted => "8",
        Code::FailedPrecondition => "9",
        Code::Aborted => "10",
        Code::OutOfRange => "11",
        Code::Unimplemented => "12",
        Code::Internal => "13",
        Code::Unavailable => "14",
        Code::DataLoss => "15",
        Code::Unauthenticated => "16",
    }
}

/// The gRPC trailers that report `st`: always `grpc-status`, on non-OK
/// also `grpc-message`, and when structured error details are attached,
/// `grpc-status-details-bin` as base64.
pub open spec fn spec_status_trailers(st: Status) -> Seq<(Seq<char>, Seq<char>)> {
    if st.code == Code::Okay {
        seq![("grpc-status"@, "0"@)]
    } else if st.details@.len() == 0 {
        seq![("grpc-status"@, spec_code_string(st.code)), ("grpc-message"@, st.message@)]
    } else {
        seq![
            ("grpc-status"@, spec_code_string(st.code)),
            ("grpc-message"@, st.message@),
            ("grpc-status-details-bin"@, crate::base64::spec_base64(st.details@)),
        ]
    }
}

/// The one header every dispatcher response carries.
pub open spec fn spec_content_type_entry() -> (Seq<char>, Seq<char>) {
    ("content-type"@, "application/grpc"@)
}

/// The gRPC trailers that report `st`.
pub fn status_trailers(st: &Status) -> (r: MetadataMap)
    ensures
        r@ == spec_status_trailers(*st),
{
    let mut t = MetadataMap::new();
    t.append_entry(String::from_str("grpc-status"), String::from_str(code_string(st.code)));
    if !st.is_ok() {
        t.append_entry(String::from_str("grpc-message"), st.message.clone());
        if st.details.len() > 0 {
            t.append_entry(
                String::from_str("grpc-status-details-bin"),
                crate::base64::base64_encode(&st.details),
            );
        }
        proof {
            assert(t@ =~= spec_status_trailers(*st));
        }
    } else {
        proof {
            assert(t@ =~= spec_status_trailers(*st));
        }
    }
    t
}

/// Whether `r` is the trailers-only response reporting `st`: the
/// `content-type` header alone, an empty body, and `st`'s trailers.
pub open spec fn spec_is_trailers_only(r: &HttpResponse, st: Status) -> bool {
    &&& r.headers@ == seq![spec_content_type_entry()]
    &&& r.body@ == Seq::<u8>::empty()
    &&& r.trailers@ == spec_status_trailers(st)
}

/// A response is well-formed when its `content-type` header reads
/// `application/grpc` and its trailers carry a `grpc-status`.
pub open spec fn spec_response_wf(r: &HttpResponse) -> bool {
    &&& crate::metadata::first_value_of(r.headers@, "content-type"@) == Some("application/grpc"@)
    &&& crate::metadata::first_value_of(r.trailers@, "grpc-status"@) is Some
}

impl Status {
    /// The trailers-only HTTP response reporting this status: how every
    /// failure leaves the dispatcher, HTTP 200 with gRPC trailers.
    pub fn to_http(&self) -> (r: HttpResponse)
        ensures
            spec_is_trailers_only(&r, *self),
            spec_response_wf(&r),
    {
        let mut headers = MetadataMap::new();
        headers.append_entry(String::from_str("content-type"), String::from_str(
            "application/grpc",
        ));
        let r = HttpResponse { headers, body: Vec::new(), trailers: status_trailers(self) };
        proof {
            assert(r.headers@ =~= seq![spec_content_type_entry()]);
            assert(r.body@ =~= Seq::<u8>::empty());
        }
        r
    }
}

/// A gRPC server handler: wraps a codec and carries the negotiated
/// compression sets and message size limits for both directions.
#[derive(Debug)]
pub struct Grpc<T> {
    pub codec: T,
    /// Which compression encodings the server accepts for requests.
    pub accept_compression_encodings: EnabledCompressionEncodings,
    /// Which compression encodings the server may use for responses.
    pub send_compression_encodings: EnabledCompressionEncodings,
    /// Limit on the size of a decoded message.
    pub max_decoding_message_size: Option<usize>,
    /// Limit on the size of an encoded message.
    pub max_encoding_message_size: Option<usize>,
}

impl<T: Codec> Grpc<T> {
    /// A new handler over `codec`: no compression accepted or offered, both
    /// size limits at their 4 MiB default.
    pub fn new(codec: T) -> (r: Self)
        ensures
            r.codec == codec,
            r.accept_compression_encodings == (EnabledCompressionEncodings {
                gzip: false,
                zstd: false,
            }),
            r.send_compression_encodings == (EnabledCompressionEncodings {
                gzip: false,
                zstd: false,
            }),
            r.max_decoding_message_size is None,
            r.max_encoding_message_size is None,
    {
        Self {
            codec,
            accept_compression_encodings: EnabledCompressionEncodings::default(),
            send_compression_encodings: EnabledCompressionEncodings::default(),
            max_decoding_message_size: None,
            max_encoding_message_size: None,
        }
    }

    /// Enable accepting requests compressed with `encoding`. A request with
    /// an encoding outside the accepted set is answered `Unimplemented`.
    pub fn accept_compressed(self, encoding: CompressionEncoding) -> (r: Self)
        ensures
            r.accept_compression_encodings.spec_is_enabled(encoding),
            forall|e: CompressionEncoding|
                e != encoding ==> r.accept_compression_encodings.spec_is_enabled(e)
                    == self.accept_compression_encodings.spec_is_enabled(e),
            r.send_compression_encodings == self.send_compression_encodings,
            r.max_decoding_message_size == self.max_decoding_message_size,
            r.max_encoding_message_size == self.max_encoding_message_size,
            r.codec == self.codec,
    {
        let mut this = self;
        this.accept_compression_encodings.enable(encoding);
        this
    }

    /// Enable sending responses compressed with `encoding`, when the client
    /// advertises it.
    pub fn send_compressed(self, encoding: CompressionEncoding) -> (r: Self)
        ensures
            r.send_compression_encodings.spec_is_enabled(encoding),
            forall|e: CompressionEncoding|
                e != encoding ==> r.send_compression_encodings.spec_is_enabled(e)
                    == self.send_compression_encodings.spec_is_enabled(e),
            r.accept_compression_encodings == self.accept_compression_encodings,
            r.max_decoding_message_size == self.max_decoding_message_size,
            r.max_encoding_message_size == self.max_encoding_message_size,
            r.codec == self.codec,
    {
        let mut this = self;
        this.send_compression_encodings.enable(encoding);
        this
    }

    /// Limit the size of a decoded message.
    pub fn max_decoding_message_size(self, limit: usize) -> (r: Self)
        ensures
            r.max_decoding_message_size == Some(limit),
            r.max_encoding_message_size == self.max_encoding_message_size,
            r.accept_compression_encodings == self.accept_compression_encodings,
            r.send_compression_encodings == self.send_compression_encodings,
            r.codec == self.codec,
    {
        let mut this = self;
        this.max_decoding_message_size = Some(limit);
        this
    }

    /// Limit the size of an encoded message.
    pub fn max_encoding_message_size(self, limit: usize) -> (r: Self)
        ensures
            r.max_encoding_message_size == Some(limit),
            r.max_decoding_message_size == self.max_decoding_message_size,
            r.accept_compression_encodings == self.accept_compression_encodings,
            r.send_compression_encodings == self.send_compression_encodings,
            r.codec == self.codec,
    {
        let mut this = self;
        this.max_encoding_message_size = Some(limit);
        this
    }

    /// Fold a pair of configured enabled sets into this handler: every
    /// encoding enabled in `accept_encodings` or `send_encodings` is enabled
    /// on the matching direction here.
    pub fn apply_compression_config(
        self,
        accept_encodings: EnabledCompressionEncodings,
        send_encodings: EnabledCompressionEncodings,
    ) -> (r: Self)
        ensures
            r.accept_compression_encodings == self.accept_compression_encodings.spec_union(
                accept_encodings,
            ),
            r.send_compression_encodings == self.send_compression_encodings.spec_union(
                send_encodings,
            ),
            r.max_decoding_message_size == self.max_decoding_message_size,
            r.max_encoding_message_size == self.max_encoding_message_size,
            r.codec == self.codec,
    {
        let mut this = self;
        if accept_encodings.is_enabled(CompressionEncoding::Gzip) {
            this = this.accept_compressed(CompressionEncoding::Gzip);
        }
        if accept_encodings.is_enabled(CompressionEncoding::Zstd) {
            this = this.accept_compressed(CompressionEncoding::Zstd);
        }
        if send_encodings.is_enabled(CompressionEncoding::Gzip) {
            this = this.send_compressed(CompressionEncoding::Gzip);
        }
        if send_encodings.is_enabled(CompressionEncoding::Zstd) {
            this = this.send_compressed(CompressionEncoding::Zstd);
        }
        proof {
            let a = this.accept_compression_encodings;
            let au = self.accept_compression_encodings.spec_union(accept_encodings);
            assert(a.spec_is_enabled(CompressionEncoding::Gzip) == au.spec_is_enabled(
                CompressionEncoding::Gzip,
            ));
            assert(a.spec_is_enabled(CompressionEncoding::Zstd) == au.spec_is_enabled(
                CompressionEncoding::Zstd,
            ));
            assert(a == au);
            let s = this.send_compression_encodings;
            let su = self.send_compression_encodings.spec_union(send_encodings);
            assert(s.spec_is_enabled(CompressionEncoding::Gzip) == su.spec_is_enabled(
                CompressionEncoding::Gzip,
            ));
            assert(s.spec_is_enabled(CompressionEncoding::Zstd) == su.spec_is_enabled(
                CompressionEncoding::Zstd,
            ));
            assert(s == su);
        }
        this
    }

    /// Fold configured size limits into this handler; an absent limit keeps
    /// the current one.
    pub fn apply_max_message_size_config(
        self,
        max_decoding_message_size: Option<usize>,
        max_encoding_message_size: Option<usize>,
    ) -> (r: Self)
        ensures
            r.max_decoding_message_size == match max_decoding_message_size {
                Some(l) => Some(l),
                None => self.max_decoding_message_size,
            },
            r.max_encoding_message_size == match max_encoding_message_size {
                Some(l) => Some(l),
                None => self.max_encoding_message_size,
            },
            r.accept_compression_encodings == self.accept_compression_encodings,
            r.send_compression_encodings == self.send_compression_encodings,
            r.codec == self.codec,
    {
        let mut this = self;
        if let Some(limit) = max_decoding_message_size {
            this = this.max_decoding_message_size(limit);
        }
        if let Some(limit) = max_encoding_message_size {
            this = this.max_encoding_message_size(limit);
        }
        this
    }

    /// The decoding size limit in force: the configured one, or 4 MiB.
    pub open spec fn spec_decoding_limit(&self) -> nat {
        match self.max_decoding_message_size {
            Some(l) => l as nat,
            None => DEFAULT_MAX_MESSAGE_SIZE as nat,
        }
    }

    /// The encoding size limit in force: the configured one, or 4 MiB.
    pub open spec fn spec_encoding_limit(&self) -> nat {
        match self.max_encoding_message_size {
            Some(l) => l as nat,
            None => DEFAULT_MAX_MESSAGE_SIZE as nat,
        }
    }

    fn decoding_limit(&self) -> (r: usize)
        ensures
            r as nat == self.spec_decoding_limit(),
    {
        match self.max_decoding_message_size {
            Some(l) => l,
            None => DEFAULT_MAX_MESSAGE_SIZE,
        }
    }

    fn encoding_limit(&self) -> (r: usize)
        ensures
            r as nat == self.spec_encoding_limit(),
    {
        match self.max_encoding_message_size {
            Some(l) => l,
            None => DEFAULT_MAX_MESSAGE_SIZE,
        }
    }

    /// The request's `grpc-encoding`, when the accepted set supports it.
    pub fn request_encoding_if_supported(&self, request: &HttpRequest) -> (r: Result<
        Option<CompressionEncoding>,
        Status,
    >)
        ensures
            match r {
                Ok(e) => Ok::<_, ()>(e) == spec_request_encoding(
                    crate::metadata::first_value_of(request.headers@, "grpc-encoding"@),
                    self.accept_compression_encodings,
                ),
                Err(st) => spec_request_encoding(
                    crate::metadata::first_value_of(request.headers@, "grpc-encoding"@),
                    self.accept_compression_encodings,
                ) is Err && st.code == Code::Unimplemented && st.message@
                    == spec_unsupported_encoding_message(self.accept_compression_encodings)
                    && st.details@.len() == 0,
            },
    {
        let header = request.headers.get("grpc-encoding");
        let header_str = match header {
            Some(v) => Some(v.as_str()),
            None => None,
        };
        CompressionEncoding::from_encoding_header(header_str, self.accept_compression_encodings)
    }
}

/// The abstract values of a sequence of messages.
pub open spec fn views_of_msgs<M: View>(s: Seq<M>) -> Seq<M::V> {
    s.map_values(|m: M| m@)
}

/// The abstract values of the longest prefix of `frames` that the codec
/// decodes, and whether a frame the codec refuses cut the stream short.
/// The messages before a refused frame are kept: the stream fails at the
/// offending frame, not before it.
pub open spec fn spec_decode_prefix<T: Codec>(codec: &T, frames: Seq<Seq<u8>>) -> (
    Seq<<T::Decode as View>::V>,
    bool,
)
    decreases frames.len(),
{
    if frames.len() == 0 {
        (Seq::empty(), false)
    } else {
        match codec.spec_decode(frames[0]) {
            None => (Seq::empty(), true),
            Some(v) => {
                let rest = spec_decode_prefix(codec, frames.drop_first());
                (seq![v] + rest.0, rest.1)
            },
        }
    }
}

/// The frame payloads of the longest prefix of `msgs` the codec encodes,
/// and whether a refused message cut the stream short.
pub open spec fn spec_encode_prefix<T: Codec>(codec: &T, msgs: Seq<<T::Encode as View>::V>) -> (
    Seq<Seq<u8>>,
    bool,
)
    decreases msgs.len(),
{
    if msgs.len() == 0 {
        (Seq::empty(), false)
    } else {
        match codec.spec_encode(msgs[0]) {
            None => (Seq::empty(), true),
            Some(b) => {
                let rest = spec_encode_prefix(codec, msgs.drop_first());
                (seq![b] + rest.0, rest.1)
            },
        }
    }
}

proof fn lemma_decode_prefix_all<T: Codec>(
    codec: &T,
    frames: Seq<Seq<u8>>,
    vals: Seq<<T::Decode as View>::V>,
)
    requires
        vals.len() == frames.len(),
        forall|j: int| 0 <= j < frames.len() ==> codec.spec_decode(#[trigger] frames[j]) == Some(
            vals[j],
        ),
    ensures
        spec_decode_prefix(codec, frames) == (vals, false),
    decreases frames.len(),
{
    if frames.len() == 0 {
        assert(vals =~= Seq::<<T::Decode as View>::V>::empty());
    } else {
        assert(forall|j: int|
            0 <= j < frames.drop_first().len() ==> #[trigger] frames.drop_first()[j] == frames[j
                + 1]);
        lemma_decode_prefix_all(codec, frames.drop_first(), vals.drop_first());
        assert(seq![vals[0]] + vals.drop_first() =~= vals);
    }
}

proof fn lemma_decode_prefix_upto<T: Codec>(
    codec: &T,
    frames: Seq<Seq<u8>>,
    vals: Seq<<T::Decode as View>::V>,
    k: int,
)
    requires
        0 <= k < frames.len(),
        vals.len() == k,
        forall|j: int| 0 <= j < k ==> codec.spec_decode(#[trigger] frames[j]) == Some(vals[j]),
        codec.spec_decode(frames[k]) is None,
    ensures
        spec_decode_prefix(codec, frames) == (vals, true),
    decreases k,
{
    if k == 0 {
        assert(vals =~= Seq::<<T::Decode as View>::V>::empty());
    } else {
        assert(forall|j: int|
            0 <= j < frames.drop_first().len() ==> #[trigger] frames.drop_first()[j] == frames[j
                + 1]);
        lemma_decode_prefix_upto(codec, frames.drop_first(), vals.drop_first(), k - 1);
        assert(seq![vals[0]] + vals.drop_first() =~= vals);
    }
}

proof fn lemma_encode_prefix_all<T: Codec>(
    codec: &T,
    msgs: Seq<<T::Encode as View>::V>,
    payloads: Seq<Seq<u8>>,
)
    requires
        payloads.len() == msgs.len(),
        forall|j: int| 0 <= j < msgs.len() ==> codec.spec_encode(#[trigger] msgs[j]) == Some(
            payloads[j],
        ),
    ensures
        spec_encode_prefix(codec, msgs) == (payloads, false),
    decreases msgs.len(),
{
    if msgs.len() == 0 {
        assert(payloads =~= Seq::<Seq<u8>>::empty());
    } else {
        assert(forall|j: int|
            0 <= j < msgs.drop_first().len() ==> #[trigger] msgs.drop_first()[j] == msgs[j + 1]);
        lemma_encode_prefix_all(codec, msgs.drop_first(), payloads.drop_first());
        assert(seq![payloads[0]] + payloads.drop_first() =~= payloads);
    }
}

proof fn lemma_encode_prefix_upto<T: Codec>(
    codec: &T,
    msgs: Seq<<T::Encode as View>::V>,
    payloads: Seq<Seq<u8>>,
    k: int,
)
    requires
        0 <= k < msgs.len(),
        payloads.len() == k,
        forall|j: int| 0 <= j < k ==> codec.spec_encode(#[trigger] msgs[j]) == Some(payloads[j]),
        codec.spec_encode(msgs[k]) is None,
    ensures
        spec_encode_prefix(codec, msgs) == (payloads, true),
    decreases k,
{
    if k == 0 {
        assert(payloads =~= Seq::<Seq<u8>>::empty());
    } else {
        assert(forall|j: int|
            0 <= j < msgs.drop_first().len() ==> #[trigger] msgs.drop_first()[j] == msgs[j + 1]);
        lemma_encode_prefix_upto(codec, msgs.drop_first(), payloads.drop_first(), k - 1);
        assert(seq![payloads[0]] + payloads.drop_first() =~= payloads);
    }
}

/// The request metadata the user service sees: headers, then any trailers.
pub open spec fn spec_merged_metadata(
    headers: Seq<(Seq<char>, Seq<char>)>,
    trailers: Option<&MetadataMap>,
) -> Seq<(Seq<char>, Seq<char>)> {
    match trailers {
        Some(t) => headers + t@,
        None => headers,
    }
}

/// The trailers that report a failure with `code` and `message`.
pub open spec fn spec_error_trailers(code: Code, message: Seq<char>) -> Seq<
    (Seq<char>, Seq<char>),
> {
    seq![("grpc-status"@, spec_code_string(code)), ("grpc-message"@, message)]
}

impl<T: Codec> Grpc<T> {
    /// Map an HTTP request into the typed request of the unary and
    /// server-streaming shapes: negotiate the request encoding, unframe the
    /// body, read exactly one message, and merge the body's trailers into
    /// the request metadata. Zero messages fail with `Internal` and
    /// "Missing request message."; a second message before the trailers is
    /// `Internal` as well; a stream that fails before or right after its
    /// one message fails with that failure's own status.
    #[verifier::loop_isolation(false)]
    pub fn map_request_unary<C: Compressor>(&self, comp: &C, req: HttpRequest) -> (r: Result<
        Request<T::Decode>,
        Status,
    >)
        ensures
            ({
                let enc = spec_request_encoding(
                    crate::metadata::first_value_of(req.headers@, "grpc-encoding"@),
                    self.accept_compression_encodings,
                );
                match r {
                    Ok(request) => {
                        &&& enc is Ok
                        &&& {
                            let fr = spec_decode_frames(
                                comp,
                                req.body@,
                                enc->Ok_0 is Some,
                                self.spec_decoding_limit(),
                            );
                            &&& fr is Ok
                            &&& fr->Ok_0.len() == 1
                            &&& self.codec.spec_decode(fr->Ok_0[0]) == Some(request.message@)
                            &&& request.metadata@ == spec_merged_metadata(
                                req.headers@,
                                match req.trailers {
                                    Some(ref t) => Some(t),
                                    None => None,
                                },
                            )
                        }
                    },
                    Err(st) => {
                        &&& st.details@.len() == 0
                        &&& if enc is Err {
                            st.code == Code::Unimplemented && st.message@
                                == spec_unsupported_encoding_message(
                                self.accept_compression_encodings,
                            )
                        } else {
                            let fr = spec_decode_frames(
                                comp,
                                req.body@,
                                enc->Ok_0 is Some,
                                self.spec_decoding_limit(),
                            );
                            let payloads = match fr {
                                Ok(p) => p,
                                Err(pre) => pre.0,
                            };
                            if payloads.len() > 1 {
                                st.code == Code::Internal && st.message@
                                    == "Expected a single request message before the trailers."@
                            } else if payloads.len() == 1 {
                                if self.codec.spec_decode(payloads[0]) is None {
                                    st.code == Code::Internal
                                } else {
                                    fr matches Err(pre) && st.code == pre.1 && st.message@ == pre.2
                                }
                            } else {
                                match fr {
                                    Err(pre) => st.code == pre.1 && st.message@ == pre.2,
                                    Ok(_) => st.code == Code::Internal && st.message@
                                        == "Missing request message."@,
                                }
                            }
                        }
                    },
                }
            }),
    {
        let encoding = match self.request_encoding_if_supported(&req) {
            Ok(e) => e,
            Err(st) => {
                return Err(st);
            },
        };
        let limit = self.decoding_limit();
        let HttpRequest { headers, body, trailers } = req;
        let (msgs, frame_failure) = decode_frames(comp, &body, encoding.is_some(), limit);
        if msgs.len() > 1 {
            return Err(Status::new(
                Code::Internal,
                String::from_str("Expected a single request message before the trailers."),
            ));
        }
        if msgs.len() == 0 {
            return match frame_failure {
                Some(st) => Err(st),
                None => Err(
                    Status::new(Code::Internal, String::from_str("Missing request message.")),
                ),
            };
        }
        let message = match self.codec.decode(&msgs[0]) {
            Ok(m) => m,
            Err(st) => {
                return Err(st);
            },
        };
        if let Some(st) = frame_failure {
            return Err(st);
        }
        let mut metadata = headers;
        match &trailers {
            Some(t) => {
                metadata.merge(t);
            },
            None => {},
        }
        Ok(Request { message, metadata })
    }

    /// Map an HTTP request into the typed request of the client-streaming
    /// and bidirectional shapes. Only a refused request encoding fails here,
    /// before any frame is read; everything else reaches the service as a
    /// message stream: the messages decoded before any failure, and the
    /// failure itself in the stream, exactly as a lazy reader would meet
    /// them.
    #[verifier::loop_isolation(false)]
    pub fn map_request_streaming<C: Compressor>(&self, comp: &C, req: HttpRequest) -> (r: Result<
        Request<MessageStream<T::Decode>>,
        Status,
    >)
        ensures
            ({
                let enc = spec_request_encoding(
                    crate::metadata::first_value_of(req.headers@, "grpc-encoding"@),
                    self.accept_compression_encodings,
                );
                match r {
                    Ok(request) => {
                        &&& enc is Ok
                        &&& {
                            let fr = spec_decode_frames(
                                comp,
                                req.body@,
                                enc->Ok_0 is Some,
                                self.spec_decoding_limit(),
                            );
                            let payloads = match fr {
                                Ok(p) => p,
                                Err(pre) => pre.0,
                            };
                            let decoded = spec_decode_prefix(&self.codec, payloads);
                            &&& views_of_msgs(request.message.messages@) == decoded.0
                            &&& match request.message.failure {
                                Some(st) => st.details@.len() == 0 && (if decoded.1 {
                                    st.code == Code::Internal
                                } else {
                                    fr matches Err(pre) && st.code == pre.1 && st.message@
                                        == pre.2
                                }),
                                None => !decoded.1 && fr is Ok,
                            }
                            &&& request.metadata@ == spec_merged_metadata(
                                req.headers@,
                                match req.trailers {
                                    Some(ref t) => Some(t),
                                    None => None,
                                },
                            )
                        }
                    },
                    Err(st) => {
                        &&& enc is Err
                        &&& st.code == Code::Unimplemented
                        &&& st.message@ == spec_unsupported_encoding_message(
                            self.accept_compression_encodings,
                        )
                        &&& st.details@.len() == 0
                    },
                }
            }),
    {
        let encoding = match self.request_encoding_if_supported(&req) {
            Ok(e) => e,
            Err(st) => {
                return Err(st);
            },
        };
        let limit = self.decoding_limit();
        let HttpRequest { headers, body, trailers } = req;
        let (msgs, frame_failure) = decode_frames(comp, &body, encoding.is_some(), limit);
        let ghost frame_views = crate::framing::views_of(msgs@);
        let n = msgs.len();
        let mut out: Vec<T::Decode> = Vec::new();
        let mut codec_failure: Option<Status> = None;
        let mut i: usize = 0;
        while i < n
            invariant
                i <= n,
                n == msgs@.len(),
                frame_views == crate::framing::views_of(msgs@),
                match codec_failure {
                    None => out@.len() == i && forall|j: int|
                        0 <= j < i ==> self.codec.spec_decode(#[trigger] frame_views[j]) == Some(
                            out@[j]@,
                        ),
                    Some(st) => spec_decode_prefix(&self.codec, frame_views) == (
                        views_of_msgs(out@),
                        true,
                    ) && st.code == Code::Internal && st.details@.len() == 0,
                },
            decreases n - i,
        {
            if codec_failure.is_none() {
                match self.codec.decode(&msgs[i]) {
                    Ok(m) => {
                        out.push(m);
                    },
                    Err(st) => {
                        proof {
                            lemma_decode_prefix_upto(
                                &self.codec,
                                frame_views,
                                views_of_msgs(out@),
                                i as int,
                            );
                        }
                        codec_failure = Some(st);
                    },
                }
            }
            i = i + 1;
        }
        if codec_failure.is_none() {
            proof {
                lemma_decode_prefix_all(&self.codec, frame_views, views_of_msgs(out@));
            }
        }
        let failure = match codec_failure {
            Some(st) => Some(st),
            None => frame_failure,
        };
        let mut metadata = headers;
        match &trailers {
            Some(t) => {
                metadata.merge(t);
            },
            None => {},
        }
        Ok(Request { message: MessageStream { messages: out, failure }, metadata })
    }

    /// Build the HTTP response from the service outcome. A service failure
    /// becomes a trailers-only response — no frame was emitted. A success
    /// has its messages encoded and framed with the negotiated response
    /// encoding, under `content-type` and, when an encoding was negotiated,
    /// `grpc-encoding` headers. When a message fails mid-stream — refused
    /// by the codec, or over the size limit — the frames of the messages
    /// before it ride the body intact, none of the offender's bytes follow,
    /// and the trailers carry the failure instead of `grpc-status: 0`.
    #[verifier::loop_isolation(false)]
    pub fn map_response<C: Compressor>(
        &self,
        comp: &C,
        response: Result<Response<Vec<T::Encode>>, Status>,
        accept_encoding: Option<CompressionEncoding>,
        compression_override: SingleMessageCompressionOverride,
    ) -> (r: HttpResponse)
        ensures
            spec_response_wf(&r),
            ({
                match response {
                    Err(st) => spec_is_trailers_only(&r, st),
                    Ok(resp) => {
                        let compress = accept_encoding is Some && compression_override
                            != SingleMessageCompressionOverride::Disable;
                        let encoded = spec_encode_prefix(&self.codec, views_of_msgs(resp.message@));
                        &&& r.headers@ == seq![spec_content_type_entry()] + (
                        match accept_encoding {
                            Some(e) => seq![("grpc-encoding"@, e.spec_name())],
                            None => Seq::empty(),
                        }) + resp.metadata@
                        &&& match spec_encode_frames(
                            comp,
                            encoded.0,
                            compress,
                            self.spec_encoding_limit(),
                        ) {
                            Err(pre) => r.body@ == pre.0 && r.trailers@ == spec_error_trailers(
                                pre.1,
                                pre.2,
                            ),
                            Ok(wire) => {
                                &&& r.body@ == wire
                                &&& if encoded.1 {
                                    crate::metadata::first_value_of(r.trailers@, "grpc-status"@)
                                        == Some(spec_code_string(Code::Internal))
                                } else {
                                    r.trailers@ == seq![("grpc-status"@, "0"@)]
                                }
                            },
                        }
                    },
                }
            }),
    {
        let resp = match response {
            Ok(resp) => resp,
            Err(st) => {
                return st.to_http();
            },
        };
        let Response { message, metadata, compression_override: _ } = resp;
        let ghost msg_views = views_of_msgs(message@);
        let n = message.len();
        let mut payloads: Vec<Vec<u8>> = Vec::new();
        let mut codec_failure: Option<Status> = None;
        let mut i: usize = 0;
        while i < n
            invariant
                i <= n,
                n == message@.len(),
                msg_views == views_of_msgs(message@),
                match codec_failure {
                    None => payloads@.len() == i && forall|j: int|
                        0 <= j < i ==> self.codec.spec_encode(#[trigger] msg_views[j]) == Some(
                            payloads@[j]@,
                        ),
                    Some(st) => spec_encode_prefix(&self.codec, msg_views) == (
                        crate::framing::views_of(payloads@),
                        true,
                    ) && st.code == Code::Internal && st.details@.len() == 0,
                },
            decreases n - i,
        {
            if codec_failure.is_none() {
                match self.codec.encode(&message[i]) {
                    Ok(b) => {
                        payloads.push(b);
                    },
                    Err(st) => {
                        proof {
                            lemma_encode_prefix_upto(
                                &self.codec,
                                msg_views,
                                crate::framing::views_of(payloads@),
                                i as int,
                            );
                        }
                        codec_failure = Some(st);
                    },
                }
            }
            i = i + 1;
        }
        if codec_failure.is_none() {
            proof {
                lemma_encode_prefix_all(
                    &self.codec,
                    msg_views,
                    crate::framing::views_of(payloads@),
                );
            }
        }
        let compress = accept_encoding.is_some() && !matches!(
            compression_override,
            SingleMessageCompressionOverride::Disable,
        );
        let (body, frame_failure) = encode_frames(comp, &payloads, compress, self.encoding_limit());
        proof {
            crate::framing::lemma_encode_frames_error_code(
                comp,
                crate::framing::views_of(payloads@),
                compress,
                self.spec_encoding_limit(),
            );
        }
        let failure = match frame_failure {
            Some(st) => Some(st),
            None => codec_failure,
        };
        let mut headers = MetadataMap::new();
        headers.append_entry(String::from_str("content-type"), String::from_str(
            "application/grpc",
        ));
        match accept_encoding {
            Some(e) => {
                headers.append_entry(String::from_str("grpc-encoding"), String::from_str(e.name()));
            },
            None => {},
        }
        headers.merge(&metadata);
        let trailers = match &failure {
            Some(st) => {
                proof {
                    lemma_status_trailers_code(*st);
                }
                status_trailers(st)
            },
            None => {
                let ok_status = Status::new(Code::Okay, String::new());
                status_trailers(&ok_status)
            },
        };
        let r = HttpResponse { headers, body, trailers };
        proof {
            assert(r.headers@ =~= seq![spec_content_type_entry()] + (match accept_encoding {
                Some(e) => seq![("grpc-encoding"@, e.spec_name())],
                None => Seq::empty(),
            }) + metadata@);
            if failure is None {
                assert(r.trailers@ =~= seq![("grpc-status"@, "0"@)]);
            }
        }
        r
    }
}

/// In the trailers that report `st`, `grpc-status` always reads the
/// decimal rendering of `st`'s code.
pub proof fn lemma_status_trailers_code(st: Status)
    ensures
        crate::metadata::first_value_of(spec_status_trailers(st), "grpc-status"@) == Some(
            spec_code_string(st.code),
        ),
{
    if st.code == Code::Okay {
        assert(spec_status_trailers(st)[0] == ("grpc-status"@, "0"@));
    } else {
        assert(spec_status_trailers(st)[0] == ("grpc-status"@, spec_code_string(st.code)));
    }
}

/// What the dispatcher promises of every response, whatever the user
/// service did: the response is well-formed, and a refused request encoding
/// — the one failure that precedes every frame — is answered trailers-only
/// with `Unimplemented` and the accepted set.
pub open spec fn spec_dispatch_contract<T: Codec>(
    g: &Grpc<T>,
    req_headers: Seq<(Seq<char>, Seq<char>)>,
    r: &HttpResponse,
) -> bool {
    let enc = spec_request_encoding(
        crate::metadata::first_value_of(req_headers, "grpc-encoding"@),
        g.accept_compression_encodings,
    );
    &&& spec_response_wf(r)
    &&& (enc is Err ==> r.body@ == Seq::<u8>::empty() && r.trailers@ == spec_error_trailers(
        Code::Unimplemented,
        spec_unsupported_encoding_message(g.accept_compression_encodings),
    ))
}

/// What the single-message shapes additionally promise of the request
/// stream, whatever the user service did: every failure the library itself
/// finds in the request stream ends trailers-only, before the service is
/// consulted — a failing stream (whether it fails before its one message
/// or right after it) with that failure's own code, an empty stream with
/// `Internal` and "Missing request message.", a codec-refused message with
/// `Internal`, and a second message before the trailers with `Internal`.
pub open spec fn spec_single_request_contract<T: Codec, C: Compressor>(
    g: &Grpc<T>,
    comp: &C,
    req_headers: Seq<(Seq<char>, Seq<char>)>,
    req_body: Seq<u8>,
    r: &HttpResponse,
) -> bool {
    let enc = spec_request_encoding(
        crate::metadata::first_value_of(req_headers, "grpc-encoding"@),
        g.accept_compression_encodings,
    );
    enc is Ok ==> {
        let fr = spec_decode_frames(comp, req_body, enc->Ok_0 is Some, g.spec_decoding_limit());
        let payloads = match fr {
            Ok(p) => p,
            Err(pre) => pre.0,
        };
        &&& (fr matches Err(pre) ==> (pre.0.len() == 0 ==> r.body@ == Seq::<u8>::empty()
            && crate::metadata::first_value_of(r.trailers@, "grpc-status"@) == Some(
            spec_code_string(pre.1),
        )))
        &&& (fr matches Err(pre) ==> (pre.0.len() == 1 && g.codec.spec_decode(pre.0[0]) is Some
            ==> r.body@ == Seq::<u8>::empty() && crate::metadata::first_value_of(
            r.trailers@,
            "grpc-status"@,
        ) == Some(spec_code_string(pre.1))))
        &&& (payloads.len() == 1 && g.codec.spec_decode(payloads[0]) is None ==> r.body@
            == Seq::<u8>::empty() && crate::metadata::first_value_of(r.trailers@, "grpc-status"@)
            == Some(spec_code_string(Code::Internal)))
        &&& (fr is Ok && payloads.len() == 0 ==> r.body@ == Seq::<u8>::empty() && r.trailers@
            == spec_error_trailers(Code::Internal, "Missing request message."@))
        &&& (payloads.len() > 1 ==> r.body@ == Seq::<u8>::empty() && r.trailers@
            == spec_error_trailers(
            Code::Internal,
            "Expected a single request message before the trailers."@,
        ))
    }
}

impl<T: Codec> Grpc<T> {
    /// Handle a unary request: negotiate encodings, read the one request
    /// message, run the service, and frame its one response message. On top
    /// of the dispatch promises, an empty request stream is answered
    /// trailers-only with `Internal` and "Missing request message.".
    pub fn unary<S: UnaryService<T::Decode, T::Encode>, C: Compressor>(
        &self,
        service: &mut S,
        comp: &C,
        req: HttpRequest,
    ) -> (r: HttpResponse)
        ensures
            spec_dispatch_contract(self, req.headers@, &r),
            spec_single_request_contract(self, comp, req.headers@, req.body@, &r),
    {
        let accept_encoding = self.negotiate_accept_encoding(&req);
        let request = match self.map_request_unary(comp, req) {
            Ok(request) => request,
            Err(status) => {
                proof {
                    lemma_status_trailers_code(status);
                }
                return self.map_response(
                    comp,
                    Err(status),
                    accept_encoding,
                    SingleMessageCompressionOverride::Inherit,
                );
            },
        };
        let response = match service.call(request) {
            Ok(resp) => {
                let Response { message, metadata, compression_override } = resp;
                let mut one: Vec<T::Encode> = Vec::new();
                one.push(message);
                Ok(Response { message: one, metadata, compression_override })
            },
            Err(st) => Err(st),
        };
        let compression_override = compression_override_from_response(&response);
        self.map_response(comp, response, accept_encoding, compression_override)
    }

    /// Handle a server-streaming request: one request message in, a
    /// message sequence out. The single-message compression override never
    /// applies to a stream.
    pub fn server_streaming<S: ServerStreamingService<T::Decode, T::Encode>, C: Compressor>(
        &self,
        service: &mut S,
        comp: &C,
        req: HttpRequest,
    ) -> (r: HttpResponse)
        ensures
            spec_dispatch_contract(self, req.headers@, &r),
            spec_single_request_contract(self, comp, req.headers@, req.body@, &r),
    {
        let accept_encoding = self.negotiate_accept_encoding(&req);
        let request = match self.map_request_unary(comp, req) {
            Ok(request) => request,
            Err(status) => {
                proof {
                    lemma_status_trailers_code(status);
                }
                return self.map_response(
                    comp,
                    Err(status),
                    accept_encoding,
                    SingleMessageCompressionOverride::Inherit,
                );
            },
        };
        let response = service.call(request);
        self.map_response(comp, response, accept_encoding, SingleMessageCompressionOverride::Inherit)
    }

    /// Handle a client-streaming request: the whole request stream in, one
    /// response message out.
    pub fn client_streaming<S: ClientStreamingService<T::Decode, T::Encode>, C: Compressor>(
        &self,
        service: &mut S,
        comp: &C,
        req: HttpRequest,
    ) -> (r: HttpResponse)
        ensures
            spec_dispatch_contract(self, req.headers@, &r),
    {
        let accept_encoding = self.negotiate_accept_encoding(&req);
        let request = match self.map_request_streaming(comp, req) {
            Ok(request) => request,
            Err(status) => {
                proof {
                    lemma_status_trailers_code(status);
                }
                return self.map_response(
                    comp,
                    Err(status),
                    accept_encoding,
                    SingleMessageCompressionOverride::Inherit,
                );
            },
        };
        let response = match service.call(request) {
            Ok(resp) => {
                let Response { message, metadata, compression_override } = resp;
                let mut one: Vec<T::Encode> = Vec::new();
                one.push(message);
                Ok(Response { message: one, metadata, compression_override })
            },
            Err(st) => Err(st),
        };
        let compression_override = compression_override_from_response(&response);
        self.map_response(comp, response, accept_encoding, compression_override)
    }

    /// Handle a bidirectional request: message sequences both ways.
    pub fn streaming<S: StreamingService<T::Decode, T::Encode>, C: Compressor>(
        &self,
        service: &mut S,
        comp: &C,
        req: HttpRequest,
    ) -> (r: HttpResponse)
        ensures
            spec_dispatch_contract(self, req.headers@, &r),
    {
        let accept_encoding = self.negotiate_accept_encoding(&req);
        let request = match self.map_request_streaming(comp, req) {
            Ok(request) => request,
            Err(status) => {
                proof {
                    lemma_status_trailers_code(status);
                }
                return self.map_response(
                    comp,
                    Err(status),
                    accept_encoding,
                    SingleMessageCompressionOverride::Inherit,
                );
            },
        };
        let response = service.call(request);
        self.map_response(comp, response, accept_encoding, SingleMessageCompressionOverride::Inherit)
    }

    /// The response encoding negotiated from the client's
    /// `grpc-accept-encoding` header and the offered set.
    fn negotiate_accept_encoding(&self, req: &HttpRequest) -> (r: Option<CompressionEncoding>)
        ensures
            r == match crate::metadata::first_value_of(req.headers@, "grpc-accept-encoding"@) {
                Some(h) => spec_pick_accept(h, self.send_compression_encodings),
                None => None::<CompressionEncoding>,
            },
    {
        let header = req.headers.get("grpc-accept-encoding");
        let header_str = match header {
            Some(v) => Some(v.as_str()),
            None => None,
        };
        CompressionEncoding::from_accept_encoding_header(header_str, self.send_compression_encodings)
    }
}

/// The single-message compression override a response carries; an error
/// carries none.
pub fn compression_override_from_response<M, E>(res: &Result<Response<M>, E>) -> (r:
    SingleMessageCompressionOverride)
    ensures
        r == match res {
            Ok(resp) => resp.compression_override,
            Err(_) => SingleMessageCompressionOverride::Inherit,
        },
{
    match res {
        Ok(resp) => resp.compression_override,
        Err(_) => SingleMessageCompressionOverride::Inherit,
    }
}

} // verus!
