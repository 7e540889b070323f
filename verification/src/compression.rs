//! Compression encodings, the per-channel enabled set, and negotiation of the
//! `grpc-encoding` / `grpc-accept-encoding` headers.

use vstd::prelude::*;
use crate::metadata::str_eq_str;
use crate::status::{Code, Status};

verus! {

/// A supported non-identity compression algorithm. The absence of an
/// encoding (`Option::None` wherever one is negotiated) stands for identity.
#[derive(Clone, Copy, Debug, PartialEq, Eq, Structural)]
pub enum CompressionEncoding {
    Gzip,
    Zstd,
}

impl CompressionEncoding {
    /// The name of this encoding as it appears in headers.
    pub open spec fn spec_name(self) -> Seq<char> {
        match self {
            CompressionEncoding::Gzip => "gzip"@,
            CompressionEncoding::Zstd => "zstd"@,
        }
    }

    /// The name of this encoding as it appears in headers.
    pub fn name(self) -> (r: &'static str)
        ensures
            r@ == self.spec_name(),
    {
        match self {
            CompressionEncoding::Gzip => "gzip",
            CompressionEncoding::Zstd => "zstd",
        }
    }
}

/// The set of compression encodings enabled on one direction of a channel:
/// an immutable bitset with one bit per supported algorithm.
#[derive(Clone, Copy, Debug, PartialEq, Eq, Structural)]
pub struct EnabledCompressionEncodings {
    pub gzip: bool,
    pub zstd: bool,
}

impl EnabledCompressionEncodings {
    /// Whether `encoding` is a member of this set.
    pub open spec fn spec_is_enabled(self, encoding: CompressionEncoding) -> bool {
        match encoding {
            CompressionEncoding::Gzip => self.gzip,
            CompressionEncoding::Zstd => self.zstd,
        }
    }

    /// Whether `encoding` is a member of this set.
    pub fn is_enabled(&self, encoding: CompressionEncoding) -> (r: bool)
        ensures
            r == self.spec_is_enabled(encoding),
    {
        match encoding {
            CompressionEncoding::Gzip => self.gzip,
            CompressionEncoding::Zstd => self.zstd,
        }
    }

    /// Add `encoding` to the set; other members are kept.
    pub fn enable(&mut self, encoding: CompressionEncoding)
        ensures
            final(self).spec_is_enabled(encoding),
            forall|e: CompressionEncoding|
                e != encoding ==> final(self).spec_is_enabled(e) == old(self).spec_is_enabled(e),
    {
        match encoding {
            CompressionEncoding::Gzip => {
                self.gzip = true;
            },
            CompressionEncoding::Zstd => {
                self.zstd = true;
            },
        }
    }

    /// The union of two enabled sets.
    pub open spec fn spec_union(self, other: Self) -> Self {
        EnabledCompressionEncodings {
            gzip: self.gzip || other.gzip,
            zstd: self.zstd || other.zstd,
        }
    }
}

impl Default for EnabledCompressionEncodings {
    /// The default enabled set is empty: only identity.
    fn default() -> (r: Self)
        ensures
            !r.gzip,
            !r.zstd,
    {
        EnabledCompressionEncodings { gzip: false, zstd: false }
    }
}

/// Index of the first comma in `s`, or `s.len()` when `s` holds none.
pub open spec fn first_comma_index(s: Seq<char>) -> int
    decreases s.len(),
{
    if s.len() == 0 {
        0
    } else if s[0] == ',' {
        0
    } else {
        1 + first_comma_index(s.drop_first())
    }
}

pub proof fn lemma_first_comma_index_bounds(s: Seq<char>)
    ensures
        0 <= first_comma_index(s) <= s.len(),
    decreases s.len(),
{
    if s.len() > 0 && s[0] != ',' {
        lemma_first_comma_index_bounds(s.drop_first());
    }
}

/// `s` with leading spaces removed.
pub open spec fn spec_trim_left(s: Seq<char>) -> Seq<char>
    decreases s.len(),
{
    if s.len() > 0 && s[0] == ' ' {
        spec_trim_left(s.drop_first())
    } else {
        s
    }
}

/// `s` with trailing spaces removed.
pub open spec fn spec_trim_right(s: Seq<char>) -> Seq<char>
    decreases s.len(),
{
    if s.len() > 0 && s[s.len() - 1] == ' ' {
        spec_trim_right(s.drop_last())
    } else {
        s
    }
}

/// `s` with leading and trailing spaces removed.
pub open spec fn spec_trim(s: Seq<char>) -> Seq<char> {
    spec_trim_right(spec_trim_left(s))
}

/// The encoding a single accept-encoding token names, if it names one.
pub open spec fn spec_token_encoding(tok: Seq<char>) -> Option<CompressionEncoding> {
    if tok == "gzip"@ {
        Some(CompressionEncoding::Gzip)
    } else if tok == "zstd"@ {
        Some(CompressionEncoding::Zstd)
    } else {
        None
    }
}

/// The first encoding named in the comma-separated list `s` (tokens trimmed
/// of spaces) that is a member of `enabled`, or `None` when the list names
/// none: the accept-encoding negotiation outcome.
pub open spec fn spec_pick_accept(s: Seq<char>, enabled: EnabledCompressionEncodings) -> Option<
    CompressionEncoding,
>
    decreases s.len(),
{
    if s.len() == 0 {
        None
    } else {
        let i = first_comma_index(s);
        let tok = spec_trim(s.subrange(0, i));
        let picked = spec_token_encoding(tok);
        if picked is Some && enabled.spec_is_enabled(picked->0) {
            picked
        } else if 0 <= i < s.len() {
            spec_pick_accept(s.subrange(i + 1, s.len() as int), enabled)
        } else {
            None
        }
    }
}

/// Index of the first comma in `s`, or its length when it holds none.
fn find_comma(s: &str) -> (i: usize)
    ensures
        i == first_comma_index(s@),
    decreases s@.len(),
{
    let n = s.unicode_len();
    if n == 0 {
        0
    } else if s.get_char(0) == ',' {
        0
    } else {
        let rest = s.substring_char(1, n);
        proof {
            assert(rest@ =~= s@.drop_first());
            lemma_first_comma_index_bounds(s@.drop_first());
        }
        1 + find_comma(rest)
    }
}

/// `s` with leading and trailing spaces removed.
fn trim_str<'a>(s: &'a str) -> (r: &'a str)
    ensures
        r@ == spec_trim(s@),
{
    let t = trim_left_str(s);
    trim_right_str(t)
}

fn trim_left_str<'a>(s: &'a str) -> (r: &'a str)
    ensures
        r@ == spec_trim_left(s@),
    decreases s@.len(),
{
    let n = s.unicode_len();
    if n > 0 && s.get_char(0) == ' ' {
        let rest = s.substring_char(1, n);
        proof {
            assert(rest@ =~= s@.drop_first());
        }
        trim_left_str(rest)
    } else {
        s
    }
}

fn trim_right_str<'a>(s: &'a str) -> (r: &'a str)
    ensures
        r@ == spec_trim_right(s@),
    decreases s@.len(),
{
    let n = s.unicode_len();
    if n > 0 && s.get_char(n - 1) == ' ' {
        let rest = s.substring_char(0, n - 1);
        proof {
            assert(rest@ =~= s@.drop_last());
        }
        trim_right_str(rest)
    } else {
        s
    }
}

/// The encoding a single trimmed token names, if any.
fn token_encoding(tok: &str) -> (r: Option<CompressionEncoding>)
    ensures
        r == spec_token_encoding(tok@),
{
    if str_eq_str(tok, "gzip") {
        Some(CompressionEncoding::Gzip)
    } else if str_eq_str(tok, "zstd") {
        Some(CompressionEncoding::Zstd)
    } else {
        None
    }
}

impl CompressionEncoding {
    /// Negotiate the response encoding from a `grpc-accept-encoding` header
    /// value: the first encoding the client lists that the server's offered
    /// set also holds, or identity (`None`) when there is no such encoding
    /// or the header is absent.
    pub fn from_accept_encoding_header(
        header: Option<&str>,
        enabled: EnabledCompressionEncodings,
    ) -> (r: Option<CompressionEncoding>)
        ensures
            r == match header {
                Some(h) => spec_pick_accept(h@, enabled),
                None => None::<CompressionEncoding>,
            },
    {
        match header {
            None => None,
            Some(h) => pick_accept(h, enabled),
        }
    }
}

fn pick_accept(s: &str, enabled: EnabledCompressionEncodings) -> (r: Option<CompressionEncoding>)
    ensures
        r == spec_pick_accept(s@, enabled),
    decreases s@.len(),
{
    let n = s.unicode_len();
    if n == 0 {
        return None;
    }
    let i = find_comma(s);
    proof {
        lemma_first_comma_index_bounds(s@);
    }
    let head = s.substring_char(0, i);
    let tok = trim_str(head);
    let picked = token_encoding(tok);
    match picked {
        Some(e) => {
            if enabled.is_enabled(e) {
                return Some(e);
            }
        },
        None => {},
    }
    if i == n {
        None
    } else {
        let rest = s.substring_char(i + 1, n);
        pick_accept(rest, enabled)
    }
}

/// The comma-separated rendering of the encodings a server accepts,
/// identity always included last.
pub open spec fn spec_accept_list(enabled: EnabledCompressionEncodings) -> Seq<char> {
    if enabled.gzip && enabled.zstd {
        "gzip,zstd,identity"@
    } else if enabled.gzip {
        "gzip,identity"@
    } else if enabled.zstd {
        "zstd,identity"@
    } else {
        "identity"@
    }
}

/// The comma-separated rendering of the encodings a server accepts.
pub fn accept_list(enabled: EnabledCompressionEncodings) -> (r: &'static str)
    ensures
        r@ == spec_accept_list(enabled),
{
    if enabled.gzip && enabled.zstd {
        "gzip,zstd,identity"
    } else if enabled.gzip {
        "gzip,identity"
    } else if enabled.zstd {
        "zstd,identity"
    } else {
        "identity"
    }
}

/// The message reported with `Unimplemented` when a request arrives with an
/// encoding the server does not accept: it lists the accepted set.
pub open spec fn spec_unsupported_encoding_message(
    enabled: EnabledCompressionEncodings,
) -> Seq<char> {
    "Content is compressed with an encoding the server does not support; accept-encoding: "@
        + spec_accept_list(enabled)
}

/// The outcome of reading the request's `grpc-encoding` header against the
/// accepted set: `Ok(None)` for absent or identity, `Ok(Some(e))` for an
/// accepted encoding, `Err(())` for an encoding the server does not accept.
pub open spec fn spec_request_encoding(
    header: Option<Seq<char>>,
    enabled: EnabledCompressionEncodings,
) -> Result<Option<CompressionEncoding>, ()> {
    match header {
        None => Ok(None),
        Some(h) => {
            if h == "identity"@ {
                Ok(None)
            } else if h == "gzip"@ {
                if enabled.gzip {
                    Ok(Some(CompressionEncoding::Gzip))
                } else {
                    Err(())
                }
            } else if h == "zstd"@ {
                if enabled.zstd {
                    Ok(Some(CompressionEncoding::Zstd))
                } else {
                    Err(())
                }
            } else {
                Err(())
            }
        },
    }
}

/// The `Unimplemented` status reported for a request encoding the server
/// does not accept.
pub fn unsupported_encoding_status(enabled: EnabledCompressionEncodings) -> (r: Status)
    ensures
        r.code == Code::Unimplemented,
        r.message@ == spec_unsupported_encoding_message(enabled),
        r.details@.len() == 0,
{
    let mut message = String::from_str(
        "Content is compressed with an encoding the server does not support; accept-encoding: ",
    );
    message.append(accept_list(enabled));
    Status::new(Code::Unimplemented, message)
}

impl CompressionEncoding {
    /// Read the request's `grpc-encoding` header against the accepted set.
    /// An absent header or `identity` means no decompression; an accepted
    /// encoding is returned; anything else fails with `Unimplemented` and a
    /// message listing the accepted set.
    pub fn from_encoding_header(
        header: Option<&str>,
        enabled: EnabledCompressionEncodings,
    ) -> (r: Result<Option<CompressionEncoding>, Status>)
        ensures
            match r {
                Ok(e) => Ok::<_, ()>(e) == spec_request_encoding(
                    match header {
                        Some(h) => Some(h@),
                        None => None,
                    },
                    enabled,
                ),
                Err(st) => spec_request_encoding(
                    match header {
                        Some(h) => Some(h@),
                        None => None,
                    },
                    enabled,
                ) == Err::<Option<CompressionEncoding>, ()>(())
                    && st.code == Code::Unimplemented
                    && st.message@ == spec_unsupported_encoding_message(enabled)
                    && st.details@.len() == 0,
            },
    {
        let h = match header {
            None => {
                return Ok(None);
            },
            Some(h) => h,
        };
        if str_eq_str(h, "identity") {
            Ok(None)
        } else if str_eq_str(h, "gzip") {
            if enabled.gzip {
                Ok(Some(CompressionEncoding::Gzip))
            } else {
                Err(unsupported_encoding_status(enabled))
            }
        } else if str_eq_str(h, "zstd") {
            if enabled.zstd {
                Ok(Some(CompressionEncoding::Zstd))
            } else {
                Err(unsupported_encoding_status(enabled))
            }
        } else {
            Err(unsupported_encoding_status(enabled))
        }
    }
}

/// Marker carried in a response's extensions: a single-message response may
/// ask that its one frame not be compressed even when a compressed response
/// encoding was negotiated.
#[derive(Clone, Copy, Debug, PartialEq, Eq, Structural)]
pub enum SingleMessageCompressionOverride {
    /// Compress the single message as negotiation decided.
    Inherit,
    /// Leave the single message uncompressed.
    Disable,
}

impl Default for SingleMessageCompressionOverride {
    fn default() -> (r: Self)
        ensures
            r == SingleMessageCompressionOverride::Inherit,
    {
        SingleMessageCompressionOverride::Inherit
    }
}

/// The per-encoding compression plug-in interface: a compress / decompress
/// pair. Implementations (gzip, zstd) live outside this crate; the framing
/// layer is verified against this contract, and decompression must invert
/// compression.
pub trait Compressor {
    /// The bytes that compressing `b` yields.
    spec fn spec_compress(&self, b: Seq<u8>) -> Seq<u8>;

    /// The bytes that decompressing `b` yields, or `None` when `b` is
    /// malformed for this algorithm.
    spec fn spec_decompress(&self, b: Seq<u8>) -> Option<Seq<u8>>;

    /// Decompression inverts compression.
    proof fn lemma_round_trip(&self, b: Seq<u8>)
        ensures
            self.spec_decompress(self.spec_compress(b)) == Some(b),
    ;

    fn compress(&self, b: &Vec<u8>) -> (r: Vec<u8>)
        ensures
            r@ == self.spec_compress(b@),
    ;

    /// Decompress `b`, refusing a result larger than `max_len` with
    /// `ResourceExhausted`, and malformed input with `Internal`. Failures
    /// carry no structured error details.
    fn decompress(&self, b: &Vec<u8>, max_len: usize) -> (r: Result<Vec<u8>, Status>)
        ensures
            match r {
                Ok(out) => self.spec_decompress(b@) == Some(out@) && out@.len() <= max_len,
                Err(st) => st.details@.len() == 0 && match self.spec_decompress(b@) {
                    Some(m) => m.len() > max_len && st.code == Code::ResourceExhausted,
                    None => st.code == Code::Internal,
                },
            },
    ;
}

/// The identity transform, seen through the compression plug-in interface:
/// what rides a frame whose negotiated encoding is identity.
pub struct IdentityCompressor {}

impl Compressor for IdentityCompressor {
    open spec fn spec_compress(&self, b: Seq<u8>) -> Seq<u8> {
        b
    }

    open spec fn spec_decompress(&self, b: Seq<u8>) -> Option<Seq<u8>> {
        Some(b)
    }

    proof fn lemma_round_trip(&self, b: Seq<u8>) {
    }

    fn compress(&self, b: &Vec<u8>) -> (r: Vec<u8>) {
        copy_bytes(b)
    }

    fn decompress(&self, b: &Vec<u8>, max_len: usize) -> (r: Result<Vec<u8>, Status>) {
        if b.len() <= max_len {
            Ok(copy_bytes(b))
        } else {
            Err(Status::new(Code::ResourceExhausted, String::from_str("message too large")))
        }
    }
}

/// A fresh vector holding the same bytes.
pub fn copy_bytes(b: &Vec<u8>) -> (r: Vec<u8>)
    ensures
        r@ == b@,
{
    let n = b.len();
    let mut out: Vec<u8> = Vec::new();
    let mut i: usize = 0;
    while i < n
        invariant
            i <= n,
            n == b@.len(),
            out@ == b@.subrange(0, i as int),
        decreases n - i,
    {
        out.push(b[i]);
        proof {
            assert(out@ =~= b@.subrange(0, i as int + 1));
        }
        i = i + 1;
    }
    proof {
        assert(b@.subrange(0, n as int) =~= b@);
    }
    out
}

} // verus!
