//! The gRPC length-prefixed frame: one byte compressed flag, four bytes of
//! big-endian message length, then the payload. The encoder and decoder here
//! carry whole message sequences across the wire, apply the compression
//! plug-in per frame, and enforce the per-direction size limits.

use vstd::prelude::*;
use crate::compression::Compressor;
use crate::status::{Code, Status};

verus! {

/// Largest length the four-byte prefix can carry.
pub const MAX_FRAME_LEN: usize = 0xffff_ffff;

/// The four big-endian bytes of `n`.
pub open spec fn spec_be32(n: u32) -> Seq<u8> {
    seq![(n >> 24) as u8, (n >> 16) as u8, (n >> 8) as u8, n as u8]
}

/// The value four big-endian bytes carry.
pub open spec fn spec_be32_val(b: Seq<u8>) -> u32
    recommends
        b.len() == 4,
{
    ((b[0] as u32) << 24) | ((b[1] as u32) << 16) | ((b[2] as u32) << 8) | (b[3] as u32)
}

/// The four-byte big-endian prefix is read back as the value it was written
/// from.
pub proof fn lemma_be32_round_trip(n: u32)
    ensures
        spec_be32_val(spec_be32(n)) == n,
{
    let b0 = (n >> 24) as u8;
    let b1 = (n >> 16) as u8;
    let b2 = (n >> 8) as u8;
    let b3 = n as u8;
    assert((((n >> 24) as u8 as u32) << 24) | (((n >> 16) as u8 as u32) << 16) | (((n
        >> 8) as u8 as u32) << 8) | (n as u8 as u32) == n) by (bit_vector);
    assert(spec_be32(n)[0] == b0);
    assert(spec_be32(n)[1] == b1);
    assert(spec_be32(n)[2] == b2);
    assert(spec_be32(n)[3] == b3);
}

/// One frame on the wire: flag byte, length prefix, payload.
pub open spec fn spec_frame(body: Seq<u8>, compressed: bool) -> Seq<u8>
    recommends
        body.len() <= MAX_FRAME_LEN,
{
    seq![if compressed { 1u8 } else { 0u8 }] + spec_be32(body.len() as u32) + body
}

/// The bytes that framing the messages of `payloads` yields. A failure
/// carries the bytes framed before it together with its code: the stream
/// fails *at* the offending message, with the earlier frames emitted
/// intact and none of the offender's bytes. A message longer than `limit`
/// fails with `ResourceExhausted` before any of its bytes are framed; a
/// frame body the four-byte prefix cannot carry fails with `Internal`.
/// When `compress` holds, each body is the compressed payload and its flag
/// byte is one.
pub open spec fn spec_encode_frames<C: Compressor>(
    c: &C,
    payloads: Seq<Seq<u8>>,
    compress: bool,
    limit: nat,
) -> Result<Seq<u8>, (Seq<u8>, Code, Seq<char>)>
    decreases payloads.len(),
{
    if payloads.len() == 0 {
        Ok(Seq::empty())
    } else {
        let p = payloads[0];
        if p.len() > limit {
            Err((Seq::empty(), Code::ResourceExhausted, "Error, message length too large"@))
        } else {
            let body = if compress {
                c.spec_compress(p)
            } else {
                p
            };
            if body.len() > MAX_FRAME_LEN {
                Err((Seq::empty(), Code::Internal, "frame body does not fit the length prefix"@))
            } else {
                match spec_encode_frames(c, payloads.drop_first(), compress, limit) {
                    Ok(rest) => Ok(spec_frame(body, compress) + rest),
                    Err(pre) => Err((spec_frame(body, compress) + pre.0, pre.1, pre.2)),
                }
            }
        }
    }
}

/// The messages that the wire bytes of `wire` carry. A failure carries the
/// messages decoded before it together with its code: the stream fails *at*
/// the offending frame, the earlier messages intact. A flag byte other than
/// zero or one, a truncated header or body, a compressed frame when no
/// encoding was accepted, and a body the plug-in cannot decompress are
/// protocol errors (`Internal`); a declared or decompressed length over
/// `limit` is `ResourceExhausted`, found before the body is buffered.
pub open spec fn spec_decode_frames<C: Compressor>(
    c: &C,
    wire: Seq<u8>,
    has_encoding: bool,
    limit: nat,
) -> Result<Seq<Seq<u8>>, (Seq<Seq<u8>>, Code, Seq<char>)>
    decreases wire.len(),
{
    if wire.len() == 0 {
        Ok(Seq::empty())
    } else if wire.len() < 5 {
        Err((Seq::empty(), Code::Internal, "truncated frame header"@))
    } else {
        let flag = wire[0];
        let len = spec_be32_val(wire.subrange(1, 5)) as nat;
        if flag != 0 && flag != 1 {
            Err((Seq::empty(), Code::Internal, "invalid compression flag"@))
        } else if flag == 1 && !has_encoding {
            Err(
                (
                    Seq::empty(),
                    Code::Internal,
                    "compressed frame without a negotiated encoding"@,
                ),
            )
        } else if len > limit {
            Err((Seq::empty(), Code::ResourceExhausted, "Error, message length too large"@))
        } else if wire.len() < 5 + len {
            Err((Seq::empty(), Code::Internal, "truncated frame body"@))
        } else {
            let body = wire.subrange(5, 5 + len as int);
            let message = if flag == 1 {
                c.spec_decompress(body)
            } else {
                Some(body)
            };
            match message {
                None => Err((Seq::empty(), Code::Internal, "invalid compressed frame body"@)),
                Some(m) => if m.len() > limit {
                    Err(
                        (
                            Seq::empty(),
                            Code::ResourceExhausted,
                            "Error, message length too large"@,
                        ),
                    )
                } else {
                    match spec_decode_frames(
                        c,
                        wire.subrange(5 + len as int, wire.len() as int),
                        has_encoding,
                        limit,
                    ) {
                        Ok(rest) => Ok(seq![m] + rest),
                        Err(pre) => Err((seq![m] + pre.0, pre.1, pre.2)),
                    }
                },
            }
        }
    }
}

/// Append one frame to `out`.
fn append_frame(out: &mut Vec<u8>, body: &Vec<u8>, compressed: bool)
    requires
        body@.len() <= MAX_FRAME_LEN,
    ensures
        final(out)@ == old(out)@ + spec_frame(body@, compressed),
{
    let flag: u8 = if compressed {
        1
    } else {
        0
    };
    out.push(flag);
    let n = body.len() as u32;
    out.push((n >> 24) as u8);
    out.push((n >> 16) as u8);
    out.push((n >> 8) as u8);
    out.push(n as u8);
    let m = body.len();
    let ghost mid = out@;
    let mut i: usize = 0;
    while i < m
        invariant
            i <= m,
            m == body@.len(),
            out@ == mid + body@.subrange(0, i as int),
        decreases m - i,
    {
        out.push(body[i]);
        proof {
            assert(out@ =~= mid + body@.subrange(0, i as int + 1));
        }
        i = i + 1;
    }
    proof {
        assert(mid + body@.subrange(0, m as int) =~= mid + body@);
        assert(mid =~= old(out)@ + seq![if compressed { 1u8 } else { 0u8 }] + spec_be32(
            body@.len() as u32,
        ));
        assert(out@ =~= old(out)@ + spec_frame(body@, compressed));
    }
}

/// Frame the messages of `payloads` for the wire: the encoder half of the
/// framed message stream, on fully-gathered sequences. `compress` holds when
/// the negotiated response encoding is non-identity and the single-message
/// override does not disable it. The bytes returned are the frames emitted
/// up to the first failure, if one occurred: the failing message
/// contributes no bytes at all.
pub fn encode_frames<C: Compressor>(
    c: &C,
    payloads: &Vec<Vec<u8>>,
    compress: bool,
    limit: usize,
) -> (r: (Vec<u8>, Option<Status>))
    ensures
        match spec_encode_frames(c, views_of(payloads@), compress, limit as nat) {
            Ok(wire) => r.1 is None && r.0@ == wire,
            Err(pre) => r.1 matches Some(st) && st.code == pre.1 && st.message@ == pre.2
                && st.details@.len() == 0 && r.0@ == pre.0,
        },
{
    let ghost views = views_of(payloads@);
    let n = payloads.len();
    let mut out: Vec<u8> = Vec::new();
    let mut i: usize = 0;
    proof {
        assert(views.skip(0) =~= views);
    }
    while i < n
        invariant
            i <= n,
            n == payloads@.len(),
            views == views_of(payloads@),
            views.len() == n,
            forall|j: int| 0 <= j < n ==> views[j] == payloads@[j]@,
            spec_encode_frames(c, views, compress, limit as nat) == match spec_encode_frames(
                c,
                views.skip(i as int),
                compress,
                limit as nat,
            ) {
                Ok(rest) => Ok::<_, (Seq<u8>, Code, Seq<char>)>(out@ + rest),
                Err(pre) => Err::<Seq<u8>, _>((out@ + pre.0, pre.1, pre.2)),
            },
        decreases n - i,
    {
        proof {
            assert(views.skip(i as int)[0] == views[i as int]);
            assert(views.skip(i as int).drop_first() =~= views.skip(i as int + 1));
        }
        let p = &payloads[i];
        if p.len() > limit {
            proof {
                assert(out@ + Seq::<u8>::empty() =~= out@);
            }
            return (
                out,
                Some(
                    Status::new(
                        Code::ResourceExhausted,
                        String::from_str("Error, message length too large"),
                    ),
                ),
            );
        }
        let ghost prev_out = out@;
        if !compress {
            if p.len() > MAX_FRAME_LEN {
                proof {
                    assert(out@ + Seq::<u8>::empty() =~= out@);
                }
                return (
                    out,
                    Some(
                        Status::new(
                            Code::Internal,
                            String::from_str("frame body does not fit the length prefix"),
                        ),
                    ),
                );
            }
            append_frame(&mut out, p, false);
        } else {
            let body = c.compress(p);
            if body.len() > MAX_FRAME_LEN {
                proof {
                    assert(out@ + Seq::<u8>::empty() =~= out@);
                }
                return (
                    out,
                    Some(
                        Status::new(
                            Code::Internal,
                            String::from_str("frame body does not fit the length prefix"),
                        ),
                    ),
                );
            }
            append_frame(&mut out, &body, true);
        }
        proof {
            let bodyv = if compress {
                c.spec_compress(views[i as int])
            } else {
                views[i as int]
            };
            assert(out@ == prev_out + spec_frame(bodyv, compress));
            match spec_encode_frames(c, views.skip(i as int + 1), compress, limit as nat) {
                Ok(rest) => {
                    assert(prev_out + (spec_frame(bodyv, compress) + rest) =~= out@ + rest);
                },
                Err(pre) => {
                    assert(prev_out + (spec_frame(bodyv, compress) + pre.0) =~= out@ + pre.0);
                },
            }
        }
        i = i + 1;
    }
    proof {
        assert(views.skip(n as int) =~= Seq::<Seq<u8>>::empty());
        assert(out@ + Seq::<u8>::empty() =~= out@);
    }
    (out, None)
}

/// The byte sequences a vector of byte vectors holds.
pub open spec fn views_of(payloads: Seq<Vec<u8>>) -> Seq<Seq<u8>> {
    payloads.map_values(|v: Vec<u8>| v@)
}

/// Unframe the wire bytes of `wire`: the decoder half of the framed message
/// stream, on a fully-gathered body. `has_encoding` holds when a request
/// compression encoding was accepted for this direction. The messages
/// returned are those decoded before the first failure, if one occurred:
/// the stream fails at the offending frame, the earlier messages intact.
pub fn decode_frames<C: Compressor>(
    c: &C,
    wire: &Vec<u8>,
    has_encoding: bool,
    limit: usize,
) -> (r: (Vec<Vec<u8>>, Option<Status>))
    ensures
        match spec_decode_frames(c, wire@, has_encoding, limit as nat) {
            Ok(messages) => r.1 is None && views_of(r.0@) == messages,
            Err(pre) => r.1 matches Some(st) && st.code == pre.1 && st.message@ == pre.2
                && st.details@.len() == 0 && views_of(r.0@) == pre.0,
        },
{
    let n = wire.len();
    let mut out: Vec<Vec<u8>> = Vec::new();
    let mut pos: usize = 0;
    proof {
        assert(wire@.skip(0) =~= wire@);
        assert(views_of(out@) =~= Seq::<Seq<u8>>::empty());
    }
    while pos < n
        invariant
            pos <= n,
            n == wire@.len(),
            spec_decode_frames(c, wire@, has_encoding, limit as nat) == match spec_decode_frames(
                c,
                wire@.skip(pos as int),
                has_encoding,
                limit as nat,
            ) {
                Ok(rest) => Ok::<_, (Seq<Seq<u8>>, Code, Seq<char>)>(views_of(out@) + rest),
                Err(pre) => Err::<Seq<Seq<u8>>, _>((views_of(out@) + pre.0, pre.1, pre.2)),
            },
        decreases n - pos,
    {
        let ghost suffix = wire@.skip(pos as int);
        let remaining = n - pos;
        if remaining < 5 {
            proof {
                assert(views_of(out@) + Seq::<Seq<u8>>::empty() =~= views_of(out@));
            }
            return (
                out,
                Some(Status::new(Code::Internal, String::from_str("truncated frame header"))),
            );
        }
        let flag = wire[pos];
        let len32 = ((wire[pos + 1] as u32) << 24) | ((wire[pos + 2] as u32) << 16) | ((wire[pos
            + 3] as u32) << 8) | (wire[pos + 4] as u32);
        proof {
            assert(suffix[0] == wire@[pos as int]);
            assert(suffix.subrange(1, 5) =~= wire@.subrange(pos as int + 1, pos as int + 5));
            assert(spec_be32_val(suffix.subrange(1, 5)) == len32);
        }
        if flag != 0 && flag != 1 {
            proof {
                assert(views_of(out@) + Seq::<Seq<u8>>::empty() =~= views_of(out@));
            }
            return (
                out,
                Some(Status::new(Code::Internal, String::from_str("invalid compression flag"))),
            );
        }
        if flag == 1 && !has_encoding {
            proof {
                assert(views_of(out@) + Seq::<Seq<u8>>::empty() =~= views_of(out@));
            }
            return (
                out,
                Some(
                    Status::new(
                        Code::Internal,
                        String::from_str("compressed frame without a negotiated encoding"),
                    ),
                ),
            );
        }
        let len = len32 as usize;
        if len > limit {
            proof {
                assert(views_of(out@) + Seq::<Seq<u8>>::empty() =~= views_of(out@));
            }
            return (
                out,
                Some(
                    Status::new(
                        Code::ResourceExhausted,
                        String::from_str("Error, message length too large"),
                    ),
                ),
            );
        }
        if remaining - 5 < len {
            proof {
                assert(views_of(out@) + Seq::<Seq<u8>>::empty() =~= views_of(out@));
            }
            return (
                out,
                Some(Status::new(Code::Internal, String::from_str("truncated frame body"))),
            );
        }
        let mut body: Vec<u8> = Vec::new();
        let mut j: usize = 0;
        while j < len
            invariant
                j <= len,
                pos + 5 + len <= n,
                n == wire@.len(),
                body@ == wire@.subrange(pos as int + 5, pos as int + 5 + j as int),
            decreases len - j,
        {
            body.push(wire[pos + 5 + j]);
            proof {
                assert(body@ =~= wire@.subrange(pos as int + 5, pos as int + 5 + j as int + 1));
            }
            j = j + 1;
        }
        proof {
            assert(body@ =~= suffix.subrange(5, 5 + len as int));
        }
        let message = if flag == 1 {
            match c.decompress(&body, limit) {
                Ok(m) => m,
                Err(st) => {
                    proof {
                        assert(views_of(out@) + Seq::<Seq<u8>>::empty() =~= views_of(out@));
                    }
                    let failure = if matches!(st.code, Code::ResourceExhausted) {
                        Status::new(
                            Code::ResourceExhausted,
                            String::from_str("Error, message length too large"),
                        )
                    } else {
                        Status::new(
                            Code::Internal,
                            String::from_str("invalid compressed frame body"),
                        )
                    };
                    return (out, Some(failure));
                },
            }
        } else {
            body
        };
        let ghost msg_view = message@;
        let ghost prev_views = views_of(out@);
        out.push(message);
        proof {
            assert(views_of(out@) =~= prev_views + seq![msg_view]);
            assert(suffix.subrange(5 + len as int, suffix.len() as int) =~= wire@.skip(
                pos as int + 5 + len as int,
            ));
            match spec_decode_frames(
                c,
                wire@.skip(pos as int + 5 + len as int),
                has_encoding,
                limit as nat,
            ) {
                Ok(rest) => {
                    assert(prev_views + (seq![msg_view] + rest) =~= views_of(out@) + rest);
                },
                Err(pre) => {
                    assert(prev_views + (seq![msg_view] + pre.0) =~= views_of(out@) + pre.0);
                },
            }
        }
        pos = pos + 5 + len;
    }
    proof {
        assert(wire@.skip(n as int) =~= Seq::<u8>::empty());
        assert(views_of(out@) + Seq::<Seq<u8>>::empty() =~= views_of(out@));
    }
    (out, None)
}

/// Decoding one well-formed frame at the head of the wire yields its
/// message and continues with the rest of the wire.
#[verifier::rlimit(100)]
proof fn lemma_decode_one_frame<C: Compressor>(
    c: &C,
    body: Seq<u8>,
    compressed: bool,
    has_encoding: bool,
    limit: nat,
    rest_wire: Seq<u8>,
    m: Seq<u8>,
)
    requires
        compressed ==> has_encoding,
        body.len() <= limit,
        body.len() <= MAX_FRAME_LEN,
        if compressed {
            c.spec_decompress(body) == Some(m)
        } else {
            m == body
        },
        m.len() <= limit,
    ensures
        spec_decode_frames(c, spec_frame(body, compressed) + rest_wire, has_encoding, limit)
            == match spec_decode_frames(c, rest_wire, has_encoding, limit) {
            Ok(rest) => Ok::<_, (Seq<Seq<u8>>, Code, Seq<char>)>(seq![m] + rest),
            Err(pre) => Err::<Seq<Seq<u8>>, _>((seq![m] + pre.0, pre.1, pre.2)),
        },
{
    let frame = spec_frame(body, compressed);
    let wire = frame + rest_wire;
    let flag_byte: u8 = if compressed {
        1u8
    } else {
        0u8
    };
    lemma_be32_round_trip(body.len() as u32);
    assert(wire.len() == 5 + body.len() + rest_wire.len());
    assert(wire[0] == flag_byte);
    assert(wire.subrange(1, 5) =~= spec_be32(body.len() as u32));
    let len = spec_be32_val(wire.subrange(1, 5)) as nat;
    assert(len == body.len());
    assert(wire.subrange(5, 5 + len as int) =~= body);
    assert(wire.subrange(5 + len as int, wire.len() as int) =~= rest_wire);
}

/// Framing round trip: the frames that encoding a message sequence yields
/// decode back to the same sequence, whenever every message and (when a
/// non-identity encoding is applied) every compressed body is within the
/// size limit and the four-byte length prefix. With `compress` false this is
/// the identity-encoding round trip; with `compress` true it holds for any
/// compression plug-in, since decompression inverts compression.
#[verifier::rlimit(100)]
pub proof fn lemma_frame_round_trip<C: Compressor>(
    c: &C,
    payloads: Seq<Seq<u8>>,
    compress: bool,
    has_encoding: bool,
    limit: nat,
)
    requires
        compress ==> has_encoding,
        forall|i: int|
            0 <= i < payloads.len() ==> (#[trigger] payloads[i]).len() <= limit && payloads[i].len()
                <= MAX_FRAME_LEN,
        compress ==> forall|i: int|
            0 <= i < payloads.len() ==> c.spec_compress(#[trigger] payloads[i]).len() <= limit
                && c.spec_compress(payloads[i]).len() <= MAX_FRAME_LEN,
    ensures
        spec_encode_frames(c, payloads, compress, limit) is Ok,
        spec_decode_frames(
            c,
            spec_encode_frames(c, payloads, compress, limit)->Ok_0,
            has_encoding,
            limit,
        ) == Ok::<_, (Seq<Seq<u8>>, Code, Seq<char>)>(payloads),
    decreases payloads.len(),
{
    if payloads.len() == 0 {
        assert(spec_encode_frames(c, payloads, compress, limit) == Ok::<_, (Seq<u8>, Code, Seq<char>)>(
            Seq::<u8>::empty(),
        ));
        assert(spec_decode_frames(c, Seq::<u8>::empty(), has_encoding, limit) == Ok::<
            _,
            (Seq<Seq<u8>>, Code, Seq<char>),
        >(Seq::<Seq<u8>>::empty()));
        assert(payloads =~= Seq::<Seq<u8>>::empty());
    } else {
        let p = payloads[0];
        let body = if compress {
            c.spec_compress(p)
        } else {
            p
        };
        let rest_payloads = payloads.drop_first();
        assert(forall|i: int|
            0 <= i < rest_payloads.len() ==> #[trigger] rest_payloads[i] == payloads[i + 1]);
        lemma_frame_round_trip(c, rest_payloads, compress, has_encoding, limit);
        let rest_wire = spec_encode_frames(c, rest_payloads, compress, limit)->Ok_0;
        let frame = spec_frame(body, compress);
        let wire = frame + rest_wire;
        assert(spec_encode_frames(c, payloads, compress, limit) == Ok::<
            _,
            (Seq<u8>, Code, Seq<char>),
        >(wire));
        if compress {
            c.lemma_round_trip(p);
            assert(c.spec_decompress(body) == Some(p));
        }
        lemma_decode_one_frame(c, body, compress, has_encoding, limit, rest_wire, p);
        assert(spec_decode_frames(c, wire, has_encoding, limit) == Ok::<
            _,
            (Seq<Seq<u8>>, Code, Seq<char>),
        >(seq![p] + rest_payloads));
        assert(seq![p] + rest_payloads =~= payloads);
    }
}

/// A framing failure on the encoding side always carries
/// `ResourceExhausted` or `Internal`, never a success code.
pub proof fn lemma_encode_frames_error_code<C: Compressor>(
    c: &C,
    payloads: Seq<Seq<u8>>,
    compress: bool,
    limit: nat,
)
    ensures
        spec_encode_frames(c, payloads, compress, limit) matches Err(pre) ==> (pre.1
            == Code::ResourceExhausted || pre.1 == Code::Internal),
    decreases payloads.len(),
{
    if payloads.len() > 0 {
        lemma_encode_frames_error_code(c, payloads.drop_first(), compress, limit);
    }
}

/// Size-limit refusal on the encoding side: when a message longer than the
/// limit follows messages within it, encoding fails with
/// `ResourceExhausted` at that message — the frames of the earlier messages
/// are emitted intact, and none of the offender's bytes are.
pub proof fn lemma_encode_size_limit_refusal<C: Compressor>(
    c: &C,
    good: Seq<Seq<u8>>,
    bad: Seq<u8>,
    rest: Seq<Seq<u8>>,
    compress: bool,
    limit: nat,
)
    requires
        bad.len() > limit,
        forall|i: int|
            0 <= i < good.len() ==> (#[trigger] good[i]).len() <= limit && good[i].len()
                <= MAX_FRAME_LEN,
        compress ==> forall|i: int|
            0 <= i < good.len() ==> c.spec_compress(#[trigger] good[i]).len() <= MAX_FRAME_LEN,
    ensures
        spec_encode_frames(c, good, compress, limit) is Ok,
        spec_encode_frames(c, good + seq![bad] + rest, compress, limit) == Err::<Seq<u8>, _>(
            (
                spec_encode_frames(c, good, compress, limit)->Ok_0,
                Code::ResourceExhausted,
                "Error, message length too large"@,
            ),
        ),
    decreases good.len(),
{
    let all = good + seq![bad] + rest;
    if good.len() == 0 {
        assert(all =~= seq![bad] + rest);
        assert(all[0] == bad);
        assert(spec_encode_frames(c, good, compress, limit)->Ok_0 =~= Seq::<u8>::empty());
    } else {
        let g = good[0];
        assert(all[0] == g);
        let good_rest = good.drop_first();
        assert(forall|j: int|
            0 <= j < good_rest.len() ==> #[trigger] good_rest[j] == good[j + 1]);
        lemma_encode_size_limit_refusal(c, good_rest, bad, rest, compress, limit);
        assert(all.drop_first() =~= good_rest + seq![bad] + rest);
        let body = if compress {
            c.spec_compress(g)
        } else {
            g
        };
        let pre_rest = spec_encode_frames(c, good_rest, compress, limit)->Ok_0;
        assert(spec_encode_frames(c, all, compress, limit) == Err::<Seq<u8>, _>(
            (
                spec_frame(body, compress) + pre_rest,
                Code::ResourceExhausted,
                "Error, message length too large"@,
            ),
        ));
        assert(spec_encode_frames(c, good, compress, limit)->Ok_0 == spec_frame(body, compress)
            + pre_rest);
    }
}

/// Size-limit refusal on the decoding side: a frame whose declared length
/// exceeds the limit fails the whole stream with `ResourceExhausted`,
/// whatever bytes follow — the body is never buffered.
pub proof fn lemma_decode_size_limit_refusal<C: Compressor>(
    c: &C,
    body: Seq<u8>,
    compressed: bool,
    has_encoding: bool,
    limit: nat,
    rest: Seq<u8>,
)
    requires
        body.len() > limit,
        body.len() <= MAX_FRAME_LEN,
        compressed ==> has_encoding,
    ensures
        spec_decode_frames(c, spec_frame(body, compressed) + rest, has_encoding, limit) == Err::<
            Seq<Seq<u8>>,
            _,
        >((Seq::<Seq<u8>>::empty(), Code::ResourceExhausted, "Error, message length too large"@)),
{
    let wire = spec_frame(body, compressed) + rest;
    lemma_be32_round_trip(body.len() as u32);
    assert(wire.len() >= 5);
    assert(wire[0] == if compressed { 1u8 } else { 0u8 });
    assert(wire.subrange(1, 5) =~= spec_be32(body.len() as u32));
    assert(spec_be32_val(wire.subrange(1, 5)) as nat == body.len());
}

} // verus!
