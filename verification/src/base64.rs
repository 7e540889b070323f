//! Base64 of a byte string, as the `grpc-status-details-bin` trailer
//! carries it: the standard alphabet, with `=` padding.

use vstd::prelude::*;
use crate::metadata::push_char;

verus! {

/// The standard base64 alphabet.
pub open spec fn spec_b64_alphabet() -> Seq<char> {
    "ABCDEFGHIJKLMNOPQRSTUVWXYZabcdefghijklmnopqrstuvwxyz0123456789+/"@
}

/// The alphabet character for a six-bit value.
pub open spec fn spec_b64_char(n: u8) -> char
    recommends
        n < 64,
{
    spec_b64_alphabet()[n as int]
}

/// The base64 rendering of `b`: four characters for each three bytes, the
/// last group padded with `=`.
pub open spec fn spec_base64(b: Seq<u8>) -> Seq<char>
    decreases b.len(),
{
    if b.len() == 0 {
        Seq::empty()
    } else if b.len() == 1 {
        let b0 = b[0];
        seq![
            spec_b64_char(b0 >> 2),
            spec_b64_char((b0 & 3) << 4),
            '=',
            '=',
        ]
    } else if b.len() == 2 {
        let b0 = b[0];
        let b1 = b[1];
        seq![
            spec_b64_char(b0 >> 2),
            spec_b64_char(((b0 & 3) << 4) | (b1 >> 4)),
            spec_b64_char((b1 & 15) << 2),
            '=',
        ]
    } else {
        let b0 = b[0];
        let b1 = b[1];
        let b2 = b[2];
        seq![
            spec_b64_char(b0 >> 2),
            spec_b64_char(((b0 & 3) << 4) | (b1 >> 4)),
            spec_b64_char(((b1 & 15) << 2) | (b2 >> 6)),
            spec_b64_char(b2 & 63),
        ] + spec_base64(b.skip(3))
    }
}

/// The alphabet character for a six-bit value.
fn b64_char(n: u8) -> (c: char)
    requires
        n < 64,
    ensures
        c == spec_b64_char(n),
{
    let alphabet = "ABCDEFGHIJKLMNOPQRSTUVWXYZabcdefghijklmnopqrstuvwxyz0123456789+/";
    proof {
        reveal_strlit("ABCDEFGHIJKLMNOPQRSTUVWXYZabcdefghijklmnopqrstuvwxyz0123456789+/");
    }
    alphabet.get_char(n as usize)
}

/// Base64-encode `b`.
#[verifier::loop_isolation(false)]
pub fn base64_encode(b: &Vec<u8>) -> (r: String)
    ensures
        r@ == spec_base64(b@),
{
    let n = b.len();
    let mut out = String::new();
    let mut i: usize = 0;
    proof {
        assert(b@.skip(0) =~= b@);
    }
    while n - i >= 3
        invariant
            i <= n,
            spec_base64(b@) == out@ + spec_base64(b@.skip(i as int)),
        decreases n - i,
    {
        let ghost rest = b@.skip(i as int);
        let b0 = b[i];
        let b1 = b[i + 1];
        let b2 = b[i + 2];
        proof {
            assert(b0 >> 2 < 64 && (b0 & 3) << 4 < 64 && b1 >> 4 < 16 && (b1 & 15) << 2 < 64
                && b2 >> 6 < 4 && b2 & 63 < 64) by (bit_vector);
            assert((((b0 & 3) << 4) | (b1 >> 4)) < 64 && ((((b1 & 15) << 2) | (b2 >> 6)) < 64))
                by (bit_vector);
            assert(rest[0] == b0 && rest[1] == b1 && rest[2] == b2);
        }
        push_char(&mut out, b64_char(b0 >> 2));
        push_char(&mut out, b64_char(((b0 & 3) << 4) | (b1 >> 4)));
        push_char(&mut out, b64_char(((b1 & 15) << 2) | (b2 >> 6)));
        push_char(&mut out, b64_char(b2 & 63));
        proof {
            assert(rest.skip(3) =~= b@.skip(i as int + 3));
            assert(out@ + spec_base64(b@.skip(i as int + 3)) =~= spec_base64(b@));
        }
        i = i + 3;
    }
    let remaining = n - i;
    let ghost rest = b@.skip(i as int);
    if remaining == 1 {
        let b0 = b[i];
        proof {
            assert(b0 >> 2 < 64 && (b0 & 3) << 4 < 64) by (bit_vector);
            assert(rest[0] == b0);
        }
        push_char(&mut out, b64_char(b0 >> 2));
        push_char(&mut out, b64_char((b0 & 3) << 4));
        push_char(&mut out, '=');
        push_char(&mut out, '=');
        proof {
            assert(out@ =~= spec_base64(b@));
        }
    } else if remaining == 2 {
        let b0 = b[i];
        let b1 = b[i + 1];
        proof {
            assert(b0 >> 2 < 64 && (((b0 & 3) << 4) | (b1 >> 4)) < 64 && (b1 & 15) << 2 < 64)
                by (bit_vector);
            assert(rest[0] == b0 && rest[1] == b1);
        }
        push_char(&mut out, b64_char(b0 >> 2));
        push_char(&mut out, b64_char(((b0 & 3) << 4) | (b1 >> 4)));
        push_char(&mut out, b64_char((b1 & 15) << 2));
        push_char(&mut out, '=');
        proof {
            assert(out@ =~= spec_base64(b@));
        }
    } else {
        proof {
            assert(rest =~= Seq::<u8>::empty());
            assert(out@ + spec_base64(rest) =~= out@);
        }
    }
    out
}

} // verus!
