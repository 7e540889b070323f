//! Percent-encoding of a byte string, as the `grpc-message` trailer rides
//! the wire: printable ASCII except `%` passes through, every other byte
//! becomes `%XX` with uppercase hex.

use vstd::prelude::*;
use crate::metadata::push_char;

verus! {

/// The uppercase hex digits.
pub open spec fn spec_hex_alphabet() -> Seq<char> {
    "0123456789ABCDEF"@
}

/// The hex digit for a four-bit value.
pub open spec fn spec_hex_digit(n: u8) -> char
    recommends
        n < 16,
{
    spec_hex_alphabet()[n as int]
}

/// Whether a byte rides the wire unencoded: printable ASCII except `%`.
pub open spec fn spec_percent_plain(b: u8) -> bool {
    0x20 <= b <= 0x7e && b != 0x25
}

/// The percent-encoded rendering of `b`.
pub open spec fn spec_percent(b: Seq<u8>) -> Seq<char>
    decreases b.len(),
{
    if b.len() == 0 {
        Seq::empty()
    } else {
        let b0 = b[0];
        (if spec_percent_plain(b0) {
            seq![b0 as char]
        } else {
            seq!['%', spec_hex_digit(b0 >> 4), spec_hex_digit(b0 & 15)]
        }) + spec_percent(b.drop_first())
    }
}

/// The hex digit for a four-bit value.
fn hex_digit(n: u8) -> (c: char)
    requires
        n < 16,
    ensures
        c == spec_hex_digit(n),
{
    let alphabet = "0123456789ABCDEF";
    proof {
        reveal_strlit("0123456789ABCDEF");
    }
    alphabet.get_char(n as usize)
}

/// Percent-encode `b`.
#[verifier::loop_isolation(false)]
pub fn percent_encode(b: &Vec<u8>) -> (r: String)
    ensures
        r@ == spec_percent(b@),
{
    let n = b.len();
    let mut out = String::new();
    let mut i: usize = 0;
    proof {
        assert(b@.skip(0) =~= b@);
    }
    while i < n
        invariant
            i <= n,
            spec_percent(b@) == out@ + spec_percent(b@.skip(i as int)),
        decreases n - i,
    {
        let ghost rest = b@.skip(i as int);
        let b0 = b[i];
        proof {
            assert(rest[0] == b0);
            assert(b0 >> 4 < 16 && b0 & 15 < 16) by (bit_vector);
        }
        if 0x20 <= b0 && b0 <= 0x7e && b0 != 0x25 {
            push_char(&mut out, b0 as char);
        } else {
            push_char(&mut out, '%');
            push_char(&mut out, hex_digit(b0 >> 4));
            push_char(&mut out, hex_digit(b0 & 15));
        }
        proof {
            assert(rest.drop_first() =~= b@.skip(i as int + 1));
            assert(out@ + spec_percent(b@.skip(i as int + 1)) =~= spec_percent(b@));
        }
        i = i + 1;
    }
    proof {
        assert(b@.skip(n as int) =~= Seq::<u8>::empty());
        assert(out@ + Seq::<char>::empty() =~= out@);
    }
    out
}

} // verus!
