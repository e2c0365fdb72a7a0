//! Rendering of unsigned integers as decimal digit sequences.
//!
//! The HTTP responses carry a `Content-Length` header whose value is the
//! decimal rendering of the body length, and the listing module renders
//! timestamps the same way, so the rendering is specified once here.

use vstd::prelude::*;

verus! {

/// The decimal digits of `n`, most significant first, as ASCII bytes.
pub open spec fn dec_bytes(n: nat) -> Seq<u8>
    decreases n,
{
    if n < 10 {
        seq![(48 + n) as u8]
    } else {
        dec_bytes(n / 10).push((48 + n % 10) as u8)
    }
}

/// The decimal digits of `n`, most significant first, as characters.
pub open spec fn dec_chars(n: nat) -> Seq<char> {
    dec_bytes(n).map_values(|b: u8| b as char)
}

/// Every byte of a decimal rendering is an ASCII digit.
pub proof fn lemma_dec_bytes_are_digits(n: nat)
    ensures
        forall|i: int| 0 <= i < dec_bytes(n).len() ==> 48 <= #[trigger] dec_bytes(n)[i] < 58,
    decreases n,
{
    if n >= 10 {
        lemma_dec_bytes_are_digits(n / 10);
        assert forall|i: int| 0 <= i < dec_bytes(n).len() implies 48 <= #[trigger] dec_bytes(n)[i]
            < 58 by {
            if i < dec_bytes(n).len() - 1 {
                assert(dec_bytes(n)[i] == dec_bytes(n / 10)[i]);
            } else {
                assert(dec_bytes(n)[i] == (48 + n % 10) as u8);
            }
        }
    }
}

/// Renders `n` in decimal, most significant digit first.
pub fn u64_to_dec(n: u64) -> (v: Vec<u8>)
    ensures
        v@ == dec_bytes(n as nat),
{
    let mut digits: Vec<u8> = Vec::new();
    let mut m: u64 = n;
    while m >= 10
        invariant
            dec_bytes(n as nat) == dec_bytes(m as nat) + digits@,
        decreases m,
    {
        let d: u8 = (m % 10) as u8;
        let ghost pre = digits@;
        let ghost m0 = m as nat;
        digits.insert(0, 48 + d);
        m = m / 10;
        proof {
            assert(dec_bytes(m0) == dec_bytes(m0 / 10).push((48 + m0 % 10) as u8));
            assert(dec_bytes(m0 / 10) + digits@ =~= dec_bytes(m0) + pre);
            assert(m as nat == m0 / 10);
        }
    }
    let ghost pre = digits@;
    digits.insert(0, 48 + (m as u8));
    proof {
        assert(dec_bytes(m as nat) =~= seq![(48 + m as nat) as u8]);
        assert(digits@ =~= dec_bytes(m as nat) + pre);
    }
    digits
}

} // verus!
