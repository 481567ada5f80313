//! Fixed-point quantization: the bridge between byte-normalized pixel values
//! and the integer-only arithmetic of the downstream circuit.
//!
//! A normalized value `b/255` is carried as the integer `(b * 32768) / 255`,
//! the truncation of its product with the signal multiplier. Truncating the
//! product of 32768 with the single-precision value of `b/255` gives the
//! same integer: the rounding error of the byte-to-unit division (at most
//! `2^-24` relative) never moves `b * 32768 / 255` across an integer
//! boundary, because that rational is at distance at least `1/255` from
//! every integer unless it is one exactly.

use vstd::arithmetic::div_mod::{
    lemma_div_is_ordered, lemma_div_multiples_vanish, lemma_fundamental_div_mod,
    lemma_fundamental_div_mod_converse,
};
use vstd::prelude::*;

verus! {

/// The fixed multiplier that scales a normalized value into circuit range.
pub const NEURAL_SIGNAL_MULTIPLIER: u64 = 32768;

/// The quantized signal of the byte `b`: the truncation of `(b/255) * 32768`.
pub open spec fn byte_signal(b: u8) -> int {
    (b * 32768) / 255
}

/// The quantized signal of one pixel byte.
pub fn byte_signal_value(b: u8) -> (r: u64)
    ensures
        r as int == byte_signal(b),
        r <= 32768,
{
    let r: u64 = (b as u64 * NEURAL_SIGNAL_MULTIPLIER) / 255;
    proof {
        assert(r as int == byte_signal(b));
        assert((b * 32768) / 255 <= (255int * 32768) / 255) by {
            lemma_div_is_ordered(b as int * 32768, 255int * 32768, 255);
        }
        assert((255int * 32768) / 255 == 32768) by {
            lemma_div_multiples_vanish(32768int, 255);
        }
    }
    r
}

/// Law: quantization round-trips within one quantum. Encoding an exact
/// rational `n/d` in `[0, 1]` as `q = floor((n/d) * 32768)` and decoding `q`
/// as `q / 32768` reproduces `n/d` within an absolute error below `1/32768`;
/// the encoding never leaves `[0, 32768]`. The error bound is stated with
/// denominators cleared: `0 <= n * 32768 - q * d < d` says exactly
/// `0 <= n/d - q/32768 < 1/32768`.
pub proof fn lemma_quantization_round_trip(n: int, d: int)
    requires
        0 <= n <= d,
        0 < d,
    ensures
        ({
            let q = (n * 32768) / d;
            &&& 0 <= q <= 32768
            &&& 0 <= n * 32768 - q * d
            &&& n * 32768 - q * d < d
        }),
{
    let q = (n * 32768) / d;
    lemma_fundamental_div_mod(n * 32768, d);
    vstd::arithmetic::div_mod::lemma_mod_bound(n * 32768, d);
    assert(n * 32768 == d * q + (n * 32768) % d);
    assert(q * d == d * q) by (nonlinear_arith);
    assert(0 <= n * 32768) by (nonlinear_arith)
        requires
            0 <= n,
    ;
    assert(q >= 0) by {
        if q < 0 {
            assert(d * q <= d * -1) by (nonlinear_arith)
                requires
                    0 < d,
                    q <= -1,
            ;
            assert(false);
        }
    }
    assert(n * 32768 <= d * 32768) by (nonlinear_arith)
        requires
            n <= d,
            0 < d,
    ;
    assert(q <= 32768) by {
        if q > 32768 {
            assert(d * q >= d * 32769) by (nonlinear_arith)
                requires
                    0 < d,
                    q >= 32769,
            ;
            assert(d * 32769 > d * 32768) by (nonlinear_arith)
                requires
                    0 < d,
            ;
            assert(false);
        }
    }
}

} // verus!
