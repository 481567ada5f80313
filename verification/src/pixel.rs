//! Byte-normalized pixel encodings.
//!
//! A pixel byte `b` enters a floating model as the value `b/255`. The
//! pipeline lays that value out as IEEE-754 bits, little-endian. Both bit
//! patterns are computed here in plain integer arithmetic: `b/255` is
//! normalized to `(b * 2^t) / 255` in `[1, 2)` and the significand is the
//! correctly rounded quotient — 255 is odd, so a rounding tie can never
//! occur. The carry of a significand that rounds up to a power of two moves
//! into the exponent through plain addition.

use vstd::prelude::*;

verus! {

/// The normalization shift for `b` in `[1, 254]`: the smallest `t` with
/// `b * 2^t >= 255`.
pub open spec fn unit_shift(b: u8) -> int {
    if b >= 128 {
        1
    } else if b >= 64 {
        2
    } else if b >= 32 {
        3
    } else if b >= 16 {
        4
    } else if b >= 8 {
        5
    } else if b >= 4 {
        6
    } else if b >= 2 {
        7
    } else {
        8
    }
}

/// `2^(23 + unit_shift(b))`: the single-precision significand scale.
pub open spec fn unit_scale_single(b: u8) -> int {
    if b >= 128 {
        0x1000000
    } else if b >= 64 {
        0x2000000
    } else if b >= 32 {
        0x4000000
    } else if b >= 16 {
        0x8000000
    } else if b >= 8 {
        0x10000000
    } else if b >= 4 {
        0x20000000
    } else if b >= 2 {
        0x40000000
    } else {
        0x80000000
    }
}

/// `2^(52 + unit_shift(b))`: the double-precision significand scale.
pub open spec fn unit_scale_double(b: u8) -> int {
    if b >= 128 {
        0x20000000000000
    } else if b >= 64 {
        0x40000000000000
    } else if b >= 32 {
        0x80000000000000
    } else if b >= 16 {
        0x100000000000000
    } else if b >= 8 {
        0x200000000000000
    } else if b >= 4 {
        0x400000000000000
    } else if b >= 2 {
        0x800000000000000
    } else {
        0x1000000000000000
    }
}

/// The single-precision bit pattern of `b/255`.
pub open spec fn f32_unit_bits(b: u8) -> u32 {
    if b == 0 {
        0
    } else if b == 255 {
        0x3F800000u32
    } else {
        let t = unit_shift(b);
        let num = (b as int) * unit_scale_single(b);
        let q = num / 255;
        let r = num % 255;
        let m = if 2 * r > 255 {
            q + 1
        } else {
            q
        };
        (((127 - t) * 0x800000) + (m - 0x800000)) as u32
    }
}

/// The double-precision bit pattern of `b/255`.
pub open spec fn f64_unit_bits(b: u8) -> u64 {
    if b == 0 {
        0
    } else if b == 255 {
        0x3FF0000000000000u64
    } else {
        let t = unit_shift(b);
        let num = (b as int) * unit_scale_double(b);
        let q = num / 255;
        let r = num % 255;
        let m = if 2 * r > 255 {
            q + 1
        } else {
            q
        };
        (((1023 - t) * 0x10000000000000) + (m - 0x10000000000000)) as u64
    }
}

/// The four little-endian bytes of `w`.
pub open spec fn le4(w: u32) -> Seq<u8> {
    seq![
        (w % 256) as u8,
        ((w / 256) % 256) as u8,
        ((w / 65536) % 256) as u8,
        ((w / 16777216) % 256) as u8,
    ]
}

/// The eight little-endian bytes of `w`.
pub open spec fn le8(w: u64) -> Seq<u8> {
    seq![
        (w % 256) as u8,
        ((w / 256) % 256) as u8,
        ((w / 0x10000) % 256) as u8,
        ((w / 0x1000000) % 256) as u8,
        ((w / 0x100000000) % 256) as u8,
        ((w / 0x10000000000) % 256) as u8,
        ((w / 0x1000000000000) % 256) as u8,
        ((w / 0x100000000000000) % 256) as u8,
    ]
}

/// The single-precision bit pattern of `b/255`, computed in integers.
pub fn f32_unit_bits_value(b: u8) -> (r: u32)
    ensures
        r == f32_unit_bits(b),
{
    if b == 0 {
        0
    } else if b == 255 {
        0x3F800000
    } else {
        let t: u64 = if b >= 128 {
            1
        } else if b >= 64 {
            2
        } else if b >= 32 {
            3
        } else if b >= 16 {
            4
        } else if b >= 8 {
            5
        } else if b >= 4 {
            6
        } else if b >= 2 {
            7
        } else {
            8
        };
        let scale: u64 = if b >= 128 {
            0x1000000
        } else if b >= 64 {
            0x2000000
        } else if b >= 32 {
            0x4000000
        } else if b >= 16 {
            0x8000000
        } else if b >= 8 {
            0x10000000
        } else if b >= 4 {
            0x20000000
        } else if b >= 2 {
            0x40000000
        } else {
            0x80000000
        };
        let num: u64 = (b as u64) * scale;
        let q: u64 = num / 255;
        let r: u64 = num % 255;
        let m: u64 = if 2 * r > 255 {
            q + 1
        } else {
            q
        };
        proof {
            assert(num >= 255 * 0x800000);
            assert(num < 510 * 0x800000);
            assert(q >= 0x800000) by {
                vstd::arithmetic::div_mod::lemma_div_is_ordered(
                    255int * 0x800000,
                    num as int,
                    255,
                );
                vstd::arithmetic::div_mod::lemma_div_multiples_vanish(0x800000, 255);
            }
            assert(q < 0x1000000) by {
                vstd::arithmetic::div_mod::lemma_div_is_ordered(
                    num as int,
                    510 * 0x800000 - 1,
                    255,
                );
                vstd::arithmetic::div_mod::lemma_fundamental_div_mod(510 * 0x800000 - 1, 255);
            }
        }
        ((127 - t as u32) * 0x800000) + ((m - 0x800000) as u32)
    }
}

/// The double-precision bit pattern of `b/255`, computed in integers.
pub fn f64_unit_bits_value(b: u8) -> (r: u64)
    ensures
        r == f64_unit_bits(b),
{
    if b == 0 {
        0
    } else if b == 255 {
        0x3FF0000000000000
    } else {
        let t: u64 = if b >= 128 {
            1
        } else if b >= 64 {
            2
        } else if b >= 32 {
            3
        } else if b >= 16 {
            4
        } else if b >= 8 {
            5
        } else if b >= 4 {
            6
        } else if b >= 2 {
            7
        } else {
            8
        };
        let scale: u128 = if b >= 128 {
            0x20000000000000
        } else if b >= 64 {
            0x40000000000000
        } else if b >= 32 {
            0x80000000000000
        } else if b >= 16 {
            0x100000000000000
        } else if b >= 8 {
            0x200000000000000
        } else if b >= 4 {
            0x400000000000000
        } else if b >= 2 {
            0x800000000000000
        } else {
            0x1000000000000000
        };
        let num: u128 = (b as u128) * scale;
        let q: u128 = num / 255;
        let r: u128 = num % 255;
        let m: u128 = if 2 * r > 255 {
            q + 1
        } else {
            q
        };
        proof {
            assert(num >= 255 * 0x10000000000000);
            assert(num < 510 * 0x10000000000000);
            assert(q >= 0x10000000000000) by {
                vstd::arithmetic::div_mod::lemma_div_is_ordered(
                    255int * 0x10000000000000,
                    num as int,
                    255,
                );
                vstd::arithmetic::div_mod::lemma_div_multiples_vanish(0x10000000000000, 255);
            }
            assert(q < 0x20000000000000) by {
                vstd::arithmetic::div_mod::lemma_div_is_ordered(
                    num as int,
                    510 * 0x10000000000000 - 1,
                    255,
                );
                vstd::arithmetic::div_mod::lemma_fundamental_div_mod(
                    510 * 0x10000000000000 - 1,
                    255,
                );
            }
        }
        ((1023 - t) * 0x10000000000000) + ((m - 0x10000000000000) as u64)
    }
}

/// Appends the four little-endian bytes of `w` to `out`.
pub fn push_le4(out: &mut Vec<u8>, w: u32)
    ensures
        final(out)@ == old(out)@ + le4(w),
{
    out.push((w % 256) as u8);
    out.push(((w / 256) % 256) as u8);
    out.push(((w / 65536) % 256) as u8);
    out.push(((w / 16777216) % 256) as u8);
    assert(out@ =~= old(out)@ + le4(w));
}

/// Appends the eight little-endian bytes of `w` to `out`.
pub fn push_le8(out: &mut Vec<u8>, w: u64)
    ensures
        final(out)@ == old(out)@ + le8(w),
{
    out.push((w % 256) as u8);
    out.push(((w / 256) % 256) as u8);
    out.push(((w / 0x10000) % 256) as u8);
    out.push(((w / 0x1000000) % 256) as u8);
    out.push(((w / 0x100000000) % 256) as u8);
    out.push(((w / 0x10000000000) % 256) as u8);
    out.push(((w / 0x1000000000000) % 256) as u8);
    out.push(((w / 0x100000000000000) % 256) as u8);
    assert(out@ =~= old(out)@ + le8(w));
}

} // verus!
