//! IEEE-754 values modelled at the bit level, in plain integers: the sample
//! conversions go through a double-precision intermediate, and this module
//! defines that intermediate as a 64-bit pattern together with the exact
//! conversions into and out of it — widening a 32-bit float, rounding back
//! to one (to nearest, ties to even), scaling a 16-bit signed sample to the
//! unit range by `1 / 32768`, and scaling back (to nearest, ties away from
//! zero, clamped).

use vstd::prelude::*;

use vstd::arithmetic::power2::pow2;
use vstd::bits::{
    lemma_u64_low_bits_mask_is_mod, lemma_u64_pow2_no_overflow, lemma_u64_shl_is_mul,
    lemma_u64_shr_is_div,
};
use vstd::bits::low_bits_mask;

verus! {

/// The sign bit of a 64-bit pattern.
pub open spec fn f64_sign(w: u64) -> bool {
    (w >> 63) & 1 == 1
}

/// The biased exponent field of a 64-bit pattern.
pub open spec fn f64_exp(w: u64) -> u64 {
    (w >> 52) & 0x7FF
}

/// The fraction field of a 64-bit pattern.
pub open spec fn f64_frac(w: u64) -> u64 {
    w & 0xF_FFFF_FFFF_FFFF
}

/// The sign bit of a 32-bit pattern.
pub open spec fn f32_sign(b: u32) -> bool {
    (b >> 31) & 1 == 1
}

/// The biased exponent field of a 32-bit pattern.
pub open spec fn f32_exp(b: u32) -> u32 {
    (b >> 23) & 0xFF
}

/// The fraction field of a 32-bit pattern.
pub open spec fn f32_frac(b: u32) -> u32 {
    b & 0x7F_FFFF
}

/// A 64-bit pattern assembled from its fields.
pub open spec fn f64_bits(sign: bool, e: u64, m: u64) -> u64
    recommends
        e < 0x800,
        m < 0x10_0000_0000_0000,
{
    ((if sign {
        1u64
    } else {
        0u64
    }) << 63) | (e << 52) | m
}

/// A 32-bit pattern assembled from its fields.
pub open spec fn f32_bits(sign: bool, e: u32, m: u32) -> u32
    recommends
        e < 0x100,
        m < 0x80_0000,
{
    ((if sign {
        1u32
    } else {
        0u32
    }) << 31) | (e << 23) | m
}

/// The significand with its implied leading bit.
pub open spec fn f64_sig(w: u64) -> u64 {
    if f64_exp(w) == 0 {
        f64_frac(w)
    } else {
        (f64_frac(w) + 0x10_0000_0000_0000) as u64
    }
}

/// The significand of a 32-bit pattern with its implied leading bit.
pub open spec fn f32_sig(b: u32) -> u32 {
    if f32_exp(b) == 0 {
        f32_frac(b)
    } else {
        (f32_frac(b) + 0x80_0000) as u32
    }
}

/// `x / d` rounded to the nearest integer, ties to even; `x` and `d`
/// non-negative.
pub open spec fn rne_div(x: int, d: int) -> int
    recommends
        x >= 0,
        d >= 1,
{
    let q = x / d;
    let r = x % d;
    if 2 * r > d || (2 * r == d && q % 2 == 1) {
        q + 1
    } else {
        q
    }
}

/// `x / d` rounded to the nearest integer, ties away from zero; `x`
/// non-negative and `d` even.
pub open spec fn rha_div(x: int, d: int) -> int
    recommends
        x >= 0,
        d >= 2,
{
    (x + d / 2) / d
}

/// A subnormal 32-bit value `m * 2^e` (with `0 < m < 2^24`) normalized and
/// packed into 64 bits: the significand doubles until its top bit stands at
/// position 23, the exponent falling in step.
pub open spec fn widen_subnormal(sign: bool, m: u64, e: int) -> u64
    recommends
        1 <= m < 0x100_0000,
        -172 <= e <= -149,
    decreases 0x100_0000 - m,
{
    if m >= 0x80_0000 {
        f64_bits(sign, (e + 1046) as u64, ((m - 0x80_0000) as u64) << 29)
    } else if m == 0 {
        f64_bits(sign, 0, 0)
    } else {
        widen_subnormal(sign, (m * 2) as u64, e - 1)
    }
}

/// A 32-bit pattern widened to 64 bits: exact for every finite value,
/// infinities map to infinities, and a NaN keeps its payload in the high
/// fraction bits.
pub open spec fn spec_widen(b: u32) -> u64 {
    let s = f32_sign(b);
    let e = f32_exp(b);
    let m = f32_frac(b) as u64;
    if e == 0xFF {
        f64_bits(s, 0x7FF, m << 29)
    } else if e != 0 {
        f64_bits(s, (e + 896) as u64, m << 29)
    } else if m == 0 {
        f64_bits(s, 0, 0)
    } else {
        widen_subnormal(s, m, -149)
    }
}

/// A 64-bit pattern rounded to 32 bits, to nearest with ties to even:
/// values beyond the 32-bit range become infinities, small ones become
/// subnormals or zero, an infinity stays one, and a NaN keeps the high bits
/// of its payload (made quiet when they vanish).
pub open spec fn spec_narrow(w: u64) -> u32 {
    let s = f64_sign(w);
    let e = f64_exp(w) as int;
    let m = f64_frac(w);
    if e == 0x7FF {
        if m == 0 {
            f32_bits(s, 0xFF, 0)
        } else {
            let pay = (m >> 29) as u32;
            if pay == 0 {
                f32_bits(s, 0xFF, 0x40_0000)
            } else {
                f32_bits(s, 0xFF, pay)
            }
        }
    } else if e == 0 {
        f32_bits(s, 0, 0)
    } else {
        let sig = f64_sig(w) as int;
        let fe = e - 1023;
        if fe >= 128 {
            f32_bits(s, 0xFF, 0)
        } else if fe >= -126 {
            let q = rne_div(sig, pow2(29) as int);
            if q == 0x100_0000 {
                if fe == 127 {
                    f32_bits(s, 0xFF, 0)
                } else {
                    f32_bits(s, (fe + 128) as u32, 0)
                }
            } else {
                f32_bits(s, (fe + 127) as u32, (q - 0x80_0000) as u32)
            }
        } else {
            let k = (926 - e) as nat;
            if k >= 54 {
                f32_bits(s, 0, 0)
            } else {
                let q = rne_div(sig, pow2(k) as int);
                if q >= 0x80_0000 {
                    f32_bits(s, 1, (q - 0x80_0000) as u32)
                } else {
                    f32_bits(s, 0, q as u32)
                }
            }
        }
    }
}

/// A positive value `m * 2^e` (with `0 < m < 2^53`) normalized and packed
/// into 64 bits.
pub open spec fn encode_norm(sign: bool, m: u64, e: int) -> u64
    recommends
        1 <= m < 0x20_0000_0000_0000,
    decreases 0x20_0000_0000_0000 - m,
{
    if m >= 0x10_0000_0000_0000 {
        f64_bits(sign, (e + 1075) as u64, (m - 0x10_0000_0000_0000) as u64)
    } else if m == 0 {
        f64_bits(sign, 0, 0)
    } else {
        encode_norm(sign, (m * 2) as u64, e - 1)
    }
}

/// A 16-bit signed sample scaled to the unit range: the 64-bit pattern of
/// `v / 32768`, which every such `v` has exactly.
pub open spec fn spec_inter_of_s16(v: i16) -> u64 {
    if v == 0 {
        0u64
    } else if v > 0 {
        encode_norm(false, v as u64, -15)
    } else {
        encode_norm(true, (-(v as int)) as u64, -15)
    }
}

/// A 64-bit pattern scaled back to a 16-bit signed sample: `value * 32768`
/// rounded to the nearest integer, ties away from zero, clamped to the
/// 16-bit range; a NaN becomes zero and infinities clamp.
pub open spec fn spec_inter_to_s16(w: u64) -> i16 {
    let neg = f64_sign(w);
    let e = f64_exp(w) as int;
    let m = f64_frac(w);
    if e == 0x7FF {
        if m != 0 {
            0i16
        } else if neg {
            -32768i16
        } else {
            32767i16
        }
    } else if e == 0 {
        0i16
    } else {
        let sig = f64_sig(w) as int;
        let sh = e - 1060;
        let mag = if sh >= 0 {
            sig * (pow2(sh as nat) as int)
        } else {
            rha_div(sig, pow2((-sh) as nat) as int)
        };
        if neg {
            if mag >= 32768 {
                -32768i16
            } else {
                (-mag) as i16
            }
        } else {
            if mag > 32767 {
                32767i16
            } else {
                mag as i16
            }
        }
    }
}


/// The fields of an assembled 64-bit pattern are the fields it was
/// assembled from.
proof fn lemma_f64_bits_fields(s: bool, e: u64, m: u64)
    requires
        e < 0x800,
        m < 0x10_0000_0000_0000,
    ensures
        f64_sign(f64_bits(s, e, m)) == s,
        f64_exp(f64_bits(s, e, m)) == e,
        f64_frac(f64_bits(s, e, m)) == m,
{
    let sb: u64 = if s {
        1
    } else {
        0
    };
    let w = (sb << 63) | (e << 52) | m;
    assert((((w >> 63) & 1 == 1) == (sb == 1)) && (w >> 52) & 0x7FF == e && w
        & 0xF_FFFF_FFFF_FFFF == m) by (bit_vector)
        requires
            sb == 0 || sb == 1,
            e < 0x800,
            m < 0x10_0000_0000_0000,
            w == (sb << 63) | (e << 52) | m,
    ;
}

/// The fields of an assembled 32-bit pattern are the fields it was
/// assembled from.
proof fn lemma_f32_bits_fields(s: bool, e: u32, m: u32)
    requires
        e < 0x100,
        m < 0x80_0000,
    ensures
        f32_sign(f32_bits(s, e, m)) == s,
        f32_exp(f32_bits(s, e, m)) == e,
        f32_frac(f32_bits(s, e, m)) == m,
{
    let sb: u32 = if s {
        1
    } else {
        0
    };
    let b = (sb << 31) | (e << 23) | m;
    assert((((b >> 31) & 1 == 1) == (sb == 1)) && (b >> 23) & 0xFF == e && b & 0x7F_FFFF
        == m) by (bit_vector)
        requires
            sb == 0 || sb == 1,
            e < 0x100,
            m < 0x80_0000,
            b == (sb << 31) | (e << 23) | m,
    ;
}

/// Every 32-bit pattern is the assembly of its own fields.
proof fn lemma_f32_reconstruct(b: u32)
    ensures
        b == f32_bits(f32_sign(b), f32_exp(b), f32_frac(b)),
        f32_exp(b) < 0x100,
        f32_frac(b) < 0x80_0000,
{
    let sb: u32 = if f32_sign(b) {
        1
    } else {
        0
    };
    assert((b >> 23) & 0xFF < 0x100 && b & 0x7F_FFFF < 0x80_0000 && ((sb == 1) == ((b >> 31) & 1
        == 1) ==> b == (sb << 31) | (((b >> 23) & 0xFF) << 23) | (b & 0x7F_FFFF))) by (bit_vector)
        requires
            sb == 0 || sb == 1,
    ;
}

/// Dividing an exact multiple rounds to the factor, whichever way ties go.
proof fn lemma_round_exact(c: int, d: int)
    requires
        c >= 0,
        d >= 2,
    ensures
        rne_div(c * d, d) == c,
        rha_div(c * d, d) == c,
{
    vstd::arithmetic::div_mod::lemma_div_multiples_vanish_fancy(c, 0, d);
    vstd::arithmetic::div_mod::lemma_div_multiples_vanish_fancy(c, d / 2, d);
    assert(d * c == c * d) by (nonlinear_arith);
    assert((c * d) % d == 0) by {
        vstd::arithmetic::div_mod::lemma_fundamental_div_mod(c * d, d);
        assert(c * d == d * ((c * d) / d) + (c * d) % d);
    }
}

/// Scaling a sample to the unit range and back returns it exactly, for the
/// whole 16-bit range: the normalizer packs `a * 2^j` and the decoder
/// recovers `a`.
proof fn lemma_encode_decode(s: bool, a: u64, j: nat)
    requires
        1 <= a <= 0x8000,
        !s ==> a <= 0x7FFF,
        (a as int) * (pow2(j) as int) < 0x20_0000_0000_0000,
    ensures
        spec_inter_to_s16(encode_norm(s, ((a as int) * (pow2(j) as int)) as u64, -15 - j)) == (
        if s {
            (-(a as int)) as i16
        } else {
            a as i16
        }),
    decreases 0x20_0000_0000_0000 - (a as int) * (pow2(j) as int),
{
    vstd::arithmetic::power2::lemma_pow2_pos(j);
    let m: u64 = ((a as int) * (pow2(j) as int)) as u64;
    let e: int = -15 - j;
    if m >= 0x10_0000_0000_0000 {
        // Packed: exponent field 1060 - j, fraction m - 2^52.
        let p = pow2(j) as int;
        assert(j >= 37) by {
            if j < 37 {
                vstd::arithmetic::power2::lemma_pow2_strictly_increases(j, 37);
                vstd::arithmetic::power2::lemma2_to64_rest();
                assert((a as int) * p < 0x10_0000_0000_0000) by (nonlinear_arith)
                    requires
                        1 <= a <= 0x8000,
                        0 < p < 0x20_0000_0000,
                ;
            }
        }
        assert(j <= 52) by {
            if j > 52 {
                vstd::arithmetic::power2::lemma2_to64_rest();
                if j > 53 {
                    vstd::arithmetic::power2::lemma_pow2_strictly_increases(53, j);
                }
                assert(p >= 0x20_0000_0000_0000);
                assert((a as int) * p >= p) by (nonlinear_arith)
                    requires
                        a >= 1,
                        p > 0,
                ;
            }
        }
        let ee: u64 = (e + 1075) as u64;
        assert(ee == 1060 - j);
        lemma_f64_bits_fields(s, ee, (m - 0x10_0000_0000_0000) as u64);
        let w = encode_norm(s, m, e);
        assert(w == f64_bits(s, ee, (m - 0x10_0000_0000_0000) as u64));
        assert(f64_sig(w) == m);
        // Decode: shift is -j, so the magnitude divides back out exactly.
        let sh = (ee as int) - 1060;
        assert(sh == -j);
        if j == 0 {
            assert(pow2(0) == 1) by {
                vstd::arithmetic::power2::lemma2_to64();
            }
            assert(m == a);
            assert(false);  // a <= 0x8000 < 2^52
        }
        assert(sh < 0);
        lemma_round_exact(a as int, pow2(j) as int);
        assert((pow2(j) as int) >= 2) by {
            vstd::arithmetic::power2::lemma_pow2_strictly_increases(0, j);
            vstd::arithmetic::power2::lemma2_to64();
        }
        assert(rha_div(m as int, pow2(j) as int) == a);
        assert(spec_inter_to_s16(w) == (if s {
            (-(a as int)) as i16
        } else {
            a as i16
        }));
    } else {
        // Double and recurse.
        assert(m >= 1) by {
            assert((a as int) * (pow2(j) as int) >= 1) by (nonlinear_arith)
                requires
                    a >= 1,
                    (pow2(j) as int) >= 1,
            ;
        }
        assert((a as int) * (pow2((j + 1) as nat) as int) == (m as int) * 2) by {
            vstd::arithmetic::power2::lemma_pow2_adds(j, 1);
            assert(pow2(1) == 2) by {
                vstd::arithmetic::power2::lemma2_to64();
            }
            assert((a as int) * ((pow2(j) as int) * 2) == ((a as int) * (pow2(j) as int)) * 2)
                by (nonlinear_arith);
        }
        lemma_encode_decode(s, a, j + 1);
        assert(encode_norm(s, m, e) == encode_norm(s, (m * 2) as u64, e - 1));
    }
}

/// Scaling any 16-bit signed sample through the intermediate and back
/// returns it exactly: the scale factor `32768` is used in both directions,
/// so the round trip is exact over the whole range, the negative extreme
/// included.
pub proof fn lemma_s16_roundtrip(v: i16)
    ensures
        spec_inter_to_s16(spec_inter_of_s16(v)) == v,
{
    if v == 0 {
        assert((0u64 >> 52) & 0x7FF == 0 && (0u64 >> 63) & 1 == 0) by (bit_vector);
    } else {
        let a: u64 = if v > 0 {
            v as u64
        } else {
            (-(v as int)) as u64
        };
        assert(pow2(0) == 1) by {
            vstd::arithmetic::power2::lemma2_to64();
        }
        assert((a as int) * (pow2(0) as int) == a);
        lemma_encode_decode(v < 0, a, 0);
    }
}


/// A subnormal 32-bit value survives widening and narrowing: the normalizer
/// packs `m0 * 2^j` and the rounder divides it back out exactly.
proof fn lemma_widen_sub_roundtrip(s: bool, m0: u32, j: nat)
    requires
        1 <= m0 < 0x80_0000,
        (m0 as int) * (pow2(j) as int) < 0x100_0000,
    ensures
        spec_narrow(widen_subnormal(s, ((m0 as int) * (pow2(j) as int)) as u64, -149 - j))
            == f32_bits(s, 0, m0),
    decreases 0x100_0000 - (m0 as int) * (pow2(j) as int),
{
    vstd::arithmetic::power2::lemma_pow2_pos(j);
    vstd::arithmetic::power2::lemma2_to64();
    let p = pow2(j) as int;
    let m: u64 = ((m0 as int) * p) as u64;
    let e: int = -149 - j;
    assert(m >= 1) by {
        assert((m0 as int) * p >= 1) by (nonlinear_arith)
            requires
                m0 >= 1,
                p >= 1,
        ;
    }
    if m >= 0x80_0000 {
        // Packed: exponent field 897 - j, fraction (m - 2^23) << 29.
        assert(j >= 1) by {
            if j == 0 {
                assert(p == 1);
                assert((m0 as int) * 1 == m0 as int);
                assert(m == m0);
            }
        }
        assert(j <= 23) by {
            if j > 23 {
                vstd::arithmetic::power2::lemma2_to64_rest();
                if j > 24 {
                    vstd::arithmetic::power2::lemma_pow2_strictly_increases(24, j);
                }
                assert(pow2(24) == 0x100_0000);
                assert((m0 as int) * p >= p) by (nonlinear_arith)
                    requires
                        m0 >= 1,
                        p > 0,
                ;
            }
        }
        let ee: u64 = (e + 1046) as u64;
        assert(ee == 897 - j);
        assert(874 <= ee <= 896);
        let frac: u64 = ((m - 0x80_0000) as u64) << 29;
        assert(frac < 0x10_0000_0000_0000 && frac + 0x10_0000_0000_0000 == (m as u64) * 0x2000_0000)
            by (bit_vector)
            requires
                0x80_0000 <= m < 0x100_0000,
                frac == ((m - 0x80_0000) as u64) << 29,
        ;
        lemma_f64_bits_fields(s, ee, frac);
        let w = widen_subnormal(s, m, e);
        assert(w == f64_bits(s, ee, frac));
        // Narrow: the shift undoes the normalization and the scale exactly.
        let fe = (ee as int) - 1023;
        assert(fe < -126);
        let k = (926 - ee) as nat;
        assert(k == 29 + j);
        assert(k < 54);
        let sig = f64_sig(w) as int;
        assert(sig == (m as int) * 0x2000_0000);
        assert(pow2(k) as int == p * 0x2000_0000) by {
            vstd::arithmetic::power2::lemma_pow2_adds(j, 29);
            assert(pow2(29) == 0x2000_0000);
            assert((pow2(j) * pow2(29)) as int == p * 0x2000_0000) by (nonlinear_arith)
                requires
                    p == pow2(j) as int,
                    pow2(29) == 0x2000_0000,
            ;
        }
        assert(sig == (m0 as int) * (pow2(k) as int)) by (nonlinear_arith)
            requires
                sig == (m as int) * 0x2000_0000,
                (m as int) == (m0 as int) * p,
                pow2(k) as int == p * 0x2000_0000,
        ;
        lemma_round_exact(m0 as int, pow2(k) as int);
        assert(pow2(k) as int >= 2) by {
            vstd::arithmetic::power2::lemma_pow2_strictly_increases(0, k);
        }
        assert(rne_div(sig, pow2(k) as int) == m0);
        assert(spec_narrow(w) == f32_bits(s, 0, m0));
    } else {
        assert((m0 as int) * (pow2((j + 1) as nat) as int) == (m as int) * 2) by {
            vstd::arithmetic::power2::lemma_pow2_adds(j, 1);
            assert((m0 as int) * (p * 2) == ((m0 as int) * p) * 2) by (nonlinear_arith);
        }
        lemma_widen_sub_roundtrip(s, m0, j + 1);
        assert(widen_subnormal(s, m, e) == widen_subnormal(s, (m * 2) as u64, e - 1));
    }
}

/// Widening any 32-bit pattern to the intermediate and rounding back
/// returns it exactly, bit for bit: every 32-bit value — normal, subnormal,
/// zero, infinite, or NaN — survives the trip through the 64-bit
/// intermediate with no precision loss.
pub proof fn lemma_f32_roundtrip(b: u32)
    ensures
        spec_narrow(spec_widen(b)) == b,
{
    lemma_f32_reconstruct(b);
    let s = f32_sign(b);
    let e8 = f32_exp(b);
    let m23 = f32_frac(b);
    let m64 = m23 as u64;
    vstd::arithmetic::power2::lemma2_to64();
    if e8 == 0xFF {
        let frac: u64 = m64 << 29;
        assert(frac < 0x10_0000_0000_0000 && ((frac >> 29) as u32) == m23 && (frac == 0 <==> m23
            == 0)) by (bit_vector)
            requires
                m64 < 0x80_0000,
                m64 == m23 as u64,
                frac == m64 << 29,
        ;
        lemma_f64_bits_fields(s, 0x7FF, frac);
        if m23 == 0 {
            assert(spec_narrow(spec_widen(b)) == f32_bits(s, 0xFF, 0));
        } else {
            assert(spec_narrow(spec_widen(b)) == f32_bits(s, 0xFF, m23));
        }
    } else if e8 != 0 {
        let frac: u64 = m64 << 29;
        assert(frac < 0x10_0000_0000_0000 && frac + 0x10_0000_0000_0000 == (0x80_0000u64 + m64)
            * 0x2000_0000) by (bit_vector)
            requires
                m64 < 0x80_0000,
                frac == m64 << 29,
        ;
        let ee: u64 = (e8 + 896) as u64;
        assert(897 <= ee <= 1150);
        lemma_f64_bits_fields(s, ee, frac);
        let w = spec_widen(b);
        assert(w == f64_bits(s, ee, frac));
        let fe = (ee as int) - 1023;
        assert(-126 <= fe <= 127);
        let sig = f64_sig(w) as int;
        assert(sig == (0x80_0000 + m23 as int) * 0x2000_0000);
        lemma_round_exact(0x80_0000 + m23 as int, 0x2000_0000);
        assert(pow2(29) == 0x2000_0000);
        assert(rne_div(sig, pow2(29) as int) == 0x80_0000 + m23);
        assert(0x80_0000 + m23 < 0x100_0000);
        assert(fe + 127 == e8);
        assert(spec_narrow(w) == f32_bits(s, e8, m23));
    } else if m23 == 0 {
        lemma_f64_bits_fields(s, 0, 0);
        assert(spec_narrow(spec_widen(b)) == f32_bits(s, 0, 0));
    } else {
        assert(pow2(0) == 1);
        assert((m23 as int) * (pow2(0) as int) == m64);
        lemma_widen_sub_roundtrip(s, m23, 0);
        assert(spec_widen(b) == widen_subnormal(s, m64, -149));
    }
}



/// Bitwise identities the assembled patterns lean on: a zero field
/// disappears.
proof fn lemma_or_zero32(x: u32)
    ensures
        x | 0 == x,
        (0u32 << 23) == 0u32,
        (0u32 << 31) == 0u32,
{
    assert(x | 0 == x && (0u32 << 23) == 0u32 && (0u32 << 31) == 0u32) by (bit_vector);
}

/// Bitwise identities for 64-bit patterns: a zero field disappears.
proof fn lemma_or_zero64(x: u64)
    ensures
        x | 0 == x,
        (0u64 << 52) == 0u64,
        (0u64 << 29) == 0u64,
        (0u64 << 63) == 0u64,
{
    assert(x | 0 == x && (0u64 << 52) == 0u64 && (0u64 << 29) == 0u64 && (0u64 << 63)
        == 0u64) by (bit_vector);
}

/// Rounding by shifting: the hardware round-to-nearest-even formula — keep,
/// round bit, sticky bits — computes `rne_div` for divisors that are powers
/// of two.
proof fn lemma_rne_shift(x: u64, k: u64)
    requires
        1 <= k <= 53,
    ensures
        ({
            let keep = x >> k;
            let rbit = (x >> ((k - 1) as u64)) & 1;
            let sticky = (x & (((1u64 << ((k - 1) as u64)) - 1) as u64)) != 0;
            let up: u64 = if rbit == 1 && (sticky || keep & 1 == 1) {
                1
            } else {
                0
            };
            &&& keep as int + up == rne_div(x as int, pow2(k as nat) as int)
            &&& keep as int == x as int / (pow2(k as nat) as int)
        }),
{
    let keep = x >> k;
    let rbit = (x >> ((k - 1) as u64)) & 1;
    let mask: u64 = ((1u64 << ((k - 1) as u64)) - 1) as u64;
    let d = pow2(k as nat) as int;
    let h = pow2((k - 1) as nat) as int;
    lemma_u64_pow2_no_overflow(k as nat);
    lemma_u64_pow2_no_overflow((k - 1) as nat);
    vstd::arithmetic::power2::lemma_pow2_adds((k - 1) as nat, 1);
    vstd::arithmetic::power2::lemma2_to64();
    assert(d == h * 2) by (nonlinear_arith)
        requires
            d == h * (pow2(1) as int),
            pow2(1) == 2,
    ;
    lemma_u64_shr_is_div(x, k);
    lemma_u64_shr_is_div(x, (k - 1) as u64);
    assert(keep == x as int / d);
    let xh = x >> ((k - 1) as u64);
    assert(xh == x as int / h);
    assert(rbit == xh % 2) by (bit_vector)
        requires
            rbit == xh & 1,
    ;
    assert(keep & 1 == keep % 2) by (bit_vector);
    assert(mask == low_bits_mask((k - 1) as nat)) by {
        lemma_u64_shl_is_mul(1u64, (k - 1) as u64);
    }
    assert((x & mask) == x as int % h) by {
        vstd::bits::lemma_u64_low_bits_mask_is_mod(x, (k - 1) as nat);
    }
    let r = x as int % d;
    let rp = x as int % h;
    vstd::arithmetic::div_mod::lemma_breakdown(x as int, h, 2);
    assert(r == h * ((x as int / h) % 2) + rp);
    vstd::arithmetic::div_mod::lemma_mod_bound(x as int, h);
    if rbit == 1 {
        assert(r == h + rp);
        assert(2 * r > d <==> rp > 0);
        assert(2 * r == d <==> rp == 0);
    } else {
        assert(r == rp);
        assert(2 * r < d);
    }
}

/// Rounding half away from zero by shifting: adding half the divisor and
/// shifting computes `rha_div` for divisors that are powers of two.
proof fn lemma_rha_shift(x: u64, k: u64)
    requires
        1 <= k <= 53,
        x <= 0x20_0000_0000_0000,
    ensures
        ((x + ((1u64 << ((k - 1) as u64)) as u64)) as u64) >> k == rha_div(
            x as int,
            pow2(k as nat) as int,
        ),
{
    let d = pow2(k as nat) as int;
    let h = pow2((k - 1) as nat) as int;
    lemma_u64_pow2_no_overflow(k as nat);
    lemma_u64_pow2_no_overflow((k - 1) as nat);
    vstd::arithmetic::power2::lemma_pow2_adds((k - 1) as nat, 1);
    vstd::arithmetic::power2::lemma2_to64();
    assert(d == h * 2) by (nonlinear_arith)
        requires
            d == h * (pow2(1) as int),
            pow2(1) == 2,
    ;
    assert(h <= 0x10_0000_0000_0000) by {
        vstd::arithmetic::power2::lemma2_to64_rest();
        if ((k - 1) as nat) < 52 {
            vstd::arithmetic::power2::lemma_pow2_strictly_increases((k - 1) as nat, 52);
        }
    }
    lemma_u64_shl_is_mul(1u64, (k - 1) as u64);
    assert((1u64 << ((k - 1) as u64)) == h);
    let sum: u64 = (x + h) as u64;
    lemma_u64_shr_is_div(sum, k);
    assert(d / 2 == h);
}

/// Widens a 32-bit pattern into the 64-bit intermediate.
pub fn widen_f32(b: u32) -> (w: u64)
    ensures
        w == spec_widen(b),
{
    let s: u64 = ((b >> 31) & 1) as u64;
    let e: u64 = ((b >> 23) & 0xFF) as u64;
    let m: u64 = (b & 0x7F_FFFF) as u64;
    proof {
        assert(((b >> 31) & 1 == 1) == f32_sign(b) && ((b >> 23) & 0xFF) == f32_exp(b) && (b
            & 0x7F_FFFF) == f32_frac(b) && ((b >> 31) & 1) < 2 && ((b >> 23) & 0xFF) < 0x100 && (b
            & 0x7F_FFFF) < 0x80_0000) by (bit_vector);
        assert(s == (if f32_sign(b) {
            1u64
        } else {
            0u64
        }));
        assert(e == f32_exp(b) as u64);
        assert(m == f32_frac(b) as u64);
    }
    if e == 0xFF {
        (s << 63) | (0x7FFu64 << 52) | (m << 29)
    } else if e != 0 {
        (s << 63) | ((e + 896) << 52) | (m << 29)
    } else if m == 0 {
        proof {
            lemma_or_zero64(s << 63);
            lemma_or_zero64((s << 63) | 0);
        }
        s << 63
    } else {
        let mut mm: u64 = m;
        let mut ee: i64 = -149;
        proof {
            vstd::arithmetic::power2::lemma2_to64();
        }
        while mm < 0x80_0000
            invariant
                1 <= mm < 0x100_0000,
                -172 <= ee <= -149,
                widen_subnormal(f32_sign(b), mm, ee as int) == widen_subnormal(
                    f32_sign(b),
                    (b & 0x7F_FFFF) as u64,
                    -149,
                ),
                s == if f32_sign(b) {
                    1u64
                } else {
                    0u64
                },
                mm >= pow2((- 149 - ee) as nat),
            decreases 0x100_0000 - mm,
        {
            proof {
                vstd::arithmetic::power2::lemma_pow2_adds((- 149 - ee) as nat, 1);
                vstd::arithmetic::power2::lemma2_to64();
                assert(pow2((- 149 - (ee - 1)) as nat) == pow2((- 149 - ee) as nat) * 2);
                assert(ee >= -171) by {
                    if ee < -171 {
                        if - 149 - ee > 23 {
                            vstd::arithmetic::power2::lemma_pow2_strictly_increases(
                                23,
                                (- 149 - ee) as nat,
                            );
                        }
                    }
                }
            }
            mm = mm * 2;
            ee = ee - 1;
        }
        proof {
            assert(widen_subnormal(f32_sign(b), mm, ee as int) == f64_bits(
                f32_sign(b),
                (ee + 1046) as u64,
                ((mm - 0x80_0000) as u64) << 29,
            ));
        }
        (s << 63) | (((ee + 1046) as u64) << 52) | (((mm - 0x80_0000) as u64) << 29)
    }
}

/// Rounds the 64-bit intermediate to a 32-bit pattern, to nearest with ties
/// to even.
pub fn narrow_f64(w: u64) -> (b: u32)
    ensures
        b == spec_narrow(w),
{
    proof {
        assert(((w >> 63) & 1 == 1) == f64_sign(w) && ((w >> 52) & 0x7FF) == f64_exp(w) && (w
            & 0xF_FFFF_FFFF_FFFF) == f64_frac(w) && ((w >> 63) & 1) < 2 && ((w >> 52) & 0x7FF)
            < 0x800 && (w & 0xF_FFFF_FFFF_FFFF) < 0x10_0000_0000_0000) by (bit_vector);
    }
    let s: u32 = ((w >> 63) & 1) as u32;
    let e: u64 = (w >> 52) & 0x7FF;
    let m: u64 = w & 0xF_FFFF_FFFF_FFFF;
    if e == 0x7FF {
        if m == 0 {
            proof {
                lemma_or_zero32((s << 31) | (0xFFu32 << 23));
            }
            (s << 31) | (0xFFu32 << 23)
        } else {
            let pay: u32 = #[verifier::truncate] ((m >> 29) as u32);
            proof {
                assert((m >> 29) < 0x80_0000 && ((m >> 29) as u32) == (m >> 29)) by (bit_vector)
                    requires
                        m < 0x10_0000_0000_0000,
                ;
            }
            if pay == 0 {
                (s << 31) | (0xFFu32 << 23) | 0x40_0000
            } else {
                (s << 31) | (0xFFu32 << 23) | pay
            }
        }
    } else if e == 0 {
        proof {
            lemma_or_zero32(s << 31);
            lemma_or_zero32((s << 31) | 0);
        }
        s << 31
    } else {
        let sig: u64 = m | 0x10_0000_0000_0000;
        proof {
            assert(m | 0x10_0000_0000_0000 == m + 0x10_0000_0000_0000) by (bit_vector)
                requires
                    m < 0x10_0000_0000_0000,
            ;
        }
        if e >= 1151 {
            // exponent 128 or more: beyond the 32-bit range
            proof {
                lemma_or_zero32((s << 31) | (0xFFu32 << 23));
            }
            (s << 31) | (0xFFu32 << 23)
        } else if e >= 897 {
            proof {
                lemma_rne_shift(sig, 29);
                vstd::arithmetic::power2::lemma2_to64();
            }
            let keep: u64 = sig >> 29;
            let rbit: u64 = (sig >> 28) & 1;
            let sticky: bool = (sig & 0xFFF_FFFF) != 0;
            proof {
                assert((1u64 << 28u64) - 1 == 0xFFF_FFFFu64) by (bit_vector);
                assert(keep < 0x100_0000) by (bit_vector)
                    requires
                        keep == sig >> 29,
                        sig < 0x20_0000_0000_0000,
                ;
            }
            let q: u64 = if rbit == 1 && (sticky || keep & 1 == 1) {
                keep + 1
            } else {
                keep
            };
            if q == 0x100_0000 {
                if e == 1150 {
                    proof {
                        lemma_or_zero32((s << 31) | (0xFFu32 << 23));
                    }
                    (s << 31) | (0xFFu32 << 23)
                } else {
                    proof {
                        lemma_or_zero32((s << 31) | ((((e - 896) + 1) as u32) << 23));
                    }
                    (s << 31) | ((((e - 896) + 1) as u32) << 23)
                }
            } else {
                (s << 31) | (((e - 896) as u32) << 23) | ((q - 0x80_0000) as u32)
            }
        } else {
            // subnormal range of the 32-bit format
            let k: u64 = 926 - e;
            if k >= 54 {
                proof {
                    lemma_or_zero32(s << 31);
                    lemma_or_zero32((s << 31) | 0);
                }
                s << 31
            } else {
                proof {
                    lemma_rne_shift(sig, k);
                }
                let keep: u64 = sig >> k;
                let rbit: u64 = (sig >> (k - 1)) & 1;
                proof {
                    assert((1u64 << ((k - 1) as u64)) >= 1) by (bit_vector)
                        requires
                            1 <= k < 54,
                    ;
                    assert(keep < 0x80_0000) by (bit_vector)
                        requires
                            keep == sig >> k,
                            sig < 0x20_0000_0000_0000,
                            30 <= k < 54,
                    ;
                }
                let sticky: bool = (sig & ((1u64 << (k - 1)) - 1)) != 0;
                let q: u64 = if rbit == 1 && (sticky || keep & 1 == 1) {
                    keep + 1
                } else {
                    keep
                };
                if q >= 0x80_0000 {
                    (s << 31) | (1u32 << 23) | ((q - 0x80_0000) as u32)
                } else {
                    proof {
                        lemma_or_zero32(s << 31);
                    }
                    (s << 31) | (q as u32)
                }
            }
        }
    }
}

/// Scales a 16-bit signed sample into the 64-bit intermediate: exactly
/// `v / 32768`.
pub fn inter_of_s16(v: i16) -> (w: u64)
    ensures
        w == spec_inter_of_s16(v),
{
    if v == 0 {
        return 0;
    }
    let s: u64 = if v < 0 {
        1
    } else {
        0
    };
    let a: u64 = if v == i16::MIN {
        32768
    } else if v < 0 {
        (-v) as u64
    } else {
        v as u64
    };
    let mut mm: u64 = a;
    let mut ee: i64 = -15;
    proof {
        vstd::arithmetic::power2::lemma2_to64();
    }
    while mm < 0x10_0000_0000_0000
        invariant
            1 <= mm < 0x20_0000_0000_0000,
            -67 <= ee <= -15,
            encode_norm(v < 0, mm, ee as int) == encode_norm(
                v < 0,
                (if v == i16::MIN {
                    32768u64
                } else if v < 0 {
                    (-v) as u64
                } else {
                    v as u64
                }),
                -15,
            ),
            s == if v < 0 {
                1u64
            } else {
                0u64
            },
            mm >= pow2((- 15 - ee) as nat),
        decreases 0x20_0000_0000_0000 - mm,
    {
        proof {
            vstd::arithmetic::power2::lemma_pow2_adds((- 15 - ee) as nat, 1);
            vstd::arithmetic::power2::lemma2_to64();
            assert(pow2((- 15 - (ee - 1)) as nat) == pow2((- 15 - ee) as nat) * 2);
            assert(ee >= -66) by {
                if ee < -66 {
                    vstd::arithmetic::power2::lemma2_to64_rest();
                    if - 15 - ee > 52 {
                        vstd::arithmetic::power2::lemma_pow2_strictly_increases(
                            52,
                            (- 15 - ee) as nat,
                        );
                    }
                }
            }
        }
        mm = mm * 2;
        ee = ee - 1;
    }
    proof {
        assert(encode_norm(v < 0, mm, ee as int) == f64_bits(
            v < 0,
            (ee + 1075) as u64,
            (mm - 0x10_0000_0000_0000) as u64,
        ));
    }
    (s << 63) | (((ee + 1075) as u64) << 52) | ((mm - 0x10_0000_0000_0000) as u64)
}

/// Scales the 64-bit intermediate back to a 16-bit signed sample:
/// `value * 32768` rounded to nearest, ties away from zero, clamped.
pub fn inter_to_s16(w: u64) -> (v: i16)
    ensures
        v == spec_inter_to_s16(w),
{
    proof {
        assert(((w >> 63) & 1 == 1) == f64_sign(w) && ((w >> 52) & 0x7FF) == f64_exp(w) && (w
            & 0xF_FFFF_FFFF_FFFF) == f64_frac(w) && (w & 0xF_FFFF_FFFF_FFFF)
            < 0x10_0000_0000_0000) by (bit_vector);
    }
    let neg: bool = (w >> 63) & 1 == 1;
    let e: u64 = (w >> 52) & 0x7FF;
    let m: u64 = w & 0xF_FFFF_FFFF_FFFF;
    if e == 0x7FF {
        if m != 0 {
            0
        } else if neg {
            -32768
        } else {
            32767
        }
    } else if e == 0 {
        0
    } else {
        let sig: u64 = m | 0x10_0000_0000_0000;
        proof {
            assert(m | 0x10_0000_0000_0000 == m + 0x10_0000_0000_0000) by (bit_vector)
                requires
                    m < 0x10_0000_0000_0000,
            ;
        }
        if e >= 1060 {
            // magnitude at least 2^52: clamps either way
            proof {
                let sh = (e as int) - 1060;
                let t = pow2(sh as nat) as int;
                vstd::arithmetic::power2::lemma_pow2_pos(sh as nat);
                assert((sig as int) * t >= sig as int) by (nonlinear_arith)
                    requires
                        sig >= 1,
                        t >= 1,
                ;
                assert((sig as int) * t >= 0x10_0000_0000_0000);
            }
            if neg {
                proof {
                    assert(spec_inter_to_s16(w) == -32768i16);
                }
                -32768
            } else {
                proof {
                    assert(spec_inter_to_s16(w) == 32767i16);
                }
                32767
            }
        } else {
            let k: u64 = 1060 - e;
            if k >= 54 {
                proof {
                    let kk = k as nat;
                    vstd::arithmetic::power2::lemma2_to64_rest();
                    if kk > 54 {
                        vstd::arithmetic::power2::lemma_pow2_strictly_increases(54nat, kk);
                    }
                    vstd::arithmetic::power2::lemma_pow2_adds((kk - 1) as nat, 1);
                    vstd::arithmetic::power2::lemma2_to64();
                    assert(pow2(kk) == pow2((kk - 1) as nat) * (pow2(1) as int));
                    assert(pow2(kk) == pow2((kk - 1) as nat) * 2) by (nonlinear_arith)
                        requires
                            pow2(kk) == pow2((kk - 1) as nat) * (pow2(1) as int),
                            pow2(1) == 2,
                    ;
                    if kk == 54 {
                        vstd::arithmetic::power2::lemma2_to64_rest();
                    } else {
                        vstd::arithmetic::power2::lemma_pow2_strictly_increases(53nat, (kk - 1) as nat);
                    }
                    let d = pow2(kk) as int;
                    let h = d / 2;
                    assert(h == pow2((kk - 1) as nat)) by (nonlinear_arith)
                        requires
                            d == pow2((kk - 1) as nat) * 2,
                            h == d / 2,
                    ;
                    assert(sig < h);
                    assert(rha_div(sig as int, d) == 0) by {
                        vstd::arithmetic::div_mod::lemma_basic_div(sig as int + h, d);
                    }
                }
                0
            } else {
                proof {
                    lemma_rha_shift(sig, k);
                    assert((1u64 << ((k - 1) as u64)) <= 0x10_0000_0000_0000) by (bit_vector)
                        requires
                            1 <= k < 54,
                    ;
                }
                let q: u64 = (sig + (1u64 << (k - 1))) >> k;
                proof {
                    assert((((sig + (1u64 << ((k - 1) as u64))) as u64) >> k)
                        <= 0x20_0000_0000_0000) by (bit_vector)
                        requires
                            1 <= k < 54,
                            sig < 0x20_0000_0000_0000,
                    ;
                }
                proof {
                    assert(q == rha_div(sig as int, pow2(k as nat) as int));
                    assert(spec_inter_to_s16(w) == (if neg {
                        if q >= 32768 {
                            -32768i16
                        } else {
                            (-(q as int)) as i16
                        }
                    } else {
                        if q > 32767 {
                            32767i16
                        } else {
                            q as i16
                        }
                    }));
                }
                if neg {
                    if q >= 32768 {
                        -32768
                    } else {
                        -(q as i16)
                    }
                } else {
                    if q > 32767 {
                        32767
                    } else {
                        q as i16
                    }
                }
            }
        }
    }
}

} // verus!
