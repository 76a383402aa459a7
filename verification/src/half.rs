//! Conversions between the bit patterns of IEEE 754 binary32 and binary16
//! values, as the tiles store their channels. Only bit patterns are
//! handled here; turning an `f32` into its bits and back is left to the
//! caller.

use vstd::prelude::*;
use vstd::arithmetic::power2::{lemma2_to64, lemma_pow2_adds, lemma_pow2_strictly_increases, lemma_pow2_unfold, pow2};
use vstd::arithmetic::div_mod::{lemma_div_multiples_vanish, lemma_mod_multiples_basic};
use vstd::bits::{lemma_u32_pow2_no_overflow, lemma_u32_shl_is_mul};

verus! {

/// `x / 2^k` rounded to the nearest integer, ties to even.
pub open spec fn round_shift(x: nat, k: nat) -> nat {
    let d = pow2(k);
    let q = x / d;
    let r = x % d;
    if 2 * r > d || (2 * r == d && q % 2 == 1) {
        q + 1
    } else {
        q
    }
}

/// The binary16 magnitude bits for a finite binary32 value with biased
/// exponent `exp` and fraction `frac`: rounded to nearest, ties to even;
/// too large becomes infinity, too small becomes zero.
pub open spec fn half_magnitude(exp: nat, frac: nat) -> nat {
    if exp >= 143 {
        0x7C00
    } else if exp >= 113 {
        round_shift(((exp - 112) * 8388608 + frac) as nat, 13)
    } else if exp >= 102 {
        round_shift(frac + 8388608, (126 - exp) as nat)
    } else {
        0
    }
}

/// The binary16 NaN payload kept from a binary32 NaN fraction: its top
/// ten bits with the quiet bit set.
pub open spec fn nan_payload(frac: nat) -> nat {
    let p = frac / 8192;
    if (p / 512) % 2 == 1 {
        p
    } else {
        p + 512
    }
}

/// The binary16 bits nearest to the binary32 value with bits `bits`.
pub open spec fn f16_of_f32_bits(bits: u32) -> u16 {
    let sign = bits / 0x8000_0000;
    let exp = bits / 0x80_0000 % 256;
    let frac = bits % 0x80_0000;
    (sign * 0x8000 + if exp == 255 {
        0x7C00 + if frac != 0 {
            nan_payload(frac as nat)
        } else {
            0
        }
    } else {
        half_magnitude(exp as nat, frac as nat)
    }) as u16
}

/// How often a non-zero binary16 subnormal fraction `m` is doubled before
/// it reaches 1024.
pub open spec fn doublings(m: nat) -> nat
    decreases (if m < 1024 { 1024 - m } else { 0 }),
{
    if m == 0 || m >= 1024 {
        0
    } else {
        1 + doublings(2 * m)
    }
}

/// The binary32 bits of the value that binary16 bits `bits` denote. A
/// subnormal `frac * 2^-24` is normalised by doubling its fraction `k`
/// times, which gives the biased binary32 exponent `127 - 14 - k`.
pub open spec fn f32_of_f16_bits(bits: u16) -> u32 {
    let sign = bits / 0x8000;
    let exp = bits / 0x400 % 32;
    let frac = bits % 0x400;
    (sign * 0x8000_0000 + if exp == 0 {
        if frac == 0 {
            0
        } else {
            let k = doublings(frac as nat);
            (113 - k) * 0x80_0000 + (frac * pow2(k) % 1024) * 8192
        }
    } else if exp == 31 {
        0x7F80_0000 + frac * 8192
    } else {
        (exp + 112) * 0x80_0000 + frac * 8192
    }) as u32
}


fn round_shift_exec(x: u32, k: u32) -> (r: u32)
    requires
        k < 32,
        x < 0x8000_0000,
    ensures
        r == round_shift(x as nat, k as nat),
        r <= x as nat / pow2(k as nat) + 1,
{
    proof {
        lemma_u32_pow2_no_overflow(k as nat);
        lemma_u32_shl_is_mul(1u32, k);
    }
    let d: u32 = 1u32 << k;
    let q = x / d;
    let r = x % d;
    assert(r <= x) by (nonlinear_arith)
        requires
            r == x % d,
            d > 0,
    ;
    if 2 * r > d || (2 * r == d && q % 2 == 1) {
        q + 1
    } else {
        q
    }
}

/// The binary16 bits nearest to the binary32 value with bits `bits`
/// (round to nearest, ties to even; overflow becomes infinity; NaN stays
/// NaN).
pub fn f32_bits_to_f16_bits(bits: u32) -> (r: u16)
    ensures
        r == f16_of_f32_bits(bits),
{
    let sign = bits / 0x8000_0000;
    let exp = bits / 0x80_0000 % 256;
    let frac = bits % 0x80_0000;
    let mag: u32 = if exp == 255 {
        if frac != 0 {
            let p = frac / 8192;
            0x7C00 + if (p / 512) % 2 == 1 {
                p
            } else {
                p + 512
            }
        } else {
            0x7C00
        }
    } else if exp >= 143 {
        0x7C00
    } else if exp >= 113 {
        proof {
            lemma2_to64();
        }
        let x = (exp - 112) * 0x80_0000 + frac;
        let r = round_shift_exec(x, 13);
        assert(x as nat / pow2(13) < 31744);
        r
    } else if exp >= 102 {
        let k = 126 - exp;
        proof {
            lemma2_to64();
            if k > 14 {
                lemma_pow2_strictly_increases(14, k as nat);
            }
        }
        let x = frac + 0x80_0000;
        let r = round_shift_exec(x, k);
        assert(x as nat / pow2(k as nat) <= 1024) by (nonlinear_arith)
            requires
                x < 0x100_0000,
                pow2(k as nat) >= 16384,
        ;
        r
    } else {
        0
    };
    assert(mag < 0x8000);
    (sign * 0x8000 + mag) as u16
}

/// The binary32 bits for binary16 bits `bits`.
pub fn f16_bits_to_f32_bits(bits: u16) -> (r: u32)
    ensures
        r == f32_of_f16_bits(bits),
{
    let sign: u32 = (bits / 0x8000) as u32;
    let exp: u32 = (bits / 0x400 % 32) as u32;
    let frac: u32 = (bits % 0x400) as u32;
    let mag: u32 = if exp == 0 {
        if frac == 0 {
            0
        } else {
            let mut m: u32 = frac;
            let mut k: u32 = 0;
            proof {
                lemma2_to64();
            }
            while m < 1024
                invariant
                    1 <= frac < 1024,
                    1 <= m < 2048,
                    m == frac * pow2(k as nat),
                    pow2(k as nat) <= m,
                    k <= 10,
                    doublings(frac as nat) == k + doublings(m as nat),
                    pow2(10) == 1024,
                decreases 10 - k,
            {
                proof {
                    lemma_pow2_unfold((k + 1) as nat);
                    assert(frac * pow2((k + 1) as nat) == 2 * (frac * pow2(k as nat))) by (nonlinear_arith)
                        requires
                            pow2((k + 1) as nat) == 2 * pow2(k as nat),
                    ;
                    if k >= 10 {
                        if k > 10 {
                            lemma_pow2_strictly_increases(10, k as nat);
                        }
                        assert(false);
                    }
                }
                m = m * 2;
                k += 1;
            }
            (113 - k) * 0x80_0000 + (m % 1024) * 8192
        }
    } else if exp == 31 {
        0x7F80_0000 + frac * 8192
    } else {
        (exp + 112) * 0x80_0000 + frac * 8192
    };
    sign * 0x8000_0000 + mag
}


/// Doubling a fraction `m` in `[1, 2048)` `doublings(m)` times lands it
/// in `[1024, 2048)`, after at most ten doublings.
proof fn lemma_doublings(m: nat)
    requires
        1 <= m < 2048,
    ensures
        1024 <= m * pow2(doublings(m)) < 2048,
        doublings(m) <= 10,
    decreases (if m < 1024 { 1024 - m } else { 0 }),
{
    lemma2_to64();
    if m < 1024 {
        let d = doublings(2 * m);
        lemma_doublings(2 * m);
        lemma_pow2_unfold(d + 1);
        assert(doublings(m) == d + 1);
        assert(m * pow2(d + 1) == (2 * m) * pow2(d)) by (nonlinear_arith)
            requires
                pow2(d + 1) == 2 * pow2(d),
        ;
        assert(pow2(d + 1) <= m * pow2(d + 1)) by (nonlinear_arith)
            requires
                m >= 1,
        ;
        if d + 1 > 10 {
            if d + 1 > 11 {
                lemma_pow2_strictly_increases(11, d + 1);
            }
            assert(false);
        }
    } else {
        assert(doublings(m) == 0);
        assert(m * pow2(0) == m);
    }
}

/// Widening binary16 bits to binary32 and narrowing them back gives the
/// same bits, for zeros, subnormals, normal numbers, infinities and quiet
/// NaNs (a signalling NaN comes back quieted).
pub proof fn law_half_round_trip(h: u16)
    requires
        h / 0x400 % 32 != 31 || h % 0x400 == 0 || (h % 0x400) / 512 % 2 == 1,
    ensures
        f16_of_f32_bits(f32_of_f16_bits(h)) == h,
{
    let sign = h / 0x8000;
    let exp = h / 0x400 % 32;
    let frac = h % 0x400;
    assert(h == sign * 0x8000 + exp * 0x400 + frac);
    let b = f32_of_f16_bits(h);
    lemma2_to64();
    if exp == 0 {
        if frac == 0 {
            assert(b == sign * 0x8000_0000);
            assert(b / 0x8000_0000 == sign);
            assert(b / 0x80_0000 % 256 == 0);
            assert(b % 0x80_0000 == 0);
        } else {
            let k = doublings(frac as nat);
            lemma_doublings(frac as nat);
            let m = frac * pow2(k);
            let f32frac = (m - 1024) as nat;
            assert(m % 1024 == f32frac);
            let e32 = (113 - k) as nat;
            assert(b == sign * 0x8000_0000 + e32 * 0x80_0000 + f32frac * 8192);
            assert(b / 0x8000_0000 == sign);
            assert(b / 0x80_0000 % 256 == e32);
            assert(b % 0x80_0000 == f32frac * 8192);
            assert(102 <= e32 < 113);
            let x = (f32frac * 8192 + 8388608) as nat;
            let sh = (126 - e32) as nat;
            assert(sh == 13 + k);
            lemma_pow2_adds(13, k);
            assert(x == m * 8192);
            assert(x == frac * pow2(sh)) by (nonlinear_arith)
                requires
                    x == m * 8192,
                    m == frac * pow2(k),
                    pow2(sh) == pow2(13) * pow2(k),
                    pow2(13) == 8192,
            ;
            let d: int = pow2(sh) as int;
            vstd::arithmetic::power2::lemma_pow2_pos(sh);
            lemma_div_multiples_vanish(frac as int, d);
            lemma_mod_multiples_basic(frac as int, d);
            assert((x as int) / d == frac) by (nonlinear_arith)
                requires
                    x == frac * d,
                    (d * (frac as int)) / d == frac,
            ;
            assert((x as int) % d == 0) by (nonlinear_arith)
                requires
                    x == frac * d,
                    ((frac as int) * d) % d == 0,
            ;
            assert(round_shift(x, sh) == frac);
            assert(half_magnitude(e32, f32frac * 8192) == frac);
        }
    } else if exp == 31 {
        assert(b == sign * 0x8000_0000 + 0x7F80_0000 + frac * 8192);
        assert(b / 0x8000_0000 == sign);
        assert(b / 0x80_0000 % 256 == 255);
        assert(b % 0x80_0000 == frac * 8192);
        assert((frac * 8192) / 8192 == frac);
        if frac != 0 {
            assert(nan_payload((frac * 8192) as nat) == frac);
        }
    } else {
        let e32 = exp + 112;
        assert(b == sign * 0x8000_0000 + e32 * 0x80_0000 + frac * 8192);
        assert(b / 0x8000_0000 == sign);
        assert(b / 0x80_0000 % 256 == e32);
        assert(b % 0x80_0000 == frac * 8192);
        let x = ((e32 - 112) * 8388608 + frac * 8192) as nat;
        assert(x == 8192 * (exp * 1024 + frac));
        assert(x / 8192 == exp * 1024 + frac);
        assert(x % 8192 == 0);
        assert(round_shift(x, 13) == exp * 1024 + frac);
    }
}

} // verus!
