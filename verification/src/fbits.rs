use vstd::prelude::*;

verus! {

use core::cmp::Ordering;
use vstd::arithmetic::power2::{pow2, lemma_pow2_adds, lemma_pow2_unfold, lemma2_to64};

// JSON numbers that are not integral are carried as the bit pattern of an
// IEEE 754 binary64 value. This module gives those bit patterns the same
// comparison semantics as the native comparison of the values they encode,
// in plain integer arithmetic: the sign is the top bit, the exponent the
// next 11 bits, the fraction the low 52 bits.

/// 2^52: the first fraction overflow bit of a binary64 pattern.
pub const FRAC_ONE: u64 = 0x10_0000_0000_0000;

/// 2^53: one past the largest 53-bit significand.
pub const FRAC_TWO: u64 = 0x20_0000_0000_0000;

/// 2^63: the sign bit of a binary64 pattern (also the pattern of -0.0).
pub const SIGN_BIT: u64 = 0x8000_0000_0000_0000;

/// True when the pattern encodes a NaN: exponent field all ones and a
/// non-zero fraction.
pub open spec fn fbits_is_nan(bits: u64) -> bool {
    (bits / FRAC_ONE) % 2048 == 2047 && bits % FRAC_ONE != 0
}

/// The comparison that the encoded values have under the native partial
/// order: NaN compares with nothing; -0.0 equals +0.0; otherwise patterns
/// with the sign bit clear order as their magnitude, patterns with the sign
/// bit set order reversed, and every negative value is below every
/// non-negative one.
pub open spec fn fbits_cmp(a: u64, b: u64) -> Option<Ordering> {
    if fbits_is_nan(a) || fbits_is_nan(b) {
        None
    } else {
        let x = if a == SIGN_BIT { 0u64 } else { a };
        let y = if b == SIGN_BIT { 0u64 } else { b };
        if x == y {
            Some(Ordering::Equal)
        } else {
            let sx = x / SIGN_BIT;
            let sy = y / SIGN_BIT;
            if sx != sy {
                if sx == 1 {
                    Some(Ordering::Less)
                } else {
                    Some(Ordering::Greater)
                }
            } else if sx == 0 {
                if x < y {
                    Some(Ordering::Less)
                } else {
                    Some(Ordering::Greater)
                }
            } else {
                if x < y {
                    Some(Ordering::Greater)
                } else {
                    Some(Ordering::Less)
                }
            }
        }
    }
}

/// Compares two binary64 bit patterns as the encoded values compare.
pub fn compare_fbits(a: u64, b: u64) -> (r: Option<Ordering>)
    ensures
        r == fbits_cmp(a, b),
{
    let a_nan = (a / FRAC_ONE) % 2048 == 2047 && a % FRAC_ONE != 0;
    let b_nan = (b / FRAC_ONE) % 2048 == 2047 && b % FRAC_ONE != 0;
    if a_nan || b_nan {
        return None;
    }
    let x = if a == SIGN_BIT { 0u64 } else { a };
    let y = if b == SIGN_BIT { 0u64 } else { b };
    if x == y {
        Some(Ordering::Equal)
    } else {
        let sx = x / SIGN_BIT;
        let sy = y / SIGN_BIT;
        if sx != sy {
            if sx == 1 {
                Some(Ordering::Less)
            } else {
                Some(Ordering::Greater)
            }
        } else if sx == 0 {
            if x < y {
                Some(Ordering::Less)
            } else {
                Some(Ordering::Greater)
            }
        } else {
            if x < y {
                Some(Ordering::Greater)
            } else {
                Some(Ordering::Less)
            }
        }
    }
}

/// The position of the highest set bit: `pow2(msb(v)) <= v < pow2(msb(v)+1)`
/// for `v >= 1`.
pub open spec fn msb(v: u64) -> nat
    decreases v,
{
    if v < 2 {
        0
    } else {
        (1 + msb(v / 2)) as nat
    }
}

proof fn lemma_msb_from_bounds(v: u64, e: nat)
    requires
        pow2(e) <= v < pow2((e + 1) as nat),
    ensures
        msb(v) == e,
    decreases e,
{
    if e == 0 {
        lemma2_to64();
    } else {
        lemma_pow2_unfold(e);
        lemma_pow2_unfold((e + 1) as nat);
        assert(pow2((e - 1) as nat) <= v / 2 < pow2(e));
        lemma_msb_from_bounds(v / 2, (e - 1) as nat);
    }
}

/// The binary64 bit pattern of `v` rounded to the nearest representable
/// value, ties to even: the pattern of `v as binary64`.
pub open spec fn u64_to_fbits_spec(v: u64) -> int {
    if v == 0 {
        0
    } else {
        let e = msb(v) as int;
        if e <= 52 {
            (e + 1023) * FRAC_ONE + v * pow2((52 - e) as nat) - FRAC_ONE
        } else {
            let d = pow2((e - 52) as nat) as int;
            let keep = v as int / d;
            let rest = v as int % d;
            let half = d / 2;
            let round = rest > half || (rest == half && keep % 2 == 1);
            let keep2 = if round { keep + 1 } else { keep };
            if keep2 == FRAC_TWO {
                (e + 1024) * FRAC_ONE
            } else {
                (e + 1023) * FRAC_ONE + keep2 - FRAC_ONE
            }
        }
    }
}

/// Computes the binary64 pattern of an unsigned 64-bit integer, rounding to
/// nearest, ties to even.
pub fn u64_to_fbits(v: u64) -> (r: u64)
    ensures
        r == u64_to_fbits_spec(v),
        r < SIGN_BIT,
{
    if v == 0 {
        return 0;
    }
    let mut e: u64 = 0;
    let mut p2: u64 = 1;
    proof {
        lemma2_to64();
    }
    while p2 <= v / 2
        invariant
            1 <= v,
            p2 == pow2(e as nat),
            p2 <= v,
            e <= 63,
        decreases 64 - e,
    {
        proof {
            lemma_pow2_unfold((e + 1) as nat);
            if e >= 63 {
                vstd::arithmetic::power2::lemma2_to64_rest();
                assert(pow2(63) == 0x8000_0000_0000_0000) by {
                    vstd::arithmetic::power2::lemma2_to64_rest();
                }
                assert(false);
            }
        }
        p2 = p2 * 2;
        e = e + 1;
    }
    proof {
        lemma_pow2_unfold((e + 1) as nat);
        assert(v < 2 * p2);
        lemma_msb_from_bounds(v, e as nat);
    }
    if e <= 52 {
        let q = FRAC_ONE / p2;
        proof {
            lemma_pow2_adds((52 - e) as nat, e as nat);
            assert(pow2((52 - e) as nat) * p2 == FRAC_ONE) by {
                lemma2_to64_rest_52();
            }
            assert(q == pow2((52 - e) as nat)) by (nonlinear_arith)
                requires
                    pow2((52 - e) as nat) * p2 == FRAC_ONE,
                    q == FRAC_ONE / p2,
                    p2 > 0,
            ;
            vstd::arithmetic::power2::lemma_pow2_pos((52 - e) as nat);
            assert(q > 0);
            assert(v * q < FRAC_TWO) by (nonlinear_arith)
                requires
                    v < 2 * p2,
                    q * p2 == FRAC_ONE,
                    FRAC_TWO == 2 * FRAC_ONE,
                    q > 0,
                    p2 > 0,
            ;
            assert(v * q >= FRAC_ONE) by (nonlinear_arith)
                requires
                    v >= p2,
                    q * p2 == FRAC_ONE,
                    q > 0,
                    p2 > 0,
            ;
        }
        let frac = v * q;
        let bits = (e + 1023) * FRAC_ONE + frac - FRAC_ONE;
        return bits;
    }
    let d = p2 / FRAC_ONE;
    proof {
        lemma_pow2_adds((e - 52) as nat, 52);
        assert(pow2((e - 52) as nat) * FRAC_ONE == p2) by {
            lemma2_to64_rest_52();
        }
        assert(d == pow2((e - 52) as nat)) by (nonlinear_arith)
            requires
                pow2((e - 52) as nat) * FRAC_ONE == p2,
                d == p2 / FRAC_ONE,
        ;
        assert(d >= 2) by {
            lemma_pow2_unfold((e - 52) as nat);
            vstd::arithmetic::power2::lemma_pow2_pos((e - 53) as nat);
        }
        assert(v / d >= p2 / d) by (nonlinear_arith)
            requires
                v >= p2,
                d > 0,
        ;
        assert(p2 / d == FRAC_ONE) by (nonlinear_arith)
            requires
                d * FRAC_ONE == p2,
                d > 0,
        ;
        assert(v / d < 2 * FRAC_ONE) by (nonlinear_arith)
            requires
                v < 2 * p2,
                d * FRAC_ONE == p2,
                d > 0,
        ;
    }
    let keep = v / d;
    let rest = v % d;
    let half = d / 2;
    let round = rest > half || (rest == half && keep % 2 == 1);
    if round && keep == FRAC_TWO - 1 {
        (e + 1024) * FRAC_ONE
    } else {
        let keep2 = if round { keep + 1 } else { keep };
        (e + 1023) * FRAC_ONE + keep2 - FRAC_ONE
    }
}

proof fn lemma2_to64_rest_52()
    ensures
        pow2(52) == 0x10_0000_0000_0000,
        pow2(53) == 0x20_0000_0000_0000,
{
    vstd::arithmetic::power2::lemma2_to64_rest();
}

/// The binary64 bit pattern of a signed 64-bit integer, rounding to nearest,
/// ties to even.
pub open spec fn i64_to_fbits_spec(v: i64) -> int {
    if v >= 0 {
        u64_to_fbits_spec(v as u64)
    } else {
        SIGN_BIT + u64_to_fbits_spec((-(v as int)) as u64)
    }
}

/// Computes the binary64 pattern of a signed 64-bit integer.
pub fn i64_to_fbits(v: i64) -> (r: u64)
    ensures
        r == i64_to_fbits_spec(v),
{
    if v >= 0 {
        u64_to_fbits(v as u64)
    } else {
        let m: u64 = if v == i64::MIN {
            SIGN_BIT
        } else {
            (-v) as u64
        };
        assert(m == (-(v as int)) as u64);
        SIGN_BIT + u64_to_fbits(m)
    }
}

} // verus!
