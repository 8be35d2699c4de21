//! The 64-bit floating-point number nearest to a 64-bit integer, computed
//! on integers.

use vstd::arithmetic::power2::{
    lemma2_to64, lemma2_to64_rest, lemma_pow2_adds, lemma_pow2_pos, lemma_pow2_strictly_increases,
    lemma_pow2_unfold, pow2,
};
use vstd::prelude::*;

verus! {

/// The position of the highest set bit of `m`: the `e` with
/// `2^e <= m < 2^(e+1)`, and 0 for 0.
pub open spec fn exponent_of(m: nat) -> nat
    decreases m,
{
    if m < 2 {
        0
    } else {
        1 + exponent_of(m / 2)
    }
}

/// The 53-bit significand of the floating-point number nearest to `m`,
/// between `2^52` and `2^53`: `m` scaled up where it has fewer bits, and
/// rounded to the nearest multiple of the dropped bits' unit, ties to the
/// even one, where it has more.
pub open spec fn significand_of(m: nat) -> nat {
    let e = exponent_of(m);
    if e <= 52 {
        m * pow2((52 - e) as nat)
    } else {
        let unit = pow2((e - 52) as nat);
        let kept = m / unit;
        let dropped = m % unit;
        if 2 * dropped > unit || (2 * dropped == unit && kept % 2 == 1) {
            kept + 1
        } else {
            kept
        }
    }
}

/// The IEEE 754 binary64 bit pattern of the floating-point number nearest
/// to `i` (ties to even), as a number: the sign bit, the biased exponent
/// in the next eleven bits, and the significand without its leading bit in
/// the low 52. A significand that rounding carried to `2^53` raises the
/// exponent by one, which the sum does by itself.
pub open spec fn float_code_of_int(i: int) -> int {
    if i == 0 {
        0
    } else {
        let m = (if i < 0 {
            -i
        } else {
            i
        }) as nat;
        let sign: int = if i < 0 {
            0x8000_0000_0000_0000
        } else {
            0
        };
        sign + (1022 + exponent_of(m)) * 0x10_0000_0000_0000 + significand_of(m)
    }
}

/// The bit pattern of the floating-point number nearest to `i`, in 64
/// bits; for a 64-bit `i` nothing is cut off (see
/// [`lemma_float_code_fits`]).
pub open spec fn float_bits_of_int(i: int) -> u64 {
    float_code_of_int(i) as u64
}

/// The highest bit of a positive number brackets it.
pub proof fn lemma_exponent_brackets(m: nat)
    requires
        m >= 1,
    ensures
        pow2(exponent_of(m)) <= m < 2 * pow2(exponent_of(m)),
    decreases m,
{
    if m >= 2 {
        lemma_exponent_brackets(m / 2);
        lemma_pow2_unfold(exponent_of(m));
    } else {
        lemma2_to64();
    }
}

/// The significand of a positive number below `2^64` is at most `2^53`,
/// and its highest bit is below 64.
pub proof fn lemma_significand_fits(m: nat)
    requires
        1 <= m <= u64::MAX,
    ensures
        exponent_of(m) <= 63,
        significand_of(m) <= 0x20_0000_0000_0000,
{
    let e = exponent_of(m);
    lemma_exponent_brackets(m);
    lemma2_to64();
    lemma2_to64_rest();
    if e >= 64 {
        if e > 64 {
            lemma_pow2_strictly_increases(64, e);
        }
        assert(false);
    }
    if e <= 52 {
        let scale = pow2((52 - e) as nat);
        lemma_pow2_pos((52 - e) as nat);
        lemma_pow2_adds(e, (52 - e) as nat);
        assert(m * scale < 2 * pow2(e) * scale) by (nonlinear_arith)
            requires
                m < 2 * pow2(e),
                scale > 0,
        ;
        assert(2 * pow2(e) * scale == 2 * (pow2(e) * scale)) by (nonlinear_arith);
    } else {
        let unit = pow2((e - 52) as nat);
        lemma_pow2_pos((e - 52) as nat);
        lemma_pow2_adds((e - 52) as nat, 52);
        assert(m / unit < 0x20_0000_0000_0000) by (nonlinear_arith)
            requires
                m < unit * 0x20_0000_0000_0000,
                unit > 0,
        ;
    }
}

/// A number of at most 53 bits is kept exactly: its significand, scaled
/// back by the exponent, is the number.
pub proof fn lemma_significand_exact(m: nat)
    requires
        m >= 1,
        exponent_of(m) <= 52,
    ensures
        significand_of(m) * pow2(exponent_of(m)) == m * pow2(52),
{
    let e = exponent_of(m);
    lemma_pow2_adds((52 - e) as nat, e);
    assert(m * pow2((52 - e) as nat) * pow2(e) == m * (pow2((52 - e) as nat) * pow2(e)))
        by (nonlinear_arith);
}

/// A number of more than 53 bits is rounded to the nearest multiple of the
/// unit of its dropped bits: the significand times the unit is at most
/// half a unit away, and where it is exactly half a unit away the
/// significand is even.
pub proof fn lemma_significand_nearest(m: nat)
    requires
        exponent_of(m) > 52,
    ensures
        ({
            let unit = pow2((exponent_of(m) - 52) as nat);
            let distance = if significand_of(m) * unit >= m {
                significand_of(m) * unit - m
            } else {
                m - significand_of(m) * unit
            };
            &&& 2 * distance <= unit
            &&& 2 * distance == unit ==> significand_of(m) % 2 == 0
        }),
{
    let unit = pow2((exponent_of(m) - 52) as nat);
    lemma_pow2_pos((exponent_of(m) - 52) as nat);
    let kept = m / unit;
    let dropped = m % unit;
    assert(m == kept * unit + dropped && 0 <= dropped < unit) by (nonlinear_arith)
        requires
            unit > 0,
            kept == m / unit,
            dropped == m % unit,
    ;
    assert((kept + 1) * unit == kept * unit + unit) by (nonlinear_arith);
}

/// The bit pattern of the floating-point number nearest to a 64-bit
/// integer fits 64 bits.
pub proof fn lemma_float_code_fits(i: int)
    requires
        i64::MIN <= i <= i64::MAX,
    ensures
        0 <= float_code_of_int(i) <= u64::MAX,
        float_bits_of_int(i) == float_code_of_int(i),
{
    if i != 0 {
        let m = (if i < 0 {
            -i
        } else {
            i
        }) as nat;
        lemma_significand_fits(m);
        assert((1022 + exponent_of(m)) * 0x10_0000_0000_0000 <= 1085 * 0x10_0000_0000_0000)
            by (nonlinear_arith)
            requires
                exponent_of(m) <= 63,
        ;
    }
}

/// A number between `2^e` and `2^(e+1)` has its highest bit at `e`.
proof fn lemma_exponent(m: nat, e: nat)
    requires
        pow2(e) <= m < 2 * pow2(e),
    ensures
        exponent_of(m) == e,
    decreases e,
{
    lemma_pow2_pos(e);
    if e == 0 {
        lemma2_to64();
    } else {
        lemma_pow2_unfold(e);
        lemma_exponent(m / 2, (e - 1) as nat);
    }
}

/// `2^k`, for `k` below 64.
fn power_of_two(k: u64) -> (p: u64)
    requires
        k <= 63,
    ensures
        p == pow2(k as nat),
        p > 0,
{
    let mut p: u64 = 1;
    let mut i: u64 = 0;
    proof {
        lemma2_to64();
    }
    while i < k
        invariant
            i <= k <= 63,
            p == pow2(i as nat),
            p > 0,
        decreases k - i,
    {
        proof {
            lemma_pow2_unfold((i + 1) as nat);
            lemma2_to64();
            lemma2_to64_rest();
            if i + 1 < 63 {
                lemma_pow2_strictly_increases((i + 1) as nat, 63);
            }
        }
        p = p * 2;
        i += 1;
    }
    p
}

/// The position of the highest set bit of `m`.
fn exponent(m: u64) -> (e: u64)
    requires
        m > 0,
    ensures
        e == exponent_of(m as nat),
        e <= 63,
        pow2(e as nat) <= m < 2 * pow2(e as nat),
{
    let mut e: u64 = 0;
    let mut top: u64 = 1;
    proof {
        lemma2_to64();
    }
    while top <= m / 2
        invariant
            top == pow2(e as nat),
            1 <= top <= m,
            e <= 63,
        decreases m - top,
    {
        proof {
            lemma_pow2_unfold((e + 1) as nat);
            lemma2_to64();
            if e + 1 >= 64 {
                if e + 1 > 64 {
                    lemma_pow2_strictly_increases(64, (e + 1) as nat);
                }
                assert(false);
            }
        }
        top = top * 2;
        e += 1;
    }
    proof {
        lemma_exponent(m as nat, e as nat);
    }
    e
}

/// The bit pattern of the floating-point number nearest to `value`.
pub fn int_to_float_bits(value: i64) -> (bits: u64)
    ensures
        bits == float_bits_of_int(value as int),
        bits == float_code_of_int(value as int),
{
    if value == 0 {
        return 0;
    }
    let sign: u64 = if value < 0 {
        0x8000_0000_0000_0000
    } else {
        0
    };
    let m: u64 = if value < 0 {
        (-(value + 1)) as u64 + 1
    } else {
        value as u64
    };
    let e = exponent(m);
    proof {
        lemma_significand_fits(m as nat);
        lemma_float_code_fits(value as int);
    }
    let significand: u64 = if e <= 52 {
        let scale = power_of_two(52 - e);
        m * scale
    } else {
        let unit = power_of_two(e - 52);
        let kept = m / unit;
        let dropped = m % unit;
        proof {
            lemma2_to64();
            lemma_pow2_strictly_increases((e - 52) as nat, 12);
        }
        if 2 * dropped > unit || (2 * dropped == unit && kept % 2 == 1) {
            kept + 1
        } else {
            kept
        }
    };
    proof {
        assert((1022 + e) * 0x10_0000_0000_0000 <= 1085 * 0x10_0000_0000_0000) by (nonlinear_arith)
            requires
                e <= 63,
        ;
    }
    sign + (1022 + e) * 0x10_0000_0000_0000 + significand
}

} // verus!
