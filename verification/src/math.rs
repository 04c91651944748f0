//! Small arithmetic helpers shared by the decision core: scaled comparisons
//! and an integer square root.

use vstd::prelude::*;

verus! {

/// Comparing a scaled value against a threshold product is the same as
/// comparing the value against the floor-divided threshold:
/// `x * scale > y` exactly when `x > y / scale`.
pub proof fn lemma_scaled_gt(x: int, y: int, scale: int)
    requires
        x >= 0,
        y >= 0,
        scale >= 1,
    ensures
        (x * scale > y) <==> (x > y / scale),
{
    vstd::arithmetic::div_mod::lemma_fundamental_div_mod(y, scale);
    let q = y / scale;
    let m = y % scale;
    assert(y == scale * q + m);
    assert(q * scale == scale * q) by (nonlinear_arith);
    assert(0 <= m < scale);
    if x > q {
        assert(x >= q + 1);
        assert(x * scale >= (q + 1) * scale) by (nonlinear_arith)
            requires
                x >= q + 1,
                scale >= 1,
        ;
        assert((q + 1) * scale == q * scale + scale) by (nonlinear_arith);
        assert(x * scale > y);
    } else {
        assert(x <= q);
        assert(x * scale <= q * scale) by (nonlinear_arith)
            requires
                x <= q,
                scale >= 1,
        ;
        assert(x * scale <= y);
    }
}

/// A non-negative numerator only shrinks under division by a positive
/// denominator.
pub proof fn lemma_div_le_numerator(a: int, b: int)
    requires
        a >= 0,
        b >= 1,
    ensures
        0 <= a / b <= a,
{
    assert(0 <= a / b <= a) by (nonlinear_arith)
        requires
            a >= 0,
            b >= 1,
    ;
}

/// A part scaled to basis points of the whole stays within ten thousand.
pub proof fn lemma_ratio_bps_bounded(part: int, whole: int)
    requires
        0 <= part <= whole,
        whole >= 1,
    ensures
        0 <= part * 10000 / whole <= 10000,
{
    assert(part * 10000 <= whole * 10000) by (nonlinear_arith)
        requires
            0 <= part <= whole,
    ;
    assert(part * 10000 / whole <= whole * 10000 / whole) by (nonlinear_arith)
        requires
            whole >= 1,
            0 <= part * 10000 <= whole * 10000,
    ;
    assert(whole * 10000 / whole == 10000) by (nonlinear_arith)
        requires
            whole >= 1,
    ;
    assert(part * 10000 / whole >= 0) by (nonlinear_arith)
        requires
            part >= 0,
            whole >= 1,
    ;
}

/// `x` clamped into the `u64` range: negative amounts become zero and
/// overlarge ones the largest representable amount.
pub open spec fn sat_u64(x: int) -> int {
    if x < 0 {
        0
    } else if x > u64::MAX {
        u64::MAX as int
    } else {
        x
    }
}

/// `x` clamped into the `i64` range.
pub open spec fn sat_i64(x: int) -> int {
    if x < i64::MIN {
        i64::MIN as int
    } else if x > i64::MAX {
        i64::MAX as int
    } else {
        x
    }
}

/// The sum of `a` and `b` clamped into the `i128` range.
pub open spec fn sat_add_i128(a: int, b: int) -> int {
    if a + b < i128::MIN {
        i128::MIN as int
    } else if a + b > i128::MAX {
        i128::MAX as int
    } else {
        a + b
    }
}

/// The integer square root of a non-negative number: the unique `r >= 0`
/// with `r * r <= x < (r + 1) * (r + 1)`.
pub open spec fn spec_isqrt(x: int) -> int {
    choose|r: int| r >= 0 && #[trigger] (r * r) <= x < (r + 1) * (r + 1)
}

/// Two integer square roots of the same number coincide.
pub proof fn lemma_isqrt_unique(x: int, a: int, b: int)
    requires
        a >= 0,
        b >= 0,
        a * a <= x < (a + 1) * (a + 1),
        b * b <= x < (b + 1) * (b + 1),
    ensures
        a == b,
{
    if a < b {
        assert((a + 1) * (a + 1) <= b * b) by (nonlinear_arith)
            requires
                0 <= a < b,
        ;
    }
    if b < a {
        assert((b + 1) * (b + 1) <= a * a) by (nonlinear_arith)
            requires
                0 <= b < a,
        ;
    }
}

/// The integer square root: the largest `r` with `r * r <= x`.
pub fn isqrt(x: u128) -> (r: u64)
    ensures
        (r as int) * (r as int) <= x,
        x < (r as int + 1) * (r as int + 1),
        r == spec_isqrt(x as int),
{
    if x == 0 {
        proof {
            let w = spec_isqrt(0);
            assert(w >= 0 && w * w <= 0 < (w + 1) * (w + 1)) by {
                assert(0int * 0int <= 0 < 1int * 1int);
            }
            lemma_isqrt_unique(0, 0, w);
        }
        return 0;
    }
    let mut lo: u128 = 0;
    let mut hi: u128 = 1u128 << 64;
    proof {
        assert((1u128 << 64) == 0x10000000000000000u128) by (bit_vector);
        assert(x < 0x10000000000000000u128 * 0x10000000000000000u128) by (nonlinear_arith)
            requires
                x <= u128::MAX,
        ;
    }
    while hi - lo > 1
        invariant
            0 <= lo < hi <= 0x10000000000000000u128,
            (lo as int) * (lo as int) <= x,
            x < (hi as int) * (hi as int),
        decreases hi - lo,
    {
        let mid = lo + (hi - lo) / 2;
        proof {
            assert(lo < mid < hi);
            assert(mid * mid <= 0xffffffffffffffffu128 * 0xffffffffffffffffu128)
                by (nonlinear_arith)
                requires
                    0 <= mid <= 0xffffffffffffffffu128,
            ;
        }
        if mid * mid <= x {
            lo = mid;
        } else {
            hi = mid;
        }
    }
    proof {
        assert((lo as int) < 0x10000000000000000);
        let w = spec_isqrt(x as int);
        assert(w >= 0 && w * w <= x < (w + 1) * (w + 1)) by {
            assert((lo as int) >= 0 && (lo as int) * (lo as int) <= x < ((lo as int) + 1) * ((
            lo as int) + 1));
        }
        lemma_isqrt_unique(x as int, lo as int, w);
    }
    lo as u64
}

} // verus!
