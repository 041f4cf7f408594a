//! Saturating fixed-point scalar arithmetic.
//!
//! A scalar counts 1/65536ths of a world unit (`ONE` is one unit). Every
//! operation keeps its result inside `[-FX_MAX, FX_MAX]` by saturating, so the
//! arithmetic is total: the saturation bound is about 16.7 million world
//! units, far beyond any simulation domain, and reaching it is the documented
//! fallback for runaway dynamics rather than an overflow.

use vstd::prelude::*;

verus! {

/// One world unit: the scale of the fixed-point representation.
pub const ONE: i64 = 65536;

/// Half a world unit.
pub const HALF: i64 = 32768;

/// Largest magnitude a fixed-point scalar may take; results saturate here.
pub const FX_MAX: i64 = 1099511627776;

pub open spec fn fx_in_range(a: int) -> bool {
    -FX_MAX <= a <= FX_MAX
}

/// Saturation to the representable range.
pub open spec fn spec_clip(a: int) -> int {
    if a > FX_MAX {
        FX_MAX as int
    } else if a < -FX_MAX {
        -FX_MAX as int
    } else {
        a
    }
}

pub open spec fn spec_abs(a: int) -> int {
    if a >= 0 {
        a
    } else {
        -a
    }
}

/// Integer division rounding toward zero, as the hardware divides.
pub open spec fn spec_tdiv(a: int, b: int) -> int
    recommends
        b != 0,
{
    if (a >= 0) == (b >= 0) {
        spec_abs(a) / spec_abs(b)
    } else {
        -(spec_abs(a) / spec_abs(b))
    }
}

pub open spec fn spec_fx_add(a: int, b: int) -> int {
    spec_clip(a + b)
}

pub open spec fn spec_fx_sub(a: int, b: int) -> int {
    spec_clip(a - b)
}

/// Fixed-point product: the exact product rescaled by `ONE`, rounded toward
/// zero, then saturated.
pub open spec fn spec_fx_mul(a: int, b: int) -> int {
    spec_clip(spec_tdiv(a * b, ONE as int))
}

/// Fixed-point quotient, rounded toward zero and saturated. Dividing by zero
/// yields zero: the documented fallback for degenerate geometry.
pub open spec fn spec_fx_div(a: int, b: int) -> int {
    if b == 0 {
        0
    } else {
        spec_clip(spec_tdiv(a * ONE, b))
    }
}

/// The magnitude of an in-range scalar, as an unsigned machine word.
fn abs_mag(a: i64) -> (r: u64)
    requires
        fx_in_range(a as int),
    ensures
        r == spec_abs(a as int),
{
    if a < 0 {
        (-a) as u64
    } else {
        a as u64
    }
}

pub fn fx_add(a: i64, b: i64) -> (r: i64)
    requires
        fx_in_range(a as int),
        fx_in_range(b as int),
    ensures
        r as int == spec_fx_add(a as int, b as int),
        fx_in_range(r as int),
{
    let s = a + b;
    if s > FX_MAX {
        FX_MAX
    } else if s < -FX_MAX {
        -FX_MAX
    } else {
        s
    }
}

pub fn fx_sub(a: i64, b: i64) -> (r: i64)
    requires
        fx_in_range(a as int),
        fx_in_range(b as int),
    ensures
        r as int == spec_fx_sub(a as int, b as int),
        fx_in_range(r as int),
{
    let s = a - b;
    if s > FX_MAX {
        FX_MAX
    } else if s < -FX_MAX {
        -FX_MAX
    } else {
        s
    }
}

pub fn fx_mul(a: i64, b: i64) -> (r: i64)
    requires
        fx_in_range(a as int),
        fx_in_range(b as int),
    ensures
        r as int == spec_fx_mul(a as int, b as int),
        fx_in_range(r as int),
{
    let neg = (a < 0) != (b < 0);
    let aa = abs_mag(a) as u128;
    let bb = abs_mag(b) as u128;
    proof {
        assert((aa as int) * (bb as int) <= (FX_MAX as int) * (FX_MAX as int))
            by (nonlinear_arith)
            requires
                0 <= aa as int <= FX_MAX as int,
                0 <= bb as int <= FX_MAX as int,
        ;
    }
    let q: u128 = (aa * bb) / 65536;
    let qc: i64 = if q > FX_MAX as u128 {
        FX_MAX
    } else {
        q as i64
    };
    proof {
        assert(spec_abs((a as int) * (b as int)) == spec_abs(a as int) * spec_abs(b as int))
            by (nonlinear_arith);
        assert(((a < 0) != (b < 0)) ==> (a as int) * (b as int) <= 0) by (nonlinear_arith);
        assert(((a < 0) == (b < 0)) ==> (a as int) * (b as int) >= 0) by (nonlinear_arith);
    }
    if neg {
        -qc
    } else {
        qc
    }
}

pub fn fx_div(a: i64, b: i64) -> (r: i64)
    requires
        fx_in_range(a as int),
        fx_in_range(b as int),
    ensures
        r as int == spec_fx_div(a as int, b as int),
        fx_in_range(r as int),
{
    if b == 0 {
        return 0;
    }
    let neg = (a < 0) != (b < 0);
    let aa = abs_mag(a) as u128;
    let bb = abs_mag(b) as u128;
    let q: u128 = (aa * 65536) / bb;
    let qc: i64 = if q > FX_MAX as u128 {
        FX_MAX
    } else {
        q as i64
    };
    proof {
        assert(spec_abs((a as int) * (ONE as int)) == spec_abs(a as int) * (ONE as int));
        assert(((a < 0) != (b < 0)) ==> ((a as int) * (ONE as int) >= 0) != (b as int >= 0) || a
            == 0);
    }
    if neg {
        -qc
    } else {
        qc
    }
}

/// Floor of the integer square root: the unique `r` with
/// `r * r <= n < (r + 1) * (r + 1)`.
pub open spec fn spec_isqrt(n: nat) -> nat
    decreases n,
{
    if n == 0 {
        0
    } else {
        let r = spec_isqrt((n - 1) as nat);
        if (r + 1) * (r + 1) <= n {
            r + 1
        } else {
            r
        }
    }
}

pub proof fn lemma_isqrt_bounds(n: nat)
    ensures
        spec_isqrt(n) * spec_isqrt(n) <= n,
        n < (spec_isqrt(n) + 1) * (spec_isqrt(n) + 1),
    decreases n,
{
    let s = spec_isqrt(n);
    if n == 0 {
        assert(s == 0);
        assert(n < (s + 1) * (s + 1)) by (nonlinear_arith)
            requires
                s == 0,
                n == 0nat,
        ;
    } else {
        lemma_isqrt_bounds((n - 1) as nat);
        let r = spec_isqrt((n - 1) as nat);
        if (r + 1) * (r + 1) <= n {
            assert(s == r + 1);
            assert(s * s <= n);
            assert(n < (s + 1) * (s + 1)) by (nonlinear_arith)
                requires
                    s == r + 1,
                    n <= (r + 1) * (r + 1),
            ;
        } else {
            assert(s == r);
            assert(s * s <= n);
            assert(n < (s + 1) * (s + 1));
        }
    }
}

pub proof fn lemma_isqrt_unique(n: nat, r: nat)
    requires
        r * r <= n,
        n < (r + 1) * (r + 1),
    ensures
        r == spec_isqrt(n),
{
    lemma_isqrt_bounds(n);
    let s = spec_isqrt(n);
    if r < s {
        assert((r + 1) * (r + 1) <= s * s) by (nonlinear_arith)
            requires
                r + 1 <= s,
        ;
    } else if s < r {
        assert((s + 1) * (s + 1) <= r * r) by (nonlinear_arith)
            requires
                s + 1 <= r,
        ;
    }
}

/// Fixed-point square root: maps a scalar holding `x * ONE` to one holding
/// approximately `sqrt(x) * ONE` (exactly `isqrt(a * ONE)`).
pub open spec fn spec_fx_sqrt(a: int) -> int
    recommends
        a >= 0,
{
    spec_isqrt((a * ONE) as nat) as int
}

pub fn fx_sqrt(a: i64) -> (r: i64)
    requires
        0 <= a,
        fx_in_range(a as int),
    ensures
        r as int == spec_fx_sqrt(a as int),
        0 <= r <= 536870912,
        fx_in_range(r as int),
{
    let n: u64 = (a as u64) * 65536;
    let mut lo: u64 = 0;
    let mut hi: u64 = 536870912;
    proof {
        assert((hi as int) * (hi as int) > n as int) by (nonlinear_arith)
            requires
                hi == 536870912,
                n as int <= 0x100000000000000,
        ;
    }
    while lo + 1 < hi
        invariant
            lo < hi <= 536870912,
            (lo as int) * (lo as int) <= n as int,
            (n as int) < (hi as int) * (hi as int),
        decreases hi - lo,
    {
        let mid = lo + (hi - lo) / 2;
        proof {
            assert((mid as int) * (mid as int) <= 536870912 * 536870912) by (nonlinear_arith)
                requires
                    0 <= mid as int <= 536870912,
            ;
        }
        if mid * mid <= n {
            lo = mid;
        } else {
            hi = mid;
        }
    }
    proof {
        lemma_isqrt_unique(n as nat, lo as nat);
    }
    lo as i64
}

/// Scaling by `ONE` is the identity on in-range scalars.
pub proof fn lemma_fx_mul_one(a: int)
    requires
        fx_in_range(a),
    ensures
        spec_fx_mul(a, ONE as int) == a,
{
    assert(spec_abs(a * (ONE as int)) == spec_abs(a) * (ONE as int));
    assert((spec_abs(a) * 65536) / 65536 == spec_abs(a)) by (nonlinear_arith)
        requires
            spec_abs(a) >= 0,
    ;
}

/// Scaling by `-ONE` is exact negation on in-range scalars.
pub proof fn lemma_fx_mul_neg_one(a: int)
    requires
        fx_in_range(a),
    ensures
        spec_fx_mul(a, -(ONE as int)) == -a,
        spec_fx_mul(-(ONE as int), a) == -a,
{
    let m = spec_abs(a);
    assert(a * -(ONE as int) == -(a * (ONE as int))) by (nonlinear_arith);
    assert(-(ONE as int) * a == -(a * (ONE as int))) by (nonlinear_arith);
    assert(spec_abs(a * (ONE as int)) == m * (ONE as int));
    assert(spec_abs(-(a * (ONE as int))) == m * (ONE as int));
    assert((m * 65536) / 65536 == m) by (nonlinear_arith)
        requires
            m >= 0,
    ;
}

/// Scaling by zero yields zero.
pub proof fn lemma_fx_mul_zero(a: int)
    requires
        fx_in_range(a),
    ensures
        spec_fx_mul(a, 0) == 0,
        spec_fx_mul(0, a) == 0,
{
}

/// Clamp into a closed interval.
pub open spec fn spec_clamp(a: int, lo: int, hi: int) -> int
    recommends
        lo <= hi,
{
    if a < lo {
        lo
    } else if a > hi {
        hi
    } else {
        a
    }
}

pub fn fx_clamp(a: i64, lo: i64, hi: i64) -> (r: i64)
    requires
        lo <= hi,
    ensures
        r as int == spec_clamp(a as int, lo as int, hi as int),
{
    if a < lo {
        lo
    } else if a > hi {
        hi
    } else {
        a
    }
}

} // verus!
