//! Fixed-point scalar arithmetic for the simulation core.
//!
//! A real number r is held as the `i64` value `r * ONE` (micro-units).
//! Angles are micro-radians; world coordinates live in `[0, ONE)`, which
//! stands for the unit interval `[0, 1)` of the toroidal world.

use vstd::prelude::*;

verus! {

/// One in micro-units: every fixed-point quantity counts multiples of 1e-6.
pub const ONE: i64 = 1_000_000;

/// The angle pi in micro-radians.
pub const PI: i64 = 3_141_593;

/// Half pi in micro-radians.
pub const HALF_PI: i64 = 1_570_796;

/// A full turn (two pi) in micro-radians.
pub const TAU: i64 = 6_283_186;

/// `a * b <= am * bm` for non-negative factors below their bounds.
pub proof fn mul_le(a: int, b: int, am: int, bm: int)
    by (nonlinear_arith)
    requires
        0 <= a <= am,
        0 <= b <= bm,
    ensures
        0 <= a * b <= am * bm,
{
}

/// `|a * b| <= am * bm` for factors whose magnitudes stay below the bounds.
pub proof fn mul_abs_le(a: int, b: int, am: int, bm: int)
    by (nonlinear_arith)
    requires
        -am <= a <= am,
        -bm <= b <= bm,
        0 <= am,
        0 <= bm,
    ensures
        -(am * bm) <= a * b <= am * bm,
{
}

/// What [`clamp_i64`] returns.
pub open spec fn spec_clamp(x: int, lo: int, hi: int) -> int {
    if x < lo {
        lo
    } else if x > hi {
        hi
    } else {
        x
    }
}

/// Clamp `x` into `[lo, hi]`.
pub fn clamp_i64(x: i64, lo: i64, hi: i64) -> (r: i64)
    requires
        lo <= hi,
    ensures
        r == spec_clamp(x as int, lo as int, hi as int),
        lo <= r <= hi,
{
    if x < lo {
        lo
    } else if x > hi {
        hi
    } else {
        x
    }
}

/// What [`wrap_unit`] returns: the single toroidal correction.
pub open spec fn spec_wrap_unit(x: int) -> int {
    if x < 0 {
        x + ONE
    } else if x >= ONE {
        x - ONE
    } else {
        x
    }
}

/// Toroidal wrap of a coordinate that moved by less than one world width
/// in either direction: the result is the coordinate modulo `ONE`.
pub fn wrap_unit(x: i64) -> (r: i64)
    requires
        -ONE <= x < 2 * ONE,
    ensures
        r == spec_wrap_unit(x as int),
        0 <= r < ONE,
        (0 <= x < ONE) ==> r == x,
{
    if x < 0 {
        x + ONE
    } else if x >= ONE {
        x - ONE
    } else {
        x
    }
}

/// What [`wrap_tau`] returns: up to two upward and one downward turn
/// corrections.
pub open spec fn spec_wrap_tau(a: int) -> int {
    let r1 = if a < 0 {
        a + TAU
    } else {
        a
    };
    let r2 = if r1 < 0 {
        r1 + TAU
    } else {
        r1
    };
    if r2 >= TAU {
        r2 - TAU
    } else {
        r2
    }
}

/// Wrap an angle into `[0, TAU)`, assuming it lies within two turns of it.
pub fn wrap_tau(a: i64) -> (r: i64)
    requires
        -2 * TAU <= a < 2 * TAU,
    ensures
        r == spec_wrap_tau(a as int),
        0 <= r < TAU,
{
    let mut r: i64 = a;
    if r < 0 {
        r = r + TAU;
    }
    if r < 0 {
        r = r + TAU;
    }
    if r >= TAU {
        r = r - TAU;
    }
    r
}

/// What [`isqrt`] returns: the unique non-negative root floor.
pub open spec fn spec_isqrt(n: int) -> int {
    choose|r: int| 0 <= r && #[trigger] (r * r) <= n < (r + 1) * (r + 1)
}

/// The root floor is unique.
pub proof fn lemma_isqrt_unique(a: int, b: int, n: int)
    by (nonlinear_arith)
    requires
        0 <= a,
        0 <= b,
        a * a <= n < (a + 1) * (a + 1),
        b * b <= n < (b + 1) * (b + 1),
    ensures
        a == b,
{
}

/// Integer square root: the largest `r` with `r * r <= n`.
pub fn isqrt(n: u64) -> (r: u64)
    requires
        n < 0x4000_0000_0000_0000,
    ensures
        r * r <= n < (r + 1) * (r + 1),
        r == spec_isqrt(n as int),
{
    let mut lo: u64 = 0;
    let mut hi: u64 = 0x8000_0000;
    while lo + 1 < hi
        invariant
            lo < hi <= 0x8000_0000,
            lo * lo <= n,
            n < hi * hi,
        decreases hi - lo,
    {
        let mid: u64 = lo + (hi - lo) / 2;
        proof {
            mul_le(mid as int, mid as int, 0x8000_0000, 0x8000_0000);
        }
        if mid * mid <= n {
            lo = mid;
        } else {
            hi = mid;
        }
    }
    proof {
        assert((lo + 1) * (lo + 1) >= hi * hi) by (nonlinear_arith)
            requires
                hi <= lo + 1,
                0 <= hi,
            ;
        let ghost li: int = lo as int;
        let ghost ni: int = n as int;
        assert(0 <= li && li * li <= ni && ni < (li + 1) * (li + 1));
        lemma_isqrt_unique(spec_isqrt(ni), li, ni);
    }
    lo
}

/// What [`sin_fx`] returns on `[0, PI]`: the parabolic approximation
/// `4 x (PI - x) / PI^2`, scaled by `ONE` and clamped.
pub open spec fn spec_sin_half(x: int) -> int {
    let num = (4 * x) * (PI - x);
    spec_clamp(((num / (PI as int)) * ONE) / (PI as int), 0, ONE as int)
}

/// What [`sin_fx`] returns: the half-wave approximation, odd-extended
/// over the wrapped angle.
pub open spec fn spec_sin(a: int) -> int {
    let w = spec_wrap_tau(a);
    if w <= PI {
        spec_sin_half(w)
    } else {
        -spec_sin_half(w - PI)
    }
}

/// What [`cos_fx`] returns: the sine approximation a quarter turn ahead.
pub open spec fn spec_cos(a: int) -> int {
    spec_sin(a + HALF_PI)
}

/// Parabolic approximation of sine on `[0, PI]`, scaled by `ONE`.
fn sin_half(x: i64) -> (r: i64)
    requires
        0 <= x <= PI,
    ensures
        r == spec_sin_half(x as int),
        0 <= r <= ONE,
{
    let t1: i64 = 4 * x;
    let t2: i64 = PI - x;
    proof {
        mul_le(t1 as int, t2 as int, 4 * PI as int, PI as int);
    }
    let num: i64 = t1 * t2;
    let r: i64 = ((num / PI) * ONE) / PI;
    clamp_i64(r, 0, ONE)
}

/// Approximate sine of an angle in micro-radians, scaled by `ONE`.
pub fn sin_fx(a: i64) -> (r: i64)
    requires
        -2 * TAU <= a < 2 * TAU,
    ensures
        r == spec_sin(a as int),
        -ONE <= r <= ONE,
{
    let w: i64 = wrap_tau(a);
    if w <= PI {
        sin_half(w)
    } else {
        -sin_half(w - PI)
    }
}

/// Approximate cosine of an angle in micro-radians, scaled by `ONE`.
pub fn cos_fx(a: i64) -> (r: i64)
    requires
        -TAU <= a <= TAU,
    ensures
        r == spec_cos(a as int),
        -ONE <= r <= ONE,
{
    sin_fx(a + HALF_PI)
}

/// What [`atan2_fx`]'s first-octant helper returns: a clamped quadratic
/// polynomial in the ratio.
pub open spec fn spec_atan_ratio(num: int, den: int) -> int {
    let z = spec_clamp((num * ONE) / den, 0, ONE as int);
    let t1 = (785_398 * z) / (ONE as int);
    let u = spec_clamp((273_000 * z) / (ONE as int), 0, 273_000);
    let t2 = (u * (ONE - z)) / (ONE as int);
    spec_clamp(t1 + t2, 0, 900_000)
}

/// What [`atan2_fx`] returns: octant reduction around the helper.
pub open spec fn spec_atan2(dy: int, dx: int) -> int {
    let ax = if dx < 0 {
        -dx
    } else {
        dx
    };
    let ay = if dy < 0 {
        -dy
    } else {
        dy
    };
    let base = if ax == 0 && ay == 0 {
        0
    } else if ay <= ax {
        spec_atan_ratio(ay, ax)
    } else {
        HALF_PI - spec_atan_ratio(ax, ay)
    };
    let q = if dx >= 0 {
        base
    } else {
        PI - base
    };
    if dy >= 0 {
        q
    } else {
        -q
    }
}

/// Polynomial approximation of `atan(num / den)` in micro-radians,
/// for a ratio in `[0, 1]`; the result stays below half pi.
fn atan_ratio(num: i64, den: i64) -> (r: i64)
    requires
        0 <= num <= den,
        0 < den <= ONE,
    ensures
        r == spec_atan_ratio(num as int, den as int),
        0 <= r <= 900_000,
{
    let z: i64 = clamp_i64((num * ONE) / den, 0, ONE);
    let t1: i64 = (785_398 * z) / ONE;
    let u: i64 = clamp_i64((273_000 * z) / ONE, 0, 273_000);
    proof {
        mul_le(u as int, (ONE - z) as int, 273_000, ONE as int);
    }
    let t2: i64 = (u * (ONE - z)) / ONE;
    clamp_i64(t1 + t2, 0, 900_000)
}

/// Approximate four-quadrant arctangent in micro-radians, in `[-PI, PI]`.
/// Both offsets must lie within one world width.
pub fn atan2_fx(dy: i64, dx: i64) -> (r: i64)
    requires
        -ONE <= dy <= ONE,
        -ONE <= dx <= ONE,
    ensures
        r == spec_atan2(dy as int, dx as int),
        -PI <= r <= PI,
{
    let ax: i64 = if dx < 0 { -dx } else { dx };
    let ay: i64 = if dy < 0 { -dy } else { dy };
    let base: i64 = if ax == 0 && ay == 0 {
        0
    } else if ay <= ax {
        atan_ratio(ay, ax)
    } else {
        HALF_PI - atan_ratio(ax, ay)
    };
    let q: i64 = if dx >= 0 { base } else { PI - base };
    if dy >= 0 {
        q
    } else {
        -q
    }
}

} // verus!
