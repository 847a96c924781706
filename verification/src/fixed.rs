//! Fixed-point scalar arithmetic: 8 fractional bits, `i64` carriers.
//!
//! Every engine coordinate is kept inside `[-COORD_MAX, COORD_MAX]`, so
//! products of two coordinates always fit an `i64`; the clamped
//! operations below preserve that range.
use vstd::prelude::*;
use vstd::math::abs;

verus! {

/// One coordinate unit: 1.0 in pixel space is 256 fixed-point steps.
pub const FP_ONE: i64 = 256;

/// Largest coordinate magnitude the engine works with (2^28).
pub const COORD_MAX: i64 = 268435456;

/// A scalar inside the engine's working range.
pub open spec fn coord_valid(v: int) -> bool {
    -COORD_MAX <= v <= COORD_MAX
}

pub open spec fn spec_clamp(v: int) -> int {
    if v > COORD_MAX {
        COORD_MAX as int
    } else if v < -COORD_MAX {
        -(COORD_MAX as int)
    } else {
        v
    }
}

/// Truncated (round toward zero) integer division.
pub open spec fn tdiv(a: int, b: int) -> int
    recommends
        b != 0,
{
    let m: int = (abs(a) / abs(b)) as int;
    if (a < 0) <==> (b < 0) {
        m
    } else {
        -m
    }
}

/// Clamp a scalar into the working range.
pub fn clamp(v: i64) -> (r: i64)
    ensures
        r == spec_clamp(v as int),
        coord_valid(r as int),
{
    if v > COORD_MAX {
        COORD_MAX
    } else if v < -COORD_MAX {
        -COORD_MAX
    } else {
        v
    }
}

/// Truncated division of a bounded dividend by a positive divisor.
pub(crate) fn idiv(a: i64, b: i64) -> (r: i64)
    requires
        0 < b,
        -0x4000_0000_0000_0000 < a < 0x4000_0000_0000_0000,
    ensures
        r == tdiv(a as int, b as int),
{
    if a >= 0 {
        let q: u64 = (a as u64) / (b as u64);
        q as i64
    } else {
        let n: i64 = -a;
        let q: u64 = (n as u64) / (b as u64);
        -(q as i64)
    }
}

pub open spec fn spec_add(a: int, b: int) -> int {
    spec_clamp(a + b)
}

pub open spec fn spec_sub(a: int, b: int) -> int {
    spec_clamp(a - b)
}

/// Fixed-point product, clamped: (a * b) / FP_ONE rounded toward zero.
pub open spec fn spec_mul(a: int, b: int) -> int {
    spec_clamp(tdiv(a * b, FP_ONE as int))
}

/// Fixed-point quotient, clamped: (a * FP_ONE) / b rounded toward zero.
pub open spec fn spec_div(a: int, b: int) -> int
    recommends
        b != 0,
{
    spec_clamp(tdiv(a * FP_ONE, b))
}

/// Saturating fixed-point addition.
pub fn cadd(a: i64, b: i64) -> (r: i64)
    requires
        coord_valid(a as int),
        coord_valid(b as int),
    ensures
        r == spec_add(a as int, b as int),
        coord_valid(r as int),
{
    clamp(a + b)
}

/// Saturating fixed-point subtraction.
pub fn csub(a: i64, b: i64) -> (r: i64)
    requires
        coord_valid(a as int),
        coord_valid(b as int),
    ensures
        r == spec_sub(a as int, b as int),
        coord_valid(r as int),
{
    clamp(a - b)
}

/// Saturating fixed-point multiplication.
pub fn cmul(a: i64, b: i64) -> (r: i64)
    requires
        coord_valid(a as int),
        coord_valid(b as int),
    ensures
        r == spec_mul(a as int, b as int),
        coord_valid(r as int),
{
    proof {
        assert((a as int) * (b as int) <= (COORD_MAX as int) * (COORD_MAX as int)
            && (a as int) * (b as int) >= -((COORD_MAX as int) * (COORD_MAX as int)))
            by (nonlinear_arith)
            requires
                -COORD_MAX <= a as int <= COORD_MAX,
                -COORD_MAX <= b as int <= COORD_MAX;
    }
    let p: i64 = a * b;
    clamp(idiv(p, FP_ONE))
}

/// Saturating fixed-point division.
pub fn cdiv(a: i64, b: i64) -> (r: i64)
    requires
        coord_valid(a as int),
        coord_valid(b as int),
        b != 0,
    ensures
        r == spec_div(a as int, b as int),
        coord_valid(r as int),
{
    let n: i64 = a * FP_ONE;
    if b > 0 {
        clamp(idiv(n, b))
    } else {
        let q: i64 = idiv(n, -b);
        assert(tdiv(n as int, b as int) == -tdiv(n as int, -b as int));
        clamp(-q)
    }
}

/// Squaring is monotone on the non-negatives.
pub proof fn lemma_square_le(m: int, c: int)
    by (nonlinear_arith)
    requires
        0 <= m <= c,
    ensures
        m * m <= c * c,
{
}

/// Products of non-negative values respect their bounds.
pub proof fn lemma_mul_le(a: int, b: int, ca: int, cb: int)
    by (nonlinear_arith)
    requires
        0 <= a <= ca,
        0 <= b <= cb,
    ensures
        0 <= a * b <= ca * cb,
{
}

/// The integer square root, as a value: the unique `r >= 0` with
/// `r * r <= x < (r + 1) * (r + 1)`.
pub open spec fn spec_isqrt(x: int) -> int {
    choose|r: int| 0 <= r && #[trigger] (r * r) <= x && x < (r + 1) * (r + 1)
}

/// Any two values meeting the square-root characterization agree.
pub proof fn lemma_isqrt_unique(x: int, r1: int, r2: int)
    by (nonlinear_arith)
    requires
        0 <= r1,
        0 <= r2,
        r1 * r1 <= x < (r1 + 1) * (r1 + 1),
        r2 * r2 <= x < (r2 + 1) * (r2 + 1),
    ensures
        r1 == r2,
{
}

/// Integer square root: the largest `r` with `r * r <= x`.
pub fn isqrt(x: u64) -> (r: u64)
    ensures
        r * r <= x,
        x < (r + 1) * (r + 1),
        r < 0x1_0000_0000,
{
    let mut lo: u64 = 0;
    let mut hi: u64 = 0x1_0000_0000;
    while hi - lo > 1
        invariant
            lo < hi <= 0x1_0000_0000,
            lo * lo <= x,
            x < (hi as int) * (hi as int),
        decreases hi - lo,
    {
        let mid: u64 = lo + (hi - lo) / 2;
        proof {
            lemma_square_le(mid as int, 0xFFFF_FFFF);
        }
        if mid * mid <= x {
            lo = mid;
        } else {
            hi = mid;
        }
    }
    lo
}

/// Dividing an exact multiple returns the factor.
pub proof fn lemma_tdiv_exact(a: int, b: int)
    by (nonlinear_arith)
    requires
        b > 0,
    ensures
        tdiv(a * b, b) == a,
{
}

/// Truncated division of a non-negative value stays under any bound
/// whose multiple dominates the dividend.
pub proof fn lemma_tdiv_bounded(n: int, d: int, c: int)
    by (nonlinear_arith)
    requires
        0 <= n,
        0 < d,
        0 <= c,
        n <= c * d,
    ensures
        0 <= tdiv(n, d) <= c,
{
}

/// Degrees are carried in fixed point too: 360 degrees in units.
pub const DEG_FULL: i64 = 92160;

/// A quarter turn, 90 degrees, in fixed-point units.
pub const DEG_QUARTER: i64 = 23040;

/// First-quadrant sine by a rational approximation that is exact at 0
/// and at 90 degrees: sin(x) = 4x(180 - x) / (40500 - x(180 - x)),
/// carried in fixed-point units.
pub open spec fn spec_sin_q(x: int) -> int {
    tdiv(x * (46080 - x) * 1024, 2654208000 - x * (46080 - x))
}

fn sin_q(x: i64) -> (r: i64)
    requires
        0 <= x <= DEG_QUARTER,
    ensures
        r == spec_sin_q(x as int),
        0 <= r <= FP_ONE,
{
    proof {
        assert(0 <= (x as int) * (46080 - x as int) <= 530841600) by (nonlinear_arith)
            requires
                0 <= x as int,
                x as int <= 23040;
    }
    let t: i64 = x * (46080 - x);
    let numer: i64 = t * 1024;
    let denom: i64 = 2654208000 - t;
    let r: i64 = idiv(numer, denom);
    proof {
        assert(numer as int <= 256 * denom as int);
        lemma_tdiv_bounded(numer as int, denom as int, 256);
    }
    r
}

/// Sine of a fixed-point angle in degrees, a fixed-point value in
/// [-FP_ONE, FP_ONE]; exact at every multiple of 90 degrees.
pub open spec fn spec_sin(a: int) -> int {
    let m = a % (DEG_FULL as int);
    let q = m / (DEG_QUARTER as int);
    let r = m % (DEG_QUARTER as int);
    if q == 0 {
        spec_sin_q(r)
    } else if q == 1 {
        spec_sin_q(DEG_QUARTER - r)
    } else if q == 2 {
        -spec_sin_q(r)
    } else {
        -spec_sin_q(DEG_QUARTER - r)
    }
}

/// Cosine as the sine shifted a quarter turn.
pub open spec fn spec_cos(a: int) -> int {
    spec_sin(a + DEG_QUARTER)
}

pub fn sin_fp(a: i64) -> (r: i64)
    requires
        -0x2000_0000 <= a <= 0x2000_0000,
    ensures
        r == spec_sin(a as int),
        -FP_ONE <= r <= FP_ONE,
{
    let shifted: u64 = (a + 552960000) as u64;
    proof {
        vstd::arithmetic::div_mod::lemma_mod_multiples_vanish(6000, a as int, DEG_FULL as int);
        assert(6000 * (DEG_FULL as int) + a == shifted as int);
    }
    let m: u64 = shifted % 92160;
    let q: u64 = m / 23040;
    let rr: i64 = (m % 23040) as i64;
    if q == 0 {
        sin_q(rr)
    } else if q == 1 {
        sin_q(DEG_QUARTER - rr)
    } else if q == 2 {
        -sin_q(rr)
    } else {
        -sin_q(DEG_QUARTER - rr)
    }
}

pub fn cos_fp(a: i64) -> (r: i64)
    requires
        -0x2000_0000 <= a <= 0x2000_0000 - DEG_QUARTER,
    ensures
        r == spec_cos(a as int),
        -FP_ONE <= r <= FP_ONE,
{
    sin_fp(a + DEG_QUARTER)
}

/// Integer square root of a non-negative signed value.
pub fn isqrt_i(x: i64) -> (r: i64)
    requires
        x >= 0,
    ensures
        r == spec_isqrt(x as int),
        0 <= r,
        r * r <= x,
{
    let q: u64 = isqrt(x as u64);
    let r: i64 = q as i64;
    proof {
        let rc = spec_isqrt(x as int);
        assert(0 <= r && r * r <= x && x < (r + 1) * (r + 1));
        assert(0 <= rc && rc * rc <= x && x < (rc + 1) * (rc + 1));
        lemma_isqrt_unique(x as int, r as int, rc);
    }
    r
}

/// The distance between two fixed-point points, clamped into the
/// working range.
pub open spec fn spec_dist(dx: int, dy: int) -> int {
    spec_clamp(spec_isqrt(dx * dx + dy * dy))
}

pub fn dist(dx: i64, dy: i64) -> (r: i64)
    requires
        coord_valid(dx as int),
        coord_valid(dy as int),
    ensures
        r == spec_dist(dx as int, dy as int),
        coord_valid(r as int),
{
    proof {
        crate::blend::lemma_mul_abs_le(dx as int, dx as int, COORD_MAX as int, COORD_MAX as int);
        crate::blend::lemma_mul_abs_le(dy as int, dy as int, COORD_MAX as int, COORD_MAX as int);
        assert(dx as int * dx as int >= 0) by (nonlinear_arith);
        assert(dy as int * dy as int >= 0) by (nonlinear_arith);
    }
    let d2: i64 = dx * dx + dy * dy;
    clamp(isqrt_i(d2))
}

} // verus!
