//! Alpha compositing: the Porter-Duff operators and the separable and
//! non-separable blend modes, on premultiplied 8-bit samples.
//!
//! Channel arithmetic runs on the 0..=255 scale where 255 stands for
//! 1.0; every formula normalizes products with a rounding division by
//! 255 and saturates its result into the channel range.
use vstd::prelude::*;
use crate::pixmap::{Pixel, div255};
use crate::fixed::{tdiv, idiv, lemma_mul_le};

verus! {

/// The compositing operator of a draw call.
#[derive(Clone, Copy, PartialEq, Eq, Structural, Debug)]
pub enum ts_blend_mode {
    SourceOver,
    SourceCopy,
    Clear,
    Destination,
    DestinationOver,
    SourceIn,
    DestinationIn,
    SourceOut,
    DestinationOut,
    SourceAtop,
    DestinationAtop,
    Xor,
    Plus,
    Modulate,
    Screen,
    Overlay,
    Darken,
    Lighten,
    ColorDodge,
    ColorBurn,
    HardLight,
    SoftLight,
    Difference,
    Exclusion,
    Multiply,
    Hue,
    Saturation,
    Color,
    Luminosity,
}

/// Saturate into the channel range.
pub open spec fn sat0(x: int) -> int {
    if x < 0 {
        0
    } else if x > 255 {
        255
    } else {
        x
    }
}

pub open spec fn smin(a: int, b: int) -> int {
    if a < b {
        a
    } else {
        b
    }
}

pub open spec fn smax(a: int, b: int) -> int {
    if a < b {
        b
    } else {
        a
    }
}

fn sat0i(x: i64) -> (r: i64)
    ensures
        r == sat0(x as int),
        0 <= r <= 255,
{
    if x < 0 {
        0
    } else if x > 255 {
        255
    } else {
        x
    }
}

/// Normalized channel product: div255(a * b), rounded.
fn md(a: i64, b: i64) -> (r: i64)
    requires
        0 <= a <= 255,
        0 <= b <= 255,
    ensures
        r == div255(a as int * b as int),
        0 <= r <= 255,
{
    proof {
        lemma_mul_le(a as int, b as int, 255, 255);
    }
    let p: u64 = ((a * b + 128) as u64);
    (p / 255) as i64
}

/// Truncated division of a small non-negative value by a positive one.
fn sdiv(a: i64, b: i64) -> (r: i64)
    requires
        0 <= a < 0x4000_0000_0000_0000,
        0 < b,
    ensures
        r == tdiv(a as int, b as int),
        r >= 0,
{
    idiv(a, b)
}

/// Un-premultiply one channel: scale back by the alpha, saturated; a
/// fully transparent sample reads as zero.
pub open spec fn spec_unpremul(c: int, a: int) -> int {
    if a == 0 {
        0
    } else {
        sat0(tdiv(c * 255, a))
    }
}

fn unpremul(c: i64, a: i64) -> (r: i64)
    requires
        0 <= c <= 255,
        0 <= a <= 255,
    ensures
        r == spec_unpremul(c as int, a as int),
        0 <= r <= 255,
{
    if a == 0 {
        0
    } else {
        sat0i(sdiv(c * 255, a))
    }
}

/// The spill terms every photographic mode shares: each sample scaled
/// by the other's remaining transparency.
pub open spec fn spill(s: int, d: int, sa: int, da: int) -> int {
    div255(s * (255 - da)) + div255(d * (255 - sa))
}

fn spill_e(s: i64, d: i64, sa: i64, da: i64) -> (r: i64)
    requires
        0 <= s <= 255,
        0 <= d <= 255,
        0 <= sa <= 255,
        0 <= da <= 255,
    ensures
        r == spill(s as int, d as int, sa as int, da as int),
        0 <= r <= 510,
{
    md(s, 255 - da) + md(d, 255 - sa)
}

/// The alpha every photographic mode produces: source-over alpha.
pub open spec fn alpha_over(sa: int, da: int) -> int {
    sat0(sa + div255(da * (255 - sa)))
}

fn alpha_over_e(sa: i64, da: i64) -> (r: i64)
    requires
        0 <= sa <= 255,
        0 <= da <= 255,
    ensures
        r == alpha_over(sa as int, da as int),
        0 <= r <= 255,
{
    sat0i(sa + md(da, 255 - sa))
}

/// Signed products respect magnitude bounds.
pub proof fn lemma_mul_abs_le(a: int, b: int, ca: int, cb: int)
    by (nonlinear_arith)
    requires
        -ca <= a <= ca,
        -cb <= b <= cb,
        0 <= ca,
        0 <= cb,
    ensures
        -(ca * cb) <= a * b <= ca * cb,
{
}

/// Truncated division keeps the dividend's magnitude bound over a
/// positive divisor.
proof fn lemma_tdiv_abs(n: int, d: int, c: int)
    by (nonlinear_arith)
    requires
        0 < d,
        -(c * d) <= n <= c * d,
        0 <= c,
    ensures
        -c <= tdiv(n, d) <= c,
{
}

/// A Porter-Duff channel: the source weighted by `fs` plus the
/// destination weighted by `fd`, both normalized.
pub open spec fn pd(s: int, d: int, fs: int, fd: int) -> int {
    sat0(div255(s * fs) + div255(d * fd))
}

fn pd_e(s: i64, d: i64, fs: i64, fd: i64) -> (r: i64)
    requires
        0 <= s <= 255,
        0 <= d <= 255,
        0 <= fs <= 255,
        0 <= fd <= 255,
    ensures
        r == pd(s as int, d as int, fs as int, fd as int),
        0 <= r <= 255,
{
    sat0i(md(s, fs) + md(d, fd))
}

pub open spec fn ch_multiply(s: int, d: int, sa: int, da: int) -> int {
    sat0(div255(s * d) + spill(s, d, sa, da))
}

pub open spec fn ch_screen(s: int, d: int, sa: int, da: int) -> int {
    sat0(s + d - div255(s * d))
}

pub open spec fn ch_darken(s: int, d: int, sa: int, da: int) -> int {
    sat0(s + d - smax(div255(s * da), div255(d * sa)))
}

pub open spec fn ch_lighten(s: int, d: int, sa: int, da: int) -> int {
    sat0(s + d - smin(div255(s * da), div255(d * sa)))
}

pub open spec fn ch_difference(s: int, d: int, sa: int, da: int) -> int {
    sat0(s + d - 2 * smin(div255(s * da), div255(d * sa)))
}

pub open spec fn ch_exclusion(s: int, d: int, sa: int, da: int) -> int {
    sat0(s + d - 2 * div255(s * d))
}

/// Hard light: multiply or screen the backdrop by twice the source,
/// per the source's side of its alpha.
pub open spec fn ch_hardlight(s: int, d: int, sa: int, da: int) -> int {
    if 2 * s <= sa {
        sat0(2 * div255(s * d) + spill(s, d, sa, da))
    } else {
        sat0(div255(sa * da) - 2 * div255(smax(0, da - d) * smax(0, sa - s)) + spill(s, d, sa, da))
    }
}

/// Color dodge: brighten the backdrop toward the source.
pub open spec fn ch_dodge(s: int, d: int, sa: int, da: int) -> int {
    if d == 0 {
        sat0(div255(s * (255 - da)))
    } else if s >= sa {
        sat0(div255(sa * da) + spill(s, d, sa, da))
    } else {
        sat0(div255(smin(sa * da, tdiv(sa * sa * d, sa - s))) + spill(s, d, sa, da))
    }
}

/// Color burn: darken the backdrop toward the source.
pub open spec fn ch_burn(s: int, d: int, sa: int, da: int) -> int {
    if d >= da {
        sat0(div255(sa * da) + spill(s, d, sa, da))
    } else if s == 0 {
        sat0(spill(s, d, sa, da))
    } else {
        sat0(div255(sa * da - smin(sa * da, tdiv(sa * sa * (da - d), s))) + spill(s, d, sa, da))
    }
}

/// The square root a soft-light highlight ramps along: the largest
/// `r` with `r * r <= 255 * cb`.
pub open spec fn spec_sqrt255(cb: int) -> int {
    crate::fixed::spec_isqrt(255 * cb)
}

fn sqrt255(cb: i64) -> (r: i64)
    requires
        0 <= cb <= 255,
    ensures
        r == spec_sqrt255(cb as int),
        0 <= r <= 255,
{
    let r: i64 = crate::fixed::isqrt_i(cb * 255);
    proof {
        assert(r * r <= 255 * 255) by (nonlinear_arith)
            requires
                r * r <= 255 * cb as int,
                0 <= cb as int <= 255;
        assert(r <= 255) by (nonlinear_arith)
            requires
                0 <= r,
                r * r <= 255 * 255;
    }
    r
}

/// The soft-light ramp of the un-premultiplied backdrop channel.
pub open spec fn softlight_dc(cb: int) -> int {
    if 4 * cb <= 255 {
        tdiv(cb * ((16 * cb - 3060) * cb + 260100), 65025)
    } else {
        spec_sqrt255(cb)
    }
}

/// Soft light on un-premultiplied channels.
pub open spec fn softlight_b(cs: int, cb: int) -> int {
    if 2 * cs <= 255 {
        sat0(cb - tdiv((255 - 2 * cs) * cb * (255 - cb), 65025))
    } else {
        sat0(cb + tdiv((2 * cs - 255) * (softlight_dc(cb) - cb), 255))
    }
}

pub open spec fn ch_softlight(s: int, d: int, sa: int, da: int) -> int {
    let cs = spec_unpremul(s, sa);
    let cb = spec_unpremul(d, da);
    sat0(div255(div255(sa * da) * softlight_b(cs, cb)) + spill(s, d, sa, da))
}

fn d255e(x: i64) -> (r: i64)
    requires
        0 <= x <= 65025,
    ensures
        r == div255(x as int),
        0 <= r <= 255,
{
    ((x as u64 + 128) / 255) as i64
}

fn ch_multiply_e(s: i64, d: i64, sa: i64, da: i64) -> (r: i64)
    requires
        0 <= s <= 255 && 0 <= d <= 255 && 0 <= sa <= 255 && 0 <= da <= 255,
    ensures
        r == ch_multiply(s as int, d as int, sa as int, da as int),
{
    sat0i(md(s, d) + spill_e(s, d, sa, da))
}

fn ch_screen_e(s: i64, d: i64, sa: i64, da: i64) -> (r: i64)
    requires
        0 <= s <= 255 && 0 <= d <= 255 && 0 <= sa <= 255 && 0 <= da <= 255,
    ensures
        r == ch_screen(s as int, d as int, sa as int, da as int),
{
    sat0i(s + d - md(s, d))
}

fn ch_darken_e(s: i64, d: i64, sa: i64, da: i64) -> (r: i64)
    requires
        0 <= s <= 255 && 0 <= d <= 255 && 0 <= sa <= 255 && 0 <= da <= 255,
    ensures
        r == ch_darken(s as int, d as int, sa as int, da as int),
{
    let m1 = md(s, da);
    let m2 = md(d, sa);
    sat0i(s + d - if m1 < m2 { m2 } else { m1 })
}

fn ch_lighten_e(s: i64, d: i64, sa: i64, da: i64) -> (r: i64)
    requires
        0 <= s <= 255 && 0 <= d <= 255 && 0 <= sa <= 255 && 0 <= da <= 255,
    ensures
        r == ch_lighten(s as int, d as int, sa as int, da as int),
{
    let m1 = md(s, da);
    let m2 = md(d, sa);
    sat0i(s + d - if m1 < m2 { m1 } else { m2 })
}

fn ch_difference_e(s: i64, d: i64, sa: i64, da: i64) -> (r: i64)
    requires
        0 <= s <= 255 && 0 <= d <= 255 && 0 <= sa <= 255 && 0 <= da <= 255,
    ensures
        r == ch_difference(s as int, d as int, sa as int, da as int),
{
    let m1 = md(s, da);
    let m2 = md(d, sa);
    sat0i(s + d - 2 * if m1 < m2 { m1 } else { m2 })
}

fn ch_exclusion_e(s: i64, d: i64, sa: i64, da: i64) -> (r: i64)
    requires
        0 <= s <= 255 && 0 <= d <= 255 && 0 <= sa <= 255 && 0 <= da <= 255,
    ensures
        r == ch_exclusion(s as int, d as int, sa as int, da as int),
{
    sat0i(s + d - 2 * md(s, d))
}

fn ch_hardlight_e(s: i64, d: i64, sa: i64, da: i64) -> (r: i64)
    requires
        0 <= s <= 255 && 0 <= d <= 255 && 0 <= sa <= 255 && 0 <= da <= 255,
    ensures
        r == ch_hardlight(s as int, d as int, sa as int, da as int),
{
    if 2 * s <= sa {
        sat0i(2 * md(s, d) + spill_e(s, d, sa, da))
    } else {
        let nd = if da - d < 0 { 0 } else { da - d };
        let ns = if sa - s < 0 { 0 } else { sa - s };
        sat0i(md(sa, da) - 2 * md(nd, ns) + spill_e(s, d, sa, da))
    }
}

fn ch_dodge_e(s: i64, d: i64, sa: i64, da: i64) -> (r: i64)
    requires
        0 <= s <= 255 && 0 <= d <= 255 && 0 <= sa <= 255 && 0 <= da <= 255,
    ensures
        r == ch_dodge(s as int, d as int, sa as int, da as int),
{
    if d == 0 {
        sat0i(md(s, 255 - da))
    } else if s >= sa {
        sat0i(md(sa, da) + spill_e(s, d, sa, da))
    } else {
        proof {
            lemma_mul_le(sa as int, sa as int, 255, 255);
            lemma_mul_le(sa as int * sa as int, d as int, 65025, 255);
            lemma_mul_le(sa as int, da as int, 255, 255);
        }
        let q: i64 = sdiv(sa * sa * d, sa - s);
        let prod: i64 = sa * da;
        let m: i64 = if prod < q { prod } else { q };
        sat0i(d255e(m) + spill_e(s, d, sa, da))
    }
}

fn ch_burn_e(s: i64, d: i64, sa: i64, da: i64) -> (r: i64)
    requires
        0 <= s <= 255 && 0 <= d <= 255 && 0 <= sa <= 255 && 0 <= da <= 255,
    ensures
        r == ch_burn(s as int, d as int, sa as int, da as int),
{
    if d >= da {
        sat0i(md(sa, da) + spill_e(s, d, sa, da))
    } else if s == 0 {
        sat0i(spill_e(s, d, sa, da))
    } else {
        proof {
            lemma_mul_le(sa as int, sa as int, 255, 255);
            lemma_mul_le(sa as int * sa as int, da as int - d as int, 65025, 255);
            lemma_mul_le(sa as int, da as int, 255, 255);
        }
        let q: i64 = sdiv(sa * sa * (da - d), s);
        let prod: i64 = sa * da;
        let m: i64 = if prod < q { prod } else { q };
        sat0i(d255e(prod - m) + spill_e(s, d, sa, da))
    }
}

fn softlight_dc_e(cb: i64) -> (r: i64)
    requires
        0 <= cb <= 255,
    ensures
        r == softlight_dc(cb as int),
        -2040 <= r <= 2040,
{
    if 4 * cb <= 255 {
        proof {
            lemma_mul_abs_le(16 * cb as int - 3060, cb as int, 3060, 255);
            assert((16 * cb as int - 3060) * cb as int <= 260100) by (nonlinear_arith)
                requires
                    0 <= cb as int <= 255;
            lemma_mul_abs_le(cb as int, (16 * cb as int - 3060) * cb as int + 260100, 255, 520200);
        }
        let inner: i64 = (16 * cb - 3060) * cb + 260100;
        let r = idiv(cb * inner, 65025);
        proof {
            lemma_tdiv_abs(cb as int * inner as int, 65025, 2040);
        }
        r
    } else {
        sqrt255(cb)
    }
}

fn softlight_b_e(cs: i64, cb: i64) -> (r: i64)
    requires
        0 <= cs <= 255,
        0 <= cb <= 255,
    ensures
        r == softlight_b(cs as int, cb as int),
        0 <= r <= 255,
{
    if 2 * cs <= 255 {
        proof {
            lemma_mul_le(255 - 2 * cs as int, cb as int, 255, 255);
            lemma_mul_le((255 - 2 * cs as int) * cb as int, 255 - cb as int, 65025, 255);
        }
        let t: i64 = (255 - 2 * cs) * cb * (255 - cb);
        sat0i(cb - sdiv(t, 65025))
    } else {
        let dc: i64 = softlight_dc_e(cb);
        proof {
            lemma_mul_abs_le(2 * cs as int - 255, dc as int - cb as int, 255, 2295);
        }
        let t: i64 = idiv((2 * cs - 255) * (dc - cb), 255);
        sat0i(cb + t)
    }
}

fn ch_softlight_e(s: i64, d: i64, sa: i64, da: i64) -> (r: i64)
    requires
        0 <= s <= 255 && 0 <= d <= 255 && 0 <= sa <= 255 && 0 <= da <= 255,
    ensures
        r == ch_softlight(s as int, d as int, sa as int, da as int),
{
    let cs = unpremul(s, sa);
    let cb = unpremul(d, da);
    let b = softlight_b_e(cs, cb);
    sat0i(md(md(sa, da), b) + spill_e(s, d, sa, da))
}

pub open spec fn min3(a: int, b: int, c: int) -> int {
    smin(a, smin(b, c))
}

pub open spec fn max3(a: int, b: int, c: int) -> int {
    smax(a, smax(b, c))
}

/// The luma weighting of the non-separable modes (weights 77, 151, 28
/// out of 256 for red, green, blue).
pub open spec fn lum3(r: int, g: int, b: int) -> int {
    tdiv(77 * r + 151 * g + 28 * b, 256)
}

fn lum3_e(r: i64, g: i64, b: i64) -> (l: i64)
    requires
        -0x1_0000_0000 <= r <= 0x1_0000_0000,
        -0x1_0000_0000 <= g <= 0x1_0000_0000,
        -0x1_0000_0000 <= b <= 0x1_0000_0000,
    ensures
        l == lum3(r as int, g as int, b as int),
        -0x1_0000_0000 <= l <= 0x1_0000_0000,
{
    let n: i64 = 77 * r + 151 * g + 28 * b;
    let l = idiv(n, 256);
    proof {
        lemma_tdiv_abs(n as int, 256, 0x1_0000_0000);
    }
    l
}

/// One channel of a saturation change: rescale the channel's offset
/// from the minimum onto the new saturation span.
pub open spec fn setsat_ch(c: int, mn: int, mx: int, sat: int) -> int {
    if mx == mn {
        0
    } else {
        tdiv((c - mn) * sat, mx - mn)
    }
}

fn setsat_ch_e(c: i64, mn: i64, mx: i64, sat: i64) -> (r: i64)
    requires
        0 <= mn <= c,
        c <= mx <= 255,
        0 <= sat <= 255,
    ensures
        r == setsat_ch(c as int, mn as int, mx as int, sat as int),
        0 <= r <= 255,
{
    if mx == mn {
        0
    } else {
        proof {
            lemma_mul_le(c as int - mn as int, sat as int, mx as int - mn as int, 255);
        }
        let q = sdiv((c - mn) * sat, mx - mn);
        proof {
            crate::fixed::lemma_tdiv_bounded((c as int - mn as int) * sat as int,
                mx as int - mn as int, 255);
        }
        q
    }
}

/// Raise channels that sit below zero back toward the luma.
pub open spec fn clip_low(r: int, g: int, b: int) -> (int, int, int) {
    let l = lum3(r, g, b);
    let n = min3(r, g, b);
    if n >= 0 {
        (r, g, b)
    } else if l <= 0 {
        (0, 0, 0)
    } else {
        (l + tdiv((r - l) * l, l - n), l + tdiv((g - l) * l, l - n), l + tdiv((b - l) * l, l - n))
    }
}

/// Lower channels that sit above full back toward the luma.
pub open spec fn clip_high(r: int, g: int, b: int) -> (int, int, int) {
    let l = lum3(r, g, b);
    let x = max3(r, g, b);
    if x <= 255 {
        (r, g, b)
    } else if l >= 255 {
        (255, 255, 255)
    } else {
        (
            l + tdiv((r - l) * (255 - l), x - l),
            l + tdiv((g - l) * (255 - l), x - l),
            l + tdiv((b - l) * (255 - l), x - l),
        )
    }
}

/// Pull channels that clipping pushed below zero or above full back
/// toward the luma, then saturate.
pub open spec fn clip3(r: int, g: int, b: int) -> (int, int, int) {
    let t = clip_low(r, g, b);
    let u = clip_high(t.0, t.1, t.2);
    (sat0(u.0), sat0(u.1), sat0(u.2))
}

fn clip_low_e(r: i64, g: i64, b: i64) -> (t: (i64, i64, i64))
    requires
        -0x1000 <= r <= 0x1000,
        -0x1000 <= g <= 0x1000,
        -0x1000 <= b <= 0x1000,
    ensures
        (t.0 as int, t.1 as int, t.2 as int) == clip_low(r as int, g as int, b as int),
        -0x202_0000 <= t.0 <= 0x202_0000,
        -0x202_0000 <= t.1 <= 0x202_0000,
        -0x202_0000 <= t.2 <= 0x202_0000,
{
    let l = lum3_e(r, g, b);
    proof {
        lemma_tdiv_abs(77 * r as int + 151 * g as int + 28 * b as int, 256, 0x1000);
    }
    let n = if r < g { if r < b { r } else { b } } else { if g < b { g } else { b } };
    if n >= 0 {
        (r, g, b)
    } else if l <= 0 {
        (0, 0, 0)
    } else {
        proof {
            lemma_mul_abs_le(r as int - l as int, l as int, 0x2000, 0x1000);
            lemma_mul_abs_le(g as int - l as int, l as int, 0x2000, 0x1000);
            lemma_mul_abs_le(b as int - l as int, l as int, 0x2000, 0x1000);
            lemma_tdiv_abs((r as int - l as int) * l as int, l as int - n as int, 0x200_0000);
            lemma_tdiv_abs((g as int - l as int) * l as int, l as int - n as int, 0x200_0000);
            lemma_tdiv_abs((b as int - l as int) * l as int, l as int - n as int, 0x200_0000);
        }
        (
            l + idiv((r - l) * l, l - n),
            l + idiv((g - l) * l, l - n),
            l + idiv((b - l) * l, l - n),
        )
    }
}

fn clip_high_e(r: i64, g: i64, b: i64) -> (t: (i64, i64, i64))
    requires
        -0x202_0000 <= r <= 0x202_0000,
        -0x202_0000 <= g <= 0x202_0000,
        -0x202_0000 <= b <= 0x202_0000,
    ensures
        (t.0 as int, t.1 as int, t.2 as int) == clip_high(r as int, g as int, b as int),
{
    let l = lum3_e(r, g, b);
    proof {
        lemma_tdiv_abs(77 * r as int + 151 * g as int + 28 * b as int, 256, 0x202_0000);
    }
    let x = if r < g { if g < b { b } else { g } } else { if r < b { b } else { r } };
    if x <= 255 {
        (r, g, b)
    } else if l >= 255 {
        (255, 255, 255)
    } else {
        proof {
            lemma_mul_abs_le(r as int - l as int, 255 - l as int, 0x500_0000, 0x500_0000);
            lemma_mul_abs_le(g as int - l as int, 255 - l as int, 0x500_0000, 0x500_0000);
            lemma_mul_abs_le(b as int - l as int, 255 - l as int, 0x500_0000, 0x500_0000);
            lemma_tdiv_abs((r as int - l as int) * (255 - l as int), x as int - l as int, 0x19_0000_0000_0000);
            lemma_tdiv_abs((g as int - l as int) * (255 - l as int), x as int - l as int, 0x19_0000_0000_0000);
            lemma_tdiv_abs((b as int - l as int) * (255 - l as int), x as int - l as int, 0x19_0000_0000_0000);
        }
        (
            l + idiv((r - l) * (255 - l), x - l),
            l + idiv((g - l) * (255 - l), x - l),
            l + idiv((b - l) * (255 - l), x - l),
        )
    }
}

fn clip3_e(r: i64, g: i64, b: i64) -> (t: (i64, i64, i64))
    requires
        -0x1000 <= r <= 0x1000,
        -0x1000 <= g <= 0x1000,
        -0x1000 <= b <= 0x1000,
    ensures
        (t.0 as int, t.1 as int, t.2 as int) == clip3(r as int, g as int, b as int),
        0 <= t.0 <= 255 && 0 <= t.1 <= 255 && 0 <= t.2 <= 255,
{
    let t = clip_low_e(r, g, b);
    let u = clip_high_e(t.0, t.1, t.2);
    (sat0i(u.0), sat0i(u.1), sat0i(u.2))
}

/// Shift the channels to the requested luma, then clip.
pub open spec fn setlum(r: int, g: int, b: int, l: int) -> (int, int, int) {
    let dl = l - lum3(r, g, b);
    clip3(r + dl, g + dl, b + dl)
}

fn setlum_e(r: i64, g: i64, b: i64, l: i64) -> (t: (i64, i64, i64))
    requires
        0 <= r <= 255 && 0 <= g <= 255 && 0 <= b <= 255,
        0 <= l <= 255,
    ensures
        (t.0 as int, t.1 as int, t.2 as int) == setlum(r as int, g as int, b as int, l as int),
        0 <= t.0 <= 255 && 0 <= t.1 <= 255 && 0 <= t.2 <= 255,
{
    let lc = lum3_e(r, g, b);
    proof {
        lemma_tdiv_abs(77 * r as int + 151 * g as int + 28 * b as int, 256, 255);
    }
    let dl = l - lc;
    clip3_e(r + dl, g + dl, b + dl)
}

/// A whole Porter-Duff blend: the same weights on every channel.
pub open spec fn pd_px(s: Pixel, d: Pixel, fs: int, fd: int) -> Pixel {
    Pixel {
        r: pd(s.r as int, d.r as int, fs, fd) as u8,
        g: pd(s.g as int, d.g as int, fs, fd) as u8,
        b: pd(s.b as int, d.b as int, fs, fd) as u8,
        a: pd(s.a as int, d.a as int, fs, fd) as u8,
    }
}

/// A separable photographic blend: one channel formula on each color
/// channel, source-over on the alpha.
pub open spec fn sep_px(f: spec_fn(int, int, int, int) -> int, s: Pixel, d: Pixel) -> Pixel {
    Pixel {
        r: f(s.r as int, d.r as int, s.a as int, d.a as int) as u8,
        g: f(s.g as int, d.g as int, s.a as int, d.a as int) as u8,
        b: f(s.b as int, d.b as int, s.a as int, d.a as int) as u8,
        a: alpha_over(s.a as int, d.a as int) as u8,
    }
}

pub open spec fn unpremul_px(p: Pixel) -> (int, int, int) {
    (spec_unpremul(p.r as int, p.a as int),
     spec_unpremul(p.g as int, p.a as int),
     spec_unpremul(p.b as int, p.a as int))
}

pub open spec fn lum3t(t: (int, int, int)) -> int {
    lum3(t.0, t.1, t.2)
}

pub open spec fn sat3t(t: (int, int, int)) -> int {
    max3(t.0, t.1, t.2) - min3(t.0, t.1, t.2)
}

pub open spec fn setsat3(t: (int, int, int), sv: int) -> (int, int, int) {
    let mn = min3(t.0, t.1, t.2);
    let mx = max3(t.0, t.1, t.2);
    (setsat_ch(t.0, mn, mx, sv), setsat_ch(t.1, mn, mx, sv), setsat_ch(t.2, mn, mx, sv))
}

/// Composite the blended un-premultiplied triple `bb` over the
/// premultiplied samples.
pub open spec fn nonsep_px(bb: (int, int, int), s: Pixel, d: Pixel) -> Pixel {
    let sa = s.a as int;
    let da = d.a as int;
    let w = div255(sa * da);
    Pixel {
        r: sat0(div255(w * bb.0) + spill(s.r as int, d.r as int, sa, da)) as u8,
        g: sat0(div255(w * bb.1) + spill(s.g as int, d.g as int, sa, da)) as u8,
        b: sat0(div255(w * bb.2) + spill(s.b as int, d.b as int, sa, da)) as u8,
        a: alpha_over(sa, da) as u8,
    }
}

/// What each blend mode leaves in the buffer, given the incoming
/// (source) and stored (destination) premultiplied samples.
pub open spec fn spec_blend(mode: ts_blend_mode, s: Pixel, d: Pixel) -> Pixel {
    let sa = s.a as int;
    let da = d.a as int;
    let cs = unpremul_px(s);
    let cb = unpremul_px(d);
    match mode {
        ts_blend_mode::SourceOver => pd_px(s, d, 255, 255 - sa),
        ts_blend_mode::SourceCopy => pd_px(s, d, 255, 0),
        ts_blend_mode::Clear => pd_px(s, d, 0, 0),
        ts_blend_mode::Destination => pd_px(s, d, 0, 255),
        ts_blend_mode::DestinationOver => pd_px(s, d, 255 - da, 255),
        ts_blend_mode::SourceIn => pd_px(s, d, da, 0),
        ts_blend_mode::DestinationIn => pd_px(s, d, 0, sa),
        ts_blend_mode::SourceOut => pd_px(s, d, 255 - da, 0),
        ts_blend_mode::DestinationOut => pd_px(s, d, 0, 255 - sa),
        ts_blend_mode::SourceAtop => pd_px(s, d, da, 255 - sa),
        ts_blend_mode::DestinationAtop => pd_px(s, d, 255 - da, sa),
        ts_blend_mode::Xor => pd_px(s, d, 255 - da, 255 - sa),
        ts_blend_mode::Plus => pd_px(s, d, 255, 255),
        ts_blend_mode::Modulate => sep_px(|sc: int, dc: int, a1: int, a2: int| sat0(div255(sc * dc)), s, d),
        ts_blend_mode::Screen => sep_px(|sc: int, dc: int, a1: int, a2: int| ch_screen(sc, dc, a1, a2), s, d),
        ts_blend_mode::Overlay => sep_px(|sc: int, dc: int, a1: int, a2: int| ch_hardlight(dc, sc, a2, a1), s, d),
        ts_blend_mode::Darken => sep_px(|sc: int, dc: int, a1: int, a2: int| ch_darken(sc, dc, a1, a2), s, d),
        ts_blend_mode::Lighten => sep_px(|sc: int, dc: int, a1: int, a2: int| ch_lighten(sc, dc, a1, a2), s, d),
        ts_blend_mode::ColorDodge => sep_px(|sc: int, dc: int, a1: int, a2: int| ch_dodge(sc, dc, a1, a2), s, d),
        ts_blend_mode::ColorBurn => sep_px(|sc: int, dc: int, a1: int, a2: int| ch_burn(sc, dc, a1, a2), s, d),
        ts_blend_mode::HardLight => sep_px(|sc: int, dc: int, a1: int, a2: int| ch_hardlight(sc, dc, a1, a2), s, d),
        ts_blend_mode::SoftLight => sep_px(|sc: int, dc: int, a1: int, a2: int| ch_softlight(sc, dc, a1, a2), s, d),
        ts_blend_mode::Difference => sep_px(|sc: int, dc: int, a1: int, a2: int| ch_difference(sc, dc, a1, a2), s, d),
        ts_blend_mode::Exclusion => sep_px(|sc: int, dc: int, a1: int, a2: int| ch_exclusion(sc, dc, a1, a2), s, d),
        ts_blend_mode::Multiply => sep_px(|sc: int, dc: int, a1: int, a2: int| ch_multiply(sc, dc, a1, a2), s, d),
        ts_blend_mode::Hue => nonsep_px(setlum3(setsat3(cs, sat3t(cb)), lum3t(cb)), s, d),
        ts_blend_mode::Saturation => nonsep_px(setlum3(setsat3(cb, sat3t(cs)), lum3t(cb)), s, d),
        ts_blend_mode::Color => nonsep_px(setlum3(cs, lum3t(cb)), s, d),
        ts_blend_mode::Luminosity => nonsep_px(setlum3(cb, lum3t(cs)), s, d),
    }
}

pub open spec fn setlum3(t: (int, int, int), l: int) -> (int, int, int) {
    setlum(t.0, t.1, t.2, l)
}

fn pd_px_e(s: Pixel, d: Pixel, fs: i64, fd: i64) -> (r: Pixel)
    requires
        0 <= fs <= 255,
        0 <= fd <= 255,
    ensures
        r == pd_px(s, d, fs as int, fd as int),
{
    Pixel {
        r: pd_e(s.r as i64, d.r as i64, fs, fd) as u8,
        g: pd_e(s.g as i64, d.g as i64, fs, fd) as u8,
        b: pd_e(s.b as i64, d.b as i64, fs, fd) as u8,
        a: pd_e(s.a as i64, d.a as i64, fs, fd) as u8,
    }
}

fn nonsep_px_e(b0: i64, b1: i64, b2: i64, s: Pixel, d: Pixel) -> (r: Pixel)
    requires
        0 <= b0 <= 255 && 0 <= b1 <= 255 && 0 <= b2 <= 255,
    ensures
        r == nonsep_px((b0 as int, b1 as int, b2 as int), s, d),
{
    let sa: i64 = s.a as i64;
    let da: i64 = d.a as i64;
    let w: i64 = md(sa, da);
    Pixel {
        r: sat0i(md(w, b0) + spill_e(s.r as i64, d.r as i64, sa, da)) as u8,
        g: sat0i(md(w, b1) + spill_e(s.g as i64, d.g as i64, sa, da)) as u8,
        b: sat0i(md(w, b2) + spill_e(s.b as i64, d.b as i64, sa, da)) as u8,
        a: alpha_over_e(sa, da) as u8,
    }
}

fn min3_e(a: i64, b: i64, c: i64) -> (r: i64)
    ensures
        r == min3(a as int, b as int, c as int),
{
    if a < b { if a < c { a } else { c } } else { if b < c { b } else { c } }
}

fn max3_e(a: i64, b: i64, c: i64) -> (r: i64)
    ensures
        r == max3(a as int, b as int, c as int),
{
    if a < b { if b < c { c } else { b } } else { if a < c { c } else { a } }
}

fn setsat3_e(t0: i64, t1: i64, t2: i64, sv: i64) -> (r: (i64, i64, i64))
    requires
        0 <= t0 <= 255 && 0 <= t1 <= 255 && 0 <= t2 <= 255,
        0 <= sv <= 255,
    ensures
        (r.0 as int, r.1 as int, r.2 as int) == setsat3((t0 as int, t1 as int, t2 as int), sv as int),
        0 <= r.0 <= 255 && 0 <= r.1 <= 255 && 0 <= r.2 <= 255,
{
    let mn = min3_e(t0, t1, t2);
    let mx = max3_e(t0, t1, t2);
    (setsat_ch_e(t0, mn, mx, sv), setsat_ch_e(t1, mn, mx, sv), setsat_ch_e(t2, mn, mx, sv))
}

fn lum_of(t0: i64, t1: i64, t2: i64) -> (l: i64)
    requires
        0 <= t0 <= 255 && 0 <= t1 <= 255 && 0 <= t2 <= 255,
    ensures
        l == lum3(t0 as int, t1 as int, t2 as int),
        0 <= l <= 255,
{
    let l = lum3_e(t0, t1, t2);
    proof {
        crate::fixed::lemma_tdiv_bounded(77 * t0 as int + 151 * t1 as int + 28 * t2 as int, 256, 255);
    }
    l
}

/// Blend one incoming sample over one stored sample under the given
/// mode; both and the result are premultiplied.
pub fn blend_pixel(mode: ts_blend_mode, s: Pixel, d: Pixel) -> (r: Pixel)
    ensures
        r == spec_blend(mode, s, d),
{
    let sa: i64 = s.a as i64;
    let da: i64 = d.a as i64;
    match mode {
        ts_blend_mode::SourceOver => pd_px_e(s, d, 255, 255 - sa),
        ts_blend_mode::SourceCopy => pd_px_e(s, d, 255, 0),
        ts_blend_mode::Clear => pd_px_e(s, d, 0, 0),
        ts_blend_mode::Destination => pd_px_e(s, d, 0, 255),
        ts_blend_mode::DestinationOver => pd_px_e(s, d, 255 - da, 255),
        ts_blend_mode::SourceIn => pd_px_e(s, d, da, 0),
        ts_blend_mode::DestinationIn => pd_px_e(s, d, 0, sa),
        ts_blend_mode::SourceOut => pd_px_e(s, d, 255 - da, 0),
        ts_blend_mode::DestinationOut => pd_px_e(s, d, 0, 255 - sa),
        ts_blend_mode::SourceAtop => pd_px_e(s, d, da, 255 - sa),
        ts_blend_mode::DestinationAtop => pd_px_e(s, d, 255 - da, sa),
        ts_blend_mode::Xor => pd_px_e(s, d, 255 - da, 255 - sa),
        ts_blend_mode::Plus => pd_px_e(s, d, 255, 255),
        ts_blend_mode::Modulate => Pixel {
            r: sat0i(md(s.r as i64, d.r as i64)) as u8,
            g: sat0i(md(s.g as i64, d.g as i64)) as u8,
            b: sat0i(md(s.b as i64, d.b as i64)) as u8,
            a: alpha_over_e(sa, da) as u8,
        },
        ts_blend_mode::Screen => Pixel {
            r: ch_screen_e(s.r as i64, d.r as i64, sa, da) as u8,
            g: ch_screen_e(s.g as i64, d.g as i64, sa, da) as u8,
            b: ch_screen_e(s.b as i64, d.b as i64, sa, da) as u8,
            a: alpha_over_e(sa, da) as u8,
        },
        ts_blend_mode::Overlay => Pixel {
            r: ch_hardlight_e(d.r as i64, s.r as i64, da, sa) as u8,
            g: ch_hardlight_e(d.g as i64, s.g as i64, da, sa) as u8,
            b: ch_hardlight_e(d.b as i64, s.b as i64, da, sa) as u8,
            a: alpha_over_e(sa, da) as u8,
        },
        ts_blend_mode::Darken => Pixel {
            r: ch_darken_e(s.r as i64, d.r as i64, sa, da) as u8,
            g: ch_darken_e(s.g as i64, d.g as i64, sa, da) as u8,
            b: ch_darken_e(s.b as i64, d.b as i64, sa, da) as u8,
            a: alpha_over_e(sa, da) as u8,
        },
        ts_blend_mode::Lighten => Pixel {
            r: ch_lighten_e(s.r as i64, d.r as i64, sa, da) as u8,
            g: ch_lighten_e(s.g as i64, d.g as i64, sa, da) as u8,
            b: ch_lighten_e(s.b as i64, d.b as i64, sa, da) as u8,
            a: alpha_over_e(sa, da) as u8,
        },
        ts_blend_mode::ColorDodge => Pixel {
            r: ch_dodge_e(s.r as i64, d.r as i64, sa, da) as u8,
            g: ch_dodge_e(s.g as i64, d.g as i64, sa, da) as u8,
            b: ch_dodge_e(s.b as i64, d.b as i64, sa, da) as u8,
            a: alpha_over_e(sa, da) as u8,
        },
        ts_blend_mode::ColorBurn => Pixel {
            r: ch_burn_e(s.r as i64, d.r as i64, sa, da) as u8,
            g: ch_burn_e(s.g as i64, d.g as i64, sa, da) as u8,
            b: ch_burn_e(s.b as i64, d.b as i64, sa, da) as u8,
            a: alpha_over_e(sa, da) as u8,
        },
        ts_blend_mode::HardLight => Pixel {
            r: ch_hardlight_e(s.r as i64, d.r as i64, sa, da) as u8,
            g: ch_hardlight_e(s.g as i64, d.g as i64, sa, da) as u8,
            b: ch_hardlight_e(s.b as i64, d.b as i64, sa, da) as u8,
            a: alpha_over_e(sa, da) as u8,
        },
        ts_blend_mode::SoftLight => Pixel {
            r: ch_softlight_e(s.r as i64, d.r as i64, sa, da) as u8,
            g: ch_softlight_e(s.g as i64, d.g as i64, sa, da) as u8,
            b: ch_softlight_e(s.b as i64, d.b as i64, sa, da) as u8,
            a: alpha_over_e(sa, da) as u8,
        },
        ts_blend_mode::Difference => Pixel {
            r: ch_difference_e(s.r as i64, d.r as i64, sa, da) as u8,
            g: ch_difference_e(s.g as i64, d.g as i64, sa, da) as u8,
            b: ch_difference_e(s.b as i64, d.b as i64, sa, da) as u8,
            a: alpha_over_e(sa, da) as u8,
        },
        ts_blend_mode::Exclusion => Pixel {
            r: ch_exclusion_e(s.r as i64, d.r as i64, sa, da) as u8,
            g: ch_exclusion_e(s.g as i64, d.g as i64, sa, da) as u8,
            b: ch_exclusion_e(s.b as i64, d.b as i64, sa, da) as u8,
            a: alpha_over_e(sa, da) as u8,
        },
        ts_blend_mode::Multiply => Pixel {
            r: ch_multiply_e(s.r as i64, d.r as i64, sa, da) as u8,
            g: ch_multiply_e(s.g as i64, d.g as i64, sa, da) as u8,
            b: ch_multiply_e(s.b as i64, d.b as i64, sa, da) as u8,
            a: alpha_over_e(sa, da) as u8,
        },
        ts_blend_mode::Hue => {
            let (csr, csg, csb) = (unpremul(s.r as i64, sa), unpremul(s.g as i64, sa), unpremul(s.b as i64, sa));
            let (cbr, cbg, cbb) = (unpremul(d.r as i64, da), unpremul(d.g as i64, da), unpremul(d.b as i64, da));
            let sv = max3_e(cbr, cbg, cbb) - min3_e(cbr, cbg, cbb);
            let t = setsat3_e(csr, csg, csb, sv);
            let u = setlum_e(t.0, t.1, t.2, lum_of(cbr, cbg, cbb));
            nonsep_px_e(u.0, u.1, u.2, s, d)
        },
        ts_blend_mode::Saturation => {
            let (csr, csg, csb) = (unpremul(s.r as i64, sa), unpremul(s.g as i64, sa), unpremul(s.b as i64, sa));
            let (cbr, cbg, cbb) = (unpremul(d.r as i64, da), unpremul(d.g as i64, da), unpremul(d.b as i64, da));
            let sv = max3_e(csr, csg, csb) - min3_e(csr, csg, csb);
            let t = setsat3_e(cbr, cbg, cbb, sv);
            let u = setlum_e(t.0, t.1, t.2, lum_of(cbr, cbg, cbb));
            nonsep_px_e(u.0, u.1, u.2, s, d)
        },
        ts_blend_mode::Color => {
            let (csr, csg, csb) = (unpremul(s.r as i64, sa), unpremul(s.g as i64, sa), unpremul(s.b as i64, sa));
            let (cbr, cbg, cbb) = (unpremul(d.r as i64, da), unpremul(d.g as i64, da), unpremul(d.b as i64, da));
            let u = setlum_e(csr, csg, csb, lum_of(cbr, cbg, cbb));
            nonsep_px_e(u.0, u.1, u.2, s, d)
        },
        ts_blend_mode::Luminosity => {
            let (csr, csg, csb) = (unpremul(s.r as i64, sa), unpremul(s.g as i64, sa), unpremul(s.b as i64, sa));
            let (cbr, cbg, cbb) = (unpremul(d.r as i64, da), unpremul(d.g as i64, da), unpremul(d.b as i64, da));
            let u = setlum_e(cbr, cbg, cbb, lum_of(csr, csg, csb));
            nonsep_px_e(u.0, u.1, u.2, s, d)
        },
    }
}

/// The destination operator keeps every stored sample unchanged, and
/// the clear operator always stores the fully transparent sample.
pub proof fn lemma_destination_and_clear(s: Pixel, d: Pixel)
    ensures
        spec_blend(ts_blend_mode::Destination, s, d) == d,
        spec_blend(ts_blend_mode::Clear, s, d) == crate::pixmap::transparent(),
{
    assert(div255(d.r as int * 255) == d.r as int) by (nonlinear_arith);
    assert(div255(d.g as int * 255) == d.g as int) by (nonlinear_arith);
    assert(div255(d.b as int * 255) == d.b as int) by (nonlinear_arith);
    assert(div255(d.a as int * 255) == d.a as int) by (nonlinear_arith);
}

/// Drawing with source-over onto a fully transparent sample stores the
/// source sample unchanged.
pub proof fn lemma_source_over_transparent(s: Pixel)
    ensures
        spec_blend(ts_blend_mode::SourceOver, s, crate::pixmap::transparent()) == s,
{
    assert forall|x: u8| #[trigger] pd(x as int, 0, 255, 255 - 0) == x as int by {
        assert(div255(x as int * 255) == x as int) by (nonlinear_arith);
        assert(div255(0 * (255 - 0)) == 0);
    }
    assert(pd(s.r as int, 0, 255, 255) == s.r as int);
    assert(pd(s.g as int, 0, 255, 255) == s.g as int);
    assert(pd(s.b as int, 0, 255, 255) == s.b as int);
    assert(pd(s.a as int, 0, 255, 255) == s.a as int);
}

} // verus!
