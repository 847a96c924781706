//! Paint sources: solid colors and linear and radial gradients with
//! spread-mode extrapolation, evaluated in fixed-point arithmetic.
use vstd::prelude::*;
use crate::fixed::{
    FP_ONE, COORD_MAX, coord_valid, spec_add, spec_sub, spec_mul, spec_div, spec_clamp,
    spec_isqrt, tdiv, cadd, csub, cmul, cdiv, clamp, isqrt_i, lemma_mul_le,
    lemma_tdiv_bounded,
};
use crate::fixed::{spec_dist, dist};
use crate::geom::{Transform, transform_valid};
use crate::pixmap::{ts_color, Pixel, spec_premultiply, premultiply, transparent};

verus! {

/// How a gradient extends outside its defined [0, 1] span.
#[derive(Clone, Copy, PartialEq, Eq, Structural, Debug)]
pub enum ts_spread_mode {
    Repeat,
    Pad,
    Reflect,
}

/// Map a parametric position into the gradient span under a spread
/// mode: pad clamps, repeat wraps, reflect folds like a triangle wave.
pub open spec fn spec_spread(mode: ts_spread_mode, t: int) -> int {
    match mode {
        ts_spread_mode::Pad => if t < 0 {
            0
        } else if t > FP_ONE {
            FP_ONE as int
        } else {
            t
        },
        ts_spread_mode::Repeat => t % (FP_ONE as int),
        ts_spread_mode::Reflect => {
            let m = t % (2 * FP_ONE as int);
            if m > FP_ONE {
                2 * FP_ONE - m
            } else {
                m
            }
        },
    }
}

pub fn spread_t(mode: ts_spread_mode, t: i64) -> (r: i64)
    requires
        coord_valid(t as int),
    ensures
        r == spec_spread(mode, t as int),
        0 <= r <= FP_ONE,
{
    match mode {
        ts_spread_mode::Pad => {
            if t < 0 {
                0
            } else if t > FP_ONE {
                FP_ONE
            } else {
                t
            }
        },
        ts_spread_mode::Repeat => {
            proof {
                vstd::arithmetic::div_mod::lemma_mod_multiples_vanish(
                    1048576, t as int, 256);
            }
            (((t + COORD_MAX) as u64) % 256) as i64
        },
        ts_spread_mode::Reflect => {
            proof {
                vstd::arithmetic::div_mod::lemma_mod_multiples_vanish(
                    524288, t as int, 512);
            }
            let m: i64 = (((t + COORD_MAX) as u64) % 512) as i64;
            if m > FP_ONE {
                2 * FP_ONE - m
            } else {
                m
            }
        },
    }
}

/// One gradient stop: a parametric position inside [0, 1] and the
/// color there.
#[derive(Clone, Copy, PartialEq, Eq, Structural, Debug)]
pub struct GradientStop {
    pub pos: i64,
    pub color: ts_color,
}

pub open spec fn stop_valid(s: GradientStop) -> bool {
    0 <= s.pos <= FP_ONE
}

pub open spec fn stops_wf(s: Seq<GradientStop>) -> bool {
    &&& (forall|i: int| 0 <= i < s.len() ==> stop_valid(#[trigger] s[i]))
    &&& (forall|i: int, j: int| 0 <= i <= j < s.len() ==> #[trigger] s[i].pos <= #[trigger] s[j].pos)
}

/// Interpolate between the bracketing stops from index `k` on;
/// `k - 1` is the last stop known to sit strictly before `t`.
pub open spec fn seek_color(s: Seq<GradientStop>, t: int, k: int) -> Pixel
    decreases s.len() - k,
{
    if k < 1 || k >= s.len() {
        if s.len() > 0 {
            spec_premultiply(s.last().color)
        } else {
            transparent()
        }
    } else if s[k].pos >= t {
        lerp_stop(s[k - 1], s[k], t)
    } else {
        seek_color(s, t, k + 1)
    }
}

/// Linear interpolation between two stops, on premultiplied channels.
pub open spec fn lerp_stop(s0: GradientStop, s1: GradientStop, t: int) -> Pixel {
    let p0 = spec_premultiply(s0.color);
    let p1 = spec_premultiply(s1.color);
    let span = s1.pos - s0.pos;
    if span <= 0 {
        p1
    } else {
        Pixel {
            r: tdiv(p0.r as int * (s1.pos - t) + p1.r as int * (t - s0.pos), span) as u8,
            g: tdiv(p0.g as int * (s1.pos - t) + p1.g as int * (t - s0.pos), span) as u8,
            b: tdiv(p0.b as int * (s1.pos - t) + p1.b as int * (t - s0.pos), span) as u8,
            a: tdiv(p0.a as int * (s1.pos - t) + p1.a as int * (t - s0.pos), span) as u8,
        }
    }
}

/// The color a sorted stop list takes at a spread position: the
/// boundary stop outside the span, the bracketing interpolation inside.
pub open spec fn spec_stops_color(s: Seq<GradientStop>, t: int) -> Pixel {
    if s.len() == 0 {
        transparent()
    } else if t <= s[0].pos {
        spec_premultiply(s[0].color)
    } else {
        seek_color(s, t, 1)
    }
}

fn lerp_channel(c0: u8, c1: u8, w0: i64, w1: i64, span: i64) -> (r: u8)
    requires
        0 < span <= FP_ONE,
        0 <= w0 <= span,
        0 <= w1 <= span,
        w0 + w1 == span,
    ensures
        r == tdiv(c0 as int * w0 + c1 as int * w1, span as int),
{
    proof {
        lemma_mul_le(c0 as int, w0 as int, 255, span as int);
        lemma_mul_le(c1 as int, w1 as int, 255, span as int);
        assert(c0 as int * w0 + c1 as int * w1 <= 255 * span) by (nonlinear_arith)
            requires
                0 <= c0 as int <= 255,
                0 <= c1 as int <= 255,
                0 <= w0,
                0 <= w1,
                w0 + w1 == span;
        lemma_tdiv_bounded(c0 as int * w0 + c1 as int * w1, span as int, 255);
    }
    let n: i64 = (c0 as i64) * w0 + (c1 as i64) * w1;
    (crate::fixed::idiv(n, span)) as u8
}

/// The stop color at a spread position; mirrors `spec_stops_color`.
fn stops_color(stops: &Vec<GradientStop>, t: i64) -> (r: Pixel)
    requires
        stops_wf(stops@),
        0 <= t <= FP_ONE,
    ensures
        r == spec_stops_color(stops@, t as int),
{
    let n = stops.len();
    if n == 0 {
        return Pixel { r: 0, g: 0, b: 0, a: 0 };
    }
    if t <= stops[0].pos {
        return premultiply(stops[0].color);
    }
    let mut k: usize = 1;
    while k < n
        invariant
            1 <= k <= n,
            n == stops@.len(),
            stops_wf(stops@),
            0 <= t <= FP_ONE,
            t > stops@[0].pos,
            forall|j: int| 0 <= j < k ==> #[trigger] stops@[j].pos < t,
            seek_color(stops@, t as int, 1) == seek_color(stops@, t as int, k as int),
        decreases n - k,
    {
        if stops[k].pos >= t {
            let s0 = stops[k - 1];
            let s1 = stops[k];
            let span: i64 = s1.pos - s0.pos;
            let p0 = premultiply(s0.color);
            let p1 = premultiply(s1.color);
            return Pixel {
                r: lerp_channel(p0.r, p1.r, s1.pos - t, t - s0.pos, span),
                g: lerp_channel(p0.g, p1.g, s1.pos - t, t - s0.pos, span),
                b: lerp_channel(p0.b, p1.b, s1.pos - t, t - s0.pos, span),
                a: lerp_channel(p0.a, p1.a, s1.pos - t, t - s0.pos, span),
            };
        }
        k = k + 1;
    }
    premultiply(stops[n - 1].color)
}

/// A linear gradient: a parametric axis from a start to an end point,
/// a sorted stop list, a spread mode and a local transform.
pub struct LinearGradient {
    pub x0: i64,
    pub y0: i64,
    pub x1: i64,
    pub y1: i64,
    pub stops: Vec<GradientStop>,
    pub spread: ts_spread_mode,
    pub transform: Transform,
}

pub open spec fn linear_wf(g: LinearGradient) -> bool {
    &&& coord_valid(g.x0 as int)
    &&& coord_valid(g.y0 as int)
    &&& coord_valid(g.x1 as int)
    &&& coord_valid(g.y1 as int)
    &&& stops_wf(g.stops@)
    &&& transform_valid(g.transform)
}

/// A radial gradient: a focal point, the end circle's center and
/// radius, a sorted stop list, a spread mode and a local transform.
pub struct RadialGradient {
    pub x0: i64,
    pub y0: i64,
    pub x1: i64,
    pub y1: i64,
    pub r0: i64,
    pub stops: Vec<GradientStop>,
    pub spread: ts_spread_mode,
    pub transform: Transform,
}

pub open spec fn radial_wf(g: RadialGradient) -> bool {
    &&& coord_valid(g.x0 as int)
    &&& coord_valid(g.y0 as int)
    &&& coord_valid(g.x1 as int)
    &&& coord_valid(g.y1 as int)
    &&& coord_valid(g.r0 as int)
    &&& stops_wf(g.stops@)
    &&& transform_valid(g.transform)
}

/// Raise an out-of-range or out-of-order stop into place: positions
/// clamp to [0, 1] and never fall below the last stop already pushed.
pub open spec fn spec_push_stop(s: Seq<GradientStop>, pos: int, color: ts_color) -> Seq<GradientStop> {
    let p0 = if pos < 0 {
        0
    } else if pos > FP_ONE {
        FP_ONE as int
    } else {
        pos
    };
    let p1 = if s.len() > 0 && s.last().pos > p0 {
        s.last().pos as int
    } else {
        p0
    };
    s.push(GradientStop { pos: p1 as i64, color })
}

fn push_stop_vec(stops: &mut Vec<GradientStop>, pos: i64, color: ts_color)
    requires
        stops_wf(old(stops)@),
    ensures
        stops_wf(final(stops)@),
        final(stops)@ == spec_push_stop(old(stops)@, pos as int, color),
{
    let p0: i64 = if pos < 0 {
        0
    } else if pos > FP_ONE {
        FP_ONE
    } else {
        pos
    };
    let n = stops.len();
    let p1: i64 = if n > 0 && stops[n - 1].pos > p0 {
        stops[n - 1].pos
    } else {
        p0
    };
    stops.push(GradientStop { pos: p1, color });
    proof {
        let s = final(stops)@;
        assert forall|i: int, j: int| 0 <= i <= j < s.len() implies
            #[trigger] s[i].pos <= #[trigger] s[j].pos by {
            if j == s.len() - 1 && i < j {
                assert(old(stops)@[i].pos <= old(stops)@[old(stops)@.len() - 1].pos);
            }
        }
    }
}

impl LinearGradient {
    /// A gradient along the axis from `(x0, y0)` to `(x1, y1)`, with
    /// no stops yet.
    pub fn create(x0: i64, y0: i64, x1: i64, y1: i64, spread: ts_spread_mode, transform: Transform)
        -> (g: LinearGradient)
        requires
            transform_valid(transform),
        ensures
            linear_wf(g),
            g.stops@.len() == 0,
            g.spread == spread,
            g.transform == transform,
            g.x0 == spec_clamp(x0 as int) && g.y0 == spec_clamp(y0 as int),
            g.x1 == spec_clamp(x1 as int) && g.y1 == spec_clamp(y1 as int),
    {
        LinearGradient {
            x0: clamp(x0), y0: clamp(y0), x1: clamp(x1), y1: clamp(y1),
            stops: Vec::new(), spread, transform,
        }
    }

    /// Append a stop; out-of-order positions are raised to keep the
    /// list sorted.
    pub fn push_stop(&mut self, pos: i64, color: ts_color)
        requires
            linear_wf(*old(self)),
        ensures
            linear_wf(*final(self)),
            final(self).stops@ == spec_push_stop(old(self).stops@, pos as int, color),
            final(self).x0 == old(self).x0 && final(self).y0 == old(self).y0,
            final(self).x1 == old(self).x1 && final(self).y1 == old(self).y1,
            final(self).spread == old(self).spread,
            final(self).transform == old(self).transform,
    {
        push_stop_vec(&mut self.stops, pos, color);
    }
}

impl RadialGradient {
    /// A gradient from the focal point `(x0, y0)` out to the circle
    /// centered at `(x1, y1)` with the given radius, with no stops yet.
    pub fn create(x0: i64, y0: i64, x1: i64, y1: i64, r0: i64, spread: ts_spread_mode,
        transform: Transform) -> (g: RadialGradient)
        requires
            transform_valid(transform),
        ensures
            radial_wf(g),
            g.stops@.len() == 0,
            g.spread == spread,
            g.transform == transform,
            g.x0 == spec_clamp(x0 as int) && g.y0 == spec_clamp(y0 as int),
            g.x1 == spec_clamp(x1 as int) && g.y1 == spec_clamp(y1 as int),
            g.r0 == spec_clamp(r0 as int),
    {
        RadialGradient {
            x0: clamp(x0), y0: clamp(y0), x1: clamp(x1), y1: clamp(y1), r0: clamp(r0),
            stops: Vec::new(), spread, transform,
        }
    }

    /// Append a stop; out-of-order positions are raised to keep the
    /// list sorted.
    pub fn push_stop(&mut self, pos: i64, color: ts_color)
        requires
            radial_wf(*old(self)),
        ensures
            radial_wf(*final(self)),
            final(self).stops@ == spec_push_stop(old(self).stops@, pos as int, color),
            final(self).x0 == old(self).x0 && final(self).y0 == old(self).y0,
            final(self).x1 == old(self).x1 && final(self).y1 == old(self).y1,
            final(self).r0 == old(self).r0,
            final(self).spread == old(self).spread,
            final(self).transform == old(self).transform,
    {
        push_stop_vec(&mut self.stops, pos, color);
    }
}

/// A shading source: exactly one of a solid color, a linear gradient
/// or a radial gradient.
pub enum Paint {
    Solid(ts_color),
    Linear(LinearGradient),
    Radial(RadialGradient),
}

pub open spec fn paint_wf(p: Paint) -> bool {
    match p {
        Paint::Solid(_) => true,
        Paint::Linear(g) => linear_wf(g),
        Paint::Radial(g) => radial_wf(g),
    }
}

/// The parametric position of a point along a linear gradient's axis;
/// a zero-length axis is degenerate and reads as position zero.
pub open spec fn spec_linear_t(g: LinearGradient, px: int, py: int) -> int {
    let dx = spec_sub(g.x1 as int, g.x0 as int);
    let dy = spec_sub(g.y1 as int, g.y0 as int);
    let l2 = spec_add(spec_mul(dx, dx), spec_mul(dy, dy));
    if l2 == 0 {
        0
    } else {
        spec_div(spec_add(spec_mul(spec_sub(px, g.x0 as int), dx),
            spec_mul(spec_sub(py, g.y0 as int), dy)), l2)
    }
}

fn linear_t(g: &LinearGradient, px: i64, py: i64) -> (t: i64)
    requires
        linear_wf(*g),
        coord_valid(px as int),
        coord_valid(py as int),
    ensures
        t == spec_linear_t(*g, px as int, py as int),
        coord_valid(t as int),
{
    let dx = csub(g.x1, g.x0);
    let dy = csub(g.y1, g.y0);
    let l2 = cadd(cmul(dx, dx), cmul(dy, dy));
    if l2 == 0 {
        0
    } else {
        cdiv(cadd(cmul(csub(px, g.x0), dx), cmul(csub(py, g.y0), dy)), l2)
    }
}

/// The boundary color a degenerate gradient falls back to: its last
/// stop, or transparent with no stops at all.
pub open spec fn edge_color(s: Seq<GradientStop>) -> Pixel {
    if s.len() > 0 {
        spec_premultiply(s.last().color)
    } else {
        transparent()
    }
}

fn edge_color_e(stops: &Vec<GradientStop>) -> (r: Pixel)
    ensures
        r == edge_color(stops@),
{
    let n = stops.len();
    if n > 0 {
        premultiply(stops[n - 1].color)
    } else {
        Pixel { r: 0, g: 0, b: 0, a: 0 }
    }
}

/// The color a radial gradient takes at a point: the position along
/// the two-circle ramp from the focal point to the end circle, spread
/// and interpolated; degenerate configurations (zero radius, a ramp
/// with no real solution) fall back to the boundary color.
pub open spec fn spec_radial(g: RadialGradient, px: int, py: int) -> Pixel {
    if g.r0 <= 0 {
        edge_color(g.stops@)
    } else {
        let qx = spec_sub(px, g.x0 as int);
        let qy = spec_sub(py, g.y0 as int);
        let ddx = spec_sub(g.x1 as int, g.x0 as int);
        let ddy = spec_sub(g.y1 as int, g.y0 as int);
        if ddx == 0 && ddy == 0 {
            let t = spec_div(spec_dist(qx, qy), g.r0 as int);
            spec_stops_color(g.stops@, spec_spread(g.spread, t))
        } else {
            let aa = spec_sub(spec_add(spec_mul(ddx, ddx), spec_mul(ddy, ddy)),
                spec_mul(g.r0 as int, g.r0 as int));
            let bb = spec_add(spec_mul(qx, ddx), spec_mul(qy, ddy));
            let cc = spec_add(spec_mul(qx, qx), spec_mul(qy, qy));
            if aa == 0 {
                let b2 = spec_add(bb, bb);
                if b2 == 0 {
                    edge_color(g.stops@)
                } else {
                    let t = spec_div(cc, b2);
                    spec_stops_color(g.stops@, spec_spread(g.spread, t))
                }
            } else {
                let disc = spec_sub(spec_mul(bb, bb), spec_mul(aa, cc));
                if disc < 0 {
                    edge_color(g.stops@)
                } else {
                    let sq = spec_clamp(spec_isqrt(disc * FP_ONE));
                    let t = spec_div(spec_add(bb, sq), aa);
                    spec_stops_color(g.stops@, spec_spread(g.spread, t))
                }
            }
        }
    }
}

fn radial_color(g: &RadialGradient, px: i64, py: i64) -> (r: Pixel)
    requires
        radial_wf(*g),
        coord_valid(px as int),
        coord_valid(py as int),
    ensures
        r == spec_radial(*g, px as int, py as int),
{
    if g.r0 <= 0 {
        return edge_color_e(&g.stops);
    }
    let qx = csub(px, g.x0);
    let qy = csub(py, g.y0);
    let ddx = csub(g.x1, g.x0);
    let ddy = csub(g.y1, g.y0);
    if ddx == 0 && ddy == 0 {
        let t = cdiv(dist(qx, qy), g.r0);
        let ts = spread_t(g.spread, t);
        return stops_color(&g.stops, ts);
    }
    let aa = csub(cadd(cmul(ddx, ddx), cmul(ddy, ddy)), cmul(g.r0, g.r0));
    let bb = cadd(cmul(qx, ddx), cmul(qy, ddy));
    let cc = cadd(cmul(qx, qx), cmul(qy, qy));
    if aa == 0 {
        let b2 = cadd(bb, bb);
        if b2 == 0 {
            edge_color_e(&g.stops)
        } else {
            let t = cdiv(cc, b2);
            let ts = spread_t(g.spread, t);
            stops_color(&g.stops, ts)
        }
    } else {
        let disc = csub(cmul(bb, bb), cmul(aa, cc));
        if disc < 0 {
            edge_color_e(&g.stops)
        } else {
            let sq = clamp(isqrt_i(disc * FP_ONE));
            let t = cdiv(cadd(bb, sq), aa);
            let ts = spread_t(g.spread, t);
            stops_color(&g.stops, ts)
        }
    }
}

/// The premultiplied color a paint takes at a point of its own
/// coordinate space.
pub open spec fn spec_shade(p: Paint, px: int, py: int) -> Pixel {
    match p {
        Paint::Solid(c) => spec_premultiply(c),
        Paint::Linear(g) => spec_stops_color(g.stops@,
            spec_spread(g.spread, spec_linear_t(g, px, py))),
        Paint::Radial(g) => spec_radial(g, px, py),
    }
}

/// Evaluate a paint at a point of its own coordinate space.
pub fn shade(p: &Paint, px: i64, py: i64) -> (r: Pixel)
    requires
        paint_wf(*p),
        coord_valid(px as int),
        coord_valid(py as int),
    ensures
        r == spec_shade(*p, px as int, py as int),
{
    match p {
        Paint::Solid(c) => premultiply(*c),
        Paint::Linear(g) => {
            let t = linear_t(g, px, py);
            let ts = spread_t(g.spread, t);
            stops_color(&g.stops, ts)
        },
        Paint::Radial(g) => radial_color(g, px, py),
    }
}

} // verus!
