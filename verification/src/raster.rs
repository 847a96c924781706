//! Scan conversion: flatten a transformed path into edges, measure
//! winding at sample points, and composite covered pixels.
use vstd::prelude::*;
use crate::fixed::{FP_ONE, coord_valid, spec_add, spec_mul, tdiv, cadd, cmul};
use crate::geom::{Point, point_valid, Transform, transform_valid, spec_apply, spec_invert};
use crate::path::{Path, PathVerb};
use crate::pixmap::{Pixel, Pixmap, div255};
use crate::blend::{ts_blend_mode, spec_blend, blend_pixel};
use crate::shader::{Paint, paint_wf, spec_shade, shade};

verus! {

/// Which regions of a self-intersecting outline count as inside.
#[derive(Clone, Copy, PartialEq, Eq, Structural, Debug)]
pub enum ts_fill_rule {
    Winding,
    EvenOdd,
}

/// One straight edge of the flattened outline, directed from `a` to
/// `b`.
#[derive(Clone, Copy, PartialEq, Eq, Structural, Debug)]
pub struct Edge {
    pub ax: i64,
    pub ay: i64,
    pub bx: i64,
    pub by: i64,
}

pub open spec fn edge_valid(e: Edge) -> bool {
    &&& coord_valid(e.ax as int)
    &&& coord_valid(e.ay as int)
    &&& coord_valid(e.bx as int)
    &&& coord_valid(e.by as int)
}

pub open spec fn edges_valid(s: Seq<Edge>) -> bool {
    forall|i: int| 0 <= i < s.len() ==> edge_valid(#[trigger] s[i])
}

/// The winding contribution of one edge at a sample point: +1 for a
/// downward crossing of the rightward ray, -1 for an upward one.
pub open spec fn edge_wind(e: Edge, px: int, py: int) -> int {
    if e.ay <= py < e.by {
        if (e.bx - e.ax) * (py - e.ay) - (px - e.ax) * (e.by - e.ay) > 0 {
            1
        } else {
            0
        }
    } else if e.by <= py < e.ay {
        if (e.ax - e.bx) * (py - e.by) - (px - e.bx) * (e.ay - e.by) > 0 {
            -1
        } else {
            0
        }
    } else {
        0
    }
}

/// The accumulated winding number of an edge list at a sample point.
pub open spec fn winding(s: Seq<Edge>, px: int, py: int) -> int
    decreases s.len(),
{
    if s.len() == 0 {
        0
    } else {
        winding(s.drop_last(), px, py) + edge_wind(s.last(), px, py)
    }
}

/// Whether a winding number counts as inside under a fill rule.
pub open spec fn inside(rule: ts_fill_rule, w: int) -> bool {
    match rule {
        ts_fill_rule::Winding => w != 0,
        ts_fill_rule::EvenOdd => (if w < 0 { -w } else { w }) % 2 == 1,
    }
}

fn edge_wind_e(e: &Edge, px: i64, py: i64) -> (r: i64)
    requires
        edge_valid(*e),
        coord_valid(px as int),
        coord_valid(py as int),
    ensures
        r == edge_wind(*e, px as int, py as int),
        -1 <= r <= 1,
{
    proof {
        crate::blend::lemma_mul_abs_le(e.bx as int - e.ax as int, py as int - e.ay as int,
            0x2000_0000, 0x2000_0000);
        crate::blend::lemma_mul_abs_le(px as int - e.ax as int, e.by as int - e.ay as int,
            0x2000_0000, 0x2000_0000);
        crate::blend::lemma_mul_abs_le(e.ax as int - e.bx as int, py as int - e.by as int,
            0x2000_0000, 0x2000_0000);
        crate::blend::lemma_mul_abs_le(px as int - e.bx as int, e.ay as int - e.by as int,
            0x2000_0000, 0x2000_0000);
    }
    if e.ay <= py && py < e.by {
        if (e.bx - e.ax) * (py - e.ay) - (px - e.ax) * (e.by - e.ay) > 0 {
            1
        } else {
            0
        }
    } else if e.by <= py && py < e.ay {
        if (e.ax - e.bx) * (py - e.by) - (px - e.bx) * (e.ay - e.by) > 0 {
            -1
        } else {
            0
        }
    } else {
        0
    }
}

/// The winding number at a sample point; mirrors `winding`.
fn winding_at(edges: &Vec<Edge>, px: i64, py: i64) -> (r: i64)
    requires
        edges_valid(edges@),
        edges@.len() < 0x1000_0000_0000,
        coord_valid(px as int),
        coord_valid(py as int),
    ensures
        r == winding(edges@, px as int, py as int),
        -(edges@.len() as int) <= r as int <= edges@.len() as int,
{
    let n = edges.len();
    let mut i: usize = 0;
    let mut w: i64 = 0;
    while i < n
        invariant
            0 <= i <= n,
            n == edges@.len(),
            n < 0x1000_0000_0000,
            edges_valid(edges@),
            coord_valid(px as int),
            coord_valid(py as int),
            w == winding(edges@.take(i as int), px as int, py as int),
            -(i as int) <= w as int <= i as int,
        decreases n - i,
    {
        proof {
            assert(edges@.take(i as int + 1).drop_last() =~= edges@.take(i as int));
        }
        let e = edges[i];
        w = w + edge_wind_e(&e, px, py);
        i = i + 1;
    }
    proof {
        assert(edges@.take(n as int) =~= edges@);
    }
    w
}

/// The coverage at a pixel: its four subsamples tested under the fill
/// rule, scaled onto the 0..=255 range.
pub open spec fn coverage_at(edges: Seq<Edge>, rule: ts_fill_rule, x: int, y: int) -> int {
    let bx = x * FP_ONE;
    let by = y * FP_ONE;
    let n = (if inside(rule, winding(edges, bx + 64, by + 64)) { 1 as int } else { 0 as int })
        + (if inside(rule, winding(edges, bx + 192, by + 64)) { 1 as int } else { 0 as int })
        + (if inside(rule, winding(edges, bx + 64, by + 192)) { 1 as int } else { 0 as int })
        + (if inside(rule, winding(edges, bx + 192, by + 192)) { 1 as int } else { 0 as int });
    tdiv(n * 255 + 2, 4)
}

fn inside_e(rule: ts_fill_rule, w: i64) -> (r: bool)
    requires
        -0x1000_0000_0000 <= w <= 0x1000_0000_0000,
    ensures
        r == inside(rule, w as int),
{
    match rule {
        ts_fill_rule::Winding => w != 0,
        ts_fill_rule::EvenOdd => {
            let m: i64 = if w < 0 { -w } else { w };
            (m as u64 % 2) == 1
        },
    }
}

fn coverage_e(edges: &Vec<Edge>, rule: ts_fill_rule, x: u32, y: u32) -> (r: i64)
    requires
        edges_valid(edges@),
        edges@.len() < 0x1000_0000_0000,
        x < 0x10_0000,
        y < 0x10_0000,
    ensures
        r == coverage_at(edges@, rule, x as int, y as int),
        0 <= r <= 255,
{
    let bx: i64 = (x as i64) * FP_ONE;
    let by: i64 = (y as i64) * FP_ONE;
    let mut n: i64 = 0;
    if inside_e(rule, winding_at(edges, bx + 64, by + 64)) {
        n = n + 1;
    }
    if inside_e(rule, winding_at(edges, bx + 192, by + 64)) {
        n = n + 1;
    }
    if inside_e(rule, winding_at(edges, bx + 64, by + 192)) {
        n = n + 1;
    }
    if inside_e(rule, winding_at(edges, bx + 192, by + 192)) {
        n = n + 1;
    }
    ((n * 255 + 2) as u64 / 4) as i64
}

/// A point of a quadratic Bezier at parameter `tf` (fixed-point in
/// [0, 1]), by the Bernstein weights.
#[verifier::opaque]
pub open spec fn quad_point(p0: Point, c: Point, p1: Point, tf: int) -> Point {
    let u = FP_ONE - tf;
    let w0 = spec_mul(u, u);
    let w1 = 2 * spec_mul(tf, u);
    let w2 = spec_mul(tf, tf);
    Point {
        x: spec_add(spec_add(spec_mul(w0, p0.x as int), spec_mul(w1, c.x as int)),
            spec_mul(w2, p1.x as int)) as i64,
        y: spec_add(spec_add(spec_mul(w0, p0.y as int), spec_mul(w1, c.y as int)),
            spec_mul(w2, p1.y as int)) as i64,
    }
}

/// A point of a cubic Bezier at parameter `tf`, by the Bernstein
/// weights.
#[verifier::opaque]
pub open spec fn cubic_point(p0: Point, c0: Point, c1: Point, p1: Point, tf: int) -> Point {
    let u = FP_ONE - tf;
    let w0 = spec_mul(spec_mul(u, u), u);
    let w1 = 3 * spec_mul(spec_mul(tf, u), u);
    let w2 = 3 * spec_mul(spec_mul(tf, tf), u);
    let w3 = spec_mul(spec_mul(tf, tf), tf);
    Point {
        x: spec_add(spec_add(spec_add(spec_mul(w0, p0.x as int), spec_mul(w1, c0.x as int)),
            spec_mul(w2, c1.x as int)), spec_mul(w3, p1.x as int)) as i64,
        y: spec_add(spec_add(spec_add(spec_mul(w0, p0.y as int), spec_mul(w1, c0.y as int)),
            spec_mul(w2, c1.y as int)), spec_mul(w3, p1.y as int)) as i64,
    }
}

/// The sixteen chords a quadratic flattens into.
pub open spec fn quad_strip(p0: Point, c: Point, p1: Point) -> Seq<Edge> {
    Seq::new(16, |k: int| Edge {
        ax: quad_point(p0, c, p1, k * 16).x,
        ay: quad_point(p0, c, p1, k * 16).y,
        bx: quad_point(p0, c, p1, (k + 1) * 16).x,
        by: quad_point(p0, c, p1, (k + 1) * 16).y,
    })
}

/// The sixteen chords a cubic flattens into.
pub open spec fn cubic_strip(p0: Point, c0: Point, c1: Point, p1: Point) -> Seq<Edge> {
    Seq::new(16, |k: int| Edge {
        ax: cubic_point(p0, c0, c1, p1, k * 16).x,
        ay: cubic_point(p0, c0, c1, p1, k * 16).y,
        bx: cubic_point(p0, c0, c1, p1, (k + 1) * 16).x,
        by: cubic_point(p0, c0, c1, p1, (k + 1) * 16).y,
    })
}

/// The edge that closes an open subpath, if one is open.
pub open spec fn close_edges(cur: Option<Point>, start: Point) -> Seq<Edge> {
    match cur {
        Some(c) => seq![Edge { ax: c.x, ay: c.y, bx: start.x, by: start.y }],
        None => Seq::empty(),
    }
}

/// Flatten the verbs from index `i` on, given the device-space current
/// point and subpath start; every subpath is closed for filling.
pub open spec fn flat_rec(vs: Seq<PathVerb>, t: Transform, i: int, cur: Option<Point>, start: Point)
    -> Seq<Edge>
    decreases vs.len() - i,
{
    if i < 0 || i >= vs.len() {
        close_edges(cur, start)
    } else {
        match vs[i] {
            PathVerb::Move(p) => {
                let tp = spec_apply(t, p);
                close_edges(cur, start) + flat_rec(vs, t, i + 1, Some(tp), tp)
            },
            PathVerb::Line(p) => {
                let tp = spec_apply(t, p);
                match cur {
                    Some(c) => seq![Edge { ax: c.x, ay: c.y, bx: tp.x, by: tp.y }]
                        + flat_rec(vs, t, i + 1, Some(tp), start),
                    None => flat_rec(vs, t, i + 1, None, start),
                }
            },
            PathVerb::Quad(cp, p) => {
                let tc = spec_apply(t, cp);
                let tp = spec_apply(t, p);
                match cur {
                    Some(c) => quad_strip(c, tc, tp) + flat_rec(vs, t, i + 1, Some(tp), start),
                    None => flat_rec(vs, t, i + 1, None, start),
                }
            },
            PathVerb::Cubic(c0, c1, p) => {
                let tc0 = spec_apply(t, c0);
                let tc1 = spec_apply(t, c1);
                let tp = spec_apply(t, p);
                match cur {
                    Some(c) => cubic_strip(c, tc0, tc1, tp) + flat_rec(vs, t, i + 1, Some(tp), start),
                    None => flat_rec(vs, t, i + 1, None, start),
                }
            },
            PathVerb::Close => {
                match cur {
                    Some(c) => seq![Edge { ax: c.x, ay: c.y, bx: start.x, by: start.y }]
                        + flat_rec(vs, t, i + 1, Some(start), start),
                    None => flat_rec(vs, t, i + 1, None, start),
                }
            },
        }
    }
}

/// The device-space edge list of a whole path under a transform.
pub open spec fn spec_edges(vs: Seq<PathVerb>, t: Transform) -> Seq<Edge> {
    flat_rec(vs, t, 0, None, Point { x: 0, y: 0 })
}

pub(crate) fn quad_point_e(p0: Point, c: Point, p1: Point, tf: i64) -> (r: Point)
    requires
        point_valid(p0),
        point_valid(c),
        point_valid(p1),
        0 <= tf <= FP_ONE,
    ensures
        r == quad_point(p0, c, p1, tf as int),
        point_valid(r),
{
    proof {
        reveal(quad_point);
    }
    let u: i64 = FP_ONE - tf;
    proof {
        crate::fixed::lemma_mul_le(tf as int, u as int, 256, 256);
        crate::fixed::lemma_tdiv_bounded(tf as int * u as int, 256, 256);
    }
    let w0 = cmul(u, u);
    let w1 = 2 * cmul(tf, u);
    let w2 = cmul(tf, tf);
    Point {
        x: cadd(cadd(cmul(w0, p0.x), cmul(w1, c.x)), cmul(w2, p1.x)),
        y: cadd(cadd(cmul(w0, p0.y), cmul(w1, c.y)), cmul(w2, p1.y)),
    }
}

pub(crate) fn cubic_point_e(p0: Point, c0: Point, c1: Point, p1: Point, tf: i64) -> (r: Point)
    requires
        point_valid(p0),
        point_valid(c0),
        point_valid(c1),
        point_valid(p1),
        0 <= tf <= FP_ONE,
    ensures
        r == cubic_point(p0, c0, c1, p1, tf as int),
        point_valid(r),
{
    proof {
        reveal(cubic_point);
    }
    let u: i64 = FP_ONE - tf;
    proof {
        crate::fixed::lemma_mul_le(tf as int, u as int, 256, 256);
        crate::fixed::lemma_tdiv_bounded(tf as int * u as int, 256, 256);
        crate::fixed::lemma_mul_le(tf as int, tf as int, 256, 256);
        crate::fixed::lemma_tdiv_bounded(tf as int * tf as int, 256, 256);
        crate::fixed::lemma_mul_le(crate::fixed::spec_mul(tf as int, u as int), u as int, 256, 256);
        crate::fixed::lemma_tdiv_bounded(crate::fixed::spec_mul(tf as int, u as int) * u as int, 256, 256);
        crate::fixed::lemma_mul_le(crate::fixed::spec_mul(tf as int, tf as int), u as int, 256, 256);
        crate::fixed::lemma_tdiv_bounded(crate::fixed::spec_mul(tf as int, tf as int) * u as int, 256, 256);
    }
    let w0 = cmul(cmul(u, u), u);
    let w1 = 3 * cmul(cmul(tf, u), u);
    let w2 = 3 * cmul(cmul(tf, tf), u);
    let w3 = cmul(cmul(tf, tf), tf);
    Point {
        x: cadd(cadd(cadd(cmul(w0, p0.x), cmul(w1, c0.x)), cmul(w2, c1.x)), cmul(w3, p1.x)),
        y: cadd(cadd(cadd(cmul(w0, p0.y), cmul(w1, c0.y)), cmul(w2, c1.y)), cmul(w3, p1.y)),
    }
}

/// Flatten a path into device-space edges; mirrors `spec_edges`.
fn flatten_path(path: &Path, t: &Transform) -> (edges: Vec<Edge>)
    requires
        path.wf(),
        transform_valid(*t),
        path@.len() < 0x1_0000_0000,
    ensures
        edges@ == spec_edges(path@, *t),
        edges_valid(edges@),
        edges@.len() <= 17 * path@.len() + 1,
{
    let mut edges: Vec<Edge> = Vec::new();
    let mut cur: Option<Point> = None;
    let mut start: Point = Point { x: 0, y: 0 };
    let n = path.verb_count();
    let mut i: usize = 0;
    while i < n
        invariant
            0 <= i <= n,
            n == path@.len(),
            n < 0x1_0000_0000,
            path.wf(),
            transform_valid(*t),
            cur matches Some(p) ==> point_valid(p),
            point_valid(start),
            edges_valid(edges@),
            edges@.len() <= 17 * i,
            spec_edges(path@, *t) == edges@ + flat_rec(path@, *t, i as int, cur, start),
        decreases n - i,
    {
        let ghost pre = edges@;
        let ghost cur0 = cur;
        let ghost start0 = start;
        match path.verb(i) {
            PathVerb::Move(p) => {
                let tp = t.apply(p);
                match cur {
                    Some(c) => {
                        edges.push(Edge { ax: c.x, ay: c.y, bx: start.x, by: start.y });
                    },
                    None => {},
                }
                cur = Some(tp);
                start = tp;
            },
            PathVerb::Line(p) => {
                let tp = t.apply(p);
                match cur {
                    Some(c) => {
                        edges.push(Edge { ax: c.x, ay: c.y, bx: tp.x, by: tp.y });
                        cur = Some(tp);
                    },
                    None => {},
                }
            },
            PathVerb::Quad(cp, p) => {
                let tc = t.apply(cp);
                let tp = t.apply(p);
                match cur {
                    Some(c) => {
                        proof {
                            assert(pre + quad_strip(c, tc, tp).take(0) =~= pre);
                        }
                        let mut k: i64 = 0;
                        while k < 16
                            invariant
                                0 <= k <= 16,
                                point_valid(c),
                                point_valid(tc),
                                point_valid(tp),
                                edges_valid(edges@),
                                edges@ == pre + quad_strip(c, tc, tp).take(k as int),
                            decreases 16 - k,
                        {
                            let a = quad_point_e(c, tc, tp, k * 16);
                            let b = quad_point_e(c, tc, tp, (k + 1) * 16);
                            edges.push(Edge { ax: a.x, ay: a.y, bx: b.x, by: b.y });
                            proof {
                                assert(quad_strip(c, tc, tp).take(k as int + 1) =~=
                                    quad_strip(c, tc, tp).take(k as int).push(
                                        quad_strip(c, tc, tp)[k as int]));
                            }
                            k = k + 1;
                        }
                        proof {
                            assert(quad_strip(c, tc, tp).take(16) =~= quad_strip(c, tc, tp));
                        }
                        cur = Some(tp);
                    },
                    None => {},
                }
            },
            PathVerb::Cubic(c0, c1, p) => {
                let tc0 = t.apply(c0);
                let tc1 = t.apply(c1);
                let tp = t.apply(p);
                match cur {
                    Some(c) => {
                        proof {
                            assert(pre + cubic_strip(c, tc0, tc1, tp).take(0) =~= pre);
                        }
                        let mut k: i64 = 0;
                        while k < 16
                            invariant
                                0 <= k <= 16,
                                point_valid(c),
                                point_valid(tc0),
                                point_valid(tc1),
                                point_valid(tp),
                                edges_valid(edges@),
                                edges@ == pre + cubic_strip(c, tc0, tc1, tp).take(k as int),
                            decreases 16 - k,
                        {
                            let a = cubic_point_e(c, tc0, tc1, tp, k * 16);
                            let b = cubic_point_e(c, tc0, tc1, tp, (k + 1) * 16);
                            edges.push(Edge { ax: a.x, ay: a.y, bx: b.x, by: b.y });
                            proof {
                                assert(cubic_strip(c, tc0, tc1, tp).take(k as int + 1) =~=
                                    cubic_strip(c, tc0, tc1, tp).take(k as int).push(
                                        cubic_strip(c, tc0, tc1, tp)[k as int]));
                            }
                            k = k + 1;
                        }
                        proof {
                            assert(cubic_strip(c, tc0, tc1, tp).take(16) =~=
                                cubic_strip(c, tc0, tc1, tp));
                        }
                        cur = Some(tp);
                    },
                    None => {},
                }
            },
            PathVerb::Close => {
                match cur {
                    Some(c) => {
                        edges.push(Edge { ax: c.x, ay: c.y, bx: start.x, by: start.y });
                        cur = Some(start);
                    },
                    None => {},
                }
            },
        }
        i = i + 1;
        proof {
            assert(edges@ + flat_rec(path@, *t, i as int, cur, start) =~=
                pre + flat_rec(path@, *t, i as int - 1, cur0, start0));
        }
    }
    match cur {
        Some(c) => {
            edges.push(Edge { ax: c.x, ay: c.y, bx: start.x, by: start.y });
        },
        None => {},
    }
    proof {
        assert(edges@ =~= spec_edges(path@, *t));
    }
    edges
}

/// The flat index of the pixel in column `x`, row `y`.
pub open spec fn pix(w: int, x: int, y: int) -> int {
    y * w + x
}

/// Distinct in-bounds pixel coordinates have distinct flat indices.
proof fn lemma_pix_inj(w: int, x1: int, y1: int, x2: int, y2: int)
    by (nonlinear_arith)
    requires
        0 <= x1 < w,
        0 <= x2 < w,
        0 <= y1,
        0 <= y2,
        pix(w, x1, y1) == pix(w, x2, y2),
    ensures
        x1 == x2 && y1 == y2,
{
}

/// Scale a premultiplied sample by a coverage value.
pub open spec fn scale_cov(p: Pixel, cov: int) -> Pixel {
    Pixel {
        r: div255(p.r as int * cov) as u8,
        g: div255(p.g as int * cov) as u8,
        b: div255(p.b as int * cov) as u8,
        a: div255(p.a as int * cov) as u8,
    }
}

fn scale_cov_e(p: Pixel, cov: i64) -> (r: Pixel)
    requires
        0 <= cov <= 255,
    ensures
        r == scale_cov(p, cov as int),
{
    Pixel {
        r: crate::pixmap::mul255(p.r, cov as u8),
        g: crate::pixmap::mul255(p.g, cov as u8),
        b: crate::pixmap::mul255(p.b, cov as u8),
        a: crate::pixmap::mul255(p.a, cov as u8),
    }
}

/// The local transform a paint carries; a solid color has none.
pub open spec fn paint_local(p: Paint) -> Transform {
    match p {
        Paint::Solid(_) => crate::geom::spec_identity(),
        Paint::Linear(g) => g.transform,
        Paint::Radial(g) => g.transform,
    }
}

fn paint_local_e(p: &Paint) -> (r: Transform)
    ensures
        r == paint_local(*p),
{
    match p {
        Paint::Solid(_) => Transform::identity(),
        Paint::Linear(g) => g.transform,
        Paint::Radial(g) => g.transform,
    }
}

/// The paint's color at a device pixel: the pixel center carried back
/// through the inverse transform into the paint's own space.
pub open spec fn shade_local(paint: Paint, inv: Transform, x: int, y: int) -> Pixel {
    let c = spec_apply(inv, Point { x: (x * 256 + 128) as i64, y: (y * 256 + 128) as i64 });
    spec_shade(paint, c.x as int, c.y as int)
}

/// What a draw call leaves at one pixel: uncovered pixels keep their
/// sample; covered ones blend the coverage-scaled paint color over it.
pub open spec fn pixel_after(mode: ts_blend_mode, paint: Paint, inv: Transform, edges: Seq<Edge>,
    rule: ts_fill_rule, x: int, y: int, oldp: Pixel) -> Pixel {
    let cov = coverage_at(edges, rule, x, y);
    if cov == 0 {
        oldp
    } else {
        spec_blend(mode, scale_cov(shade_local(paint, inv, x, y), cov), oldp)
    }
}

/// Fill a path onto the buffer: scan-convert the transformed outline
/// under the fill rule, shade every covered pixel at its
/// inverse-transformed center, and composite under the blend mode.
/// Pixels the outline does not cover are left untouched; geometry
/// outside the buffer clips.
pub fn fill_path(pm: &mut Pixmap, path: &Path, t: &Transform, paint: &Paint,
    rule: ts_fill_rule, mode: ts_blend_mode)
    requires
        old(pm).wf(),
        path.wf(),
        transform_valid(*t),
        paint_wf(*paint),
        path@.len() < 0x1_0000_0000,
    ensures
        final(pm).wf(),
        final(pm).spec_width() == old(pm).spec_width(),
        final(pm).spec_height() == old(pm).spec_height(),
        forall|xi: int, yi: int|
            0 <= xi < old(pm).spec_width() && 0 <= yi < old(pm).spec_height() ==>
            final(pm)@[#[trigger] pix(old(pm).spec_width() as int, xi, yi)] == pixel_after(
                mode, *paint, spec_invert(crate::geom::spec_combine(*t, paint_local(*paint))),
                spec_edges(path@, *t), rule, xi, yi,
                old(pm)@[pix(old(pm).spec_width() as int, xi, yi)]),
{
    let local = paint_local_e(paint);
    let tot = Transform::combine(*t, local);
    let inv = tot.invert_or_identity();
    let edges = flatten_path(path, t);
    let w = pm.width();
    let h = pm.height();
    let ghost w_i = w as int;
    let ghost old_pm = pm@;
    let ghost ge = edges@;
    let mut y: u32 = 0;
    while y < h
        invariant
            0 <= y <= h,
            w == old(pm).spec_width(),
            h == old(pm).spec_height(),
            pm.wf(),
            pm.spec_width() == w,
            pm.spec_height() == h,
            old_pm == old(pm)@,
            old_pm.len() == w as int * h as int,
            ge == spec_edges(path@, *t),
            edges@ == ge,
            edges_valid(edges@),
            edges@.len() < 0x1000_0000_0000,
            inv == spec_invert(crate::geom::spec_combine(*t, paint_local(*paint))),
            transform_valid(inv),
            paint_wf(*paint),
            forall|xi: int, yi: int| 0 <= xi < w && 0 <= yi < y ==>
                pm@[#[trigger] pix(w as int, xi, yi)] == pixel_after(mode, *paint, inv, ge,
                    rule, xi, yi, old_pm[pix(w as int, xi, yi)]),
            forall|xi: int, yi: int| 0 <= xi < w && y <= yi < h ==>
                pm@[#[trigger] pix(w as int, xi, yi)] == old_pm[pix(w as int, xi, yi)],
        decreases h - y,
    {
        let mut x: u32 = 0;
        while x < w
            invariant
                0 <= x <= w,
                0 <= y < h,
                w == old(pm).spec_width(),
                h == old(pm).spec_height(),
                pm.wf(),
                pm.spec_width() == w,
                pm.spec_height() == h,
                old_pm == old(pm)@,
                old_pm.len() == w as int * h as int,
                ge == spec_edges(path@, *t),
                edges@ == ge,
                edges_valid(edges@),
                edges@.len() < 0x1000_0000_0000,
                inv == spec_invert(crate::geom::spec_combine(*t, paint_local(*paint))),
                transform_valid(inv),
                paint_wf(*paint),
                forall|xi: int, yi: int| 0 <= xi < w && 0 <= yi < y ==>
                    pm@[#[trigger] pix(w as int, xi, yi)] == pixel_after(mode, *paint, inv, ge,
                        rule, xi, yi, old_pm[pix(w as int, xi, yi)]),
                forall|xi: int| 0 <= xi < x ==>
                    pm@[#[trigger] pix(w as int, xi, y as int)] == pixel_after(mode, *paint,
                        inv, ge, rule, xi, y as int, old_pm[pix(w as int, xi, y as int)]),
                forall|xi: int| x <= xi < w ==>
                    pm@[#[trigger] pix(w as int, xi, y as int)] == old_pm[pix(w as int, xi, y as int)],
                forall|xi: int, yi: int| 0 <= xi < w && y < yi < h ==>
                    pm@[#[trigger] pix(w as int, xi, yi)] == old_pm[pix(w as int, xi, yi)],
            decreases w - x,
        {
            let cov = coverage_e(&edges, rule, x, y);
            let ghost pre = pm@;
            if cov > 0 {
                let px: i64 = (x as i64) * 256 + 128;
                let py: i64 = (y as i64) * 256 + 128;
                let c = inv.apply(Point { x: px, y: py });
                let sc = shade(paint, c.x, c.y);
                let scaled = scale_cov_e(sc, cov);
                let d = pm.get(x, y);
                let out = blend_pixel(mode, scaled, d);
                pm.set(x, y, out);
                proof {
                    assert(pm@ == pre.update(pix(w as int, x as int, y as int), out));
                    assert forall|xi: int, yi: int| 0 <= xi < w && 0 <= yi < h
                        && !(xi == x as int && yi == y as int) implies
                        pm@[#[trigger] pix(w as int, xi, yi)] == pre[pix(w as int, xi, yi)] by {
                        crate::pixmap::lemma_pixel_index(w as nat, h as nat, xi as nat, yi as nat);
                        crate::pixmap::lemma_pixel_index(w as nat, h as nat, x as nat, y as nat);
                        if pix(w as int, xi, yi) == pix(w as int, x as int, y as int) {
                            lemma_pix_inj(w as int, xi, yi, x as int, y as int);
                        }
                    }
                }
            }
            proof {
                let xi = x as int;
                let yi = y as int;
                crate::pixmap::lemma_pixel_index(w as nat, h as nat, x as nat, y as nat);
                assert(coverage_at(ge, rule, xi, yi) == cov as int);
                if cov > 0 {
                    assert(pm@[pix(w as int, xi, yi)] == pixel_after(mode, *paint, inv, ge,
                        rule, xi, yi, old_pm[pix(w as int, xi, yi)]));
                } else {
                    assert(pm@[pix(w as int, xi, yi)] == old_pm[pix(w as int, xi, yi)]);
                    assert(pm@[pix(w as int, xi, yi)] == pixel_after(mode, *paint, inv, ge,
                        rule, xi, yi, old_pm[pix(w as int, xi, yi)]));
                }
            }
            x = x + 1;
        }
        y = y + 1;
    }
}

/// The four-sided closed path of a rectangle.
pub open spec fn rect_verbs(r: crate::geom::Rect) -> Seq<PathVerb> {
    seq![
        PathVerb::Move(Point { x: r.x0, y: r.y0 }),
        PathVerb::Line(Point { x: r.x1, y: r.y0 }),
        PathVerb::Line(Point { x: r.x1, y: r.y1 }),
        PathVerb::Line(Point { x: r.x0, y: r.y1 }),
        PathVerb::Close,
    ]
}

/// Build the closed four-point path of a rectangle.
pub fn rect_path(r: &crate::geom::Rect) -> (p: Path)
    requires
        crate::geom::rect_valid(*r),
    ensures
        p.wf(),
        p@ == rect_verbs(*r),
{
    let mut b = crate::path::PathBuilder::new();
    b.move_to(r.left(), r.top());
    b.line_to(r.right(), r.top());
    b.line_to(r.right(), r.bottom());
    b.line_to(r.left(), r.bottom());
    b.close();
    proof {
        assert(b@ =~= rect_verbs(*r));
    }
    match b.finish() {
        Ok(p) => p,
        Err(_) => {
            proof {
                assert(false);
            }
            vstd::pervasive::unreached()
        },
    }
}

/// Fill an axis-aligned rectangle: by construction this draws exactly
/// what filling the rectangle's four-point closed path draws, under
/// the non-zero winding rule.
pub fn fill_rect(pm: &mut Pixmap, rect: &crate::geom::Rect, t: &Transform, paint: &Paint,
    mode: ts_blend_mode)
    requires
        old(pm).wf(),
        crate::geom::rect_valid(*rect),
        transform_valid(*t),
        paint_wf(*paint),
    ensures
        final(pm).wf(),
        final(pm).spec_width() == old(pm).spec_width(),
        final(pm).spec_height() == old(pm).spec_height(),
        forall|xi: int, yi: int|
            0 <= xi < old(pm).spec_width() && 0 <= yi < old(pm).spec_height() ==>
            final(pm)@[#[trigger] pix(old(pm).spec_width() as int, xi, yi)] == pixel_after(
                mode, *paint, spec_invert(crate::geom::spec_combine(*t, paint_local(*paint))),
                spec_edges(rect_verbs(*rect), *t), ts_fill_rule::Winding, xi, yi,
                old(pm)@[pix(old(pm).spec_width() as int, xi, yi)]),
{
    let p = rect_path(rect);
    fill_path(pm, &p, t, paint, ts_fill_rule::Winding, mode);
}

/// The two fill rules part ways exactly on the even, non-zero winding
/// numbers: such a point is inside under non-zero winding and outside
/// under even-odd.
pub proof fn lemma_fill_rules_differ(w: int)
    requires
        w != 0,
        (if w < 0 { -w } else { w }) % 2 == 0,
    ensures
        inside(ts_fill_rule::Winding, w),
        !inside(ts_fill_rule::EvenOdd, w),
{
}

} // verus!
