//! Stroking: turn a path and a stroke width into a fillable outline.
//!
//! The outline is a union of per-segment quads with square join
//! patches at shared vertices, filled under the non-zero winding rule;
//! open ends keep butt caps. Curves are stroked along their flattening.
use vstd::prelude::*;
use crate::fixed::{
    spec_add, spec_sub, spec_mul, spec_div, spec_dist, spec_clamp,
    cadd, csub, cmul, cdiv, clamp, dist,
};
use crate::geom::{Point, point_valid};
use crate::path::{Path, PathBuilder, PathVerb, seg_count};
use crate::raster::{quad_strip, cubic_strip, Edge};
use crate::RenderError;

verus! {

/// A stroke: its width in fixed-point pixels, always positive.
#[derive(Clone, Copy, PartialEq, Eq, Structural, Debug)]
pub struct Stroke {
    width: i64,
}

impl Stroke {
    pub closed spec fn spec_width(&self) -> int {
        self.width as int
    }

    pub open spec fn wf(&self) -> bool {
        0 < self.spec_width() <= crate::fixed::COORD_MAX
    }

    /// A stroke of the given width; zero or negative widths are
    /// rejected.
    pub fn new(width: i64) -> (r: Result<Stroke, RenderError>)
        ensures
            r is Ok <==> width > 0,
            r is Err ==> r == Result::<Stroke, RenderError>::Err(RenderError::InvalidStroke),
            r matches Ok(s) ==> s.wf() && s.spec_width() == spec_clamp(width as int),
    {
        if width > 0 {
            Ok(Stroke { width: clamp(width) })
        } else {
            Err(RenderError::InvalidStroke)
        }
    }

    pub fn width(&self) -> (r: i64)
        ensures
            r == self.spec_width(),
    {
        self.width
    }

    /// Half the width: how far the outline offsets each side.
    pub fn half_width(&self) -> (r: i64)
        requires
            self.wf(),
        ensures
            r == spec_mul(self.spec_width(), 128),
            0 <= r <= crate::fixed::COORD_MAX,
    {
        proof {
            crate::fixed::lemma_tdiv_bounded(self.width as int * 128, 256, crate::fixed::COORD_MAX as int);
            assert(self.width as int * 128 <= crate::fixed::COORD_MAX as int * 256
                && 0 <= self.width as int * 128) by (nonlinear_arith)
                requires
                    0 < self.width as int <= crate::fixed::COORD_MAX as int;
        }
        cmul(self.width, 128)
    }
}

/// The square join patch pasted over a shared vertex.
#[verifier::opaque]
pub open spec fn vertex_square(v: Point, hw: int) -> Seq<PathVerb> {
    seq![
        PathVerb::Move(Point { x: spec_sub(v.x as int, hw) as i64, y: spec_sub(v.y as int, hw) as i64 }),
        PathVerb::Line(Point { x: spec_add(v.x as int, hw) as i64, y: spec_sub(v.y as int, hw) as i64 }),
        PathVerb::Line(Point { x: spec_add(v.x as int, hw) as i64, y: spec_add(v.y as int, hw) as i64 }),
        PathVerb::Line(Point { x: spec_sub(v.x as int, hw) as i64, y: spec_add(v.y as int, hw) as i64 }),
        PathVerb::Close,
    ]
}

/// The quad covering one stroked segment: both endpoints offset to
/// either side along the segment normal. A zero-length segment adds
/// nothing.
#[verifier::opaque]
pub open spec fn seg_quad(a: Point, b: Point, hw: int) -> Seq<PathVerb> {
    let dx = spec_sub(b.x as int, a.x as int);
    let dy = spec_sub(b.y as int, a.y as int);
    let len = spec_dist(dx, dy);
    if len == 0 {
        Seq::empty()
    } else {
        let nx = spec_div(spec_mul(0 - dy, hw), len);
        let ny = spec_div(spec_mul(dx, hw), len);
        seq![
            PathVerb::Move(Point { x: spec_add(a.x as int, nx) as i64, y: spec_add(a.y as int, ny) as i64 }),
            PathVerb::Line(Point { x: spec_add(b.x as int, nx) as i64, y: spec_add(b.y as int, ny) as i64 }),
            PathVerb::Line(Point { x: spec_sub(b.x as int, nx) as i64, y: spec_sub(b.y as int, ny) as i64 }),
            PathVerb::Line(Point { x: spec_sub(a.x as int, nx) as i64, y: spec_sub(a.y as int, ny) as i64 }),
            PathVerb::Close,
        ]
    }
}

/// The outline pieces of one flattened curve, from chord `i` on; a
/// join patch stands at every chord junction, and at the curve's own
/// start when `join_first` says a segment already ended there.
pub open spec fn edge_quads(es: Seq<Edge>, i: int, hw: int, join_first: bool) -> Seq<PathVerb>
    decreases es.len() - i,
{
    if i < 0 || i >= es.len() {
        Seq::empty()
    } else {
        let a = Point { x: es[i].ax, y: es[i].ay };
        let b = Point { x: es[i].bx, y: es[i].by };
        let sq = if i > 0 || join_first {
            vertex_square(a, hw)
        } else {
            Seq::empty()
        };
        sq + seg_quad(a, b, hw) + edge_quads(es, i + 1, hw, join_first)
    }
}

/// The stroke outline of the verbs from index `i` on. `cur` and
/// `start` track the subpath as in flattening; `drawn` says whether a
/// stroked segment already ends at `cur`, so the next one gets a join.
pub open spec fn outline_rec(vs: Seq<PathVerb>, i: int, cur: Option<Point>, start: Point,
    drawn: bool, hw: int) -> Seq<PathVerb>
    decreases vs.len() - i,
{
    if i < 0 || i >= vs.len() {
        Seq::empty()
    } else {
        match vs[i] {
            PathVerb::Move(p) => outline_rec(vs, i + 1, Some(p), p, false, hw),
            PathVerb::Line(p) => {
                match cur {
                    Some(c) => (if drawn {
                        vertex_square(c, hw)
                    } else {
                        Seq::empty()
                    }) + seg_quad(c, p, hw) + outline_rec(vs, i + 1, Some(p), start, true, hw),
                    None => outline_rec(vs, i + 1, None, start, drawn, hw),
                }
            },
            PathVerb::Quad(cp, p) => {
                match cur {
                    Some(c) => edge_quads(quad_strip(c, cp, p), 0, hw, drawn)
                        + outline_rec(vs, i + 1, Some(p), start, true, hw),
                    None => outline_rec(vs, i + 1, None, start, drawn, hw),
                }
            },
            PathVerb::Cubic(c0, c1, p) => {
                match cur {
                    Some(c) => edge_quads(cubic_strip(c, c0, c1, p), 0, hw, drawn)
                        + outline_rec(vs, i + 1, Some(p), start, true, hw),
                    None => outline_rec(vs, i + 1, None, start, drawn, hw),
                }
            },
            PathVerb::Close => {
                match cur {
                    Some(c) => (if drawn {
                        vertex_square(c, hw)
                    } else {
                        Seq::empty()
                    }) + seg_quad(c, start, hw) + vertex_square(start, hw)
                        + outline_rec(vs, i + 1, Some(start), start, true, hw),
                    None => outline_rec(vs, i + 1, None, start, drawn, hw),
                }
            },
        }
    }
}

/// The whole stroke outline of a path.
pub open spec fn spec_outline(vs: Seq<PathVerb>, hw: int) -> Seq<PathVerb> {
    outline_rec(vs, 0, None, Point { x: 0, y: 0 }, false, hw)
}

fn emit_square(b: &mut PathBuilder, v: Point, hw: i64)
    requires
        old(b).wf(),
        point_valid(v),
        0 <= hw <= crate::fixed::COORD_MAX,
    ensures
        final(b).wf(),
        final(b)@ == old(b)@ + vertex_square(v, hw as int),
        final(b)@.len() == old(b)@.len() + 5,
        final(b).spec_cur() is Some,
{
    proof {
        reveal(vertex_square);
    }
    let ghost pre = b@;
    b.move_to(csub(v.x, hw), csub(v.y, hw));
    b.line_to(cadd(v.x, hw), csub(v.y, hw));
    b.line_to(cadd(v.x, hw), cadd(v.y, hw));
    b.line_to(csub(v.x, hw), cadd(v.y, hw));
    b.close();
    proof {
        assert(b@ =~= pre + vertex_square(v, hw as int));
    }
}

fn emit_seg_quad(b: &mut PathBuilder, a: Point, p: Point, hw: i64)
    requires
        old(b).wf(),
        point_valid(a),
        point_valid(p),
        0 <= hw <= crate::fixed::COORD_MAX,
    ensures
        final(b).wf(),
        final(b)@ == old(b)@ + seg_quad(a, p, hw as int),
        old(b)@.len() <= final(b)@.len() <= old(b)@.len() + 5,
        old(b).spec_cur() is Some ==> final(b).spec_cur() is Some,
{
    proof {
        reveal(seg_quad);
    }
    let ghost pre = b@;
    let dx = csub(p.x, a.x);
    let dy = csub(p.y, a.y);
    let len = dist(dx, dy);
    if len == 0 {
        proof {
            assert(b@ =~= pre + seg_quad(a, p, hw as int));
        }
        return ;
    }
    let nx = cdiv(cmul(csub(0, dy), hw), len);
    let ny = cdiv(cmul(dx, hw), len);
    b.move_to(cadd(a.x, nx), cadd(a.y, ny));
    b.line_to(cadd(p.x, nx), cadd(p.y, ny));
    b.line_to(csub(p.x, nx), csub(p.y, ny));
    b.line_to(csub(a.x, nx), csub(a.y, ny));
    b.close();
    proof {
        assert(b@ =~= pre + seg_quad(a, p, hw as int));
    }
}

#[verifier::rlimit(60)]
fn emit_quad_strip(b: &mut PathBuilder, c: Point, cp: Point, p: Point, hw: i64, jf: bool)
    requires
        old(b).wf(),
        point_valid(c),
        point_valid(cp),
        point_valid(p),
        0 <= hw <= crate::fixed::COORD_MAX,
    ensures
        final(b).wf(),
        final(b)@ == old(b)@ + edge_quads(quad_strip(c, cp, p), 0, hw as int, jf),
        final(b)@.len() <= old(b)@.len() + 192,
{
    let ghost pre = b@;
    let ghost es = quad_strip(c, cp, p);
    let mut k: i64 = 0;
    while k < 16
        invariant
            0 <= k <= 16,
            b.wf(),
            0 <= hw <= crate::fixed::COORD_MAX,
            point_valid(c),
            point_valid(cp),
            point_valid(p),
            es == quad_strip(c, cp, p),
            b@.len() <= pre.len() + 12 * k,
            pre + edge_quads(es, 0, hw as int, jf) == b@ + edge_quads(es, k as int, hw as int, jf),
        decreases 16 - k,
    {
        let a = crate::raster::quad_point_e(c, cp, p, k * 16);
        let e = crate::raster::quad_point_e(c, cp, p, (k + 1) * 16);
        proof {
            assert(es[k as int] == Edge { ax: a.x, ay: a.y, bx: e.x, by: e.y });
        }
        if k > 0 || jf {
            emit_square(b, a, hw);
        }
        emit_seg_quad(b, a, e, hw);
        proof {
            assert(pre + edge_quads(es, 0, hw as int, jf) =~= b@
                + edge_quads(es, k as int + 1, hw as int, jf));
        }
        k = k + 1;
    }
    proof {
        assert(b@ =~= pre + edge_quads(es, 0, hw as int, jf));
    }
}

#[verifier::rlimit(100)]
fn emit_cubic_strip(b: &mut PathBuilder, c: Point, c0: Point, c1: Point, p: Point, hw: i64,
    jf: bool)
    requires
        old(b).wf(),
        point_valid(c),
        point_valid(c0),
        point_valid(c1),
        point_valid(p),
        0 <= hw <= crate::fixed::COORD_MAX,
    ensures
        final(b).wf(),
        final(b)@ == old(b)@ + edge_quads(cubic_strip(c, c0, c1, p), 0, hw as int, jf),
        final(b)@.len() <= old(b)@.len() + 192,
{
    let ghost pre = b@;
    let ghost es = cubic_strip(c, c0, c1, p);
    let mut k: i64 = 0;
    while k < 16
        invariant
            0 <= k <= 16,
            b.wf(),
            0 <= hw <= crate::fixed::COORD_MAX,
            point_valid(c),
            point_valid(c0),
            point_valid(c1),
            point_valid(p),
            es == cubic_strip(c, c0, c1, p),
            b@.len() <= pre.len() + 12 * k,
            pre + edge_quads(es, 0, hw as int, jf) == b@ + edge_quads(es, k as int, hw as int, jf),
        decreases 16 - k,
    {
        let a = crate::raster::cubic_point_e(c, c0, c1, p, k * 16);
        let e = crate::raster::cubic_point_e(c, c0, c1, p, (k + 1) * 16);
        proof {
            assert(es[k as int] == Edge { ax: a.x, ay: a.y, bx: e.x, by: e.y });
        }
        if k > 0 || jf {
            emit_square(b, a, hw);
        }
        emit_seg_quad(b, a, e, hw);
        proof {
            assert(pre + edge_quads(es, 0, hw as int, jf) =~= b@
                + edge_quads(es, k as int + 1, hw as int, jf));
        }
        k = k + 1;
    }
    proof {
        assert(b@ =~= pre + edge_quads(es, 0, hw as int, jf));
    }
}

/// Build the stroke outline of a path for a half-width; an outline
/// with no segments (every input segment degenerate) is rejected.
#[verifier::rlimit(100)]
pub fn stroke_outline(path: &Path, hw: i64) -> (r: Result<Path, RenderError>)
    requires
        path.wf(),
        0 <= hw <= crate::fixed::COORD_MAX,
        path@.len() < 0x100_0000,
    ensures
        r is Ok <==> seg_count(spec_outline(path@, hw as int)) > 0,
        r is Err ==> r == Result::<Path, RenderError>::Err(RenderError::EmptyPath),
        r matches Ok(p) ==> p@ == spec_outline(path@, hw as int) && p.wf()
            && p@.len() <= 200 * path@.len(),
{
    let mut b = PathBuilder::new();
    let mut cur: Option<Point> = None;
    let mut start: Point = Point { x: 0, y: 0 };
    let mut drawn: bool = false;
    let n = path.verb_count();
    let mut i: usize = 0;
    while i < n
        invariant
            0 <= i <= n,
            n == path@.len(),
            n < 0x100_0000,
            path.wf(),
            b.wf(),
            0 <= hw <= crate::fixed::COORD_MAX,
            cur matches Some(c) ==> point_valid(c),
            point_valid(start),
            b@.len() <= 200 * i,
            spec_outline(path@, hw as int) == b@ + outline_rec(path@, i as int, cur, start,
                drawn, hw as int),
        decreases n - i,
    {
        let ghost pre = b@;
        let ghost cur0 = cur;
        let ghost start0 = start;
        let ghost drawn0 = drawn;
        match path.verb(i) {
            PathVerb::Move(p) => {
                cur = Some(p);
                start = p;
                drawn = false;
            },
            PathVerb::Line(p) => {
                match cur {
                    Some(c) => {
                        if drawn {
                            emit_square(&mut b, c, hw);
                        }
                        emit_seg_quad(&mut b, c, p, hw);
                        cur = Some(p);
                        drawn = true;
                    },
                    None => {},
                }
            },
            PathVerb::Quad(cp, p) => {
                match cur {
                    Some(c) => {
                        emit_quad_strip(&mut b, c, cp, p, hw, drawn);
                        cur = Some(p);
                        drawn = true;
                    },
                    None => {},
                }
            },
            PathVerb::Cubic(c0, c1, p) => {
                match cur {
                    Some(c) => {
                        emit_cubic_strip(&mut b, c, c0, c1, p, hw, drawn);
                        cur = Some(p);
                        drawn = true;
                    },
                    None => {},
                }
            },
            PathVerb::Close => {
                match cur {
                    Some(c) => {
                        if drawn {
                            emit_square(&mut b, c, hw);
                        }
                        emit_seg_quad(&mut b, c, start, hw);
                        emit_square(&mut b, start, hw);
                        cur = Some(start);
                        drawn = true;
                    },
                    None => {},
                }
            },
        }
        i = i + 1;
        proof {
            assert(b@ + outline_rec(path@, i as int, cur, start, drawn, hw as int) =~=
                pre + outline_rec(path@, i as int - 1, cur0, start0, drawn0, hw as int));
        }
    }
    proof {
        assert(b@ =~= spec_outline(path@, hw as int));
    }
    b.finish()
}

/// Stroke a path: build the outline for half the stroke width and
/// fill it under the non-zero winding rule. A path whose every
/// segment is degenerate leaves the buffer unchanged.
pub fn stroke_path(pm: &mut crate::pixmap::Pixmap, path: &Path, t: &crate::geom::Transform,
    paint: &crate::shader::Paint, stroke: &Stroke, mode: crate::blend::ts_blend_mode)
    requires
        old(pm).wf(),
        path.wf(),
        crate::geom::transform_valid(*t),
        crate::shader::paint_wf(*paint),
        stroke.wf(),
        path@.len() < 0x100_0000,
    ensures
        final(pm).wf(),
        final(pm).spec_width() == old(pm).spec_width(),
        final(pm).spec_height() == old(pm).spec_height(),
        seg_count(spec_outline(path@, spec_mul(stroke.spec_width(), 128))) == 0
            ==> final(pm)@ == old(pm)@,
        seg_count(spec_outline(path@, spec_mul(stroke.spec_width(), 128))) > 0 ==>
            forall|xi: int, yi: int|
                0 <= xi < old(pm).spec_width() && 0 <= yi < old(pm).spec_height() ==>
                final(pm)@[#[trigger] crate::raster::pix(old(pm).spec_width() as int, xi, yi)]
                    == crate::raster::pixel_after(
                        mode, *paint, crate::geom::spec_invert(crate::geom::spec_combine(*t,
                            crate::raster::paint_local(*paint))),
                        crate::raster::spec_edges(spec_outline(path@,
                            spec_mul(stroke.spec_width(), 128)), *t),
                        crate::raster::ts_fill_rule::Winding, xi, yi,
                        old(pm)@[crate::raster::pix(old(pm).spec_width() as int, xi, yi)]),
{
    let hw = stroke.half_width();
    match stroke_outline(path, hw) {
        Ok(outline) => {
            crate::raster::fill_path(pm, &outline, t, paint,
                crate::raster::ts_fill_rule::Winding, mode);
        },
        Err(_) => {},
    }
}

/// Stroke an axis-aligned rectangle: exactly the stroke of its
/// four-point closed path.
pub fn stroke_rect(pm: &mut crate::pixmap::Pixmap, rect: &crate::geom::Rect,
    t: &crate::geom::Transform, paint: &crate::shader::Paint, stroke: &Stroke,
    mode: crate::blend::ts_blend_mode)
    requires
        old(pm).wf(),
        crate::geom::rect_valid(*rect),
        crate::geom::transform_valid(*t),
        crate::shader::paint_wf(*paint),
        stroke.wf(),
    ensures
        final(pm).wf(),
        final(pm).spec_width() == old(pm).spec_width(),
        final(pm).spec_height() == old(pm).spec_height(),
        seg_count(spec_outline(crate::raster::rect_verbs(*rect),
            spec_mul(stroke.spec_width(), 128))) == 0 ==> final(pm)@ == old(pm)@,
        seg_count(spec_outline(crate::raster::rect_verbs(*rect),
            spec_mul(stroke.spec_width(), 128))) > 0 ==>
            forall|xi: int, yi: int|
                0 <= xi < old(pm).spec_width() && 0 <= yi < old(pm).spec_height() ==>
                final(pm)@[#[trigger] crate::raster::pix(old(pm).spec_width() as int, xi, yi)]
                    == crate::raster::pixel_after(
                        mode, *paint, crate::geom::spec_invert(crate::geom::spec_combine(*t,
                            crate::raster::paint_local(*paint))),
                        crate::raster::spec_edges(spec_outline(crate::raster::rect_verbs(*rect),
                            spec_mul(stroke.spec_width(), 128)), *t),
                        crate::raster::ts_fill_rule::Winding, xi, yi,
                        old(pm)@[crate::raster::pix(old(pm).spec_width() as int, xi, yi)]),
{
    let p = crate::raster::rect_path(rect);
    stroke_path(pm, &p, t, paint, stroke, mode);
}

} // verus!
