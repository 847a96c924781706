//! Path construction: a mutable builder of drawing verbs, frozen into an
//! immutable path.
use vstd::prelude::*;
use crate::fixed::{
    FP_ONE, spec_clamp, spec_mul, spec_sub, coord_valid, cadd, csub, cmul, cdiv, clamp,
    isqrt_i, dist, cos_fp, sin_fp, DEG_QUARTER,
};
use crate::geom::{Point, point_valid, Rect, rect_valid};
use crate::RenderError;

verus! {

/// One drawing verb. Every curve carries its control points and its
/// endpoint; `Close` seals the active subpath back to its start.
#[derive(Clone, Copy, PartialEq, Eq, Structural, Debug)]
pub enum PathVerb {
    Move(Point),
    Line(Point),
    Quad(Point, Point),
    Cubic(Point, Point, Point),
    Close,
}

pub open spec fn verb_valid(v: PathVerb) -> bool {
    match v {
        PathVerb::Move(p) => point_valid(p),
        PathVerb::Line(p) => point_valid(p),
        PathVerb::Quad(c, p) => point_valid(c) && point_valid(p),
        PathVerb::Cubic(c0, c1, p) => point_valid(c0) && point_valid(c1) && point_valid(p),
        PathVerb::Close => true,
    }
}

pub open spec fn verbs_valid(s: Seq<PathVerb>) -> bool {
    forall|i: int| 0 <= i < s.len() ==> verb_valid(#[trigger] s[i])
}

/// How many segments a verb sequence holds: every verb but `Move`
/// draws one segment.
pub open spec fn seg_count(s: Seq<PathVerb>) -> nat
    decreases s.len(),
{
    if s.len() == 0 {
        0
    } else {
        seg_count(s.drop_last()) + (if s.last() is Move {
            0nat
        } else {
            1nat
        })
    }
}

pub proof fn lemma_seg_count_push(s: Seq<PathVerb>, v: PathVerb)
    ensures
        seg_count(s.push(v)) == seg_count(s) + (if v is Move {
            0nat
        } else {
            1nat
        }),
{
    assert(s.push(v).drop_last() =~= s);
    assert(s.push(v).last() == v);
}

/// An immutable, finished path.
pub struct Path {
    verbs: Vec<PathVerb>,
}

impl Path {
    /// The verb sequence the path holds.
    pub closed spec fn view(&self) -> Seq<PathVerb> {
        self.verbs@
    }

    pub open spec fn wf(&self) -> bool {
        verbs_valid(self@) && seg_count(self@) > 0 && self@.len() > 0
    }

    /// How many segments the path draws; moves start subpaths and are
    /// not counted. The count is a pure function of the path, so
    /// repeated queries always agree.
    pub fn len(&self) -> (r: usize)
        requires
            self.wf(),
        ensures
            r == seg_count(self@),
    {
        let mut i: usize = 0;
        let mut n: usize = 0;
        while i < self.verbs.len()
            invariant
                0 <= i <= self.verbs.len(),
                n == seg_count(self.verbs@.take(i as int)),
                n <= i,
        decreases self.verbs.len() - i,
        {
            proof {
                assert(self.verbs@.take(i as int + 1).drop_last() =~= self.verbs@.take(i as int));
                assert(self.verbs@.take(i as int + 1).last() == self.verbs@[i as int]);
            }
            match self.verbs[i] {
                PathVerb::Move(_) => {},
                _ => {
                    n = n + 1;
                },
            }
            i = i + 1;
        }
        proof {
            assert(self.verbs@.take(self.verbs@.len() as int) =~= self.verbs@);
        }
        n
    }

    /// The verb at a given index.
    pub fn verb(&self, i: usize) -> (r: PathVerb)
        requires
            i < self@.len(),
        ensures
            r == self@[i as int],
    {
        self.verbs[i]
    }

    /// How many verbs the path holds, moves included.
    pub fn verb_count(&self) -> (r: usize)
        ensures
            r == self@.len(),
    {
        self.verbs.len()
    }
}

/// Builds a path verb by verb; `finish` freezes it into a `Path` and
/// consumes the builder.
pub struct PathBuilder {
    verbs: Vec<PathVerb>,
    cur: Option<Point>,
    start: Point,
    nseg: usize,
}

impl PathBuilder {
    pub closed spec fn view(&self) -> Seq<PathVerb> {
        self.verbs@
    }

    /// The point the next segment would start from, if any.
    pub closed spec fn spec_cur(&self) -> Option<Point> {
        self.cur
    }

    /// Where the active subpath began.
    pub closed spec fn spec_start(&self) -> Point {
        self.start
    }

    pub closed spec fn spec_nseg(&self) -> nat {
        self.nseg as nat
    }

    pub open spec fn wf(&self) -> bool {
        &&& verbs_valid(self@)
        &&& self.spec_nseg() == seg_count(self@)
        &&& self.spec_nseg() <= self@.len()
        &&& (self.spec_cur() is None ==> self@.len() == 0)
        &&& (self.spec_cur() matches Some(p) ==> point_valid(p))
        &&& point_valid(self.spec_start())
    }

    pub fn new() -> (r: PathBuilder)
        ensures
            r.wf(),
            r@ == Seq::<PathVerb>::empty(),
            r.spec_cur() is None,
    {
        PathBuilder { verbs: Vec::new(), cur: None, start: Point { x: 0, y: 0 }, nseg: 0 }
    }

    /// Start a new subpath at the given coordinates (clamped into the
    /// working range).
    pub fn move_to(&mut self, x: i64, y: i64)
        requires
            old(self).wf(),
        ensures
            final(self).wf(),
            final(self)@ == old(self)@.push(
                PathVerb::Move(Point { x: spec_clamp(x as int) as i64, y: spec_clamp(y as int) as i64 })),
            final(self).spec_cur() == Some(
                Point { x: spec_clamp(x as int) as i64, y: spec_clamp(y as int) as i64 }),
            final(self).spec_start() == (
                Point { x: spec_clamp(x as int) as i64, y: spec_clamp(y as int) as i64 }),
    {
        let p = Point::new(x, y);
        proof {
            lemma_seg_count_push(self.verbs@, PathVerb::Move(p));
        }
        self.verbs.push(PathVerb::Move(p));
        self.cur = Some(p);
        self.start = p;
    }

    /// Append a straight segment to the given endpoint. With no
    /// current point the call is ignored.
    pub fn line_to(&mut self, x: i64, y: i64)
        requires
            old(self).wf(),
        ensures
            final(self).wf(),
            old(self).spec_cur() is None ==> *final(self) == *old(self),
            old(self).spec_cur() is Some ==> {
                let p = Point { x: spec_clamp(x as int) as i64, y: spec_clamp(y as int) as i64 };
                final(self)@ == old(self)@.push(PathVerb::Line(p))
                    && final(self).spec_cur() == Some(p)
                    && final(self).spec_start() == old(self).spec_start()
            },
    {
        if self.cur.is_some() {
            let p = Point::new(x, y);
            proof {
                lemma_seg_count_push(self.verbs@, PathVerb::Line(p));
            }
            self.verbs.push(PathVerb::Line(p));
            self.cur = Some(p);
            let n: usize = self.verbs.len();
            self.nseg = self.nseg + 1;
        }
    }

    /// Append a quadratic Bezier segment with one control point. With
    /// no current point the call is ignored.
    pub fn quad_to(&mut self, cx: i64, cy: i64, x: i64, y: i64)
        requires
            old(self).wf(),
        ensures
            final(self).wf(),
            old(self).spec_cur() is None ==> *final(self) == *old(self),
            old(self).spec_cur() is Some ==> {
                let c = Point { x: spec_clamp(cx as int) as i64, y: spec_clamp(cy as int) as i64 };
                let p = Point { x: spec_clamp(x as int) as i64, y: spec_clamp(y as int) as i64 };
                final(self)@ == old(self)@.push(PathVerb::Quad(c, p))
                    && final(self).spec_cur() == Some(p)
                    && final(self).spec_start() == old(self).spec_start()
            },
    {
        if self.cur.is_some() {
            let c = Point::new(cx, cy);
            let p = Point::new(x, y);
            proof {
                lemma_seg_count_push(self.verbs@, PathVerb::Quad(c, p));
            }
            self.verbs.push(PathVerb::Quad(c, p));
            self.cur = Some(p);
            let n: usize = self.verbs.len();
            self.nseg = self.nseg + 1;
        }
    }

    /// Append a cubic Bezier segment with two control points. With no
    /// current point the call is ignored.
    pub fn cubic_to(&mut self, c0x: i64, c0y: i64, c1x: i64, c1y: i64, x: i64, y: i64)
        requires
            old(self).wf(),
        ensures
            final(self).wf(),
            old(self).spec_cur() is None ==> *final(self) == *old(self),
            old(self).spec_cur() is Some ==> {
                let c0 = Point { x: spec_clamp(c0x as int) as i64, y: spec_clamp(c0y as int) as i64 };
                let c1 = Point { x: spec_clamp(c1x as int) as i64, y: spec_clamp(c1y as int) as i64 };
                let p = Point { x: spec_clamp(x as int) as i64, y: spec_clamp(y as int) as i64 };
                final(self)@ == old(self)@.push(PathVerb::Cubic(c0, c1, p))
                    && final(self).spec_cur() == Some(p)
                    && final(self).spec_start() == old(self).spec_start()
            },
    {
        if self.cur.is_some() {
            let c0 = Point::new(c0x, c0y);
            let c1 = Point::new(c1x, c1y);
            let p = Point::new(x, y);
            proof {
                lemma_seg_count_push(self.verbs@, PathVerb::Cubic(c0, c1, p));
            }
            self.verbs.push(PathVerb::Cubic(c0, c1, p));
            self.cur = Some(p);
            let n: usize = self.verbs.len();
            self.nseg = self.nseg + 1;
        }
    }

    /// Seal the active subpath back to its start point. With no
    /// current point the call is ignored.
    pub fn close(&mut self)
        requires
            old(self).wf(),
        ensures
            final(self).wf(),
            old(self).spec_cur() is None ==> *final(self) == *old(self),
            old(self).spec_cur() is Some ==> final(self)@ == old(self)@.push(PathVerb::Close)
                && final(self).spec_cur() == Some(old(self).spec_start())
                && final(self).spec_start() == old(self).spec_start(),
    {
        if self.cur.is_some() {
            proof {
                lemma_seg_count_push(self.verbs@, PathVerb::Close);
            }
            self.verbs.push(PathVerb::Close);
            self.cur = Some(self.start);
            let n: usize = self.verbs.len();
            self.nseg = self.nseg + 1;
        }
    }

    /// Append one or more cubic segments approximating an elliptical
    /// arc in endpoint parameterization: radii, an x-axis rotation in
    /// fixed-point degrees, the large-arc and sweep flags, and the
    /// endpoint. A degenerate arc (radius under 1/16 pixel, or an
    /// endpoint equal to the current point) degrades to a straight
    /// line segment. With no current point the call is ignored. The
    /// last emitted segment always ends exactly at the requested
    /// endpoint.
    pub fn arc_to(&mut self, rx: i64, ry: i64, rot: i64, large_arc: bool, sweep: bool,
        x: i64, y: i64)
        requires
            old(self).wf(),
            -0x2000_0000 <= rot <= 0x2000_0000 - DEG_QUARTER,
        ensures
            final(self).wf(),
            old(self).spec_cur() is None ==> *final(self) == *old(self),
            old(self).spec_cur() is Some ==> final(self)@.len() > old(self)@.len()
                && (forall|k: int| 0 <= k < old(self)@.len()
                    ==> #[trigger] final(self)@[k] == old(self)@[k]),
            old(self).spec_cur() matches Some(c) ==> {
                let p = Point { x: spec_clamp(x as int) as i64, y: spec_clamp(y as int) as i64 };
                if rx < 16 || ry < 16 || p == c {
                    final(self)@ == old(self)@.push(PathVerb::Line(p))
                        && final(self).spec_cur() == Some(p)
                        && final(self).spec_start() == old(self).spec_start()
                } else {
                    &&& old(self)@.len() < final(self)@.len() <= old(self)@.len() + 4
                    &&& final(self)@.subrange(0, old(self)@.len() as int) == old(self)@
                    &&& (forall|k: int| old(self)@.len() <= k < final(self)@.len()
                        ==> #[trigger] final(self)@[k] is Cubic)
                    &&& (final(self)@.last() matches PathVerb::Cubic(_, _, q) && q == p)
                    &&& final(self).spec_cur() == Some(p)
                    &&& final(self).spec_start() == old(self).spec_start()
                }
            },
    {
        let c0 = match self.cur {
            Some(c) => c,
            None => {
                return ;
            },
        };
        let p = Point::new(x, y);
        if rx < 16 || ry < 16 || (p.x == c0.x && p.y == c0.y) {
            self.line_to(x, y);
            return ;
        }
        let ghost pre = self@;
        let rxc = clamp(rx);
        let ryc = clamp(ry);
        let crot = cos_fp(rot);
        let srot = sin_fp(rot);
        let dx2 = cmul(csub(c0.x, p.x), 128);
        let dy2 = cmul(csub(c0.y, p.y), 128);
        let x1p = cadd(cmul(crot, dx2), cmul(srot, dy2));
        let y1p = csub(cmul(crot, dy2), cmul(srot, dx2));
        let mut rxu = rxc;
        let mut ryu = ryc;
        let mut rx2 = cmul(rxu, rxu);
        let mut ry2 = cmul(ryu, ryu);
        let lam = cadd(cdiv0(cmul(x1p, x1p), rx2), cdiv0(cmul(y1p, y1p), ry2));
        if lam > FP_ONE {
            let sq = clamp(isqrt_i(lam * FP_ONE));
            rxu = cmul(rxu, sq);
            ryu = cmul(ryu, sq);
            rx2 = cmul(rxu, rxu);
            ry2 = cmul(ryu, ryu);
        }
        let yp2 = cmul(y1p, y1p);
        let xp2 = cmul(x1p, x1p);
        let num = csub(csub(cmul(rx2, ry2), cmul(rx2, yp2)), cmul(ry2, xp2));
        let den = cadd(cmul(rx2, yp2), cmul(ry2, xp2));
        let mut rad = cdiv0(num, den);
        if rad < 0 {
            rad = 0;
        }
        let coef = clamp(isqrt_i(rad * FP_ONE));
        let sc: i64 = if large_arc != sweep {
            coef
        } else {
            -coef
        };
        let cxp = cmul(sc, cdiv0(cmul(rxu, y1p), ryu));
        let cyp = csub(0, cmul(sc, cdiv0(cmul(ryu, x1p), rxu)));
        let midx = cmul(cadd(c0.x, p.x), 128);
        let midy = cmul(cadd(c0.y, p.y), 128);
        let cx = cadd(csub(cmul(crot, cxp), cmul(srot, cyp)), midx);
        let cy = cadd(cadd(cmul(srot, cxp), cmul(crot, cyp)), midy);
        let mut wx = cdiv0(csub(x1p, cxp), rxu);
        let mut wy = cdiv0(csub(y1p, cyp), ryu);
        let vx = cdiv0(csub(csub(0, x1p), cxp), rxu);
        let vy = cdiv0(csub(csub(0, y1p), cyp), ryu);
        let mut step: u32 = 0;
        let mut done = false;
        while step < 3 && !done
            invariant
                self.wf(),
                coord_valid(wx as int),
                coord_valid(wy as int),
                coord_valid(vx as int),
                coord_valid(vy as int),
                coord_valid(crot as int),
                coord_valid(srot as int),
                coord_valid(rxu as int),
                coord_valid(ryu as int),
                coord_valid(cx as int),
                coord_valid(cy as int),
                self.spec_cur() is Some,
                self.spec_start() == old(self).spec_start(),
                pre == old(self)@,
                pre.len() <= self@.len() <= pre.len() + step,
                step <= 3,
                self@.subrange(0, pre.len() as int) == pre,
                forall|k: int| pre.len() <= k < self@.len() ==> #[trigger] self@[k] is Cubic,
            decreases 3 - step,
        {
            let cross = csub(cmul(wx, vy), cmul(wy, vx));
            let dot = cadd(cmul(wx, vx), cmul(wy, vy));
            let scross: i64 = if sweep {
                cross
            } else {
                -cross
            };
            if scross >= 0 && dot > 0 {
                done = true;
            } else {
                let (tx, ty) = rot90(sweep, wx, wy);
                let (ux, uy) = rot90(sweep, tx, ty);
                let c1x = cadd(wx, cmul(141, tx));
                let c1y = cadd(wy, cmul(141, ty));
                let c2x = csub(tx, cmul(141, ux));
                let c2y = csub(ty, cmul(141, uy));
                let c1 = from_unit(crot, srot, rxu, ryu, cx, cy, c1x, c1y);
                let c2 = from_unit(crot, srot, rxu, ryu, cx, cy, c2x, c2y);
                let b = from_unit(crot, srot, rxu, ryu, cx, cy, tx, ty);
                let ghost before = self@;
                self.cubic_to(c1.x, c1.y, c2.x, c2.y, b.x, b.y);
                proof {
                    assert(self@.subrange(0, pre.len() as int) =~= pre);
                }
                wx = tx;
                wy = ty;
            }
            step = step + 1;
        }
        let cross = csub(cmul(wx, vy), cmul(wy, vx));
        let dot = cadd(cmul(wx, vx), cmul(wy, vy));
        let mut scross: i64 = if sweep {
            cross
        } else {
            -cross
        };
        if scross < 0 {
            scross = 0;
        }
        let nw = dist(wx, wy);
        let nv = dist(vx, vy);
        let nn = cmul(nw, nv);
        let mut t2 = cdiv0(scross, cadd(nn, dot));
        if t2 < 0 {
            t2 = 0;
        }
        let vfp = cadd(FP_ONE, cmul(t2, t2));
        let h = clamp(isqrt_i(vfp * FP_ONE));
        let t4 = cdiv0(t2, cadd(h, FP_ONE));
        let k = cmul(t4, 341);
        let (twx, twy) = rot90(sweep, wx, wy);
        let (tvx, tvy) = rot90(sweep, vx, vy);
        let c1x = cadd(wx, cmul(k, twx));
        let c1y = cadd(wy, cmul(k, twy));
        let c2x = csub(vx, cmul(k, tvx));
        let c2y = csub(vy, cmul(k, tvy));
        let c1 = from_unit(crot, srot, rxu, ryu, cx, cy, c1x, c1y);
        let c2 = from_unit(crot, srot, rxu, ryu, cx, cy, c2x, c2y);
        self.cubic_to(c1.x, c1.y, c2.x, c2.y, p.x, p.y);
        proof {
            assert(self@.subrange(0, pre.len() as int) =~= pre);
            assert(spec_clamp(p.x as int) == p.x as int);
            assert(spec_clamp(p.y as int) == p.y as int);
            assert forall|k: int| 0 <= k < pre.len() implies #[trigger] self@[k] == pre[k] by {
                assert(self@.subrange(0, pre.len() as int)[k] == self@[k]);
            }
        }
    }

    /// Freeze the builder into an immutable path, consuming it. A
    /// builder that drew no segment is rejected.
    pub fn finish(self) -> (r: Result<Path, RenderError>)
        requires
            self.wf(),
        ensures
            r is Ok <==> seg_count(self@) > 0,
            r is Err ==> r == Result::<Path, RenderError>::Err(RenderError::EmptyPath),
            r matches Ok(p) ==> p@ == self@ && p.wf(),
    {
        if self.nseg == 0 {
            Err(RenderError::EmptyPath)
        } else {
            Ok(Path { verbs: self.verbs })
        }
    }
}

/// The corner radius a rounded rectangle really uses: negative radii
/// read as zero, and a radius is clamped to half the side between
/// `lo` and `hi`.
pub open spec fn spec_corner_radius(v: int, lo: int, hi: int) -> int {
    let half = spec_mul(spec_sub(hi, lo), 128);
    let v0 = if v < 0 {
        0
    } else {
        v
    };
    if v0 > half {
        half
    } else {
        v0
    }
}

fn corner_radius(v: i64, lo: i64, hi: i64) -> (r: i64)
    requires
        coord_valid(lo as int),
        coord_valid(hi as int),
        lo <= hi,
    ensures
        r == spec_corner_radius(v as int, lo as int, hi as int),
        0 <= r,
        coord_valid(r as int),
{
    let half = cmul(csub(hi, lo), 128);
    proof {
        crate::fixed::lemma_tdiv_bounded((hi as int - lo as int) * 128, 256, 0x1000_0000);
    }
    let v0: i64 = if v < 0 {
        0
    } else if v > crate::fixed::COORD_MAX {
        crate::fixed::COORD_MAX
    } else {
        v
    };
    if v0 > half {
        half
    } else {
        v0
    }
}

/// Any radius at least half the side clamps to exactly half the side:
/// the rounded corners then land exactly at the side's midpoint.
pub proof fn lemma_corner_radius_clamped(v: int, lo: int, hi: int)
    requires
        lo <= hi,
        v >= spec_mul(spec_sub(hi, lo), 128),
    ensures
        spec_corner_radius(v, lo, hi) == spec_mul(spec_sub(hi, lo), 128),
        spec_corner_radius(v, lo, hi) == spec_corner_radius(spec_mul(spec_sub(hi, lo), 128), lo, hi),
{
    let c = crate::fixed::spec_sub(hi, lo);
    assert(c >= 0);
    assert(c * 128 <= c * 256 && 0 <= c * 128) by (nonlinear_arith)
        requires
            c >= 0;
    crate::fixed::lemma_tdiv_bounded(c * 128, 256, c);
}

/// Build the rounded-rectangle path: four straight edges and four
/// quarter-ellipse corners, radii clamped to the half-sides, closed.
pub fn rounded_rect(rect: &Rect, rx: i64, ry: i64) -> (r: Path)
    requires
        rect_valid(*rect),
    ensures
        r.wf(),
        r@.len() >= 6,
        r@[0] == PathVerb::Move(Point {
            x: (rect.x0 + spec_corner_radius(rx as int, rect.x0 as int, rect.x1 as int)) as i64,
            y: rect.y0,
        }),
        r@[1] == PathVerb::Line(Point {
            x: (rect.x1 - spec_corner_radius(rx as int, rect.x0 as int, rect.x1 as int)) as i64,
            y: rect.y0,
        }),
        r@.last() == PathVerb::Close,
{
    let rxc = corner_radius(rx, rect.left(), rect.right());
    let ryc = corner_radius(ry, rect.top(), rect.bottom());
    let x0 = rect.left();
    let y0 = rect.top();
    let x1 = rect.right();
    let y1 = rect.bottom();
    let mut b = PathBuilder::new();
    b.move_to(x0 + rxc, y0);
    b.line_to(x1 - rxc, y0);
    b.arc_to(rxc, ryc, 0, false, true, x1, y0 + ryc);
    b.line_to(x1, y1 - ryc);
    b.arc_to(rxc, ryc, 0, false, true, x1 - rxc, y1);
    b.line_to(x0 + rxc, y1);
    b.arc_to(rxc, ryc, 0, false, true, x0, y1 - ryc);
    b.line_to(x0, y0 + ryc);
    b.arc_to(rxc, ryc, 0, false, true, x0 + rxc, y0);
    b.close();
    proof {
        assert(b@[0] == PathVerb::Move(Point { x: spec_clamp(x0 as int + rxc as int) as i64,
            y: spec_clamp(y0 as int) as i64 }));
        assert(b@[1] == PathVerb::Line(Point { x: spec_clamp(x1 as int - rxc as int) as i64,
            y: spec_clamp(y0 as int) as i64 }));
        assert(b@.last() == PathVerb::Close);
        let c = crate::fixed::spec_sub(rect.x1 as int, rect.x0 as int);
        assert(c >= 0);
        assert(c * 128 <= c * 256 && 0 <= c * 128) by (nonlinear_arith)
            requires
                c >= 0;
        crate::fixed::lemma_tdiv_bounded(c * 128, 256, c);
        assert(spec_corner_radius(rx as int, rect.x0 as int, rect.x1 as int)
            <= rect.x1 as int - rect.x0 as int);
        assert(spec_clamp(rect.x0 as int + spec_corner_radius(rx as int, rect.x0 as int,
            rect.x1 as int)) == rect.x0 as int + spec_corner_radius(rx as int, rect.x0 as int,
            rect.x1 as int));
        assert(spec_clamp(rect.x1 as int - spec_corner_radius(rx as int, rect.x0 as int,
            rect.x1 as int)) == rect.x1 as int - spec_corner_radius(rx as int, rect.x0 as int,
            rect.x1 as int));
    }
    match b.finish() {
        Ok(p) => p,
        Err(_) => {
            proof {
                assert(false);
            }
            vstd::pervasive::unreached()
        },
    }
}

/// Fixed-point division that reads as zero on a zero divisor, keeping
/// degenerate arc geometry total.
fn cdiv0(a: i64, b: i64) -> (r: i64)
    requires
        coord_valid(a as int),
        coord_valid(b as int),
    ensures
        coord_valid(r as int),
        b != 0 ==> r == crate::fixed::spec_div(a as int, b as int),
        b == 0 ==> r == 0,
{
    if b == 0 {
        0
    } else {
        cdiv(a, b)
    }
}

/// A quarter turn in the sweep direction.
fn rot90(sweep: bool, x: i64, y: i64) -> (r: (i64, i64))
    requires
        coord_valid(x as int),
        coord_valid(y as int),
    ensures
        coord_valid(r.0 as int),
        coord_valid(r.1 as int),
{
    if sweep {
        (-y, x)
    } else {
        (y, -x)
    }
}

/// Map a point of the arc's unit-circle space back to device space:
/// scale by the radii, rotate by the x-axis rotation, translate to
/// the center.
fn from_unit(crot: i64, srot: i64, rx: i64, ry: i64, cx: i64, cy: i64, qx: i64, qy: i64)
    -> (r: Point)
    requires
        coord_valid(crot as int),
        coord_valid(srot as int),
        coord_valid(rx as int),
        coord_valid(ry as int),
        coord_valid(cx as int),
        coord_valid(cy as int),
        coord_valid(qx as int),
        coord_valid(qy as int),
    ensures
        point_valid(r),
{
    let ex = cmul(rx, qx);
    let ey = cmul(ry, qy);
    Point {
        x: cadd(csub(cmul(crot, ex), cmul(srot, ey)), cx),
        y: cadd(cadd(cmul(srot, ex), cmul(crot, ey)), cy),
    }
}

} // verus!
