//! Points, rectangles and 2D affine transforms in fixed-point units.
use vstd::prelude::*;
use crate::fixed::{
    FP_ONE, coord_valid, spec_add, spec_sub, spec_mul, spec_div, spec_clamp, spec_sin, spec_cos,
    cadd, csub, cmul, cdiv, clamp, sin_fp, cos_fp, DEG_QUARTER,
};
use crate::RenderError;

verus! {

/// A point in fixed-point coordinates.
#[derive(Clone, Copy, PartialEq, Eq, Structural, Debug)]
pub struct Point {
    pub x: i64,
    pub y: i64,
}

pub open spec fn point_valid(p: Point) -> bool {
    coord_valid(p.x as int) && coord_valid(p.y as int)
}

impl Point {
    pub fn new(x: i64, y: i64) -> (r: Point)
        ensures
            r.x == spec_clamp(x as int),
            r.y == spec_clamp(y as int),
            point_valid(r),
    {
        Point { x: clamp(x), y: clamp(y) }
    }
}

/// An axis-aligned rectangle; `x0 <= x1` and `y0 <= y1` always hold.
#[derive(Clone, Copy, PartialEq, Eq, Structural, Debug)]
pub struct Rect {
    pub x0: i64,
    pub y0: i64,
    pub x1: i64,
    pub y1: i64,
}

pub open spec fn rect_valid(r: Rect) -> bool {
    &&& coord_valid(r.x0 as int)
    &&& coord_valid(r.y0 as int)
    &&& coord_valid(r.x1 as int)
    &&& coord_valid(r.y1 as int)
    &&& r.x0 <= r.x1
    &&& r.y0 <= r.y1
}

impl Rect {
    /// Build a rectangle from its two corners; reversed coordinates are
    /// rejected. Corners are clamped into the working range.
    pub fn from_ltrb(x0: i64, y0: i64, x1: i64, y1: i64) -> (r: Result<Rect, RenderError>)
        ensures
            r is Ok <==> x0 <= x1 && y0 <= y1,
            r is Err ==> r == Result::<Rect, RenderError>::Err(RenderError::InvalidRect),
            r matches Ok(rect) ==> rect_valid(rect) && rect.x0 == spec_clamp(x0 as int)
                && rect.y0 == spec_clamp(y0 as int) && rect.x1 == spec_clamp(x1 as int)
                && rect.y1 == spec_clamp(y1 as int),
    {
        if x0 <= x1 && y0 <= y1 {
            Ok(Rect { x0: clamp(x0), y0: clamp(y0), x1: clamp(x1), y1: clamp(y1) })
        } else {
            Err(RenderError::InvalidRect)
        }
    }

    pub fn left(&self) -> (r: i64)
        ensures
            r == self.x0,
    {
        self.x0
    }

    pub fn top(&self) -> (r: i64)
        ensures
            r == self.y0,
    {
        self.y0
    }

    pub fn right(&self) -> (r: i64)
        ensures
            r == self.x1,
    {
        self.x1
    }

    pub fn bottom(&self) -> (r: i64)
        ensures
            r == self.y1,
    {
        self.y1
    }
}

/// A 2D affine map `(x, y) -> (sx*x + ky*y + tx, kx*x + sy*y + ty)`,
/// with every coefficient in fixed-point units.
#[derive(Clone, Copy, PartialEq, Eq, Structural, Debug)]
pub struct Transform {
    pub sx: i64,
    pub kx: i64,
    pub ky: i64,
    pub sy: i64,
    pub tx: i64,
    pub ty: i64,
}

pub open spec fn transform_valid(t: Transform) -> bool {
    &&& coord_valid(t.sx as int)
    &&& coord_valid(t.kx as int)
    &&& coord_valid(t.ky as int)
    &&& coord_valid(t.sy as int)
    &&& coord_valid(t.tx as int)
    &&& coord_valid(t.ty as int)
}

pub open spec fn spec_identity() -> Transform {
    Transform { sx: FP_ONE, kx: 0, ky: 0, sy: FP_ONE, tx: 0, ty: 0 }
}

/// Matrix product of two affine maps: the combined map applies `b`
/// first, then `a`.
pub open spec fn spec_combine(a: Transform, b: Transform) -> Transform {
    Transform {
        sx: spec_add(spec_mul(a.sx as int, b.sx as int), spec_mul(a.ky as int, b.kx as int)) as i64,
        kx: spec_add(spec_mul(a.kx as int, b.sx as int), spec_mul(a.sy as int, b.kx as int)) as i64,
        ky: spec_add(spec_mul(a.sx as int, b.ky as int), spec_mul(a.ky as int, b.sy as int)) as i64,
        sy: spec_add(spec_mul(a.kx as int, b.ky as int), spec_mul(a.sy as int, b.sy as int)) as i64,
        tx: spec_add(spec_add(spec_mul(a.sx as int, b.tx as int), spec_mul(a.ky as int, b.ty as int)), a.tx as int) as i64,
        ty: spec_add(spec_add(spec_mul(a.kx as int, b.tx as int), spec_mul(a.sy as int, b.ty as int)), a.ty as int) as i64,
    }
}

/// Where an affine map carries a point.
pub open spec fn spec_apply(t: Transform, p: Point) -> Point {
    Point {
        x: spec_add(spec_add(spec_mul(t.sx as int, p.x as int), spec_mul(t.ky as int, p.y as int)), t.tx as int) as i64,
        y: spec_add(spec_add(spec_mul(t.kx as int, p.x as int), spec_mul(t.sy as int, p.y as int)), t.ty as int) as i64,
    }
}

impl Transform {
    /// The identity map.
    pub fn identity() -> (r: Transform)
        ensures
            r == spec_identity(),
            transform_valid(r),
    {
        Transform { sx: FP_ONE, kx: 0, ky: 0, sy: FP_ONE, tx: 0, ty: 0 }
    }

    /// A pure scale about the origin.
    pub fn scale(sx: i64, sy: i64) -> (r: Transform)
        ensures
            r == (Transform { sx: spec_clamp(sx as int) as i64, kx: 0, ky: 0,
                sy: spec_clamp(sy as int) as i64, tx: 0, ty: 0 }),
            transform_valid(r),
    {
        Transform { sx: clamp(sx), kx: 0, ky: 0, sy: clamp(sy), tx: 0, ty: 0 }
    }

    /// A pure translation.
    pub fn translate(tx: i64, ty: i64) -> (r: Transform)
        ensures
            r == (Transform { sx: FP_ONE, kx: 0, ky: 0, sy: FP_ONE,
                tx: spec_clamp(tx as int) as i64, ty: spec_clamp(ty as int) as i64 }),
            transform_valid(r),
    {
        Transform { sx: FP_ONE, kx: 0, ky: 0, sy: FP_ONE, tx: clamp(tx), ty: clamp(ty) }
    }

    /// A rotation about the origin by an angle given in fixed-point
    /// degrees, positive angles turning from the x axis toward the
    /// y axis.
    pub fn rotate(angle: i64) -> (r: Transform)
        requires
            -0x2000_0000 <= angle <= 0x2000_0000 - DEG_QUARTER,
        ensures
            r == (Transform { sx: spec_cos(angle as int) as i64, kx: spec_sin(angle as int) as i64,
                ky: -spec_sin(angle as int) as i64, sy: spec_cos(angle as int) as i64, tx: 0, ty: 0 }),
            transform_valid(r),
    {
        let c: i64 = cos_fp(angle);
        let s: i64 = sin_fp(angle);
        Transform { sx: c, kx: s, ky: -s, sy: c, tx: 0, ty: 0 }
    }

    /// A rotation about the point `(cx, cy)`.
    pub fn rotate_at(angle: i64, cx: i64, cy: i64) -> (r: Transform)
        requires
            -0x2000_0000 <= angle <= 0x2000_0000 - DEG_QUARTER,
            coord_valid(cx as int),
            coord_valid(cy as int),
        ensures
            r == spec_combine(
                spec_combine(
                    Transform { sx: FP_ONE, kx: 0, ky: 0, sy: FP_ONE, tx: cx, ty: cy },
                    Transform { sx: spec_cos(angle as int) as i64, kx: spec_sin(angle as int) as i64,
                        ky: -spec_sin(angle as int) as i64, sy: spec_cos(angle as int) as i64, tx: 0, ty: 0 },
                ),
                Transform { sx: FP_ONE, kx: 0, ky: 0, sy: FP_ONE, tx: (-(cx as int)) as i64, ty: (-(cy as int)) as i64 },
            ),
            transform_valid(r),
    {
        let t1 = Transform::translate(cx, cy);
        let rot = Transform::rotate(angle);
        let t2 = Transform { sx: FP_ONE, kx: 0, ky: 0, sy: FP_ONE, tx: -cx, ty: -cy };
        Transform::combine(Transform::combine(t1, rot), t2)
    }

    /// Compose two maps so that `b` is applied first, then `a`.
    pub fn combine(a: Transform, b: Transform) -> (r: Transform)
        requires
            transform_valid(a),
            transform_valid(b),
        ensures
            r == spec_combine(a, b),
            transform_valid(r),
    {
        Transform {
            sx: cadd(cmul(a.sx, b.sx), cmul(a.ky, b.kx)),
            kx: cadd(cmul(a.kx, b.sx), cmul(a.sy, b.kx)),
            ky: cadd(cmul(a.sx, b.ky), cmul(a.ky, b.sy)),
            sy: cadd(cmul(a.kx, b.ky), cmul(a.sy, b.sy)),
            tx: cadd(cadd(cmul(a.sx, b.tx), cmul(a.ky, b.ty)), a.tx),
            ty: cadd(cadd(cmul(a.kx, b.tx), cmul(a.sy, b.ty)), a.ty),
        }
    }

    /// Carry a point through the map.
    pub fn apply(&self, p: Point) -> (r: Point)
        requires
            transform_valid(*self),
            point_valid(p),
        ensures
            r == spec_apply(*self, p),
            point_valid(r),
    {
        Point {
            x: cadd(cadd(cmul(self.sx, p.x), cmul(self.ky, p.y)), self.tx),
            y: cadd(cadd(cmul(self.kx, p.x), cmul(self.sy, p.y)), self.ty),
        }
    }

    /// The inverse map where the determinant is non-zero; a singular
    /// map falls back to the identity, so that sampling stays total.
    pub fn invert_or_identity(&self) -> (r: Transform)
        requires
            transform_valid(*self),
        ensures
            transform_valid(r),
            r == spec_invert(*self),
    {
        let det: i64 = csub(cmul(self.sx, self.sy), cmul(self.kx, self.ky));
        if det == 0 {
            Transform::identity()
        } else {
            let isx: i64 = cdiv(self.sy, det);
            let isy: i64 = cdiv(self.sx, det);
            let ikx: i64 = cdiv(-self.kx, det);
            let iky: i64 = cdiv(-self.ky, det);
            let itx: i64 = csub(0, cadd(cmul(isx, self.tx), cmul(iky, self.ty)));
            let ity: i64 = csub(0, cadd(cmul(ikx, self.tx), cmul(isy, self.ty)));
            Transform { sx: isx, kx: ikx, ky: iky, sy: isy, tx: itx, ty: ity }
        }
    }
}

/// The inverse map of a transform, falling back to the identity when
/// the determinant is zero.
pub open spec fn spec_invert(t: Transform) -> Transform {
    let det = spec_sub(spec_mul(t.sx as int, t.sy as int), spec_mul(t.kx as int, t.ky as int));
    if det == 0 {
        spec_identity()
    } else {
        let isx = spec_div(t.sy as int, det);
        let isy = spec_div(t.sx as int, det);
        let ikx = spec_div(-(t.kx as int), det);
        let iky = spec_div(-(t.ky as int), det);
        Transform {
            sx: isx as i64,
            kx: ikx as i64,
            ky: iky as i64,
            sy: isy as i64,
            tx: spec_sub(0, spec_add(spec_mul(isx, t.tx as int), spec_mul(iky, t.ty as int))) as i64,
            ty: spec_sub(0, spec_add(spec_mul(ikx, t.tx as int), spec_mul(isy, t.ty as int))) as i64,
        }
    }
}

/// Composing with the identity on either side returns the other map
/// unchanged, whenever its coefficients are in the working range.
pub proof fn lemma_combine_identity(t: Transform)
    requires
        transform_valid(t),
    ensures
        spec_combine(spec_identity(), t) == t,
        spec_combine(t, spec_identity()) == t,
{
    crate::fixed::lemma_tdiv_exact(t.sx as int, FP_ONE as int);
    crate::fixed::lemma_tdiv_exact(t.kx as int, FP_ONE as int);
    crate::fixed::lemma_tdiv_exact(t.ky as int, FP_ONE as int);
    crate::fixed::lemma_tdiv_exact(t.sy as int, FP_ONE as int);
    crate::fixed::lemma_tdiv_exact(t.tx as int, FP_ONE as int);
    crate::fixed::lemma_tdiv_exact(t.ty as int, FP_ONE as int);
    assert(spec_mul(FP_ONE as int, t.sx as int) == t.sx as int);
    assert(spec_mul(t.sx as int, FP_ONE as int) == t.sx as int);
    assert(spec_mul(FP_ONE as int, t.kx as int) == t.kx as int);
    assert(spec_mul(t.kx as int, FP_ONE as int) == t.kx as int);
    assert(spec_mul(FP_ONE as int, t.ky as int) == t.ky as int);
    assert(spec_mul(t.ky as int, FP_ONE as int) == t.ky as int);
    assert(spec_mul(FP_ONE as int, t.sy as int) == t.sy as int);
    assert(spec_mul(t.sy as int, FP_ONE as int) == t.sy as int);
    assert(spec_mul(FP_ONE as int, t.tx as int) == t.tx as int);
    assert(spec_mul(FP_ONE as int, t.ty as int) == t.ty as int);
}

} // verus!
