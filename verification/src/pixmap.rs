//! The pixel buffer: width x height premultiplied RGBA samples, plus
//! the BGRA read-out used by bitmap consumers.
use vstd::prelude::*;
use crate::RenderError;

verus! {

/// A color at the API boundary: non-premultiplied 8-bit channels.
#[derive(Clone, Copy, PartialEq, Eq, Structural, Debug)]
pub struct ts_color {
    pub r: u8,
    pub g: u8,
    pub b: u8,
    pub a: u8,
}

/// One stored sample: premultiplied 8-bit RGBA.
#[derive(Clone, Copy, PartialEq, Eq, Structural, Debug)]
pub struct Pixel {
    pub r: u8,
    pub g: u8,
    pub b: u8,
    pub a: u8,
}

/// Division by 255 with rounding, the normalization step of all
/// 8-bit color arithmetic.
pub open spec fn div255(x: int) -> int {
    (x + 128) / 255
}

pub fn mul255(a: u8, b: u8) -> (r: u8)
    ensures
        r == div255(a as int * b as int),
{
    proof {
        crate::fixed::lemma_mul_le(a as int, b as int, 255, 255);
    }
    let p: u32 = (a as u32) * (b as u32) + 128;
    assert((p / 255) as int == div255(a as int * b as int));
    assert(p / 255 <= 255);
    (p / 255) as u8
}

/// Premultiply an API color: every color channel scaled by alpha.
pub open spec fn spec_premultiply(c: ts_color) -> Pixel {
    Pixel {
        r: div255(c.r as int * c.a as int) as u8,
        g: div255(c.g as int * c.a as int) as u8,
        b: div255(c.b as int * c.a as int) as u8,
        a: c.a,
    }
}

pub fn premultiply(c: ts_color) -> (r: Pixel)
    ensures
        r == spec_premultiply(c),
{
    Pixel { r: mul255(c.r, c.a), g: mul255(c.g, c.a), b: mul255(c.b, c.a), a: c.a }
}

/// Premultiplying never lifts a color channel above the alpha: stored
/// samples always satisfy the premultiplied-alpha invariant.
pub proof fn lemma_premultiply_bounded(c: ts_color)
    ensures
        spec_premultiply(c).r <= c.a,
        spec_premultiply(c).g <= c.a,
        spec_premultiply(c).b <= c.a,
{
    assert(div255(c.r as int * c.a as int) <= c.a as int) by (nonlinear_arith);
    assert(div255(c.g as int * c.a as int) <= c.a as int) by (nonlinear_arith);
    assert(div255(c.b as int * c.a as int) <= c.a as int) by (nonlinear_arith);
}

/// The fully transparent sample a fresh buffer is filled with.
pub open spec fn transparent() -> Pixel {
    Pixel { r: 0, g: 0, b: 0, a: 0 }
}

/// An owned width x height grid of premultiplied RGBA samples.
pub struct Pixmap {
    width: u32,
    height: u32,
    pixels: Vec<Pixel>,
}

/// Largest pixel count a buffer may hold, so index arithmetic stays
/// addressable.
pub const PIXEL_LIMIT: u64 = 0x1000_0000;

/// Largest width or height, so pixel centers stay inside the
/// fixed-point working range.
pub const SIDE_LIMIT: u32 = 0x10_0000;

impl Pixmap {
    pub closed spec fn view(&self) -> Seq<Pixel> {
        self.pixels@
    }

    pub closed spec fn spec_width(&self) -> nat {
        self.width as nat
    }

    pub closed spec fn spec_height(&self) -> nat {
        self.height as nat
    }

    pub open spec fn wf(&self) -> bool {
        &&& self@.len() == self.spec_width() * self.spec_height()
        &&& 1 <= self.spec_width() <= SIDE_LIMIT
        &&& 1 <= self.spec_height() <= SIDE_LIMIT
        &&& self.spec_width() * self.spec_height() <= PIXEL_LIMIT
    }

    /// Create a zero-initialized, fully transparent buffer. Zero-area
    /// buffers, and buffers beyond the addressable pixel count, are
    /// rejected.
    pub fn create(width: u32, height: u32) -> (r: Result<Pixmap, RenderError>)
        ensures
            r is Ok <==> 1 <= width <= SIDE_LIMIT && 1 <= height <= SIDE_LIMIT
                && width as int * height as int <= PIXEL_LIMIT,
            r is Err ==> r == Result::<Pixmap, RenderError>::Err(RenderError::InvalidDimensions),
            r matches Ok(p) ==> p.wf() && p.spec_width() == width && p.spec_height() == height
                && forall|i: int| 0 <= i < p@.len() ==> p@[i] == transparent(),
    {
        proof {
        crate::fixed::lemma_mul_le(width as int, height as int, 0xFFFF_FFFF, 0xFFFF_FFFF);
        }
        let total: u64 = (width as u64) * (height as u64);
        if width == 0 || height == 0 || width > SIDE_LIMIT || height > SIDE_LIMIT
            || total > PIXEL_LIMIT {
            return Err(RenderError::InvalidDimensions);
        }
        let n: usize = total as usize;
        let mut pixels: Vec<Pixel> = Vec::new();
        let mut i: usize = 0;
        while i < n
            invariant
                0 <= i <= n,
                pixels@.len() == i,
                forall|j: int| 0 <= j < i ==> pixels@[j] == transparent(),
            decreases n - i,
        {
            pixels.push(Pixel { r: 0, g: 0, b: 0, a: 0 });
            i = i + 1;
        }
        Ok(Pixmap { width, height, pixels })
    }

    pub fn width(&self) -> (r: u32)
        ensures
            r == self.spec_width(),
    {
        self.width
    }

    pub fn height(&self) -> (r: u32)
        ensures
            r == self.spec_height(),
    {
        self.height
    }

    /// The sample at column `x`, row `y`.
    pub fn get(&self, x: u32, y: u32) -> (r: Pixel)
        requires
            self.wf(),
            x < self.spec_width(),
            y < self.spec_height(),
        ensures
            r == self@[y as int * self.spec_width() + x as int],
    {
        proof {
            lemma_pixel_index(self.spec_width(), self.spec_height(), x as nat, y as nat);
        }
        let idx: usize = (y as usize) * (self.width as usize) + (x as usize);
        self.pixels[idx]
    }

    /// Overwrite the sample at column `x`, row `y`.
    pub fn set(&mut self, x: u32, y: u32, p: Pixel)
        requires
            old(self).wf(),
            x < old(self).spec_width(),
            y < old(self).spec_height(),
        ensures
            final(self).wf(),
            final(self).spec_width() == old(self).spec_width(),
            final(self).spec_height() == old(self).spec_height(),
            final(self)@ == old(self)@.update(y as int * old(self).spec_width() + x as int, p),
    {
        proof {
            lemma_pixel_index(self.spec_width(), self.spec_height(), x as nat, y as nat);
        }
        let idx: usize = (y as usize) * (self.width as usize) + (x as usize);
        self.pixels.set(idx, p);
    }

    /// Read the buffer out as a flat byte sequence, four bytes per
    /// pixel in blue, green, red, alpha order. The result always holds
    /// exactly `width * height * 4` bytes.
    pub fn read_out(&self) -> (r: ts_argb)
        requires
            self.wf(),
        ensures
            r@.len() == 4 * self@.len(),
            r@.len() == 4 * self.spec_width() * self.spec_height(),
            forall|i: int| 0 <= i < self@.len() ==> {
                &&& r@[4 * i] == self@[i].b
                &&& r@[4 * i + 1] == self@[i].g
                &&& r@[4 * i + 2] == self@[i].r
                &&& r@[4 * i + 3] == self@[i].a
            },
    {
        let n: usize = self.pixels.len();
        let mut out: Vec<u8> = Vec::new();
        let mut i: usize = 0;
        while i < n
            invariant
                0 <= i <= n,
                n == self@.len(),
                self.wf(),
                out@.len() == 4 * i,
                forall|j: int| 0 <= j < i ==> {
                    &&& out@[4 * j] == self@[j].b
                    &&& out@[4 * j + 1] == self@[j].g
                    &&& out@[4 * j + 2] == self@[j].r
                    &&& out@[4 * j + 3] == self@[j].a
                },
            decreases n - i,
        {
            let p = self.pixels[i];
            out.push(p.b);
            out.push(p.g);
            out.push(p.r);
            out.push(p.a);
            i = i + 1;
        }
        proof {
            assert(4 * self@.len() == 4 * (self.spec_width() * self.spec_height()));
            assert(4 * (self.spec_width() * self.spec_height())
                == 4 * self.spec_width() * self.spec_height()) by (nonlinear_arith);
        }
        ts_argb { bytes: out }
    }
}

pub proof fn lemma_pixel_index(w: nat, h: nat, x: nat, y: nat)
    by (nonlinear_arith)
    requires
        x < w,
        y < h,
    ensures
        y * w + x < w * h,
{
}

/// The flat byte buffer a pixmap reads out to: blue, green, red, alpha
/// per pixel.
pub struct ts_argb {
    bytes: Vec<u8>,
}

impl ts_argb {
    pub closed spec fn view(&self) -> Seq<u8> {
        self.bytes@
    }

    /// How many bytes the read-out holds.
    pub fn len(&self) -> (r: usize)
        ensures
            r == self@.len(),
    {
        self.bytes.len()
    }

    /// The byte at a given offset.
    pub fn byte(&self, i: usize) -> (r: u8)
        requires
            i < self@.len(),
        ensures
            r == self@[i as int],
    {
        self.bytes[i]
    }

    /// Borrow the whole byte sequence.
    pub fn as_slice(&self) -> (r: &Vec<u8>)
        ensures
            r@ == self@,
    {
        &self.bytes
    }
}

} // verus!
