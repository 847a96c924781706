//! A 2D vector-graphics rasterizer: paths, affine transforms, gradient
//! shaders, alpha compositing, and scan conversion onto an in-memory
//! pixel buffer.
//!
//! The engine works in fixed-point coordinates with 8 fractional bits
//! (`fixed::FP_ONE` units per pixel), so every geometric computation is
//! exact integer arithmetic with a documented clamp to the working range.
#![allow(non_camel_case_types)]
use vstd::prelude::*;

pub mod fixed;
pub mod geom;
pub mod path;
pub mod pixmap;
pub mod blend;
pub mod shader;
pub mod raster;
pub mod stroke;

verus! {

/// Construction-time failures. Geometric degeneracies (flat arcs,
/// zero-length gradient axes) are not errors: they degrade to the
/// documented fallback instead.
#[derive(Clone, Copy, PartialEq, Eq, Structural, Debug)]
pub enum RenderError {
    /// A pixel buffer with zero width or height (or one too large to
    /// address) was requested.
    InvalidDimensions,
    /// A rectangle was built with reversed coordinates.
    InvalidRect,
    /// A builder that holds no segments was finished.
    EmptyPath,
    /// A stroke was built with non-positive width.
    InvalidStroke,
}

} // verus!
