//! A small software rasterizer: triangles in normalized device coordinates
//! are mapped to pixel space and filled into an owned pixel buffer through a
//! vertex stage and a fragment stage supplied by the caller.

use vstd::prelude::*;

use math::Vector2;

pub mod math;
pub mod platform;
pub mod shader;
pub mod swap_chain;

verus! {

/// A four-channel color with eight bits per channel.
///
/// The struct has no fixed memory layout: the bytes that the presentation
/// layer receives, red, green, blue, alpha for each pixel, are written out
/// by `swap_chain::pixel_bytes` (see `swap_chain::wire_bytes`).
#[derive(Copy, Clone, Debug, Default, PartialEq, Eq, PartialOrd, Ord, Hash, Structural)]
pub struct Pixel {
    pub red: u8,
    pub green: u8,
    pub blue: u8,
    pub alpha: u8,
}

impl Pixel {
    pub fn new(red: u8, green: u8, blue: u8, alpha: u8) -> (r: Self)
        ensures
            r.red == red,
            r.green == green,
            r.blue == blue,
            r.alpha == alpha,
    {
        Self { alpha, red, green, blue }
    }

    /// Opaque black.
    pub fn black() -> (r: Self)
        ensures
            r == (Pixel { red: 0, green: 0, blue: 0, alpha: 0xFF }),
    {
        Pixel::new(0x00, 0x00, 0x00, 0xFF)
    }
}

/// The fixed-point scale of normalized device coordinates: a coordinate `v`
/// stands for `v / NDC_ONE`, so `-NDC_ONE` and `NDC_ONE` are the two edges of
/// the visible area on each axis.
pub const NDC_ONE: i32 = 65536;

/// The three vertices of one triangle, in normalized device coordinates.
#[derive(Copy, Clone, Debug, PartialEq, Eq, PartialOrd, Ord, Hash)]
pub struct TriangleVertices {
    pub a: Vector2<i32>,
    pub b: Vector2<i32>,
    pub c: Vector2<i32>,
}

impl TriangleVertices {
    pub fn new(a: Vector2<i32>, b: Vector2<i32>, c: Vector2<i32>) -> (r: Self)
        ensures
            r.a == a,
            r.b == b,
            r.c == c,
    {
        Self { a, b, c }
    }
}

} // verus!
