//! The two programmable stages of the pipeline, implemented by callers.

use vstd::prelude::*;

use crate::Pixel;
use crate::math::Vector2;

verus! {

/// Transforms one vertex position, in normalized device coordinates
/// (fixed point, see `NDC_ONE`). Run once for each vertex of each triangle.
/// The result depends on the position alone.
pub trait VertexShader2D {
    /// The position that `run` returns for `position`.
    spec fn transform(&self, position: Vector2<i32>) -> Vector2<i32>;

    fn run(&self, position: Vector2<i32>) -> (r: Vector2<i32>)
        ensures
            r == self.transform(position),
    ;
}

/// Gives the color of one covered pixel. Run once for each pixel that a
/// triangle covers within the target. It receives no input, so it gives
/// every pixel the same color.
pub trait FragmentShader2D {
    /// The color that `run` returns.
    spec fn color(&self) -> Pixel;

    fn run(&self) -> (r: Pixel)
        ensures
            r == self.color(),
    ;
}

} // verus!
