//! What the presentation layer decides before it hands a buffer to the
//! window system, and the errors it reports.

use vstd::prelude::*;

use crate::swap_chain::Extent;

verus! {

#[derive(Copy, Clone, Debug, PartialEq, Eq, Hash, Structural)]
pub enum SurfaceCreationError {
    /// The given window handle is not valid.
    InvalidHandle,
    /// The current platform is not supported.
    UnsupportedPlatform,
}

#[derive(Copy, Clone, Debug, PartialEq, Eq, Hash, Structural)]
pub enum SurfacePresentationError {
    /// The given image to present was too large to present.
    ImageTooLarge,
    /// The window system failed to draw the image or to validate the window.
    PresentationFailed,
}

/// The signed width and height of the top-down bitmap that shows a buffer of
/// the given extent: the height is negated, since the first row of the
/// buffer is the top of the image. Fails when either dimension exceeds the
/// largest `i32`.
pub fn bitmap_dimensions(extent: Extent) -> (r: Result<(i32, i32), SurfacePresentationError>)
    ensures
        r is Err <==> (extent.width > i32::MAX || extent.height > i32::MAX),
        r is Err ==> r == Err::<(i32, i32), _>(SurfacePresentationError::ImageTooLarge),
        r is Ok ==> r->Ok_0 == (extent.width as i32, -(extent.height as int) as i32),
{
    if extent.width > i32::MAX as usize {
        return Err(SurfacePresentationError::ImageTooLarge);
    }
    if extent.height > i32::MAX as usize {
        return Err(SurfacePresentationError::ImageTooLarge);
    }
    let width = extent.width as i32;
    let height = extent.height as i32;
    Ok((width, -height))
}

} // verus!
