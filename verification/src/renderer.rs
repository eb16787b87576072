//! What a backend implements to measure and draw vector images.

use crate::geometry::{Rectangle, Size};
use crate::handle::Handle;
use crate::id::Id;
use crate::svg::Svg;
use vstd::prelude::*;

verus! {

/// A renderer of vector images.
pub trait Renderer {
    /// The size that the renderer, as it is, takes the resource `id` to
    /// have of itself.
    spec fn intrinsic_size(&self, id: Id) -> Size;

    /// The size that the resource of `handle` has of itself. It goes by the
    /// identifier alone: handles with one identifier measure alike for as
    /// long as the renderer is left as it is.
    fn measure_svg(&self, handle: &Handle) -> (size: Size)
        ensures
            size == self.intrinsic_size(handle.id()),
    ;

    /// Draws `svg` fitted into `bounds`, and nothing of it outside
    /// `clip_bounds`.
    fn draw_svg(&mut self, svg: Svg, bounds: Rectangle, clip_bounds: Rectangle);
}

} // verus!
