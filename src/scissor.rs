use vstd::prelude::*;

verus! {

/// A clip rectangle in framebuffer pixels.
#[derive(Debug, Clone, Copy, PartialEq, Eq, Structural)]
pub struct ScissorRect {
    pub x: u32,
    pub y: u32,
    pub width: u32,
    pub height: u32,
}

pub open spec fn clamp_below(v: u32, limit: u32) -> u32 {
    if v < limit {
        v
    } else {
        limit
    }
}

impl ScissorRect {
    /// The rectangle from pixel `(min_x, min_y)` to pixel `(max_x, max_y)`,
    /// with both corners clamped to the last pixel of a viewport of
    /// `size_in_pixels`.
    pub fn from_pixel_bounds(
        min_x: u32,
        min_y: u32,
        max_x: u32,
        max_y: u32,
        size_in_pixels: [u32; 2],
    ) -> (r: Self)
        requires
            min_x <= max_x,
            min_y <= max_y,
            size_in_pixels[0] >= 1,
            size_in_pixels[1] >= 1,
        ensures
            r.x == clamp_below(min_x, (size_in_pixels[0] - 1) as u32),
            r.y == clamp_below(min_y, (size_in_pixels[1] - 1) as u32),
            r.x + r.width == clamp_below(max_x, (size_in_pixels[0] - 1) as u32),
            r.y + r.height == clamp_below(max_y, (size_in_pixels[1] - 1) as u32),
    {
        let last_x = size_in_pixels[0] - 1;
        let last_y = size_in_pixels[1] - 1;
        let x0 = if min_x < last_x { min_x } else { last_x };
        let y0 = if min_y < last_y { min_y } else { last_y };
        let x1 = if max_x < last_x { max_x } else { last_x };
        let y1 = if max_y < last_y { max_y } else { last_y };
        ScissorRect { x: x0, y: y0, width: x1 - x0, height: y1 - y0 }
    }
}

} // verus!
