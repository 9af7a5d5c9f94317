use vstd::prelude::*;

verus! {

/// The pixel of a `width` × `height` texture that rounded texture coordinates
/// `(x, y)` address: column `x`, and row `height - y`, since texture rows count
/// from the bottom and image rows from the top. `None` where that pixel lies
/// outside the image.
pub fn texel_position(width: u32, height: u32, x: u32, y: u32) -> (r: Option<(u32, u32)>)
    ensures
        r == (if x < width && 0 < y && y <= height {
            Some((x, (height - y) as u32))
        } else {
            None
        }),
{
    if x < width && 0 < y && y <= height {
        Some((x, height - y))
    } else {
        None
    }
}

} // verus!
