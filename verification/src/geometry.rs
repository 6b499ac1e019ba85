//! Rectangles in surface coordinates, and the conversion from logical to
//! physical size.

use vstd::prelude::*;

verus! {

/// An axis-aligned rectangle in whole logical pixels, measured from the top
/// left corner of the surface.
#[derive(Clone, Copy, Debug, PartialEq, Eq, Structural)]
pub struct Rectangle {
    pub x: u32,
    pub y: u32,
    pub width: u32,
    pub height: u32,
}

impl Default for Rectangle {
    /// The empty rectangle at the origin.
    fn default() -> (r: Rectangle)
        ensures
            r == (Rectangle { x: 0, y: 0, width: 0, height: 0 }),
    {
        Rectangle { x: 0, y: 0, width: 0, height: 0 }
    }
}

/// A position on the surface in 1/256 of a logical pixel, the unit in which
/// the compositor reports pointer and touch coordinates.
#[derive(Clone, Copy, Debug, PartialEq, Eq, Structural)]
pub struct Point {
    pub x: i32,
    pub y: i32,
}

/// The logical size of a surface in whole pixels.
#[derive(Clone, Copy, Debug, PartialEq, Eq, Structural)]
pub struct Size {
    pub width: u32,
    pub height: u32,
}

/// Whether `rect` lies at least `n` away from the left and the top edge of
/// the surface, so that it can be grown by `n` toward both.
pub open spec fn paddable(rect: Rectangle, n: u32) -> bool {
    rect.x >= n && rect.y >= n
}

/// Whether the extent of `rect` grown by `n` on every side can be held.
pub open spec fn pad_fits(rect: Rectangle, n: u32) -> bool {
    paddable(rect, n) ==> rect.width + 2 * n <= u32::MAX && rect.height + 2 * n <= u32::MAX
}

/// Whether `pad` can grow `rect` by `n`, or leaves it alone.
pub fn can_pad(rect: Rectangle, n: u32) -> (out: bool)
    ensures
        out == pad_fits(rect, n),
{
    if rect.x < n || rect.y < n {
        return true;
    }
    if n > u32::MAX / 2 {
        return false;
    }
    let grow: u32 = n * 2;
    rect.width <= u32::MAX - grow && rect.height <= u32::MAX - grow
}

/// `rect` grown outward by `n` on every side where it is `paddable`, and
/// `rect` itself where it is not: near the left or top edge the padding drops
/// to zero instead of wrapping below zero.
pub open spec fn padded(rect: Rectangle, n: u32) -> Rectangle {
    if paddable(rect, n) {
        Rectangle {
            x: (rect.x - n) as u32,
            y: (rect.y - n) as u32,
            width: (rect.width + 2 * n) as u32,
            height: (rect.height + 2 * n) as u32,
        }
    } else {
        rect
    }
}

/// Grows `rect` outward by `n` pixels on every side. A rectangle closer than
/// `n` to the left or top edge is returned as it is.
pub fn pad(rect: Rectangle, n: u32) -> (out: Rectangle)
    requires
        pad_fits(rect, n),
    ensures
        out == padded(rect, n),
{
    if rect.x < n || rect.y < n {
        return rect;
    }
    Rectangle {
        x: rect.x - n,
        y: rect.y - n,
        width: rect.width + n * 2,
        height: rect.height + n * 2,
    }
}

/// The size in device pixels of a surface of logical size `size` at integer
/// scale `scale`, where both products can be held.
pub open spec fn scaled(size: Size, scale: i32) -> Option<(u32, u32)> {
    if scale >= 0 && size.width * scale <= u32::MAX && size.height * scale <= u32::MAX {
        Some(((size.width * scale) as u32, (size.height * scale) as u32))
    } else {
        None
    }
}

/// The size in device pixels of a buffer for a surface of logical size
/// `size` at scale `scale`: each side multiplied by the scale. `None` when the
/// scale is negative or a product does not fit in 32 bits.
pub fn physical_size(size: Size, scale: i32) -> (out: Option<(u32, u32)>)
    ensures
        out == scaled(size, scale),
{
    if scale < 0 {
        return None;
    }
    let factor: u32 = scale as u32;
    let width: Option<u32> = size.width.checked_mul(factor);
    let height: Option<u32> = size.height.checked_mul(factor);
    match (width, height) {
        (Some(w), Some(h)) => Some((w, h)),
        _ => None,
    }
}

} // verus!
