//! The popover above a hovered docklet: a padded box with a triangle below
//! it, shifted sideways until the triangle points at the docklet.

use vstd::prelude::*;
use crate::layout::{
    popover_offset, DOCK_PADDING, POPOVER_HEIGHT_MAX, TRIANGLE_HEIGHT, TRIANGLE_WIDTH,
};

verus! {

/// How a popover is laid out. Its content sits in a box with `padding` on
/// every side, the triangle is centred below the box, and this column stands
/// at the bottom of a container `height` tall that fills the surface's width.
/// The container centres its row, which holds the column and an empty space
/// on one side: the space pushes the column the other way.
#[derive(Clone, Copy, Debug, PartialEq, Eq, Structural)]
pub struct PopoverLayout {
    /// Width of the empty space to the left of the column.
    pub left_space: u16,
    /// Width of the empty space to the right of the column.
    pub right_space: u16,
    /// Padding between the box and its content.
    pub padding: u16,
    pub triangle_width: u16,
    pub triangle_height: u16,
    /// Height of the container.
    pub height: u16,
}

/// The layout of a popover shifted by `icon_offset`: a negative offset puts
/// that much space on the left, a positive one on the right, and neither side
/// ever gets less than nothing.
pub open spec fn popover_layout(icon_offset: int) -> PopoverLayout {
    PopoverLayout {
        left_space: (if icon_offset < 0 {
            -icon_offset
        } else {
            0
        }) as u16,
        right_space: (if icon_offset > 0 {
            icon_offset
        } else {
            0
        }) as u16,
        padding: DOCK_PADDING,
        triangle_width: TRIANGLE_WIDTH,
        triangle_height: TRIANGLE_HEIGHT,
        height: POPOVER_HEIGHT_MAX,
    }
}

/// Lays out a popover whose container is shifted by `icon_offset` pixels.
pub fn popover(icon_offset: i16) -> (out: PopoverLayout)
    ensures
        out == popover_layout(icon_offset as int),
        out.left_space == 0 || out.right_space == 0,
{
    let mut left: u16 = 0;
    let mut right: u16 = 0;
    if icon_offset < 0 {
        let wide: i32 = -(icon_offset as i32);
        left = wide as u16;
    }
    if icon_offset > 0 {
        right = icon_offset as u16;
    }
    PopoverLayout {
        left_space: left,
        right_space: right,
        padding: DOCK_PADDING,
        triangle_width: TRIANGLE_WIDTH,
        triangle_height: TRIANGLE_HEIGHT,
        height: POPOVER_HEIGHT_MAX,
    }
}

/// A docklet whose middle is the dock's middle gets no offset, and its
/// popover no space on either side.
pub proof fn lemma_centered_docklet_has_no_offset(total: int)
    ensures
        popover_offset(total, total / 2) == 0,
        popover_layout(popover_offset(total, total / 2)).left_space == 0,
        popover_layout(popover_offset(total, total / 2)).right_space == 0,
{
}

/// Two docklets at the same distance from the dock's middle, one to its left
/// and one to its right, get offsets of opposite sign and equal size: twice
/// that distance. The one on the left gets the positive offset.
pub proof fn lemma_offsets_mirror(total: int, distance: int)
    requires
        distance >= 0,
    ensures
        popover_offset(total, total / 2 - distance) == 2 * distance,
        popover_offset(total, total / 2 + distance) == -2 * distance,
        popover_offset(total, total / 2 - distance) == -popover_offset(
            total,
            total / 2 + distance,
        ),
{
}

/// The offset grows in step with the distance from the dock's middle: moving
/// a docklet's middle by `shift` changes its offset by twice that, the other
/// way.
pub proof fn lemma_offset_proportional(total: int, center: int, shift: int)
    ensures
        popover_offset(total, center + shift) == popover_offset(total, center) - 2 * shift,
{
}

} // verus!
