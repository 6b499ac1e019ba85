//! The dock's measurements: its fixed sizes, the width of a row of docklets,
//! the centre of each docklet in that row, and the popover above it.

use vstd::prelude::*;

verus! {

/// Height of the area above the dock in which a popover is shown.
pub const POPOVER_HEIGHT_MAX: u16 = 420;

/// Width of the list of open windows in an application's popover.
pub const TOPLEVELS_WIDTH: u16 = 290;

/// Padding around an application's icon.
pub const APP_PADDING: u16 = 4;

/// Padding at both ends of the dock, and between two docklets.
pub const DOCK_PADDING: u16 = 4;

/// Gap between the dock and the bar below it.
pub const DOCK_GAP: u16 = 8;

/// Height of the bar at the bottom edge, which is always on screen.
pub const BAR_HEIGHT: u16 = 10;

/// Width and height of the handle drawn in the middle of the bar.
pub const BAR_HANDLE_WIDTH: u16 = 192;

pub const BAR_HANDLE_HEIGHT: u16 = 4;

/// Width and height of the triangle that points from a popover to its
/// docklet.
pub const TRIANGLE_WIDTH: u16 = 16;

pub const TRIANGLE_HEIGHT: u16 = 8;

/// Margin by which the dock's box is grown when it takes input.
pub const DOCK_REGION_PADDING: u32 = 12;

/// Margin by which the popover's box is grown when it takes input.
pub const POPOVER_REGION_PADDING: u32 = 6;

/// The largest icon size for which every height of the dock fits in 16 bits.
pub const ICON_SIZE_MAX: u16 = 65081;

/// The widest dock above which a popover can be anchored: its width, like
/// every offset of a popover above it, fits in a signed 16 bit pixel count.
pub const DOCK_WIDTH_MAX: u16 = 32767;

/// Height of the dock for icons of `icon_size`: the icon, the padding around
/// it and the dock's own padding.
pub open spec fn dock_height_of(icon_size: u16) -> int {
    icon_size + 2 * APP_PADDING + 2 * DOCK_PADDING
}

/// Height of the dock with the gap below it.
pub open spec fn dock_and_gap_height_of(icon_size: u16) -> int {
    dock_height_of(icon_size) + DOCK_GAP
}

/// Height of the whole surface: popover area, dock, gap and bar.
pub open spec fn surface_height_of(icon_size: u16) -> int {
    BAR_HEIGHT + dock_and_gap_height_of(icon_size) + POPOVER_HEIGHT_MAX
}

pub fn dock_height(icon_size: u16) -> (h: u16)
    requires
        icon_size <= ICON_SIZE_MAX,
    ensures
        h == dock_height_of(icon_size),
{
    icon_size + APP_PADDING * 2 + DOCK_PADDING * 2
}

pub fn dock_and_gap_height(icon_size: u16) -> (h: u16)
    requires
        icon_size <= ICON_SIZE_MAX,
    ensures
        h == dock_and_gap_height_of(icon_size),
{
    dock_height(icon_size) + DOCK_GAP
}

pub fn surface_height(icon_size: u16) -> (h: u16)
    requires
        icon_size <= ICON_SIZE_MAX,
    ensures
        h == surface_height_of(icon_size),
{
    BAR_HEIGHT + dock_and_gap_height(icon_size) + POPOVER_HEIGHT_MAX
}

/// The sum of the widths in `widths`.
pub open spec fn sum_widths(widths: Seq<u16>) -> int
    decreases widths.len(),
{
    if widths.len() == 0 {
        0
    } else {
        sum_widths(widths.drop_last()) + widths.last()
    }
}

/// Width of a dock that shows docklets of the given widths: the widths, the
/// padding between each pair of neighbours, and the padding at both ends.
/// A dock with no docklet, like one with a single docklet, has no padding
/// between neighbours.
pub open spec fn total_width(widths: Seq<u16>) -> int {
    sum_widths(widths) + DOCK_PADDING * (if widths.len() > 1 {
        widths.len() - 1
    } else {
        0
    }) + 2 * DOCK_PADDING
}

/// Distance from the dock's left edge to the middle of docklet `i`: the
/// padding at the left end, every docklet before `i` with the padding that
/// follows it, and half of the docklet's own width, rounded down.
pub open spec fn center_of(widths: Seq<u16>, i: int) -> int
    recommends
        0 <= i < widths.len(),
{
    DOCK_PADDING + sum_widths(widths.take(i)) + i * DOCK_PADDING + widths[i] / 2
}

/// How far the popover's container is shifted so that its triangle stands
/// above a docklet whose middle is at `center` in a dock `total` wide: twice
/// the distance from the docklet's middle to the dock's.
pub open spec fn popover_offset(total: int, center: int) -> int {
    (total / 2 - center) * 2
}

/// A prefix of a row is no wider than the row.
proof fn lemma_sum_widths_prefix(widths: Seq<u16>, i: int)
    requires
        0 <= i <= widths.len(),
    ensures
        0 <= sum_widths(widths.take(i)) <= sum_widths(widths),
    decreases widths.len(),
{
    if i == widths.len() {
        assert(widths.take(i) =~= widths);
        if widths.len() > 0 {
            lemma_sum_widths_prefix(widths.drop_last(), i - 1);
        }
    } else {
        assert(widths.drop_last().take(i) =~= widths.take(i));
        lemma_sum_widths_prefix(widths.drop_last(), i);
    }
}

/// Adding a docklet to the right end of a row adds its width to the sum.
proof fn lemma_sum_widths_step(widths: Seq<u16>, i: int)
    requires
        0 <= i < widths.len(),
    ensures
        sum_widths(widths.take(i + 1)) == sum_widths(widths.take(i)) + widths[i],
{
    assert(widths.take(i + 1).drop_last() =~= widths.take(i));
}

/// The width of a dock is never less than the padding at its two ends. A dock
/// without docklets is exactly that wide, and a dock with one docklet is
/// wider by that docklet alone: the padding between neighbours counts for
/// every docklet but the first, and for none where there is no first.
pub proof fn lemma_total_width_of_few(width: u16, more: Seq<u16>)
    ensures
        total_width(Seq::empty()) == 2 * DOCK_PADDING,
        total_width(seq![width]) == width + 2 * DOCK_PADDING,
        total_width(more) >= 2 * DOCK_PADDING,
        more.len() >= 1 ==> total_width(more.push(width)) == total_width(more) + DOCK_PADDING
            + width,
{
    assert(seq![width].drop_last() =~= Seq::<u16>::empty());
    lemma_sum_widths_prefix(more, 0);
    assert(more.push(width).drop_last() =~= more);
}

/// The middle of every docklet lies within the dock.
pub proof fn lemma_center_within(widths: Seq<u16>, i: int)
    requires
        0 <= i < widths.len(),
    ensures
        0 <= center_of(widths, i) <= total_width(widths),
{
    lemma_sum_widths_prefix(widths, i);
    lemma_sum_widths_prefix(widths, i + 1);
    lemma_sum_widths_step(widths, i);
}

/// Width of a dock that shows docklets of the given widths, or `None` when
/// that width does not fit in 16 bits.
pub fn dock_width(widths: &Vec<u16>) -> (out: Option<u16>)
    ensures
        match out {
            Some(w) => w == total_width(widths@),
            None => total_width(widths@) > u16::MAX,
        },
{
    let mut sum: u32 = 0;
    let mut i: usize = 0;
    while i < widths.len()
        invariant
            i <= widths@.len(),
            sum == sum_widths(widths@.take(i as int)),
            sum <= u16::MAX,
        decreases widths@.len() - i,
    {
        proof {
            lemma_sum_widths_step(widths@, i as int);
            lemma_sum_widths_prefix(widths@, i + 1);
        }
        sum = sum + widths[i] as u32;
        if sum > u16::MAX as u32 {
            return None;
        }
        i += 1;
    }
    assert(widths@.take(i as int) =~= widths@);
    let between: usize = if widths.len() > 1 {
        widths.len() - 1
    } else {
        0
    };
    // The sum of `len` widths is at most 65535 here, yet `len` itself is not
    // bounded by it: docklets may have no width at all.
    if between > (u16::MAX as usize) {
        return None;
    }
    let padding: u32 = DOCK_PADDING as u32;
    let total: u32 = sum + padding * (between as u32) + padding * 2;
    if total > u16::MAX as u32 {
        None
    } else {
        Some(total as u16)
    }
}

/// Distance from the dock's left edge to the middle of docklet `i`.
pub fn docklet_center(widths: &Vec<u16>, i: usize) -> (out: u16)
    requires
        i < widths@.len(),
        total_width(widths@) <= u16::MAX,
    ensures
        out == center_of(widths@, i as int),
{
    proof {
        lemma_center_within(widths@, i as int);
    }
    let mut before: u32 = 0;
    let mut k: usize = 0;
    while k < i
        invariant
            k <= i < widths@.len(),
            before == sum_widths(widths@.take(k as int)) + k * DOCK_PADDING,
            center_of(widths@, i as int) <= u16::MAX,
        decreases i - k,
    {
        proof {
            lemma_sum_widths_step(widths@, k as int);
            lemma_sum_widths_prefix(widths@.take(i as int), k + 1);
            assert(widths@.take(i as int).take(k + 1) =~= widths@.take(k + 1));
        }
        before = before + widths[k] as u32 + DOCK_PADDING as u32;
        k += 1;
    }
    let center: u32 = DOCK_PADDING as u32 + before + (widths[i] / 2) as u32;
    center as u16
}

/// Offset of the popover's container for a docklet whose middle is at
/// `center` in a dock `dock_width` wide.
pub fn anchor_offset(dock_width: u16, center: u16) -> (out: i16)
    requires
        dock_width <= DOCK_WIDTH_MAX,
        center <= dock_width,
    ensures
        out == popover_offset(dock_width as int, center as int),
{
    let half: i16 = (dock_width / 2) as i16;
    (half - center as i16) * 2
}

} // verus!
