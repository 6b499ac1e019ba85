//! What the dock puts on its surface, from top to bottom: the popover area,
//! the row of docklets, and the bar.

use vstd::prelude::*;
use crate::layout::{
    anchor_offset, center_of, dock_and_gap_height, dock_and_gap_height_of, dock_height,
    dock_height_of, dock_width, docklet_center, lemma_center_within, popover_offset,
    surface_height_of, total_width, BAR_HANDLE_HEIGHT, BAR_HANDLE_WIDTH, BAR_HEIGHT, DOCK_GAP,
    DOCK_PADDING, DOCK_WIDTH_MAX, ICON_SIZE_MAX, POPOVER_HEIGHT_MAX,
};
use crate::popover::{popover, popover_layout, PopoverLayout};

verus! {

/// The area above the dock.
#[derive(Clone, Copy, Debug, PartialEq, Eq, Structural)]
pub enum PopoverArea {
    /// Nothing but empty space of the given height.
    Empty { height: u16 },
    /// The popover of the docklet at position `docklet` in the row.
    Shown { docklet: usize, layout: PopoverLayout },
}

/// The dock itself.
#[derive(Clone, Copy, Debug, PartialEq, Eq, Structural)]
pub enum DockRow {
    /// Nothing but empty space of the given height.
    Collapsed { height: u16 },
    /// The widgets of the first `docklets` docklets, in their order, `spacing`
    /// apart in a box with `padding` on every side. The box is centred in a
    /// container `height` tall, and `gap` of empty space follows below.
    Expanded { docklets: usize, spacing: u16, padding: u16, height: u16, gap: u16 },
}

/// The bar at the bottom edge, with a handle in its middle.
#[derive(Clone, Copy, Debug, PartialEq, Eq, Structural)]
pub struct BarLayout {
    pub height: u16,
    pub handle_width: u16,
    pub handle_height: u16,
}

/// One frame of the dock: a column as wide as the surface.
#[derive(Clone, Copy, Debug, PartialEq, Eq, Structural)]
pub struct DockView {
    pub popover: PopoverArea,
    pub row: DockRow,
    pub bar: BarLayout,
}

impl PopoverArea {
    pub open spec fn height(self) -> int {
        match self {
            PopoverArea::Empty { height } => height as int,
            PopoverArea::Shown { docklet, layout } => layout.height as int,
        }
    }
}

impl DockRow {
    pub open spec fn height(self) -> int {
        match self {
            DockRow::Collapsed { height } => height as int,
            DockRow::Expanded { docklets, spacing, padding, height, gap } => height + gap,
        }
    }
}

impl DockView {
    /// Height of the column.
    pub open spec fn height(self) -> int {
        self.popover.height() + self.row.height() + self.bar.height
    }
}

/// The area above a dock of the given widths: the popover of the hovered
/// docklet where there is one and it has a popover, shifted so that it points
/// at the docklet, and empty space of the same height otherwise.
pub open spec fn popover_area_of(
    widths: Seq<u16>,
    hovered: Option<usize>,
    popover: bool,
) -> PopoverArea {
    match hovered {
        Some(i) if popover => PopoverArea::Shown {
            docklet: i,
            layout: popover_layout(
                popover_offset(total_width(widths), center_of(widths, i as int)),
            ),
        },
        _ => PopoverArea::Empty { height: POPOVER_HEIGHT_MAX },
    }
}

/// The row of a dock with `docklets` docklets and icons of `icon_size`: all
/// docklets while the dock is expanded, and empty space of the same height
/// while it is not.
pub open spec fn dock_row_of(docklets: nat, expanded: bool, icon_size: u16) -> DockRow {
    if expanded {
        DockRow::Expanded {
            docklets: docklets as usize,
            spacing: DOCK_PADDING,
            padding: DOCK_PADDING,
            height: dock_height_of(icon_size) as u16,
            gap: DOCK_GAP,
        }
    } else {
        DockRow::Collapsed { height: dock_and_gap_height_of(icon_size) as u16 }
    }
}

pub open spec fn bar_layout() -> BarLayout {
    BarLayout {
        height: BAR_HEIGHT,
        handle_width: BAR_HANDLE_WIDTH,
        handle_height: BAR_HANDLE_HEIGHT,
    }
}

/// One frame of a dock whose docklets have the given widths. `hovered` is the
/// docklet under the pointer, `popover` says whether that docklet has a
/// popover, and `expanded` whether the dock is pointed at or touched.
pub open spec fn view_of(
    widths: Seq<u16>,
    hovered: Option<usize>,
    popover: bool,
    expanded: bool,
    icon_size: u16,
) -> DockView {
    DockView {
        popover: popover_area_of(widths, hovered, popover),
        row: dock_row_of(widths.len(), expanded, icon_size),
        bar: bar_layout(),
    }
}

/// Lays out one frame of a dock whose docklets have the given widths.
pub fn dock_view(
    widths: &Vec<u16>,
    hovered: Option<usize>,
    popover: bool,
    expanded: bool,
    icon_size: u16,
) -> (out: DockView)
    requires
        icon_size <= ICON_SIZE_MAX,
        hovered matches Some(i) ==> popover ==> i < widths@.len() && total_width(widths@)
            <= DOCK_WIDTH_MAX,
    ensures
        out == view_of(widths@, hovered, popover, expanded, icon_size),
{
    let area = match hovered {
        Some(i) if popover => {
            proof {
                lemma_center_within(widths@, i as int);
            }
            let width: u16 = dock_width(widths).unwrap();
            let center: u16 = docklet_center(widths, i);
            PopoverArea::Shown { docklet: i, layout: self::popover(anchor_offset(width, center)) }
        },
        _ => PopoverArea::Empty { height: POPOVER_HEIGHT_MAX },
    };
    let row = if expanded {
        DockRow::Expanded {
            docklets: widths.len(),
            spacing: DOCK_PADDING,
            padding: DOCK_PADDING,
            height: dock_height(icon_size),
            gap: DOCK_GAP,
        }
    } else {
        DockRow::Collapsed { height: dock_and_gap_height(icon_size) }
    };
    DockView {
        popover: area,
        row,
        bar: BarLayout {
            height: BAR_HEIGHT,
            handle_width: BAR_HANDLE_WIDTH,
            handle_height: BAR_HANDLE_HEIGHT,
        },
    }
}

/// While the dock is neither pointed at nor touched, and so nothing is
/// hovered, its frame is the same whatever docklets it holds.
pub proof fn lemma_collapsed_view_is_fixed(
    widths: Seq<u16>,
    other_widths: Seq<u16>,
    popover: bool,
    other_popover: bool,
    icon_size: u16,
)
    ensures
        view_of(widths, None, popover, false, icon_size) == view_of(
            other_widths,
            None,
            other_popover,
            false,
            icon_size,
        ),
        view_of(widths, None, popover, false, icon_size) == (DockView {
            popover: PopoverArea::Empty { height: POPOVER_HEIGHT_MAX },
            row: DockRow::Collapsed { height: dock_and_gap_height_of(icon_size) as u16 },
            bar: bar_layout(),
        }),
{
}

/// Every frame is as tall as the surface: expanding the dock, hovering a
/// docklet or showing a popover moves nothing up or down.
pub proof fn lemma_view_height(
    widths: Seq<u16>,
    hovered: Option<usize>,
    popover: bool,
    expanded: bool,
    icon_size: u16,
)
    requires
        icon_size <= ICON_SIZE_MAX,
    ensures
        view_of(widths, hovered, popover, expanded, icon_size).height() == surface_height_of(
            icon_size,
        ),
{
}

} // verus!
