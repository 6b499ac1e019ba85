use dock_shell::geometry::{can_pad, pad, physical_size, Rectangle, Size};
use dock_shell::layout::{
    anchor_offset, dock_and_gap_height, dock_height, dock_width, docklet_center, surface_height,
    BAR_HEIGHT, DOCK_GAP, DOCK_PADDING, POPOVER_HEIGHT_MAX,
};
use dock_shell::popover::popover;
use dock_shell::view::{dock_view, DockRow, PopoverArea};

#[test]
fn layout_constants() {
    assert_eq!(DOCK_PADDING, 4);
    assert_eq!(DOCK_GAP, 8);
    assert_eq!(BAR_HEIGHT, 10);
    assert_eq!(POPOVER_HEIGHT_MAX, 420);
}

#[test]
fn heights_follow_the_icon_size() {
    assert_eq!(dock_height(48), 48 + 8 + 8);
    assert_eq!(dock_and_gap_height(48), 72);
    assert_eq!(surface_height(48), 10 + 72 + 420);
    assert_eq!(dock_height(0), 16);
}

#[test]
fn width_of_no_docklet_is_the_outer_padding() {
    assert_eq!(dock_width(&vec![]), Some(8));
}

#[test]
fn width_of_one_docklet_has_no_inner_padding() {
    assert_eq!(dock_width(&vec![56]), Some(64));
    assert_eq!(dock_width(&vec![0]), Some(8));
}

#[test]
fn width_of_three_docklets() {
    assert_eq!(dock_width(&vec![56, 56, 40]), Some(56 + 56 + 40 + 2 * 4 + 8));
}

#[test]
fn width_that_does_not_fit_is_none() {
    assert_eq!(dock_width(&vec![65535]), None);
    assert_eq!(dock_width(&vec![65527]), Some(65535));
    assert_eq!(dock_width(&vec![40000, 40000]), None);
    assert_eq!(dock_width(&vec![30000, 30000, 5519]), Some(65535));
    assert_eq!(dock_width(&vec![30000, 30000, 5520]), None);
}

#[test]
fn width_of_many_empty_docklets() {
    let widths = vec![0u16; 20000];
    assert_eq!(dock_width(&widths), None);
    let widths = vec![0u16; 1000];
    assert_eq!(dock_width(&widths), Some(999 * 4 + 8));
}

#[test]
fn centers_of_docklets() {
    let widths = vec![56, 56, 40];
    assert_eq!(docklet_center(&widths, 0), 4 + 28);
    assert_eq!(docklet_center(&widths, 1), 4 + 60 + 28);
    assert_eq!(docklet_center(&widths, 2), 4 + 60 + 60 + 20);
    assert_eq!(docklet_center(&vec![7], 0), 4 + 3);
}

#[test]
fn centered_docklet_has_offset_zero() {
    let widths = vec![56, 56, 56];
    let width = dock_width(&widths).unwrap();
    assert_eq!(width, 184);
    assert_eq!(anchor_offset(width, docklet_center(&widths, 1)), 0);
}

#[test]
fn offsets_left_and_right_of_the_middle_mirror() {
    let widths = vec![56, 56, 56];
    let width = dock_width(&widths).unwrap();
    let left = anchor_offset(width, docklet_center(&widths, 0));
    let right = anchor_offset(width, docklet_center(&widths, 2));
    assert_eq!(left, 120);
    assert_eq!(right, -120);
    assert_eq!(left, -right);
}

#[test]
fn offset_is_twice_the_distance_from_the_middle() {
    assert_eq!(anchor_offset(200, 100), 0);
    assert_eq!(anchor_offset(200, 90), 20);
    assert_eq!(anchor_offset(200, 80), 40);
    assert_eq!(anchor_offset(200, 130), -60);
    assert_eq!(anchor_offset(201, 100), 0);
    assert_eq!(anchor_offset(16383, 0), 16382);
    assert_eq!(anchor_offset(16383, 16383), -16384);
    assert_eq!(anchor_offset(32767, 0), 32766);
    assert_eq!(anchor_offset(32767, 32767), -32768);
    assert_eq!(anchor_offset(32766, 0), 32766);
    assert_eq!(anchor_offset(32766, 32766), -32766);
}

#[test]
fn popover_space_is_on_the_side_of_the_sign() {
    let none = popover(0);
    assert_eq!((none.left_space, none.right_space), (0, 0));
    let left = popover(-30);
    assert_eq!((left.left_space, left.right_space), (30, 0));
    let right = popover(30);
    assert_eq!((right.left_space, right.right_space), (0, 30));
    assert_eq!(right.padding, 4);
    assert_eq!((right.triangle_width, right.triangle_height), (16, 8));
    assert_eq!(right.height, 420);
}

#[test]
fn popover_space_at_the_ends_of_the_range() {
    assert_eq!(popover(i16::MIN).left_space, 32768);
    assert_eq!(popover(i16::MIN).right_space, 0);
    assert_eq!(popover(i16::MAX).right_space, 32767);
    assert_eq!(popover(i16::MAX).left_space, 0);
}

#[test]
fn view_of_a_collapsed_dock_ignores_the_docklets() {
    let a = dock_view(&vec![56], None, false, false, 48);
    let b = dock_view(&vec![10, 20, 30, 40], None, true, false, 48);
    assert_eq!(a, b);
    assert_eq!(a.popover, PopoverArea::Empty { height: 420 });
    assert_eq!(a.row, DockRow::Collapsed { height: 72 });
    assert_eq!(a.bar.height, 10);
    assert_eq!((a.bar.handle_width, a.bar.handle_height), (192, 4));
}

#[test]
fn view_of_an_expanded_dock() {
    let view = dock_view(&vec![56, 56, 40], None, false, true, 48);
    assert_eq!(view.popover, PopoverArea::Empty { height: 420 });
    assert_eq!(
        view.row,
        DockRow::Expanded { docklets: 3, spacing: 4, padding: 4, height: 64, gap: 8 }
    );
}

#[test]
fn view_with_a_popover_points_at_the_docklet() {
    let view = dock_view(&vec![56, 56, 40], Some(0), true, true, 48);
    // width 168, center 32: offset 2 * (84 - 32)
    assert_eq!(view.popover, PopoverArea::Shown { docklet: 0, layout: popover(104) });
    let view = dock_view(&vec![56, 56, 40], Some(2), true, true, 48);
    // center 144: offset 2 * (84 - 144)
    assert_eq!(view.popover, PopoverArea::Shown { docklet: 2, layout: popover(-120) });
}

#[test]
fn view_of_a_dock_too_wide_to_measure() {
    let view = dock_view(&vec![40000, 40000], Some(1), false, true, 48);
    assert_eq!(view.popover, PopoverArea::Empty { height: 420 });
    assert_eq!(
        view.row,
        DockRow::Expanded { docklets: 2, spacing: 4, padding: 4, height: 64, gap: 8 }
    );
    assert_eq!(dock_view(&vec![40000, 40000], None, true, false, 48), dock_view(&vec![], None, false, false, 48));
}

#[test]
fn view_with_a_popover_at_the_widest() {
    let widths = vec![32767 - 8];
    assert_eq!(
        dock_view(&widths, Some(0), true, true, 48).popover,
        PopoverArea::Shown { docklet: 0, layout: popover(0) }
    );
    let widths = vec![0, 32767 - 12];
    // centers 4 and 8 + 16377 = 16385, middle 16383
    assert_eq!(
        dock_view(&widths, Some(0), true, true, 48).popover,
        PopoverArea::Shown { docklet: 0, layout: popover(32758) }
    );
    assert_eq!(
        dock_view(&widths, Some(1), true, true, 48).popover,
        PopoverArea::Shown { docklet: 1, layout: popover(-4) }
    );
}

#[test]
fn view_without_a_popover_is_empty_above_the_dock() {
    let view = dock_view(&vec![56, 56, 40], Some(1), false, true, 48);
    assert_eq!(view.popover, PopoverArea::Empty { height: 420 });
}

#[test]
fn pad_grows_on_every_side() {
    let rect = Rectangle { x: 20, y: 430, width: 100, height: 64 };
    assert_eq!(pad(rect, 12), Rectangle { x: 8, y: 418, width: 124, height: 88 });
    assert_eq!(pad(rect, 0), rect);
    assert_eq!(pad(rect, 20), Rectangle { x: 0, y: 410, width: 140, height: 104 });
}

#[test]
fn pad_at_the_edge_leaves_the_rectangle_alone() {
    let left = Rectangle { x: 11, y: 430, width: 100, height: 64 };
    assert_eq!(pad(left, 12), left);
    let top = Rectangle { x: 20, y: 5, width: 100, height: 64 };
    assert_eq!(pad(top, 6), top);
    assert_eq!(pad(Rectangle::default(), 6), Rectangle::default());
}

#[test]
fn physical_size_multiplies_by_the_scale() {
    assert_eq!(physical_size(Size { width: 1920, height: 502 }, 1), Some((1920, 502)));
    assert_eq!(physical_size(Size { width: 1920, height: 502 }, 2), Some((3840, 1004)));
    assert_eq!(physical_size(Size { width: 0, height: 0 }, 3), Some((0, 0)));
    assert_eq!(physical_size(Size { width: 10, height: 10 }, 0), Some((0, 0)));
}

#[test]
fn physical_size_that_cannot_be_held_is_none() {
    assert_eq!(physical_size(Size { width: 10, height: 10 }, -1), None);
    assert_eq!(physical_size(Size { width: u32::MAX, height: 1 }, 2), None);
    assert_eq!(physical_size(Size { width: 1, height: u32::MAX }, 2), None);
    assert_eq!(physical_size(Size { width: u32::MAX, height: u32::MAX }, 1), Some((u32::MAX, u32::MAX)));
}

#[test]
fn rectangles_too_large_to_pad() {
    assert!(can_pad(Rectangle { x: 20, y: 20, width: 100, height: 100 }, 12));
    assert!(can_pad(Rectangle { x: 20, y: 20, width: u32::MAX - 24, height: 0 }, 12));
    assert!(!can_pad(Rectangle { x: 20, y: 20, width: u32::MAX - 23, height: 0 }, 12));
    assert!(!can_pad(Rectangle { x: 20, y: 20, width: 0, height: u32::MAX }, 1));
    assert!(can_pad(Rectangle { x: 0, y: 20, width: u32::MAX, height: u32::MAX }, 12));
    assert!(!can_pad(Rectangle { x: u32::MAX, y: u32::MAX, width: 0, height: 0 }, u32::MAX));
}
