use dock_shell::dock::{Dock, DockCtx, Evt, LayerConfig, Ready, ToplevelUpdate};
use dock_shell::docklet::{Docklet, DockletMsg, DockletSlot, ImageHandle, Msg};
use dock_shell::geometry::Rectangle;
use dock_shell::popover::popover;
use dock_shell::toplevels::ToplevelState;
use dock_shell::view::{DockRow, PopoverArea};

struct Plain {
    width: u16,
    popover: bool,
    icon: Option<u64>,
    seen: Vec<Option<u8>>,
}

impl Docklet for Plain {
    type Msg = u8;

    fn width(&self) -> u16 {
        self.width
    }

    fn retained_icon(&self) -> Option<ImageHandle> {
        self.icon.map(|id| ImageHandle { id })
    }

    fn has_popover(&self) -> bool {
        self.popover
    }

    fn update(&mut self, msg: DockletMsg<u8>) {
        match msg {
            DockletMsg::Hover => self.seen.push(None),
            DockletMsg::App(n) => self.seen.push(Some(n)),
        }
    }
}

struct Bare;

impl Docklet for Bare {
    type Msg = ();

    fn width(&self) -> u16 {
        24
    }

    fn retained_icon(&self) -> Option<ImageHandle> {
        None
    }

    fn has_popover(&self) -> bool {
        false
    }

    fn update(&mut self, _msg: DockletMsg<()>) {}
}

fn plain(width: u16) -> Plain {
    Plain { width, popover: false, icon: None, seen: vec![] }
}

fn app(id: &str) -> DockletSlot<Plain> {
    DockletSlot::new(id.to_string(), Plain { width: 56, popover: true, icon: Some(7), seen: vec![] })
}

fn window(app_id: &str, gtk_app_id: Option<&str>) -> ToplevelState {
    ToplevelState {
        title: format!("window of {}", app_id),
        app_id: app_id.to_string(),
        gtk_app_id: gtk_app_id.map(|id| id.to_string()),
    }
}

fn ctx() -> DockCtx {
    DockCtx { pinned: vec!["firefox".to_string(), "Alacritty".to_string()], icon_size: 48 }
}

fn power_only() -> Dock<Plain> {
    Dock::new(ctx(), DockletSlot::new(String::new(), plain(40)))
}

fn three_docklets() -> Dock<Plain> {
    let mut dock = power_only();
    dock.update_apps(&vec![], vec![app("firefox"), app("Alacritty")]);
    dock
}

fn ids(dock: &Dock<Plain>) -> Vec<String> {
    let mut out = vec![];
    for i in 0..dock.docklet_count() - 1 {
        out.push(dock.docklets(i).id.clone());
    }
    out
}

#[test]
fn slot_records_what_the_docklet_reports() {
    let slot = app("firefox");
    assert_eq!(slot.id, "firefox");
    assert_eq!(slot.width, 56);
    assert_eq!(slot.icon, Some(ImageHandle { id: 7 }));
    let slot = DockletSlot::new("x".to_string(), Bare);
    assert_eq!(slot.width, 24);
    assert_eq!(slot.icon, None);
    let slot = DockletSlot::with("y".to_string(), 12, Some(ImageHandle { id: 1 }), Bare);
    assert_eq!((slot.id.as_str(), slot.width, slot.icon), ("y", 12, Some(ImageHandle { id: 1 })));
}

#[test]
fn new_dock_shows_only_the_power_indicator() {
    let dock = power_only();
    assert_eq!(dock.docklet_count(), 1);
    assert_eq!(dock.width(), 40 + 8);
    assert_eq!(dock.checked_width(), Some(48));
    assert_eq!(dock.center_of_docklet(0), 4 + 20);
    assert_eq!(dock.hovered_docklet(), None);
    assert_eq!(dock.widths(), vec![40]);
}

#[test]
fn width_is_the_sum_formula() {
    let dock = three_docklets();
    assert_eq!(dock.docklet_count(), 3);
    assert_eq!(dock.widths(), vec![56, 56, 40]);
    assert_eq!(dock.width(), 56 + 56 + 40 + 2 * 4 + 2 * 4);
    assert_eq!(dock.center_of_docklet(0), 32);
    assert_eq!(dock.center_of_docklet(1), 92);
    assert_eq!(dock.center_of_docklet(2), 144);
}

#[test]
fn checked_width_of_a_dock_too_wide() {
    let dock = Dock::new(ctx(), DockletSlot::new(String::new(), plain(65530)));
    assert_eq!(dock.checked_width(), None);
}

#[test]
fn layer_surface_setup() {
    let dock = power_only();
    assert_eq!(
        dock.setup_lsh(),
        LayerConfig {
            anchor_left: true,
            anchor_right: true,
            anchor_top: false,
            anchor_bottom: true,
            width: 0,
            height: 10 + 72 + 420,
            exclusive_zone: 10,
        }
    );
}

#[test]
fn collapsed_view_is_the_same_whatever_the_docklets() {
    let mut one = power_only();
    let mut three = three_docklets();
    let view = one.view();
    assert_eq!(view, three.view());
    assert_eq!(view.popover, PopoverArea::Empty { height: 420 });
    assert_eq!(view.row, DockRow::Collapsed { height: 48 + 8 + 8 + 8 });
    assert_eq!(view.bar.height, 10);
}

#[test]
fn collapsed_view_ignores_a_hover_left_behind() {
    let mut dock = three_docklets();
    dock.on_touch_enter();
    dock.update(Msg::IdxMsg(1, DockletMsg::Hover));
    dock.on_touch_leave();
    assert_eq!(dock.hovered_docklet(), None);
    assert_eq!(dock.view(), power_only().view());
}

#[test]
fn expanded_view_shows_the_row() {
    let mut dock = three_docklets();
    dock.on_pointer_enter();
    let view = dock.view();
    assert_eq!(view.popover, PopoverArea::Empty { height: 420 });
    assert_eq!(
        view.row,
        DockRow::Expanded { docklets: 3, spacing: 4, padding: 4, height: 64, gap: 8 }
    );
    dock.on_pointer_leave();
    assert_eq!(dock.view().row, DockRow::Collapsed { height: 72 });
    dock.on_touch_enter();
    assert_eq!(
        dock.view().row,
        DockRow::Expanded { docklets: 3, spacing: 4, padding: 4, height: 64, gap: 8 }
    );
}

#[test]
fn hovered_docklet_with_a_popover_gets_it_anchored() {
    let mut dock = three_docklets();
    dock.on_pointer_enter();
    dock.update(Msg::IdxMsg(0, DockletMsg::Hover));
    assert_eq!(dock.hovered_docklet(), Some(0));
    // dock width 168, docklet center 32
    assert_eq!(dock.view().popover, PopoverArea::Shown { docklet: 0, layout: popover(104) });
    dock.update(Msg::IdxMsg(1, DockletMsg::Hover));
    assert_eq!(dock.view().popover, PopoverArea::Shown { docklet: 1, layout: popover(-16) });
}

#[test]
fn hovered_docklet_without_a_popover_clears_the_popover_box() {
    let mut dock = three_docklets();
    dock.on_pointer_enter();
    dock.set_dock_region(Rectangle { x: 300, y: 430, width: 168, height: 64 });
    dock.set_popover_region(Rectangle { x: 250, y: 100, width: 290, height: 300 });
    dock.update(Msg::IdxMsg(2, DockletMsg::Hover));
    assert_eq!(dock.input_region(800, 502).unwrap()[2], Rectangle { x: 244, y: 94, width: 302, height: 312 });
    assert_eq!(dock.view().popover, PopoverArea::Empty { height: 420 });
    assert_eq!(dock.input_region(800, 502).unwrap()[2], Rectangle::default());
}

#[test]
fn view_with_a_popover_keeps_the_popover_box() {
    let mut dock = three_docklets();
    dock.on_pointer_enter();
    dock.set_popover_region(Rectangle { x: 250, y: 100, width: 290, height: 300 });
    dock.update(Msg::IdxMsg(0, DockletMsg::Hover));
    dock.view();
    assert_eq!(dock.input_region(800, 502).unwrap()[2], Rectangle { x: 244, y: 94, width: 302, height: 312 });
}

#[test]
fn view_without_hover_clears_the_popover_box() {
    let mut dock = three_docklets();
    dock.on_pointer_enter();
    dock.set_popover_region(Rectangle { x: 250, y: 100, width: 290, height: 300 });
    dock.view();
    dock.update(Msg::IdxMsg(0, DockletMsg::Hover));
    assert_eq!(dock.input_region(800, 502).unwrap()[2], Rectangle::default());
}

#[test]
fn input_region_of_a_collapsed_dock_is_the_bar() {
    let mut dock = three_docklets();
    dock.set_dock_region(Rectangle { x: 300, y: 430, width: 168, height: 64 });
    assert_eq!(
        dock.input_region(800, 502),
        Some(vec![Rectangle { x: 0, y: 420 + 72, width: 800, height: 10 }])
    );
    assert_eq!(
        dock.input_region(0, 0),
        Some(vec![Rectangle { x: 0, y: 492, width: 0, height: 10 }])
    );
}

#[test]
fn input_region_of_an_expanded_dock_adds_the_padded_dock() {
    let mut dock = three_docklets();
    dock.set_dock_region(Rectangle { x: 300, y: 430, width: 168, height: 64 });
    dock.on_pointer_enter();
    assert_eq!(
        dock.input_region(800, 502),
        Some(vec![
            Rectangle { x: 0, y: 492, width: 800, height: 10 },
            Rectangle { x: 288, y: 418, width: 192, height: 88 },
        ])
    );
}

#[test]
fn input_region_with_a_hovered_docklet_adds_the_padded_popover() {
    let mut dock = three_docklets();
    dock.set_dock_region(Rectangle { x: 300, y: 430, width: 168, height: 64 });
    dock.set_popover_region(Rectangle { x: 250, y: 100, width: 290, height: 300 });
    dock.on_touch_enter();
    dock.update(Msg::IdxMsg(0, DockletMsg::Hover));
    assert_eq!(
        dock.input_region(800, 502),
        Some(vec![
            Rectangle { x: 0, y: 492, width: 800, height: 10 },
            Rectangle { x: 288, y: 418, width: 192, height: 88 },
            Rectangle { x: 244, y: 94, width: 302, height: 312 },
        ])
    );
}

#[test]
fn input_region_near_the_edge_is_not_padded() {
    let mut dock = three_docklets();
    dock.set_dock_region(Rectangle { x: 5, y: 430, width: 168, height: 64 });
    dock.on_pointer_enter();
    assert_eq!(dock.input_region(200, 502).unwrap()[1], Rectangle { x: 5, y: 430, width: 168, height: 64 });
}

#[test]
fn pointer_leave_clears_the_hover() {
    let mut dock = three_docklets();
    dock.on_pointer_enter();
    dock.update(Msg::IdxMsg(1, DockletMsg::Hover));
    dock.on_pointer_leave();
    assert_eq!(dock.hovered_docklet(), None);
    dock.on_pointer_enter();
    assert_eq!(dock.hovered_docklet(), None);
}

#[test]
fn touch_leave_clears_the_hover() {
    let mut dock = three_docklets();
    dock.on_touch_enter();
    dock.update(Msg::IdxMsg(1, DockletMsg::Hover));
    dock.on_touch_leave();
    assert_eq!(dock.hovered_docklet(), None);
    dock.on_touch_enter();
    assert_eq!(dock.hovered_docklet(), None);
}

#[test]
fn touch_leave_clears_the_hover_while_the_pointer_stays() {
    let mut dock = three_docklets();
    dock.on_pointer_enter();
    dock.on_touch_enter();
    dock.update(Msg::IdxMsg(1, DockletMsg::Hover));
    assert_eq!(dock.view().popover, PopoverArea::Shown { docklet: 1, layout: popover(-16) });
    dock.on_touch_leave();
    assert_eq!(dock.hovered_docklet(), None);
    assert_eq!(dock.view().popover, PopoverArea::Empty { height: 420 });
    assert_eq!(
        dock.view().row,
        DockRow::Expanded { docklets: 3, spacing: 4, padding: 4, height: 64, gap: 8 }
    );
}

#[test]
fn view_of_a_wide_collapsed_dock() {
    let mut dock = Dock::new(ctx(), DockletSlot::new(String::new(), plain(65530)));
    assert_eq!(dock.checked_width(), None);
    assert_eq!(dock.view(), power_only().view());
    dock.on_pointer_enter();
    assert_eq!(
        dock.view().row,
        DockRow::Expanded { docklets: 1, spacing: 4, padding: 4, height: 64, gap: 8 }
    );
}

#[test]
fn popover_above_a_dock_as_wide_as_can_be() {
    let power = Plain { width: 32767 - 8, popover: true, icon: None, seen: vec![] };
    let mut dock = Dock::new(ctx(), DockletSlot::new(String::new(), power));
    assert_eq!(dock.width(), 32767);
    dock.on_pointer_enter();
    dock.update(Msg::IdxMsg(0, DockletMsg::Hover));
    // center 4 + 32759 / 2 = 16383, the middle of the dock
    assert_eq!(dock.view().popover, PopoverArea::Shown { docklet: 0, layout: popover(0) });
}

#[test]
fn other_messages_go_to_their_docklet() {
    let mut dock = three_docklets();
    dock.update(Msg::IdxMsg(1, DockletMsg::App(9)));
    dock.update(Msg::IdxMsg(2, DockletMsg::App(3)));
    dock.update(Msg::IdxMsg(1, DockletMsg::App(4)));
    assert_eq!(dock.docklets(0).docklet.seen, vec![]);
    assert_eq!(dock.docklets(1).docklet.seen, vec![Some(9), Some(4)]);
    assert_eq!(dock.docklets(2).docklet.seen, vec![Some(3)]);
    assert_eq!(dock.hovered_docklet(), None);
}

#[test]
fn hover_message_does_not_reach_the_docklet() {
    let mut dock = three_docklets();
    dock.on_pointer_enter();
    dock.update(Msg::IdxMsg(1, DockletMsg::Hover));
    assert_eq!(dock.docklets(1).docklet.seen, vec![]);
}

#[test]
fn docklet_mut_reaches_every_docklet() {
    let mut dock = three_docklets();
    dock.docklet_mut(0).popover = false;
    dock.docklet_mut(2).popover = true;
    dock.on_pointer_enter();
    dock.update(Msg::IdxMsg(0, DockletMsg::Hover));
    assert_eq!(dock.view().popover, PopoverArea::Empty { height: 420 });
    dock.update(Msg::IdxMsg(2, DockletMsg::Hover));
    assert_eq!(dock.view().popover, PopoverArea::Shown { docklet: 2, layout: popover(-120) });
}

#[test]
fn retained_images_are_the_icons_in_order() {
    let mut dock = Dock::new(
        ctx(),
        DockletSlot::new(String::new(), Plain { width: 40, popover: false, icon: Some(1), seen: vec![] }),
    );
    assert_eq!(dock.retained_images(), vec![ImageHandle { id: 1 }]);
    let mut second = app("Alacritty");
    second.icon = None;
    let mut first = app("firefox");
    first.icon = Some(ImageHandle { id: 3 });
    dock.update_apps(&vec![], vec![second, first]);
    assert_eq!(dock.retained_images(), vec![ImageHandle { id: 3 }, ImageHandle { id: 1 }]);
    assert_eq!(power_only().retained_images(), vec![]);
}

#[test]
fn reconciliation_clears_the_hover() {
    let mut dock = three_docklets();
    dock.on_pointer_enter();
    dock.update(Msg::IdxMsg(2, DockletMsg::Hover));
    dock.update_apps(&vec![], vec![]);
    assert_eq!(dock.hovered_docklet(), None);
    assert_eq!(dock.docklet_count(), 3);
}

#[test]
fn pinned_applications_that_resolve_get_a_docklet() {
    let mut dock = power_only();
    dock.update_apps(&vec![], vec![app("Alacritty")]);
    assert_eq!(ids(&dock), vec!["Alacritty"]);
    dock.update_apps(&vec![], vec![app("firefox")]);
    assert_eq!(ids(&dock), vec!["Alacritty", "firefox"]);
    dock.update_apps(&vec![], vec![app("firefox"), app("Alacritty"), app("gimp")]);
    assert_eq!(ids(&dock), vec!["Alacritty", "firefox"]);
}

#[test]
fn open_windows_get_a_docklet_while_they_are_open() {
    let mut dock = three_docklets();
    let windows = vec![window("gimp", None), window("firefox", None), window("gimp", None)];
    dock.update_apps(&windows, vec![app("gimp")]);
    assert_eq!(ids(&dock), vec!["firefox", "Alacritty", "gimp"]);
    dock.update_apps(&windows, vec![]);
    assert_eq!(ids(&dock), vec!["firefox", "Alacritty", "gimp"]);
    dock.update_apps(&vec![window("firefox", None)], vec![app("gimp")]);
    assert_eq!(ids(&dock), vec!["firefox", "Alacritty"]);
}

#[test]
fn windows_that_do_not_resolve_are_not_shown() {
    let mut dock = three_docklets();
    dock.update_apps(&vec![window("mystery", Some("enigma"))], vec![app("gimp")]);
    assert_eq!(ids(&dock), vec!["firefox", "Alacritty"]);
}

#[test]
fn alternate_id_is_tried_when_the_declared_one_does_not_resolve() {
    let mut dock = three_docklets();
    dock.update_apps(&vec![window("Gimp-2.10", Some("org.gimp.GIMP"))], vec![app("org.gimp.GIMP")]);
    assert_eq!(ids(&dock), vec!["firefox", "Alacritty", "org.gimp.GIMP"]);
}

#[test]
fn declared_id_is_preferred_to_the_alternate_one() {
    let mut dock = three_docklets();
    dock.update_apps(
        &vec![window("gimp", Some("org.gimp.GIMP"))],
        vec![app("org.gimp.GIMP"), app("gimp")],
    );
    assert_eq!(ids(&dock), vec!["firefox", "Alacritty", "gimp"]);
}

#[test]
fn window_matched_through_its_alternate_id_needs_no_docklet() {
    let mut dock = power_only();
    dock.update_apps(&vec![window("Navigator", Some("firefox"))], vec![app("firefox"), app("Navigator")]);
    assert_eq!(ids(&dock), vec!["firefox"]);
}

#[test]
fn no_id_gets_two_docklets() {
    let mut dock = power_only();
    let windows = vec![
        window("firefox", None),
        window("gimp", None),
        window("firefox", Some("gimp")),
        window("gimp", Some("firefox")),
    ];
    dock.update_apps(&windows, vec![app("gimp"), app("firefox"), app("gimp"), app("firefox")]);
    assert_eq!(ids(&dock), vec!["firefox", "gimp"]);
    dock.update_apps(&windows, vec![app("gimp"), app("firefox")]);
    assert_eq!(ids(&dock), vec!["firefox", "gimp"]);
}

#[test]
fn first_slot_of_the_table_is_taken() {
    let mut dock = power_only();
    let mut narrow = app("firefox");
    narrow.width = 10;
    dock.update_apps(&vec![], vec![narrow, app("firefox")]);
    assert_eq!(dock.widths(), vec![10, 40]);
}

#[test]
fn docklets_that_stay_keep_what_they_hold() {
    let mut dock = three_docklets();
    dock.update(Msg::IdxMsg(1, DockletMsg::App(5)));
    dock.update_apps(&vec![window("gimp", None)], vec![app("gimp"), app("Alacritty")]);
    assert_eq!(ids(&dock), vec!["firefox", "Alacritty", "gimp"]);
    assert_eq!(dock.docklets(1).docklet.seen, vec![Some(5)]);
}

#[test]
fn missing_ids_are_those_without_a_docklet() {
    let mut dock = power_only();
    let windows = vec![window("gimp", Some("org.gimp.GIMP")), window("firefox", None)];
    assert_eq!(
        dock.missing_ids(&windows),
        vec!["firefox", "Alacritty", "gimp", "org.gimp.GIMP", "firefox"]
    );
    dock.update_apps(&windows, vec![app("firefox"), app("org.gimp.GIMP")]);
    assert_eq!(ids(&dock), vec!["firefox", "org.gimp.GIMP"]);
    assert_eq!(dock.missing_ids(&windows), vec!["Alacritty"]);
    assert_eq!(dock.missing_ids(&vec![window("vlc", None)]), vec!["Alacritty", "vlc"]);
}

#[test]
fn react_to_a_new_window_list_reconciles() {
    let mut dock = three_docklets();
    dock.on_pointer_enter();
    dock.update(Msg::IdxMsg(0, DockletMsg::Hover));
    dock.react(Evt::ToplevelsChanged(ToplevelUpdate {
        toplevels: vec![window("gimp", None)],
        resolved: vec![app("gimp")],
    }));
    assert_eq!(ids(&dock), vec!["firefox", "Alacritty", "gimp"]);
    assert_eq!(dock.hovered_docklet(), None);
}

#[test]
fn react_to_power_news_tells_the_power_indicator() {
    let mut dock = three_docklets();
    dock.react(Evt::PowerChanged(80));
    assert_eq!(dock.docklets(2).docklet.seen, vec![Some(80)]);
    assert_eq!(dock.docklets(0).docklet.seen, vec![]);
}

#[test]
fn run_reconciles_only_on_a_new_window_list() {
    let mut dock = three_docklets();
    dock.on_pointer_enter();
    dock.update(Msg::IdxMsg(0, DockletMsg::Hover));
    assert!(dock.run(Ready::Docklet));
    assert!(dock.run(Ready::Toplevels(None)));
    assert_eq!(dock.hovered_docklet(), Some(0));
    assert!(dock.run(Ready::Toplevels(Some(ToplevelUpdate {
        toplevels: vec![window("gimp", None)],
        resolved: vec![app("gimp")],
    }))));
    assert_eq!(ids(&dock), vec!["firefox", "Alacritty", "gimp"]);
    assert_eq!(dock.hovered_docklet(), None);
}

#[test]
fn window_matches_its_declared_and_its_alternate_id() {
    let both = window("Navigator", Some("firefox"));
    assert!(both.matches_id(&"Navigator".to_string()));
    assert!(both.matches_id(&"firefox".to_string()));
    assert!(!both.matches_id(&"gimp".to_string()));
    let one = window("gimp", None);
    assert!(one.matches_id(&"gimp".to_string()));
    assert!(!one.matches_id(&"".to_string()));
}
