use dock_shell::docklet::{Docklet, DockletMsg, DockletSlot, ImageHandle};
use dock_shell::reconcile::{find_slot, has_slot_for, is_wanted, missing_ids, reconcile};
use dock_shell::toplevels::ToplevelState;

struct Tagged(u32);

impl Docklet for Tagged {
    type Msg = ();

    fn width(&self) -> u16 {
        48
    }

    fn retained_icon(&self) -> Option<ImageHandle> {
        None
    }

    fn has_popover(&self) -> bool {
        false
    }

    fn update(&mut self, _msg: DockletMsg<()>) {}
}

fn slot(id: &str, tag: u32) -> DockletSlot<Tagged> {
    DockletSlot::new(id.to_string(), Tagged(tag))
}

fn win(app_id: &str, gtk_app_id: Option<&str>) -> ToplevelState {
    ToplevelState {
        title: String::new(),
        app_id: app_id.to_string(),
        gtk_app_id: gtk_app_id.map(|id| id.to_string()),
    }
}

fn names(ids: &[&str]) -> Vec<String> {
    ids.iter().map(|id| id.to_string()).collect()
}

fn tags(slots: &Vec<DockletSlot<Tagged>>) -> Vec<(String, u32)> {
    slots.iter().map(|s| (s.id.clone(), s.docklet.0)).collect()
}

fn tagged(pairs: &[(&str, u32)]) -> Vec<(String, u32)> {
    pairs.iter().map(|(id, tag)| (id.to_string(), *tag)).collect()
}

#[test]
fn reconcile_of_nothing_is_nothing() {
    let out = reconcile::<Tagged>(vec![], &vec![], &vec![], vec![]);
    assert!(out.is_empty());
    let out = reconcile(vec![], &names(&["a"]), &vec![win("b", None)], vec![slot("c", 1)]);
    assert!(out.is_empty());
}

#[test]
fn reconcile_adds_pinned_then_windows() {
    let out = reconcile(
        vec![],
        &names(&["a", "b"]),
        &vec![win("d", None), win("c", None)],
        vec![slot("c", 3), slot("b", 2), slot("d", 4), slot("a", 1)],
    );
    assert_eq!(tags(&out), tagged(&[("a", 1), ("b", 2), ("d", 4), ("c", 3)]));
}

#[test]
fn reconcile_keeps_old_slots_in_front_and_in_order() {
    let out = reconcile(
        vec![slot("z", 26), slot("b", 2), slot("y", 25)],
        &names(&["a", "b"]),
        &vec![win("y", None), win("c", None)],
        vec![slot("a", 1), slot("b", 20), slot("c", 3), slot("y", 250)],
    );
    assert_eq!(tags(&out), tagged(&[("b", 2), ("y", 25), ("a", 1), ("c", 3)]));
}

#[test]
fn reconcile_with_a_pinned_id_listed_twice() {
    let out = reconcile(vec![], &names(&["a", "a"]), &vec![], vec![slot("a", 1), slot("a", 2)]);
    assert_eq!(tags(&out), tagged(&[("a", 1)]));
}

#[test]
fn reconcile_drops_what_is_neither_pinned_nor_open() {
    let out = reconcile(
        vec![slot("a", 1), slot("b", 2), slot("c", 3)],
        &names(&["c"]),
        &vec![win("x", Some("a"))],
        vec![],
    );
    assert_eq!(tags(&out), tagged(&[("a", 1), ("c", 3)]));
}

#[test]
fn reconcile_falls_back_to_the_alternate_id() {
    let out = reconcile(
        vec![],
        &vec![],
        &vec![win("x", Some("a")), win("y", Some("b")), win("z", None)],
        vec![slot("a", 1), slot("y", 5), slot("b", 2)],
    );
    assert_eq!(tags(&out), tagged(&[("a", 1), ("y", 5)]));
}

#[test]
fn reconcile_depends_on_the_order_of_the_windows() {
    let table = || vec![slot("a", 1), slot("b", 2)];
    let out = reconcile(vec![], &vec![], &vec![win("a", Some("b")), win("b", None)], table());
    assert_eq!(tags(&out), tagged(&[("a", 1), ("b", 2)]));
    let out = reconcile(vec![], &vec![], &vec![win("b", None), win("a", Some("b"))], table());
    assert_eq!(tags(&out), tagged(&[("b", 2)]));
}

#[test]
fn find_slot_gives_the_first_position() {
    let slots = vec![slot("a", 1), slot("b", 2), slot("a", 3)];
    assert_eq!(find_slot(&slots, &"a".to_string()), Some(0));
    assert_eq!(find_slot(&slots, &"b".to_string()), Some(1));
    assert_eq!(find_slot(&slots, &"c".to_string()), None);
    assert_eq!(find_slot::<Tagged>(&vec![], &"a".to_string()), None);
}

#[test]
fn has_slot_for_matches_either_id() {
    let slots = vec![slot("a", 1), slot("b", 2)];
    assert!(has_slot_for(&slots, &win("a", None)));
    assert!(has_slot_for(&slots, &win("x", Some("b"))));
    assert!(!has_slot_for(&slots, &win("x", Some("y"))));
    assert!(!has_slot_for(&slots, &win("x", None)));
}

#[test]
fn wanted_is_pinned_or_open() {
    let pinned = names(&["a"]);
    let windows = vec![win("x", Some("b"))];
    assert!(is_wanted(&"a".to_string(), &pinned, &windows));
    assert!(is_wanted(&"b".to_string(), &pinned, &windows));
    assert!(is_wanted(&"x".to_string(), &pinned, &windows));
    assert!(!is_wanted(&"c".to_string(), &pinned, &windows));
    assert!(!is_wanted(&"a".to_string(), &vec![], &vec![]));
}

#[test]
fn missing_ids_lists_pinned_then_windows() {
    let slots = vec![slot("b", 2)];
    let out = missing_ids(
        &slots,
        &names(&["a", "b", "c"]),
        &vec![win("x", Some("b")), win("y", Some("z")), win("w", None)],
    );
    assert_eq!(out, names(&["a", "c", "y", "z", "w"]));
}

#[test]
fn a_table_of_the_missing_ids_is_enough() {
    let old = || vec![slot("b", 2)];
    let pinned = names(&["a", "b"]);
    let windows = vec![win("x", Some("y")), win("b", None)];
    let full = reconcile(
        old(),
        &pinned,
        &windows,
        vec![slot("b", 20), slot("y", 5), slot("a", 1), slot("q", 9)],
    );
    assert_eq!(missing_ids(&old(), &pinned, &windows), names(&["a", "x", "y"]));
    let lean = reconcile(old(), &pinned, &windows, vec![slot("a", 1), slot("y", 5)]);
    assert_eq!(tags(&full), tags(&lean));
    assert_eq!(tags(&lean), tagged(&[("b", 2), ("a", 1), ("y", 5)]));
}
