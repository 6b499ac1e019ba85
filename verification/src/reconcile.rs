//! Which applications a dock shows.
//!
//! A dock shows the pinned applications and those that have a window open,
//! each once. Whenever the list of open windows changes, the slots the dock
//! has are reconciled with it: slots are added for what is new, and slots
//! that nothing asks for any more are dropped. A slot can only be added for
//! an id that resolves to an application; which ids do is found out before
//! and handed in as a table of ready-made slots.

use vstd::prelude::*;
use crate::docklet::DockletSlot;
use crate::toplevels::ToplevelState;

verus! {

/// The ids in `ids`, each as a sequence of characters.
pub open spec fn id_seq(ids: Seq<String>) -> Seq<Seq<char>> {
    Seq::new(ids.len(), |i: int| ids[i]@)
}

/// Whether one of `slots` has the id `id`.
pub open spec fn has_slot<D>(slots: Seq<DockletSlot<D>>, id: Seq<char>) -> bool {
    exists|k: int| 0 <= k < slots.len() && (#[trigger] slots[k]).id@ == id
}

/// No two of `slots` have the same id.
pub open spec fn distinct_ids<D>(slots: Seq<DockletSlot<D>>) -> bool {
    forall|i: int, j: int|
        0 <= i < j < slots.len() ==> (#[trigger] slots[i]).id@ != (#[trigger] slots[j]).id@
}

/// The first slot of `table` with the id `id`: what `id` resolves to.
pub open spec fn lookup<D>(table: Seq<DockletSlot<D>>, id: Seq<char>) -> Option<DockletSlot<D>>
    decreases table.len(),
{
    if table.len() == 0 {
        None
    } else {
        match lookup(table.drop_last(), id) {
            Some(slot) => Some(slot),
            None => if table.last().id@ == id {
                Some(table.last())
            } else {
                None
            },
        }
    }
}

/// `slots` with a slot for `id`: nothing changes where there is one already
/// or `id` does not resolve, and what it resolves to is added at the end
/// otherwise.
pub open spec fn with_id<D>(
    slots: Seq<DockletSlot<D>>,
    table: Seq<DockletSlot<D>>,
    id: Seq<char>,
) -> Seq<DockletSlot<D>> {
    if has_slot(slots, id) {
        slots
    } else {
        match lookup(table, id) {
            Some(slot) => slots.push(slot),
            None => slots,
        }
    }
}

/// `slots` with a slot for each of `pinned`, taken in their order.
pub open spec fn with_pinned<D>(
    slots: Seq<DockletSlot<D>>,
    table: Seq<DockletSlot<D>>,
    pinned: Seq<Seq<char>>,
) -> Seq<DockletSlot<D>>
    decreases pinned.len(),
{
    if pinned.len() == 0 {
        slots
    } else {
        with_id(with_pinned(slots, table, pinned.drop_last()), table, pinned.last())
    }
}

/// Whether one of `slots` is the slot of `window`'s application.
pub open spec fn window_has_slot<D>(slots: Seq<DockletSlot<D>>, window: ToplevelState) -> bool {
    exists|k: int| 0 <= k < slots.len() && window.matches((#[trigger] slots[k]).id@)
}

/// The id under which `window`'s application resolves: the id it declares
/// if that resolves, and else its alternate id if it has one and that
/// resolves.
pub open spec fn resolving_id<D>(table: Seq<DockletSlot<D>>, window: ToplevelState) -> Option<
    Seq<char>,
> {
    if lookup(table, window.app_id@) is Some {
        Some(window.app_id@)
    } else {
        match window.alternate() {
            Some(id) if lookup(table, id) is Some => Some(id),
            _ => None,
        }
    }
}

/// `slots` with a slot for `window`: nothing changes where the window has
/// one already or neither of its ids resolves, and what it resolves to is
/// added at the end otherwise.
pub open spec fn with_window<D>(
    slots: Seq<DockletSlot<D>>,
    table: Seq<DockletSlot<D>>,
    window: ToplevelState,
) -> Seq<DockletSlot<D>> {
    if window_has_slot(slots, window) {
        slots
    } else {
        match resolving_id(table, window) {
            Some(id) => slots.push(lookup(table, id).unwrap()),
            None => slots,
        }
    }
}

/// `slots` with a slot for each of `windows`, taken in their order.
pub open spec fn with_windows<D>(
    slots: Seq<DockletSlot<D>>,
    table: Seq<DockletSlot<D>>,
    windows: Seq<ToplevelState>,
) -> Seq<DockletSlot<D>>
    decreases windows.len(),
{
    if windows.len() == 0 {
        slots
    } else {
        with_window(with_windows(slots, table, windows.drop_last()), table, windows.last())
    }
}

/// Whether one of `windows` belongs to the application `id`.
pub open spec fn has_window(windows: Seq<ToplevelState>, id: Seq<char>) -> bool {
    exists|k: int| 0 <= k < windows.len() && (#[trigger] windows[k]).matches(id)
}

/// Whether the application `id` has a place in the dock: it is pinned or has
/// a window open.
pub open spec fn wanted(
    id: Seq<char>,
    pinned: Seq<Seq<char>>,
    windows: Seq<ToplevelState>,
) -> bool {
    pinned.contains(id) || has_window(windows, id)
}

/// Those of `slots` that are wanted, in their order.
pub open spec fn keep<D>(
    slots: Seq<DockletSlot<D>>,
    pinned: Seq<Seq<char>>,
    windows: Seq<ToplevelState>,
) -> Seq<DockletSlot<D>>
    decreases slots.len(),
{
    if slots.len() == 0 {
        Seq::empty()
    } else if wanted(slots.last().id@, pinned, windows) {
        keep(slots.drop_last(), pinned, windows).push(slots.last())
    } else {
        keep(slots.drop_last(), pinned, windows)
    }
}

/// The slots of a dock that had `slots`, after the open windows have become
/// `windows`: first every pinned application without a slot gets one, then
/// every window whose application has none, and of all these the wanted ones
/// stay.
pub open spec fn reconciled<D>(
    slots: Seq<DockletSlot<D>>,
    table: Seq<DockletSlot<D>>,
    pinned: Seq<Seq<char>>,
    windows: Seq<ToplevelState>,
) -> Seq<DockletSlot<D>> {
    keep(with_windows(with_pinned(slots, table, pinned), table, windows), pinned, windows)
}

/// What `id` resolves to is a slot of the table with that id, and an id
/// that no slot of the table has resolves to nothing.
proof fn lemma_lookup<D>(table: Seq<DockletSlot<D>>, id: Seq<char>)
    ensures
        lookup(table, id) is Some <==> has_slot(table, id),
        lookup(table, id) matches Some(slot) ==> slot.id@ == id && table.contains(slot),
    decreases table.len(),
{
    if table.len() > 0 {
        lemma_lookup(table.drop_last(), id);
        let front = table.drop_last();
        if has_slot(table, id) {
            let k = choose|k: int| 0 <= k < table.len() && (#[trigger] table[k]).id@ == id;
            if k < front.len() {
                assert(front[k].id@ == id);
            }
        }
        if has_slot(front, id) {
            let k = choose|k: int| 0 <= k < front.len() && (#[trigger] front[k]).id@ == id;
            assert(table[k].id@ == id);
        }
        match lookup(front, id) {
            Some(slot) => {
                let k = choose|k: int| 0 <= k < front.len() && front[k] == slot;
                assert(table[k] == slot);
            },
            None => {
                if table.last().id@ == id {
                    assert(table[table.len() - 1] == table.last());
                }
            },
        }
    }
}

/// The slot at `j` is what its id resolves to if no slot before it has that
/// id.
proof fn lemma_lookup_first<D>(table: Seq<DockletSlot<D>>, j: int)
    requires
        0 <= j < table.len(),
        forall|k: int| 0 <= k < j ==> (#[trigger] table[k]).id@ != table[j].id@,
    ensures
        lookup(table, table[j].id@) == Some(table[j]),
    decreases table.len(),
{
    let id = table[j].id@;
    let front = table.drop_last();
    if j == table.len() - 1 {
        lemma_lookup(front, id);
        if has_slot(front, id) {
            let k = choose|k: int| 0 <= k < front.len() && (#[trigger] front[k]).id@ == id;
            assert(table[k].id@ == id);
        }
    } else {
        assert forall|k: int| 0 <= k < j implies (#[trigger] front[k]).id@ != front[j].id@ by {
            assert(table[k].id@ != id);
        }
        lemma_lookup_first(front, j);
    }
}

/// Taking a slot out of the table changes nothing for any other id.
proof fn lemma_lookup_remove<D>(table: Seq<DockletSlot<D>>, j: int, id: Seq<char>)
    requires
        0 <= j < table.len(),
        table[j].id@ != id,
    ensures
        lookup(table.remove(j), id) == lookup(table, id),
    decreases table.len(),
{
    let front = table.drop_last();
    if j == table.len() - 1 {
        assert(table.remove(j) =~= front);
    } else {
        assert(table.remove(j).drop_last() =~= front.remove(j));
        assert(table.remove(j).last() == table.last());
        lemma_lookup_remove(front, j, id);
    }
}

/// Adding a slot for an id keeps what was there, in its place, and adds at
/// most a slot of the table with a new id.
proof fn lemma_with_id<D>(slots: Seq<DockletSlot<D>>, table: Seq<DockletSlot<D>>, id: Seq<char>)
    ensures
        ({
            let out = with_id(slots, table, id);
            &&& slots.len() <= out.len() <= slots.len() + 1
            &&& out.take(slots.len() as int) == slots
            &&& out.len() > slots.len() ==> {
                &&& out.last().id@ == id
                &&& table.contains(out.last())
                &&& !has_slot(slots, id)
            }
            &&& has_slot(out, id) <==> has_slot(slots, id) || has_slot(table, id)
            &&& distinct_ids(slots) ==> distinct_ids(out)
        }),
{
    lemma_lookup(table, id);
    let out = with_id(slots, table, id);
    assert(out.take(slots.len() as int) =~= slots);
    if out.len() > slots.len() {
        assert(out[out.len() - 1].id@ == id);
        if distinct_ids(slots) {
            assert forall|i: int, j: int| 0 <= i < j < out.len() implies (#[trigger] out[i]).id@
                != (#[trigger] out[j]).id@ by {
                if j < slots.len() {
                    assert(slots[i].id@ != slots[j].id@);
                } else {
                    assert(slots[i].id@ != id);
                }
            }
        }
    } else if has_slot(out, id) {
    } else {
        assert(!has_slot(table, id));
    }
}

/// A slot stays a slot when more are added at the end.
proof fn lemma_has_slot_extends<D>(
    slots: Seq<DockletSlot<D>>,
    out: Seq<DockletSlot<D>>,
    id: Seq<char>,
)
    requires
        slots.len() <= out.len(),
        out.take(slots.len() as int) == slots,
        has_slot(slots, id),
    ensures
        has_slot(out, id),
{
    let k = choose|k: int| 0 <= k < slots.len() && (#[trigger] slots[k]).id@ == id;
    assert(out.take(slots.len() as int)[k] == out[k]);
    assert(out[k].id@ == id);
}

/// Adding slots for the pinned applications keeps what was there, adds only
/// slots of the table for pinned ids, and leaves no pinned id that resolves
/// without a slot.
proof fn lemma_with_pinned<D>(
    slots: Seq<DockletSlot<D>>,
    table: Seq<DockletSlot<D>>,
    pinned: Seq<Seq<char>>,
)
    ensures
        ({
            let out = with_pinned(slots, table, pinned);
            &&& slots.len() <= out.len() <= slots.len() + pinned.len()
            &&& out.take(slots.len() as int) == slots
            &&& forall|k: int|
                slots.len() <= k < out.len() ==> table.contains(#[trigger] out[k])
                    && pinned.contains(out[k].id@)
            &&& forall|i: int|
                0 <= i < pinned.len() && has_slot(table, #[trigger] pinned[i]) ==> has_slot(
                    out,
                    pinned[i],
                )
            &&& distinct_ids(slots) ==> distinct_ids(out)
        }),
    decreases pinned.len(),
{
    let out = with_pinned(slots, table, pinned);
    if pinned.len() == 0 {
        assert(out.take(slots.len() as int) =~= slots);
    } else {
        let front = pinned.drop_last();
        let mid = with_pinned(slots, table, front);
        lemma_with_pinned(slots, table, front);
        lemma_with_id(mid, table, pinned.last());
        assert(out.take(slots.len() as int) =~= slots) by {
            assert(mid.take(slots.len() as int) == slots);
            assert(out.take(mid.len() as int) == mid);
            assert forall|k: int| 0 <= k < slots.len() implies out[k] == slots[k] by {
                assert(out.take(mid.len() as int)[k] == out[k]);
                assert(mid.take(slots.len() as int)[k] == mid[k]);
            }
        }
        assert forall|k: int| slots.len() <= k < out.len() implies table.contains(
            #[trigger] out[k],
        ) && pinned.contains(out[k].id@) by {
            if k < mid.len() {
                assert(out.take(mid.len() as int)[k] == out[k]);
                assert(table.contains(mid[k]) && front.contains(mid[k].id@));
                let i = choose|i: int| 0 <= i < front.len() && front[i] == mid[k].id@;
                assert(pinned[i] == mid[k].id@);
            } else {
                assert(out[k] == out.last());
                assert(pinned[pinned.len() - 1] == pinned.last());
            }
        }
        assert forall|i: int|
            0 <= i < pinned.len() && has_slot(table, #[trigger] pinned[i]) implies has_slot(
            out,
            pinned[i],
        ) by {
            if i < front.len() {
                assert(front[i] == pinned[i]);
                lemma_has_slot_extends(mid, out, pinned[i]);
            }
        }
    }
}

/// Adding a slot for a window keeps what was there, in its place, and adds
/// at most a slot of the table, with a new id, that the window matches. A
/// window of which an id resolves has a slot afterwards.
proof fn lemma_with_window<D>(
    slots: Seq<DockletSlot<D>>,
    table: Seq<DockletSlot<D>>,
    window: ToplevelState,
)
    ensures
        ({
            let out = with_window(slots, table, window);
            &&& slots.len() <= out.len() <= slots.len() + 1
            &&& out.take(slots.len() as int) == slots
            &&& out.len() > slots.len() ==> {
                &&& window.matches(out.last().id@)
                &&& table.contains(out.last())
            }
            &&& window_has_slot(out, window) <==> window_has_slot(slots, window) || has_slot(
                table,
                window.app_id@,
            ) || (window.alternate() matches Some(id) && has_slot(table, id))
            &&& distinct_ids(slots) ==> distinct_ids(out)
        }),
{
    let out = with_window(slots, table, window);
    lemma_lookup(table, window.app_id@);
    if window.alternate() is Some {
        lemma_lookup(table, window.alternate().unwrap());
    }
    assert(out.take(slots.len() as int) =~= slots);
    if out.len() > slots.len() {
        let id = resolving_id(table, window).unwrap();
        assert(out[out.len() - 1].id@ == id);
        assert(window.matches(id));
        if distinct_ids(slots) {
            assert forall|i: int, j: int| 0 <= i < j < out.len() implies (#[trigger] out[i]).id@
                != (#[trigger] out[j]).id@ by {
                if j < slots.len() {
                    assert(slots[i].id@ != slots[j].id@);
                } else {
                    assert(!window.matches(slots[i].id@));
                }
            }
        }
    } else if window_has_slot(slots, window) {
    } else {
        assert(resolving_id(table, window) is None);
        assert forall|k: int| 0 <= k < out.len() implies !window.matches(
            (#[trigger] out[k]).id@,
        ) by {
            assert(!window.matches(slots[k].id@));
        }
    }
}

/// A window that has a slot keeps it when more slots are added at the end.
proof fn lemma_window_slot_extends<D>(
    slots: Seq<DockletSlot<D>>,
    out: Seq<DockletSlot<D>>,
    window: ToplevelState,
)
    requires
        slots.len() <= out.len(),
        out.take(slots.len() as int) == slots,
        window_has_slot(slots, window),
    ensures
        window_has_slot(out, window),
{
    let k = choose|k: int| 0 <= k < slots.len() && window.matches((#[trigger] slots[k]).id@);
    assert(out.take(slots.len() as int)[k] == out[k]);
    assert(window.matches(out[k].id@));
}

/// Adding slots for the open windows keeps what was there, adds only slots
/// of the table that a window matches, and leaves no window of which an id
/// resolves without a slot.
proof fn lemma_with_windows<D>(
    slots: Seq<DockletSlot<D>>,
    table: Seq<DockletSlot<D>>,
    windows: Seq<ToplevelState>,
)
    ensures
        ({
            let out = with_windows(slots, table, windows);
            &&& slots.len() <= out.len() <= slots.len() + windows.len()
            &&& out.take(slots.len() as int) == slots
            &&& forall|k: int|
                slots.len() <= k < out.len() ==> table.contains(#[trigger] out[k]) && has_window(
                    windows,
                    out[k].id@,
                )
            &&& forall|i: int|
                0 <= i < windows.len() && resolving_id(table, #[trigger] windows[i]) is Some
                    ==> window_has_slot(out, windows[i])
            &&& distinct_ids(slots) ==> distinct_ids(out)
        }),
    decreases windows.len(),
{
    let out = with_windows(slots, table, windows);
    if windows.len() == 0 {
        assert(out.take(slots.len() as int) =~= slots);
    } else {
        let front = windows.drop_last();
        let mid = with_windows(slots, table, front);
        lemma_with_windows(slots, table, front);
        lemma_with_window(mid, table, windows.last());
        assert(out.take(slots.len() as int) =~= slots) by {
            assert forall|k: int| 0 <= k < slots.len() implies out[k] == slots[k] by {
                assert(out.take(mid.len() as int)[k] == out[k]);
                assert(mid.take(slots.len() as int)[k] == mid[k]);
            }
        }
        assert forall|k: int| slots.len() <= k < out.len() implies table.contains(
            #[trigger] out[k],
        ) && has_window(windows, out[k].id@) by {
            if k < mid.len() {
                assert(out.take(mid.len() as int)[k] == out[k]);
                assert(table.contains(mid[k]) && has_window(front, mid[k].id@));
                let i = choose|i: int|
                    0 <= i < front.len() && (#[trigger] front[i]).matches(mid[k].id@);
                assert(windows[i].matches(mid[k].id@));
            } else {
                assert(out[k] == out.last());
                assert(windows[windows.len() - 1].matches(out[k].id@));
            }
        }
        assert forall|i: int|
            0 <= i < windows.len() && resolving_id(
                table,
                #[trigger] windows[i],
            ) is Some implies window_has_slot(out, windows[i]) by {
            lemma_lookup(table, windows[i].app_id@);
            if windows[i].alternate() is Some {
                lemma_lookup(table, windows[i].alternate().unwrap());
            }
            if i < front.len() {
                assert(front[i] == windows[i]);
                lemma_window_slot_extends(mid, out, windows[i]);
            }
        }
    }
}

/// What stays is what was wanted: every slot that stays was there and is
/// wanted, every wanted slot stays, and ids that differed still do.
proof fn lemma_keep<D>(
    slots: Seq<DockletSlot<D>>,
    pinned: Seq<Seq<char>>,
    windows: Seq<ToplevelState>,
)
    ensures
        ({
            let out = keep(slots, pinned, windows);
            &&& out.len() <= slots.len()
            &&& forall|k: int|
                0 <= k < out.len() ==> slots.contains(#[trigger] out[k]) && wanted(
                    out[k].id@,
                    pinned,
                    windows,
                )
            &&& forall|k: int|
                0 <= k < slots.len() && wanted((#[trigger] slots[k]).id@, pinned, windows)
                    ==> out.contains(slots[k])
            &&& distinct_ids(slots) ==> distinct_ids(out)
        }),
    decreases slots.len(),
{
    let out = keep(slots, pinned, windows);
    if slots.len() > 0 {
        let front = slots.drop_last();
        let rest = keep(front, pinned, windows);
        lemma_keep(front, pinned, windows);
        assert forall|k: int| 0 <= k < out.len() implies slots.contains(#[trigger] out[k])
            && wanted(out[k].id@, pinned, windows) by {
            if k < rest.len() {
                assert(out[k] == rest[k]);
                let i = choose|i: int| 0 <= i < front.len() && front[i] == rest[k];
                assert(slots[i] == rest[k]);
            } else {
                assert(slots[slots.len() - 1] == out[k]);
            }
        }
        assert forall|k: int|
            0 <= k < slots.len() && wanted(
                (#[trigger] slots[k]).id@,
                pinned,
                windows,
            ) implies out.contains(slots[k]) by {
            if k < front.len() {
                assert(front[k] == slots[k]);
                let i = choose|i: int| 0 <= i < rest.len() && rest[i] == slots[k];
                assert(out[i] == slots[k]);
            } else {
                assert(out[out.len() - 1] == slots[k]);
            }
        }
        if distinct_ids(slots) {
            assert(distinct_ids(front)) by {
                assert forall|i: int, j: int| 0 <= i < j < front.len() implies (
                #[trigger] front[i]).id@ != (#[trigger] front[j]).id@ by {
                    assert(slots[i].id@ != slots[j].id@);
                }
            }
            assert forall|i: int, j: int| 0 <= i < j < out.len() implies (#[trigger] out[i]).id@
                != (#[trigger] out[j]).id@ by {
                if j < rest.len() {
                    assert(rest[i].id@ != rest[j].id@);
                } else {
                    assert(out[i] == rest[i]);
                    let a = choose|a: int| 0 <= a < front.len() && front[a] == rest[i];
                    assert(slots[a].id@ != slots[slots.len() - 1].id@);
                }
            }
        }
    }
}

/// After a reconciliation the dock shows what it should. No id has two
/// slots. Every slot is wanted, and was there before or comes from the
/// table. A slot that was there and is still wanted has stayed. Every pinned
/// application that resolves has a slot, and so has every open window of
/// which an id resolves.
pub proof fn lemma_reconciled<D>(
    slots: Seq<DockletSlot<D>>,
    table: Seq<DockletSlot<D>>,
    pinned: Seq<Seq<char>>,
    windows: Seq<ToplevelState>,
)
    requires
        distinct_ids(slots),
    ensures
        ({
            let out = reconciled(slots, table, pinned, windows);
            &&& out.len() <= slots.len() + pinned.len() + windows.len()
            &&& distinct_ids(out)
            &&& forall|k: int|
                0 <= k < out.len() ==> wanted((#[trigger] out[k]).id@, pinned, windows) && (
                slots.contains(out[k]) || table.contains(out[k]))
            &&& forall|k: int|
                0 <= k < slots.len() && wanted((#[trigger] slots[k]).id@, pinned, windows)
                    ==> out.contains(slots[k])
            &&& forall|i: int|
                0 <= i < pinned.len() && has_slot(table, #[trigger] pinned[i]) ==> has_slot(
                    out,
                    pinned[i],
                )
            &&& forall|i: int|
                0 <= i < windows.len() && resolving_id(table, #[trigger] windows[i]) is Some
                    ==> window_has_slot(out, windows[i])
        }),
{
    let first = with_pinned(slots, table, pinned);
    let second = with_windows(first, table, windows);
    let out = keep(second, pinned, windows);
    lemma_with_pinned(slots, table, pinned);
    lemma_with_windows(first, table, windows);
    lemma_keep(second, pinned, windows);
    assert forall|k: int| 0 <= k < second.len() implies slots.contains(#[trigger] second[k])
        || table.contains(second[k]) by {
        if k < slots.len() {
            assert(second.take(first.len() as int)[k] == second[k]);
            assert(first.take(slots.len() as int)[k] == first[k]);
            assert(slots[k] == second[k]);
        } else if k < first.len() {
            assert(second.take(first.len() as int)[k] == second[k]);
        }
    }
    assert forall|k: int| 0 <= k < out.len() implies wanted(
        (#[trigger] out[k]).id@,
        pinned,
        windows,
    ) && (slots.contains(out[k]) || table.contains(out[k])) by {
        let a = choose|a: int| 0 <= a < second.len() && second[a] == out[k];
        assert(slots.contains(second[a]) || table.contains(second[a]));
    }
    assert forall|k: int|
        0 <= k < slots.len() && wanted(
            (#[trigger] slots[k]).id@,
            pinned,
            windows,
        ) implies out.contains(slots[k]) by {
        assert(second.take(first.len() as int)[k] == second[k]);
        assert(first.take(slots.len() as int)[k] == first[k]);
        assert(second[k] == slots[k]);
    }
    assert forall|i: int|
        0 <= i < pinned.len() && has_slot(table, #[trigger] pinned[i]) implies has_slot(
        out,
        pinned[i],
    ) by {
        lemma_has_slot_extends(first, second, pinned[i]);
        let a = choose|a: int| 0 <= a < second.len() && (#[trigger] second[a]).id@ == pinned[i];
        assert(pinned.contains(second[a].id@));
        let b = choose|b: int| 0 <= b < out.len() && out[b] == second[a];
        assert(out[b].id@ == pinned[i]);
    }
    assert forall|i: int|
        0 <= i < windows.len() && resolving_id(
            table,
            #[trigger] windows[i],
        ) is Some implies window_has_slot(out, windows[i]) by {
        let a = choose|a: int|
            0 <= a < second.len() && windows[i].matches((#[trigger] second[a]).id@);
        assert(has_window(windows, second[a].id@));
        let b = choose|b: int| 0 <= b < out.len() && out[b] == second[a];
        assert(windows[i].matches(out[b].id@));
    }
}

proof fn lemma_with_pinned_nothing_new<D>(
    slots: Seq<DockletSlot<D>>,
    table: Seq<DockletSlot<D>>,
    pinned: Seq<Seq<char>>,
)
    requires
        forall|i: int|
            0 <= i < pinned.len() ==> has_slot(slots, #[trigger] pinned[i]) || !has_slot(
                table,
                pinned[i],
            ),
    ensures
        with_pinned(slots, table, pinned) == slots,
    decreases pinned.len(),
{
    if pinned.len() > 0 {
        let front = pinned.drop_last();
        assert forall|i: int| 0 <= i < front.len() implies has_slot(slots, #[trigger] front[i])
            || !has_slot(table, front[i]) by {
            assert(front[i] == pinned[i]);
        }
        lemma_with_pinned_nothing_new(slots, table, front);
        assert(pinned[pinned.len() - 1] == pinned.last());
        lemma_lookup(table, pinned.last());
    }
}

proof fn lemma_with_windows_nothing_new<D>(
    slots: Seq<DockletSlot<D>>,
    table: Seq<DockletSlot<D>>,
    windows: Seq<ToplevelState>,
)
    requires
        forall|i: int|
            0 <= i < windows.len() ==> window_has_slot(slots, #[trigger] windows[i])
                || resolving_id(table, windows[i]) is None,
    ensures
        with_windows(slots, table, windows) == slots,
    decreases windows.len(),
{
    if windows.len() > 0 {
        let front = windows.drop_last();
        assert forall|i: int| 0 <= i < front.len() implies window_has_slot(
            slots,
            #[trigger] front[i],
        ) || resolving_id(table, front[i]) is None by {
            assert(front[i] == windows[i]);
        }
        lemma_with_windows_nothing_new(slots, table, front);
        assert(windows[windows.len() - 1] == windows.last());
    }
}

proof fn lemma_keep_all<D>(
    slots: Seq<DockletSlot<D>>,
    pinned: Seq<Seq<char>>,
    windows: Seq<ToplevelState>,
)
    requires
        forall|k: int| 0 <= k < slots.len() ==> wanted((#[trigger] slots[k]).id@, pinned, windows),
    ensures
        keep(slots, pinned, windows) == slots,
    decreases slots.len(),
{
    if slots.len() > 0 {
        let front = slots.drop_last();
        assert forall|k: int| 0 <= k < front.len() implies wanted(
            (#[trigger] front[k]).id@,
            pinned,
            windows,
        ) by {
            assert(front[k] == slots[k]);
        }
        lemma_keep_all(front, pinned, windows);
        assert(wanted(slots[slots.len() - 1].id@, pinned, windows));
        assert(front.push(slots.last()) =~= slots);
    } else {
        assert(slots =~= Seq::empty());
    }
}

/// A reconciliation that is done again changes nothing: with the same
/// pinned applications, open windows and table, the slots it gave are the
/// slots it gives.
pub proof fn lemma_reconciled_is_stable<D>(
    slots: Seq<DockletSlot<D>>,
    table: Seq<DockletSlot<D>>,
    pinned: Seq<Seq<char>>,
    windows: Seq<ToplevelState>,
)
    requires
        distinct_ids(slots),
    ensures
        reconciled(reconciled(slots, table, pinned, windows), table, pinned, windows)
            == reconciled(slots, table, pinned, windows),
{
    let out = reconciled(slots, table, pinned, windows);
    lemma_reconciled(slots, table, pinned, windows);
    lemma_with_pinned_nothing_new(out, table, pinned);
    lemma_with_windows_nothing_new(out, table, windows);
    lemma_keep_all(out, pinned, windows);
}

/// Whether both ids of `window` resolve, to two applications.
pub open spec fn resolves_twice<D>(table: Seq<DockletSlot<D>>, window: ToplevelState) -> bool {
    &&& has_slot(table, window.app_id@)
    &&& window.alternate() matches Some(id)
    &&& id != window.app_id@
    &&& has_slot(table, id)
}

/// After a reconciliation the ids of the dock are exactly the ids that are
/// wanted and resolve: the pinned ids that resolve, and the ids of open
/// windows that resolve. This holds where the slots that are kept still
/// resolve, and where no window resolves under both of its ids: such a
/// window is shown once, under one of them.
pub proof fn lemma_reconciled_exactly<D>(
    slots: Seq<DockletSlot<D>>,
    table: Seq<DockletSlot<D>>,
    pinned: Seq<Seq<char>>,
    windows: Seq<ToplevelState>,
    id: Seq<char>,
)
    requires
        distinct_ids(slots),
        forall|k: int|
            0 <= k < slots.len() && wanted((#[trigger] slots[k]).id@, pinned, windows)
                ==> has_slot(table, slots[k].id@),
        forall|i: int| 0 <= i < windows.len() ==> !resolves_twice(table, #[trigger] windows[i]),
    ensures
        has_slot(reconciled(slots, table, pinned, windows), id) <==> wanted(id, pinned, windows)
            && has_slot(table, id),
{
    let out = reconciled(slots, table, pinned, windows);
    lemma_reconciled(slots, table, pinned, windows);
    assert forall|k: int| 0 <= k < out.len() implies has_slot(table, (#[trigger] out[k]).id@) by {
        if slots.contains(out[k]) {
            let a = choose|a: int| 0 <= a < slots.len() && slots[a] == out[k];
            assert(wanted(slots[a].id@, pinned, windows));
        } else {
            let a = choose|a: int| 0 <= a < table.len() && table[a] == out[k];
            assert(table[a].id@ == out[k].id@);
        }
    }
    if has_slot(out, id) {
        let k = choose|k: int| 0 <= k < out.len() && (#[trigger] out[k]).id@ == id;
        assert(has_slot(table, out[k].id@));
    }
    if wanted(id, pinned, windows) && has_slot(table, id) {
        if pinned.contains(id) {
            let i = choose|i: int| 0 <= i < pinned.len() && pinned[i] == id;
            assert(has_slot(out, pinned[i]));
        } else {
            let i = choose|i: int| 0 <= i < windows.len() && (#[trigger] windows[i]).matches(id);
            let window = windows[i];
            lemma_lookup(table, window.app_id@);
            lemma_lookup(table, id);
            assert(resolving_id(table, window) is Some);
            let k = choose|k: int| 0 <= k < out.len() && window.matches((#[trigger] out[k]).id@);
            assert(has_slot(table, out[k].id@));
            assert(!resolves_twice(table, window));
            assert(out[k].id@ == id);
        }
    }
}

/// The slots of a dock that had `slots` after one reconciliation for each
/// of `updates`, in their order. An update is a table and the open windows.
pub open spec fn reconciled_all<D>(
    slots: Seq<DockletSlot<D>>,
    pinned: Seq<Seq<char>>,
    updates: Seq<(Seq<DockletSlot<D>>, Seq<ToplevelState>)>,
) -> Seq<DockletSlot<D>>
    decreases updates.len(),
{
    if updates.len() == 0 {
        slots
    } else {
        reconciled(
            reconciled_all(slots, pinned, updates.drop_last()),
            updates.last().0,
            pinned,
            updates.last().1,
        )
    }
}

/// After any number of reconciliations the dock shows what the last list of
/// open windows asks for. No id has two slots, every slot is pinned or has a
/// window open, every pinned application that resolves has a slot, and so
/// has every open window of which an id resolves.
pub proof fn lemma_reconciled_all<D>(
    slots: Seq<DockletSlot<D>>,
    pinned: Seq<Seq<char>>,
    updates: Seq<(Seq<DockletSlot<D>>, Seq<ToplevelState>)>,
)
    requires
        distinct_ids(slots),
    ensures
        distinct_ids(reconciled_all(slots, pinned, updates)),
        updates.len() > 0 ==> ({
            let out = reconciled_all(slots, pinned, updates);
            let (table, windows) = updates.last();
            &&& forall|k: int|
                0 <= k < out.len() ==> wanted((#[trigger] out[k]).id@, pinned, windows)
            &&& forall|i: int|
                0 <= i < pinned.len() && has_slot(table, #[trigger] pinned[i]) ==> has_slot(
                    out,
                    pinned[i],
                )
            &&& forall|i: int|
                0 <= i < windows.len() && resolving_id(table, #[trigger] windows[i]) is Some
                    ==> window_has_slot(out, windows[i])
        }),
    decreases updates.len(),
{
    if updates.len() > 0 {
        lemma_reconciled_all(slots, pinned, updates.drop_last());
        lemma_reconciled(
            reconciled_all(slots, pinned, updates.drop_last()),
            updates.last().0,
            pinned,
            updates.last().1,
        );
    }
}

/// Whether `table` holds a slot for every id in `resolving`, and for no
/// other: it is the table of a resolver that finds exactly these ids.
pub open spec fn table_of<D>(table: Seq<DockletSlot<D>>, resolving: Set<Seq<char>>) -> bool {
    forall|id: Seq<char>| #[trigger] has_slot(table, id) <==> resolving.contains(id)
}

proof fn lemma_reconciled_all_resolve<D>(
    slots: Seq<DockletSlot<D>>,
    pinned: Seq<Seq<char>>,
    updates: Seq<(Seq<DockletSlot<D>>, Seq<ToplevelState>)>,
    resolving: Set<Seq<char>>,
)
    requires
        distinct_ids(slots),
        forall|k: int| 0 <= k < slots.len() ==> resolving.contains((#[trigger] slots[k]).id@),
        forall|u: int| 0 <= u < updates.len() ==> table_of((#[trigger] updates[u]).0, resolving),
    ensures
        distinct_ids(reconciled_all(slots, pinned, updates)),
        forall|k: int|
            0 <= k < reconciled_all(slots, pinned, updates).len() ==> resolving.contains(
                (#[trigger] reconciled_all(slots, pinned, updates)[k]).id@,
            ),
    decreases updates.len(),
{
    if updates.len() > 0 {
        let front = updates.drop_last();
        let before = reconciled_all(slots, pinned, front);
        let (table, windows) = updates.last();
        assert forall|u: int| 0 <= u < front.len() implies table_of(
            (#[trigger] front[u]).0,
            resolving,
        ) by {
            assert(front[u] == updates[u]);
        }
        lemma_reconciled_all_resolve(slots, pinned, front, resolving);
        lemma_reconciled(before, table, pinned, windows);
        let out = reconciled(before, table, pinned, windows);
        assert(table_of(updates[updates.len() - 1].0, resolving));
        assert forall|k: int| 0 <= k < out.len() implies resolving.contains(
            (#[trigger] out[k]).id@,
        ) by {
            if before.contains(out[k]) {
                let a = choose|a: int| 0 <= a < before.len() && before[a] == out[k];
                assert(resolving.contains(before[a].id@));
            } else {
                let a = choose|a: int| 0 <= a < table.len() && table[a] == out[k];
                assert(has_slot(table, table[a].id@));
            }
        }
    }
}

/// With a resolver that finds the same ids every time, the dock shows after
/// any number of reconciliations exactly the ids that are wanted at the
/// last one and resolve: the pinned ids that resolve, and the ids of the
/// open windows that resolve. The dock starts with slots that resolve, or
/// with none. This holds where no window of the last list resolves under
/// both of its ids: such a window is shown once, under one of them.
pub proof fn lemma_reconciled_all_exactly<D>(
    slots: Seq<DockletSlot<D>>,
    pinned: Seq<Seq<char>>,
    updates: Seq<(Seq<DockletSlot<D>>, Seq<ToplevelState>)>,
    resolving: Set<Seq<char>>,
    id: Seq<char>,
)
    requires
        distinct_ids(slots),
        forall|k: int| 0 <= k < slots.len() ==> resolving.contains((#[trigger] slots[k]).id@),
        forall|u: int| 0 <= u < updates.len() ==> table_of((#[trigger] updates[u]).0, resolving),
        updates.len() > 0,
        forall|i: int|
            0 <= i < updates.last().1.len() ==> !resolves_twice(
                updates.last().0,
                #[trigger] updates.last().1[i],
            ),
    ensures
        has_slot(reconciled_all(slots, pinned, updates), id) <==> wanted(
            id,
            pinned,
            updates.last().1,
        ) && resolving.contains(id),
{
    let front = updates.drop_last();
    let before = reconciled_all(slots, pinned, front);
    let (table, windows) = updates.last();
    assert forall|u: int| 0 <= u < front.len() implies table_of(
        (#[trigger] front[u]).0,
        resolving,
    ) by {
        assert(front[u] == updates[u]);
    }
    lemma_reconciled_all_resolve(slots, pinned, front, resolving);
    assert(table_of(updates[updates.len() - 1].0, resolving));
    assert forall|k: int|
        0 <= k < before.len() && wanted(
            (#[trigger] before[k]).id@,
            pinned,
            windows,
        ) implies has_slot(table, before[k].id@) by {
        assert(resolving.contains(before[k].id@));
    }
    lemma_reconciled_exactly(before, table, pinned, windows, id);
}

/// The position in `slots` of the first slot with the id `id`.
pub fn find_slot<D>(slots: &Vec<DockletSlot<D>>, id: &String) -> (out: Option<usize>)
    ensures
        match out {
            Some(j) => j < slots@.len() && slots@[j as int].id@ == id@ && lookup(slots@, id@)
                == Some(slots@[j as int]),
            None => !has_slot(slots@, id@) && lookup(slots@, id@) is None,
        },
{
    let mut i: usize = 0;
    while i < slots.len()
        invariant
            i <= slots@.len(),
            forall|k: int| 0 <= k < i ==> (#[trigger] slots@[k]).id@ != id@,
        decreases slots@.len() - i,
    {
        if slots[i].id == *id {
            proof {
                lemma_lookup_first(slots@, i as int);
            }
            return Some(i);
        }
        i += 1;
    }
    proof {
        lemma_lookup(slots@, id@);
    }
    None
}

/// Whether one of `slots` is the slot of `window`'s application.
pub fn has_slot_for<D>(slots: &Vec<DockletSlot<D>>, window: &ToplevelState) -> (out: bool)
    ensures
        out == window_has_slot(slots@, *window),
{
    let mut i: usize = 0;
    while i < slots.len()
        invariant
            i <= slots@.len(),
            forall|k: int| 0 <= k < i ==> !window.matches((#[trigger] slots@[k]).id@),
        decreases slots@.len() - i,
    {
        if window.matches_id(&slots[i].id) {
            return true;
        }
        i += 1;
    }
    false
}

/// Whether the application `id` is pinned or has a window open.
pub fn is_wanted(id: &String, pinned: &Vec<String>, toplevels: &Vec<ToplevelState>) -> (out: bool)
    ensures
        out == wanted(id@, id_seq(pinned@), toplevels@),
{
    let mut i: usize = 0;
    while i < pinned.len()
        invariant
            i <= pinned@.len(),
            forall|k: int| 0 <= k < i ==> id_seq(pinned@)[k] != id@,
        decreases pinned@.len() - i,
    {
        if pinned[i] == *id {
            assert(id_seq(pinned@)[i as int] == id@);
            return true;
        }
        i += 1;
    }
    let mut j: usize = 0;
    while j < toplevels.len()
        invariant
            j <= toplevels@.len(),
            !id_seq(pinned@).contains(id@),
            forall|k: int| 0 <= k < j ==> !(#[trigger] toplevels@[k]).matches(id@),
        decreases toplevels@.len() - j,
    {
        if toplevels[j].matches_id(id) {
            return true;
        }
        j += 1;
    }
    false
}

/// Moves what `id` resolves to from `table` to the end of `slots`, unless
/// `slots` has a slot for `id` already or `id` does not resolve.
fn add_id<D>(
    slots: &mut Vec<DockletSlot<D>>,
    table: &mut Vec<DockletSlot<D>>,
    id: &String,
    Ghost(all): Ghost<Seq<DockletSlot<D>>>,
)
    requires
        forall|other: Seq<char>|
            !has_slot(old(slots)@, other) ==> #[trigger] lookup(old(table)@, other) == lookup(
                all,
                other,
            ),
    ensures
        final(slots)@ == with_id(old(slots)@, all, id@),
        forall|other: Seq<char>|
            !has_slot(final(slots)@, other) ==> #[trigger] lookup(final(table)@, other) == lookup(
                all,
                other,
            ),
{
    if find_slot(slots, id).is_some() {
        return ;
    }
    match find_slot(table, id) {
        Some(j) => {
            let ghost before = table@;
            let ghost had = slots@;
            let slot = table.remove(j);
            slots.push(slot);
            assert forall|other: Seq<char>| !has_slot(slots@, other) implies #[trigger] lookup(
                table@,
                other,
            ) == lookup(all, other) by {
                assert(slots@[had.len() as int].id@ == id@);
                assert(other != id@);
                if has_slot(had, other) {
                    assert(slots@.take(had.len() as int) =~= had);
                    lemma_has_slot_extends(had, slots@, other);
                }
                lemma_lookup_remove(before, j as int, other);
            }
        },
        None => {},
    }
}

/// Moves what `window`'s application resolves to from `table` to the end of
/// `slots`, unless `slots` has a slot for it already or neither of the
/// window's ids resolves.
fn add_window<D>(
    slots: &mut Vec<DockletSlot<D>>,
    table: &mut Vec<DockletSlot<D>>,
    window: &ToplevelState,
    Ghost(all): Ghost<Seq<DockletSlot<D>>>,
)
    requires
        forall|other: Seq<char>|
            !has_slot(old(slots)@, other) ==> #[trigger] lookup(old(table)@, other) == lookup(
                all,
                other,
            ),
    ensures
        final(slots)@ == with_window(old(slots)@, all, *window),
        forall|other: Seq<char>|
            !has_slot(final(slots)@, other) ==> #[trigger] lookup(final(table)@, other) == lookup(
                all,
                other,
            ),
{
    if has_slot_for(slots, window) {
        return ;
    }
    assert(!has_slot(slots@, window.app_id@)) by {
        if has_slot(slots@, window.app_id@) {
            let k = choose|k: int|
                0 <= k < slots@.len() && (#[trigger] slots@[k]).id@ == window.app_id@;
            assert(window.matches(slots@[k].id@));
        }
    }
    let ghost had = slots@;
    let count: usize = slots.len();
    add_id(slots, table, &window.app_id, Ghost(all));
    if slots.len() > count {
        return ;
    }
    proof {
        lemma_with_id(had, all, window.app_id@);
        lemma_lookup(all, window.app_id@);
    }
    assert(slots@ == had);
    match &window.gtk_app_id {
        Some(gid) => {
            assert(!has_slot(slots@, gid@)) by {
                if has_slot(slots@, gid@) {
                    let k = choose|k: int|
                        0 <= k < slots@.len() && (#[trigger] slots@[k]).id@ == gid@;
                    assert(window.matches(slots@[k].id@));
                }
            }
            add_id(slots, table, gid, Ghost(all));
        },
        None => {},
    }
}

/// Reconciles the slots `apps` with the pinned applications and the open
/// windows. `resolved` holds a slot for every id that was found to resolve.
/// What is left of `apps` and what is taken from `resolved` comes back in the
/// order of the dock; the other slots are dropped.
pub fn reconcile<D>(
    apps: Vec<DockletSlot<D>>,
    pinned: &Vec<String>,
    toplevels: &Vec<ToplevelState>,
    resolved: Vec<DockletSlot<D>>,
) -> (out: Vec<DockletSlot<D>>)
    ensures
        out@ == reconciled(apps@, resolved@, id_seq(pinned@), toplevels@),
{
    let ghost all = resolved@;
    let ghost ids = id_seq(pinned@);
    let mut slots = apps;
    let mut table = resolved;
    let mut i: usize = 0;
    while i < pinned.len()
        invariant
            i <= pinned@.len(),
            ids == id_seq(pinned@),
            slots@ == with_pinned(apps@, all, ids.take(i as int)),
            forall|other: Seq<char>|
                !has_slot(slots@, other) ==> #[trigger] lookup(table@, other) == lookup(all, other),
        decreases pinned@.len() - i,
    {
        assert(ids.take(i + 1).drop_last() =~= ids.take(i as int));
        add_id(&mut slots, &mut table, &pinned[i], Ghost(all));
        i += 1;
    }
    assert(ids.take(i as int) =~= ids);
    let ghost first = slots@;
    let mut j: usize = 0;
    while j < toplevels.len()
        invariant
            j <= toplevels@.len(),
            slots@ == with_windows(first, all, toplevels@.take(j as int)),
            forall|other: Seq<char>|
                !has_slot(slots@, other) ==> #[trigger] lookup(table@, other) == lookup(all, other),
        decreases toplevels@.len() - j,
    {
        assert(toplevels@.take(j + 1).drop_last() =~= toplevels@.take(j as int));
        add_window(&mut slots, &mut table, &toplevels[j], Ghost(all));
        j += 1;
    }
    assert(toplevels@.take(j as int) =~= toplevels@);
    let ghost second = slots@;
    let mut out: Vec<DockletSlot<D>> = Vec::new();
    for slot in moved: slots
        invariant
            ids == id_seq(pinned@),
            moved.seq() == second,
            out@ == keep(second.take(moved.index() as int), ids, toplevels@),
    {
        assert(second.take(moved.index() + 1).drop_last() =~= second.take(moved.index() as int));
        if is_wanted(&slot.id, pinned, toplevels) {
            out.push(slot);
        }
    }
    assert(second.take(second.len() as int) =~= second);
    out
}

/// The pinned ids without a slot, in their order.
pub open spec fn missing_pinned<D>(slots: Seq<DockletSlot<D>>, pinned: Seq<Seq<char>>) -> Seq<
    Seq<char>,
>
    decreases pinned.len(),
{
    if pinned.len() == 0 {
        Seq::empty()
    } else if has_slot(slots, pinned.last()) {
        missing_pinned(slots, pinned.drop_last())
    } else {
        missing_pinned(slots, pinned.drop_last()).push(pinned.last())
    }
}

/// The ids of a window: the one it declares, then its alternate id if it has
/// one.
pub open spec fn window_ids(window: ToplevelState) -> Seq<Seq<char>> {
    match window.alternate() {
        Some(id) => seq![window.app_id@, id],
        None => seq![window.app_id@],
    }
}

/// The ids of the windows whose application has no slot, in their order.
pub open spec fn missing_windows<D>(
    slots: Seq<DockletSlot<D>>,
    windows: Seq<ToplevelState>,
) -> Seq<Seq<char>>
    decreases windows.len(),
{
    if windows.len() == 0 {
        Seq::empty()
    } else if window_has_slot(slots, windows.last()) {
        missing_windows(slots, windows.drop_last())
    } else {
        missing_windows(slots, windows.drop_last()) + window_ids(windows.last())
    }
}

/// The ids that a reconciliation of `slots` may look up: those of the pinned
/// applications and of the open windows that have no slot.
pub open spec fn missing<D>(
    slots: Seq<DockletSlot<D>>,
    pinned: Seq<Seq<char>>,
    windows: Seq<ToplevelState>,
) -> Seq<Seq<char>> {
    missing_pinned(slots, pinned) + missing_windows(slots, windows)
}

/// Whether every id of `ids` resolves to the same in both tables.
pub open spec fn agree_on<D>(
    table: Seq<DockletSlot<D>>,
    other: Seq<DockletSlot<D>>,
    ids: Seq<Seq<char>>,
) -> bool {
    forall|k: int| 0 <= k < ids.len() ==> lookup(table, #[trigger] ids[k]) == lookup(other, ids[k])
}

proof fn lemma_with_pinned_agree<D>(
    slots: Seq<DockletSlot<D>>,
    table: Seq<DockletSlot<D>>,
    other: Seq<DockletSlot<D>>,
    pinned: Seq<Seq<char>>,
)
    requires
        agree_on(table, other, missing_pinned(slots, pinned)),
    ensures
        with_pinned(slots, table, pinned) == with_pinned(slots, other, pinned),
    decreases pinned.len(),
{
    if pinned.len() > 0 {
        let front = pinned.drop_last();
        let some = missing_pinned(slots, front);
        let all = missing_pinned(slots, pinned);
        assert forall|k: int| 0 <= k < some.len() implies lookup(table, #[trigger] some[k])
            == lookup(other, some[k]) by {
            assert(all[k] == some[k]);
        }
        lemma_with_pinned_agree(slots, table, other, front);
        let mid = with_pinned(slots, table, front);
        lemma_with_pinned(slots, table, front);
        if !has_slot(mid, pinned.last()) {
            if has_slot(slots, pinned.last()) {
                lemma_has_slot_extends(slots, mid, pinned.last());
            }
            assert(all[all.len() - 1] == pinned.last());
        }
    }
}

proof fn lemma_with_windows_agree<D>(
    slots: Seq<DockletSlot<D>>,
    first: Seq<DockletSlot<D>>,
    table: Seq<DockletSlot<D>>,
    other: Seq<DockletSlot<D>>,
    windows: Seq<ToplevelState>,
)
    requires
        slots.len() <= first.len(),
        first.take(slots.len() as int) == slots,
        agree_on(table, other, missing_windows(slots, windows)),
    ensures
        with_windows(first, table, windows) == with_windows(first, other, windows),
    decreases windows.len(),
{
    if windows.len() > 0 {
        let front = windows.drop_last();
        let window = windows.last();
        let some = missing_windows(slots, front);
        let all = missing_windows(slots, windows);
        assert forall|k: int| 0 <= k < some.len() implies lookup(table, #[trigger] some[k])
            == lookup(other, some[k]) by {
            assert(all[k] == some[k]);
        }
        lemma_with_windows_agree(slots, first, table, other, front);
        let mid = with_windows(first, table, front);
        lemma_with_windows(first, table, front);
        if !window_has_slot(mid, window) {
            if window_has_slot(slots, window) {
                lemma_window_slot_extends(slots, first, window);
                lemma_window_slot_extends(first, mid, window);
            }
            let ids = window_ids(window);
            assert(all == some + ids);
            assert(all[some.len() as int] == ids[0]);
            assert(lookup(table, window.app_id@) == lookup(other, window.app_id@));
            if window.alternate() is Some {
                assert(all[some.len() as int + 1] == ids[1]);
                assert(lookup(table, window.alternate().unwrap()) == lookup(
                    other,
                    window.alternate().unwrap(),
                ));
            }
        }
    }
}

/// A reconciliation looks up no id but the missing ones: two tables in
/// which each of these resolves to the same give the same slots.
pub proof fn lemma_reconciled_needs_missing<D>(
    slots: Seq<DockletSlot<D>>,
    table: Seq<DockletSlot<D>>,
    other: Seq<DockletSlot<D>>,
    pinned: Seq<Seq<char>>,
    windows: Seq<ToplevelState>,
)
    requires
        agree_on(table, other, missing(slots, pinned, windows)),
    ensures
        reconciled(slots, table, pinned, windows) == reconciled(slots, other, pinned, windows),
{
    let ids = missing(slots, pinned, windows);
    let of_pinned = missing_pinned(slots, pinned);
    let of_windows = missing_windows(slots, windows);
    assert forall|k: int| 0 <= k < of_pinned.len() implies lookup(table, #[trigger] of_pinned[k])
        == lookup(other, of_pinned[k]) by {
        assert(ids[k] == of_pinned[k]);
    }
    assert forall|k: int| 0 <= k < of_windows.len() implies lookup(
        table,
        #[trigger] of_windows[k],
    ) == lookup(other, of_windows[k]) by {
        assert(ids[of_pinned.len() + k] == of_windows[k]);
    }
    lemma_with_pinned_agree(slots, table, other, pinned);
    lemma_with_pinned(slots, table, pinned);
    lemma_with_windows_agree(slots, with_pinned(slots, table, pinned), table, other, windows);
}

/// The ids that a reconciliation of `slots` with `pinned` and `toplevels`
/// may look up: a table that holds a slot for each of them that resolves
/// serves it as well as one that holds more.
pub fn missing_ids<D>(
    slots: &Vec<DockletSlot<D>>,
    pinned: &Vec<String>,
    toplevels: &Vec<ToplevelState>,
) -> (out: Vec<String>)
    ensures
        id_seq(out@) == missing(slots@, id_seq(pinned@), toplevels@),
{
    let ghost ids = id_seq(pinned@);
    let mut out: Vec<String> = Vec::new();
    let mut i: usize = 0;
    while i < pinned.len()
        invariant
            i <= pinned@.len(),
            ids == id_seq(pinned@),
            id_seq(out@) == missing_pinned(slots@, ids.take(i as int)),
        decreases pinned@.len() - i,
    {
        assert(ids.take(i + 1).drop_last() =~= ids.take(i as int));
        if find_slot(slots, &pinned[i]).is_none() {
            let ghost before = out@;
            out.push(pinned[i].clone());
            assert(id_seq(out@) =~= id_seq(before).push(pinned@[i as int]@));
        }
        i += 1;
    }
    assert(ids.take(i as int) =~= ids);
    let ghost of_pinned = id_seq(out@);
    let mut j: usize = 0;
    while j < toplevels.len()
        invariant
            j <= toplevels@.len(),
            id_seq(out@) == of_pinned + missing_windows(slots@, toplevels@.take(j as int)),
        decreases toplevels@.len() - j,
    {
        assert(toplevels@.take(j + 1).drop_last() =~= toplevels@.take(j as int));
        let window = &toplevels[j];
        if !has_slot_for(slots, window) {
            let ghost before = out@;
            out.push(window.app_id.clone());
            match &window.gtk_app_id {
                Some(gid) => {
                    out.push(gid.clone());
                },
                None => {},
            }
            assert(id_seq(out@) =~= id_seq(before) + window_ids(*window));
        }
        j += 1;
    }
    assert(toplevels@.take(j as int) =~= toplevels@);
    out
}

} // verus!
