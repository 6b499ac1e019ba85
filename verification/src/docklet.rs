//! Docklets: the parts a dock is made of, the messages they exchange with
//! it, and the record the dock keeps of each.

use vstd::prelude::*;

verus! {

/// Names an image that has to stay loaded for as long as a docklet shows it.
#[derive(Clone, Copy, Debug, PartialEq, Eq, Structural)]
pub struct ImageHandle {
    pub id: u64,
}

/// What a docklet's widgets can tell the dock.
#[derive(Debug, Clone)]
pub enum DockletMsg<M> {
    /// The pointer is over the docklet.
    Hover,
    /// A message of the docklet's own.
    App(M),
}

/// A docklet's message together with the docklet's position in the dock.
#[derive(Debug, Clone)]
pub enum Msg<M> {
    IdxMsg(usize, DockletMsg<M>),
}

/// A part of the dock: an application with its windows, the power indicator.
///
/// What a docklet answers is its own affair, and the dock takes it as it
/// comes. Each method has a relation that says which answers are the
/// docklet's: the dock's contracts name these relations, so that they say
/// which docklet was asked and what became of its answer. A relation that an
/// implementation does not define admits every answer.
pub trait Docklet {
    /// The messages of the docklet's own widgets.
    type Msg;

    /// Whether `width` is the width the docklet reports.
    open spec fn reports_width(&self, width: u16) -> bool {
        true
    }

    /// Whether `icon` is what the docklet reports as the image to keep
    /// loaded.
    open spec fn reports_icon(&self, icon: Option<ImageHandle>) -> bool {
        true
    }

    /// Whether `popover` is the docklet's answer to whether it has a popover.
    open spec fn reports_popover(&self, popover: bool) -> bool {
        true
    }

    /// Whether `after` is the docklet once it has taken `msg`.
    open spec fn took(&self, msg: DockletMsg<Self::Msg>, after: &Self) -> bool {
        true
    }

    /// The width the docklet takes in the dock's row.
    fn width(&self) -> (width: u16)
        ensures
            self.reports_width(width),
    ;

    /// The image the docklet shows, if it needs one kept loaded.
    fn retained_icon(&self) -> (icon: Option<ImageHandle>)
        ensures
            self.reports_icon(icon),
    ;

    /// Whether the docklet has a popover to show while it is hovered.
    fn has_popover(&self) -> (popover: bool)
        ensures
            self.reports_popover(popover),
    ;

    /// Takes a message from the docklet's widgets.
    fn update(&mut self, msg: DockletMsg<Self::Msg>)
        ensures
            old(self).took(msg, final(self)),
    ;
}

/// The dock's record of one docklet.
pub struct DockletSlot<D> {
    /// The application id the slot was made for. No two slots of a dock share
    /// one.
    pub id: String,
    /// The docklet's width in the row.
    pub width: u16,
    /// The image to keep loaded while the slot exists.
    pub icon: Option<ImageHandle>,
    /// The docklet itself.
    pub docklet: D,
}

impl<D: Docklet> DockletSlot<D> {
    /// A slot for `docklet` under `id`, with the width and the icon that the
    /// docklet reports now.
    pub fn new(id: String, docklet: D) -> (slot: Self)
        ensures
            slot.id == id,
            slot.docklet == docklet,
            docklet.reports_width(slot.width),
            docklet.reports_icon(slot.icon),
    {
        let width: u16 = docklet.width();
        let icon = docklet.retained_icon();
        DockletSlot::with(id, width, icon, docklet)
    }

    /// A slot for `docklet` under `id` that is `width` wide and keeps `icon`
    /// loaded.
    pub fn with(id: String, width: u16, icon: Option<ImageHandle>, docklet: D) -> (slot: Self)
        ensures
            slot == (DockletSlot { id, width, icon, docklet }),
    {
        DockletSlot { id, width, icon, docklet }
    }
}

} // verus!
