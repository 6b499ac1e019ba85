//! The dock: an ordered row of docklets above a bar, which expands while it
//! is pointed at or touched and shows the popover of the hovered docklet.

use vstd::prelude::*;
use crate::docklet::{Docklet, DockletMsg, DockletSlot, ImageHandle, Msg};
use crate::geometry::{pad, pad_fits, padded, Rectangle};
use crate::layout::{
    center_of, dock_and_gap_height, dock_and_gap_height_of, dock_width, docklet_center,
    lemma_center_within, surface_height, surface_height_of, total_width, BAR_HEIGHT,
    DOCK_REGION_PADDING, DOCK_WIDTH_MAX, ICON_SIZE_MAX, POPOVER_HEIGHT_MAX,
    POPOVER_REGION_PADDING,
};
use crate::reconcile::{
    distinct_ids, id_seq, lemma_reconciled, missing, missing_ids, reconcile, reconciled,
};
use crate::toplevels::ToplevelState;
use crate::view::{
    dock_view, lemma_collapsed_view_is_fixed, lemma_view_height, view_of, DockView, PopoverArea,
};

verus! {

/// What a dock is made with.
pub struct DockCtx {
    /// The applications that have a place in the dock whether or not they
    /// have a window open, in the order in which they are shown.
    pub pinned: Vec<String>,
    /// Width and height of an application's icon.
    pub icon_size: u16,
}

/// Where a layer surface sits on the screen and how much room it takes.
#[derive(Clone, Copy, Debug, PartialEq, Eq, Structural)]
pub struct LayerConfig {
    pub anchor_left: bool,
    pub anchor_right: bool,
    pub anchor_top: bool,
    pub anchor_bottom: bool,
    /// Width asked for; zero leaves it to the anchors.
    pub width: u32,
    /// Height asked for.
    pub height: u32,
    /// Height at the anchored edge that other surfaces are kept out of.
    pub exclusive_zone: i32,
}

/// The images among `icons`, in their order.
pub open spec fn retained(icons: Seq<Option<ImageHandle>>) -> Seq<ImageHandle>
    decreases icons.len(),
{
    if icons.len() == 0 {
        Seq::empty()
    } else {
        match icons.last() {
            Some(icon) => retained(icons.drop_last()).push(icon),
            None => retained(icons.drop_last()),
        }
    }
}

/// A dock as a value: what `Dock::state` shows of a dock.
pub struct DockState<D> {
    pub pinned: Seq<Seq<char>>,
    pub icon_size: u16,
    /// Whether the pointer is over the surface.
    pub is_pointed: bool,
    /// Whether a touch point is on the surface.
    pub is_touched: bool,
    /// The docklet that last reported the pointer over it.
    pub hovered_docklet: Option<usize>,
    /// The box of the row, as it was last laid out.
    pub dock_region: Rectangle,
    /// The box of the popover, as it was last laid out.
    pub popover_region: Rectangle,
    /// The application docklets, in the order of the row.
    pub apps: Seq<DockletSlot<D>>,
    /// The power indicator, which ends the row.
    pub power: DockletSlot<D>,
}

impl<D> DockState<D> {
    /// The number of docklets in the row.
    pub open spec fn count(self) -> nat {
        self.apps.len() + 1
    }

    /// Docklet `i` of the row: the applications, then the power indicator.
    pub open spec fn slot(self, i: int) -> DockletSlot<D> {
        if i < self.apps.len() {
            self.apps[i]
        } else {
            self.power
        }
    }

    /// The widths of the docklets, in the order of the row.
    pub open spec fn widths(self) -> Seq<u16> {
        Seq::new(self.count(), |i: int| self.slot(i).width)
    }

    /// The icons of the docklets, in the order of the row.
    pub open spec fn icons(self) -> Seq<Option<ImageHandle>> {
        Seq::new(self.count(), |i: int| self.slot(i).icon)
    }

    /// The width of the dock.
    pub open spec fn width(self) -> int {
        total_width(self.widths())
    }

    /// Whether the row is shown: the dock is pointed at or touched.
    pub open spec fn expanded(self) -> bool {
        self.is_pointed || self.is_touched
    }

    /// The hovered docklet, which there is only while the dock is expanded.
    pub open spec fn hovered(self) -> Option<usize> {
        if self.expanded() {
            self.hovered_docklet
        } else {
            None
        }
    }

    /// What holds of every dock: its heights fit in 16 bits, its docklets can
    /// be counted, no id occurs twice, a hovered docklet is one of the row,
    /// and both boxes can take their padding.
    pub open spec fn wf(self) -> bool {
        &&& self.icon_size <= ICON_SIZE_MAX
        &&& self.apps.len() < usize::MAX
        &&& distinct_ids(self.apps)
        &&& (self.hovered_docklet matches Some(i) ==> i < self.count())
        &&& pad_fits(self.dock_region, DOCK_REGION_PADDING)
        &&& pad_fits(self.popover_region, POPOVER_REGION_PADDING)
    }

    /// The frame of the dock, where `popover` says whether the hovered docklet
    /// has a popover to show.
    pub open spec fn view_with(self, popover: bool) -> DockView {
        view_of(self.widths(), self.hovered(), popover, self.expanded(), self.icon_size)
    }

    /// The dock after a frame was laid out: where no popover is shown, the
    /// popover's box is empty.
    pub open spec fn after_view(self, popover: bool) -> Self {
        if self.hovered() is Some && popover {
            self
        } else {
            DockState { popover_region: Rectangle { x: 0, y: 0, width: 0, height: 0 }, ..self }
        }
    }

    /// The bar's strip on a surface `width` wide: the full width, at the
    /// bottom.
    pub open spec fn bar_region(self, width: u32) -> Rectangle {
        Rectangle {
            x: 0,
            y: (dock_and_gap_height_of(self.icon_size) + POPOVER_HEIGHT_MAX) as u32,
            width,
            height: BAR_HEIGHT as u32,
        }
    }

    /// The rectangles in which the dock takes input on a surface `width`
    /// wide: always the bar; while the dock is expanded also the row's box,
    /// grown by its padding; and while a docklet is hovered also the
    /// popover's box, grown by its own.
    pub open spec fn input_region(self, width: u32) -> Seq<Rectangle> {
        if !self.expanded() {
            seq![self.bar_region(width)]
        } else if self.hovered_docklet is None {
            seq![self.bar_region(width), padded(self.dock_region, DOCK_REGION_PADDING)]
        } else {
            seq![
                self.bar_region(width),
                padded(self.dock_region, DOCK_REGION_PADDING),
                padded(self.popover_region, POPOVER_REGION_PADDING),
            ]
        }
    }

    /// The place the dock asks of the compositor: the bottom edge from left
    /// to right, as high as every frame, with the bar's height kept free of
    /// other surfaces.
    pub open spec fn layer_config(self) -> LayerConfig {
        LayerConfig {
            anchor_left: true,
            anchor_right: true,
            anchor_top: false,
            anchor_bottom: true,
            width: 0,
            height: surface_height_of(self.icon_size) as u32,
            exclusive_zone: BAR_HEIGHT as i32,
        }
    }

    /// Whether `other` differs from this dock at most in what docklet `i`
    /// holds inside: the row, every id, width and icon and all else are the
    /// same.
    pub open spec fn same_but_docklet(self, other: Self, i: int) -> bool {
        &&& other.pinned == self.pinned
        &&& other.icon_size == self.icon_size
        &&& other.is_pointed == self.is_pointed
        &&& other.is_touched == self.is_touched
        &&& other.hovered_docklet == self.hovered_docklet
        &&& other.dock_region == self.dock_region
        &&& other.popover_region == self.popover_region
        &&& other.apps.len() == self.apps.len()
        &&& forall|k: int|
            0 <= k < self.count() ==> {
                &&& (#[trigger] other.slot(k)).id == self.slot(k).id
                &&& other.slot(k).width == self.slot(k).width
                &&& other.slot(k).icon == self.slot(k).icon
                &&& k != i ==> other.slot(k).docklet == self.slot(k).docklet
            }
    }
}

/// A new list of open windows, with a slot for every id that was found to
/// resolve to an application.
pub struct ToplevelUpdate<D> {
    /// The open windows, all of them.
    pub toplevels: Vec<ToplevelState>,
    /// The slots that new docklets are taken from.
    pub resolved: Vec<DockletSlot<D>>,
}

/// What happens outside that a dock reacts to.
pub enum Evt<D: Docklet> {
    /// The list of open windows has changed.
    ToplevelsChanged(ToplevelUpdate<D>),
    /// The power supply has changed: news for the power indicator.
    PowerChanged(D::Msg),
}

/// What a dock that was waiting has been woken by.
pub enum Ready<D> {
    /// The feed of window lists: a new list, or `None` at its end.
    Toplevels(Option<ToplevelUpdate<D>>),
    /// A docklet's own task.
    Docklet,
}

/// A dock of docklets of type `D`.
pub struct Dock<D: Docklet> {
    ctx: DockCtx,
    is_pointed: bool,
    is_touched: bool,
    hovered_docklet: Option<usize>,
    dock_region: Rectangle,
    popover_region: Rectangle,
    apps: Vec<DockletSlot<D>>,
    power: DockletSlot<D>,
}

impl<D: Docklet> Dock<D> {
    /// The dock as a value.
    pub closed spec fn state(&self) -> DockState<D> {
        DockState {
            pinned: id_seq(self.ctx.pinned@),
            icon_size: self.ctx.icon_size,
            is_pointed: self.is_pointed,
            is_touched: self.is_touched,
            hovered_docklet: self.hovered_docklet,
            dock_region: self.dock_region,
            popover_region: self.popover_region,
            apps: self.apps@,
            power: self.power,
        }
    }

    /// A dock that shows the power indicator alone, is neither pointed at
    /// nor touched, and has not been laid out yet.
    pub fn new(ctx: DockCtx, power: DockletSlot<D>) -> (dock: Dock<D>)
        requires
            ctx.icon_size <= ICON_SIZE_MAX,
        ensures
            dock.state() == (DockState {
                pinned: id_seq(ctx.pinned@),
                icon_size: ctx.icon_size,
                is_pointed: false,
                is_touched: false,
                hovered_docklet: None,
                dock_region: Rectangle { x: 0, y: 0, width: 0, height: 0 },
                popover_region: Rectangle { x: 0, y: 0, width: 0, height: 0 },
                apps: Seq::empty(),
                power,
            }),
            dock.state().wf(),
    {
        Dock {
            ctx,
            is_pointed: false,
            is_touched: false,
            hovered_docklet: None,
            dock_region: Rectangle::default(),
            popover_region: Rectangle::default(),
            apps: Vec::new(),
            power,
        }
    }

    /// The ids to resolve before the application docklets are reconciled
    /// with `toplevels`: those of the pinned applications and of the open
    /// windows that have no docklet yet.
    pub fn missing_ids(&self, toplevels: &Vec<ToplevelState>) -> (out: Vec<String>)
        ensures
            id_seq(out@) == missing(self.state().apps, self.state().pinned, toplevels@),
    {
        missing_ids(&self.apps, &self.ctx.pinned, toplevels)
    }

    /// Reconciles the application docklets with a new list of open windows.
    /// Nothing is hovered afterwards: the docklets' positions may have
    /// changed.
    pub fn update_apps(&mut self, toplevels: &Vec<ToplevelState>, resolved: Vec<DockletSlot<D>>)
        requires
            old(self).state().wf(),
            old(self).state().apps.len() + old(self).state().pinned.len() + toplevels@.len()
                < usize::MAX,
        ensures
            final(self).state() == (DockState {
                hovered_docklet: None,
                apps: reconciled(
                    old(self).state().apps,
                    resolved@,
                    old(self).state().pinned,
                    toplevels@,
                ),
                ..old(self).state()
            }),
            final(self).state().wf(),
    {
        self.hovered_docklet = None;
        let mut apps: Vec<DockletSlot<D>> = Vec::new();
        std::mem::swap(&mut self.apps, &mut apps);
        proof {
            lemma_reconciled(apps@, resolved@, id_seq(self.ctx.pinned@), toplevels@);
        }
        self.apps = reconcile(apps, &self.ctx.pinned, toplevels, resolved);
    }

    /// Reacts to what happened outside: a new list of open windows has the
    /// application docklets reconciled with it, and news of the power supply
    /// goes to the power indicator.
    pub fn react(&mut self, event: Evt<D>)
        requires
            old(self).state().wf(),
            event matches Evt::ToplevelsChanged(update) ==> old(self).state().apps.len() + old(
                self,
            ).state().pinned.len() + update.toplevels@.len() < usize::MAX,
        ensures
            final(self).state().wf(),
            match event {
                Evt::ToplevelsChanged(update) => final(self).state() == (DockState {
                    hovered_docklet: None,
                    apps: reconciled(
                        old(self).state().apps,
                        update.resolved@,
                        old(self).state().pinned,
                        update.toplevels@,
                    ),
                    ..old(self).state()
                }),
                Evt::PowerChanged(news) => {
                    &&& old(self).state().same_but_docklet(
                        final(self).state(),
                        old(self).state().apps.len() as int,
                    )
                    &&& old(self).state().power.docklet.took(
                        DockletMsg::App(news),
                        &final(self).state().power.docklet,
                    )
                },
            },
    {
        match event {
            Evt::ToplevelsChanged(update) => {
                let ToplevelUpdate { toplevels, resolved } = update;
                self.update_apps(&toplevels, resolved);
            },
            Evt::PowerChanged(news) => {
                self.power.docklet.update(DockletMsg::App(news));
            },
        }
    }

    /// Handles what the dock was woken by, and says whether it is to wait
    /// again, which it always is. A new list of open windows has the
    /// application docklets reconciled with it. Nothing else changes the
    /// dock: a docklet whose task woke it has seen to itself.
    pub fn run(&mut self, ready: Ready<D>) -> (again: bool)
        requires
            old(self).state().wf(),
            ready matches Ready::Toplevels(Some(update)) ==> old(self).state().apps.len() + old(
                self,
            ).state().pinned.len() + update.toplevels@.len() < usize::MAX,
        ensures
            again,
            final(self).state().wf(),
            match ready {
                Ready::Toplevels(Some(update)) => final(self).state() == (DockState {
                    hovered_docklet: None,
                    apps: reconciled(
                        old(self).state().apps,
                        update.resolved@,
                        old(self).state().pinned,
                        update.toplevels@,
                    ),
                    ..old(self).state()
                }),
                _ => final(self).state() == old(self).state(),
            },
    {
        match ready {
            Ready::Toplevels(Some(update)) => {
                let ToplevelUpdate { toplevels, resolved } = update;
                self.update_apps(&toplevels, resolved);
            },
            _ => {},
        }
        true
    }

    /// The docklet at position `i` of the row, to work with.
    pub fn docklet_mut(&mut self, i: usize) -> (docklet: &mut D)
        requires
            i < old(self).state().count(),
        ensures
            *docklet == old(self).state().slot(i as int).docklet,
            old(self).state().same_but_docklet(final(self).state(), i as int),
            final(self).state().slot(i as int).docklet == *final(docklet),
    {
        if i < self.apps.len() {
            &mut self.apps[i].docklet
        } else {
            &mut self.power.docklet
        }
    }

    /// The number of docklets in the row.
    pub fn docklet_count(&self) -> (n: usize)
        requires
            self.state().wf(),
        ensures
            n == self.state().count(),
    {
        self.apps.len() + 1
    }

    /// Docklet `i` of the row.
    pub fn docklets(&self, i: usize) -> (slot: &DockletSlot<D>)
        requires
            i < self.state().count(),
        ensures
            *slot == self.state().slot(i as int),
    {
        if i < self.apps.len() {
            &self.apps[i]
        } else {
            &self.power
        }
    }

    /// The widths of the docklets, in the order of the row.
    pub fn widths(&self) -> (out: Vec<u16>)
        ensures
            out@ == self.state().widths(),
    {
        let mut out: Vec<u16> = Vec::new();
        let mut i: usize = 0;
        while i < self.apps.len()
            invariant
                i <= self.apps@.len(),
                out@.len() == i,
                forall|k: int| 0 <= k < i ==> out@[k] == self.apps@[k].width,
            decreases self.apps@.len() - i,
        {
            out.push(self.apps[i].width);
            i += 1;
        }
        out.push(self.power.width);
        assert(out@ =~= self.state().widths());
        out
    }

    /// The width of the dock, or `None` when it does not fit in 16 bits.
    pub fn checked_width(&self) -> (out: Option<u16>)
        ensures
            match out {
                Some(w) => w == self.state().width(),
                None => self.state().width() > u16::MAX,
            },
    {
        let widths = self.widths();
        dock_width(&widths)
    }

    /// The width of the dock: its docklets, the padding between each two of
    /// them, and the padding at both ends.
    pub fn width(&self) -> (out: u16)
        requires
            self.state().width() <= u16::MAX,
        ensures
            out == self.state().width(),
    {
        let widths = self.widths();
        dock_width(&widths).unwrap()
    }

    /// Distance from the dock's left edge to the middle of docklet `id`.
    pub fn center_of_docklet(&self, id: usize) -> (out: u16)
        requires
            id < self.state().count(),
            self.state().width() <= u16::MAX,
        ensures
            out == center_of(self.state().widths(), id as int),
    {
        let widths = self.widths();
        docklet_center(&widths, id)
    }

    /// The hovered docklet. While the dock is neither pointed at nor touched
    /// there is none.
    pub fn hovered_docklet(&self) -> (out: Option<usize>)
        ensures
            out == self.state().hovered(),
    {
        if self.is_pointed || self.is_touched {
            self.hovered_docklet
        } else {
            None
        }
    }

    /// The place the dock asks of the compositor.
    pub fn setup_lsh(&self) -> (out: LayerConfig)
        requires
            self.state().wf(),
        ensures
            out == self.state().layer_config(),
    {
        LayerConfig {
            anchor_left: true,
            anchor_right: true,
            anchor_top: false,
            anchor_bottom: true,
            width: 0,
            height: surface_height(self.ctx.icon_size) as u32,
            exclusive_zone: BAR_HEIGHT as i32,
        }
    }

    /// Lays out one frame. The hovered docklet is asked whether it has a
    /// popover: if so the popover is shown above it, and if not, or if nothing
    /// is hovered, the area above the dock is empty and so is the popover's
    /// box. No other docklet is asked, and none while nothing is hovered.
    pub fn view(&mut self) -> (out: DockView)
        requires
            old(self).state().wf(),
            old(self).state().hovered() is Some ==> old(self).state().width() <= DOCK_WIDTH_MAX,
        ensures
            out == old(self).state().view_with(out.popover is Shown),
            old(self).state().hovered() matches Some(i) ==> old(self).state().slot(
                i as int,
            ).docklet.reports_popover(out.popover is Shown),
            final(self).state() == old(self).state().after_view(out.popover is Shown),
            final(self).state().wf(),
    {
        let hovered = self.hovered_docklet();
        let popover: bool = match hovered {
            Some(i) => self.docklets(i).docklet.has_popover(),
            None => false,
        };
        let widths = self.widths();
        let expanded: bool = self.is_pointed || self.is_touched;
        if !popover {
            self.popover_region = Rectangle::default();
        }
        dock_view(&widths, hovered, popover, expanded, self.ctx.icon_size)
    }

    /// The rectangles in which a surface `width` wide takes input.
    pub fn input_region(&self, width: u32, _height: u32) -> (out: Option<Vec<Rectangle>>)
        requires
            self.state().wf(),
        ensures
            out matches Some(rects) && rects@ == self.state().input_region(width),
    {
        let bar = Rectangle {
            x: 0,
            y: (dock_and_gap_height(self.ctx.icon_size) + POPOVER_HEIGHT_MAX) as u32,
            width,
            height: BAR_HEIGHT as u32,
        };
        let mut result: Vec<Rectangle> = Vec::new();
        result.push(bar);
        if self.is_pointed || self.is_touched {
            result.push(pad(self.dock_region, DOCK_REGION_PADDING));
            if self.hovered_docklet().is_some() {
                result.push(pad(self.popover_region, POPOVER_REGION_PADDING));
            }
        }
        assert(result@ =~= self.state().input_region(width));
        Some(result)
    }

    /// The images that have to stay loaded: the icon of every docklet that
    /// has one, in the order of the row.
    pub fn retained_images(&self) -> (out: Vec<ImageHandle>)
        requires
            self.state().wf(),
        ensures
            out@ == retained(self.state().icons()),
    {
        let ghost icons = self.state().icons();
        let mut out: Vec<ImageHandle> = Vec::new();
        let mut i: usize = 0;
        while i < self.apps.len()
            invariant
                i <= self.apps@.len(),
                icons == self.state().icons(),
                out@ == retained(icons.take(i as int)),
            decreases self.apps@.len() - i,
        {
            assert(icons.take(i + 1).drop_last() =~= icons.take(i as int));
            match self.apps[i].icon {
                Some(icon) => {
                    out.push(icon);
                },
                None => {},
            }
            i += 1;
        }
        assert(icons.drop_last() =~= icons.take(i as int));
        match self.power.icon {
            Some(icon) => {
                out.push(icon);
            },
            None => {},
        }
        out
    }

    /// Takes a message from the widgets of docklet `i`. `Hover` makes that
    /// docklet the hovered one; any other message is handed to that docklet,
    /// once, and to no other.
    pub fn update(&mut self, message: Msg<D::Msg>)
        requires
            old(self).state().wf(),
            message matches Msg::IdxMsg(i, m) && i < old(self).state().count(),
        ensures
            final(self).state().wf(),
            match message {
                Msg::IdxMsg(i, DockletMsg::Hover) => final(self).state() == (DockState {
                    hovered_docklet: Some(i),
                    ..old(self).state()
                }),
                Msg::IdxMsg(i, m) => {
                    &&& old(self).state().same_but_docklet(final(self).state(), i as int)
                    &&& old(self).state().slot(i as int).docklet.took(
                        m,
                        &final(self).state().slot(i as int).docklet,
                    )
                },
            },
    {
        match message {
            Msg::IdxMsg(i, DockletMsg::Hover) => {
                self.hovered_docklet = Some(i);
            },
            Msg::IdxMsg(i, dmsg) => {
                if i < self.apps.len() {
                    self.apps[i].docklet.update(dmsg);
                } else {
                    self.power.docklet.update(dmsg);
                }
            },
        }
    }

    /// The pointer came onto the surface.
    pub fn on_pointer_enter(&mut self)
        ensures
            final(self).state() == (DockState { is_pointed: true, ..old(self).state() }),
    {
        self.is_pointed = true;
    }

    /// The pointer left the surface for good: nothing is hovered any more.
    pub fn on_pointer_leave(&mut self)
        ensures
            final(self).state() == (DockState {
                is_pointed: false,
                hovered_docklet: None,
                ..old(self).state()
            }),
    {
        self.is_pointed = false;
        self.hovered_docklet = None;
    }

    /// A touch point came down on the surface.
    pub fn on_touch_enter(&mut self)
        ensures
            final(self).state() == (DockState { is_touched: true, ..old(self).state() }),
    {
        self.is_touched = true;
    }

    /// The touch point was lifted: nothing is hovered any more.
    pub fn on_touch_leave(&mut self)
        ensures
            final(self).state() == (DockState {
                is_touched: false,
                hovered_docklet: None,
                ..old(self).state()
            }),
    {
        self.is_touched = false;
        self.hovered_docklet = None;
    }

    /// Records the box of the row, as the layout of the last frame placed it.
    pub fn set_dock_region(&mut self, region: Rectangle)
        requires
            pad_fits(region, DOCK_REGION_PADDING),
        ensures
            final(self).state() == (DockState { dock_region: region, ..old(self).state() }),
    {
        self.dock_region = region;
    }

    /// Records the box of the popover, as the layout of the last frame placed
    /// it.
    pub fn set_popover_region(&mut self, region: Rectangle)
        requires
            pad_fits(region, POPOVER_REGION_PADDING),
        ensures
            final(self).state() == (DockState { popover_region: region, ..old(self).state() }),
    {
        self.popover_region = region;
    }
}

/// A dock that is neither pointed at nor touched shows the same frame
/// whatever docklets it holds, whichever of them was hovered last and
/// whether or not that one has a popover: empty space above the bar, as high
/// as the popover area, the dock and the gap.
pub proof fn lemma_collapsed_dock_view<D>(
    dock: DockState<D>,
    other: DockState<D>,
    popover: bool,
    other_popover: bool,
)
    requires
        !dock.expanded(),
        !other.expanded(),
        dock.icon_size == other.icon_size,
    ensures
        dock.view_with(popover) == other.view_with(other_popover),
        dock.icon_size <= ICON_SIZE_MAX ==> dock.view_with(popover).height() == surface_height_of(
            dock.icon_size,
        ),
{
    lemma_collapsed_view_is_fixed(
        dock.widths(),
        other.widths(),
        popover,
        other_popover,
        dock.icon_size,
    );
    if dock.icon_size <= ICON_SIZE_MAX {
        lemma_view_height(dock.widths(), None, popover, false, dock.icon_size);
    }
}

/// The hovered docklet of a dock is always one of its row. A reconciliation
/// leaves none hovered; after it only `Dock::update` names one, and that one
/// is in the row.
pub proof fn lemma_hovered_docklet_in_row<D>(dock: DockState<D>)
    requires
        dock.wf(),
    ensures
        dock.hovered() matches Some(i) ==> i < dock.count(),
        dock.hovered() matches Some(i) ==> 0 <= center_of(dock.widths(), i as int) <= dock.width(),
{
    if dock.hovered() is Some {
        lemma_center_within(dock.widths(), dock.hovered().unwrap() as int);
    }
}

/// The dock takes input in the bar at all times, in its row only while it
/// is expanded, and in a popover only while one is shown: after a frame
/// without a popover the popover's box is empty, and where it is still
/// listed, because a docklet is hovered, it is listed as the empty rectangle.
pub proof fn lemma_input_region<D>(dock: DockState<D>, width: u32)
    ensures
        dock.input_region(width).len() >= 1,
        dock.input_region(width)[0] == dock.bar_region(width),
        !dock.expanded() ==> dock.input_region(width) == seq![dock.bar_region(width)],
        dock.expanded() ==> dock.input_region(width)[1] == padded(
            dock.dock_region,
            DOCK_REGION_PADDING,
        ),
        dock.input_region(width).len() == 3 <==> dock.hovered() is Some,
        dock.hovered() is Some ==> dock.after_view(false).input_region(width)[2] == (Rectangle {
            x: 0,
            y: 0,
            width: 0,
            height: 0,
        }),
{
}

} // verus!
