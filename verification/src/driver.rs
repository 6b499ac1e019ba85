//! The driver of one on-screen surface.
//!
//! An `IcedInstance` keeps what the surface remembers between events: whether
//! the pointer is over it, the touch point it follows, the input not yet
//! given to the widgets, its size and scale, and the input region it last
//! set. Each event is serviced by one call, which updates that memory and
//! answers with the work to be done outside, in order. A render pass is such
//! a piece of work: it is carried out step by step, and `render` says after
//! each step which one comes next.

use vstd::prelude::*;
use crate::geometry::{physical_size, scaled, Point, Rectangle, Size};
use crate::input::{
    button_input, button_of, mouse_button, ButtonState, InputEvent, LayerEvent, MouseButton,
    PointerEvent, TouchEvent, BTN_LEFT,
};

verus! {

/// How long after the pointer has left the surface the component is told so,
/// in milliseconds.
pub const LEAVE_TIMEOUT_MS: u32 = 200;

/// The timer that runs after the pointer has left the surface.
#[derive(Clone, Copy, Debug, PartialEq, Eq, Structural)]
pub enum LeaveTimeout {
    /// No timer is set.
    Idle,
    /// The timer runs: it was set `LEAVE_TIMEOUT_MS` before it fires.
    Pending,
    /// The timer has fired and the pointer has not come back since.
    Fired,
}

/// What the driver tells the component it drives.
#[derive(Clone, Copy, Debug, PartialEq, Eq, Structural)]
pub enum Hook {
    PointerEnter,
    PointerLeave,
    TouchEnter,
    TouchLeave,
}

/// One piece of work to be done outside the driver.
#[derive(Clone, Copy, Debug, PartialEq, Eq, Structural)]
pub enum Command {
    /// Acknowledge the configure event with this serial.
    AckConfigure(u32),
    /// Replace the swap chain by one of the size that `create_swap_chain`
    /// gives, and set the buffer scale to the surface's scale.
    CreateSwapChain,
    /// Carry out a render pass.
    Render,
    /// Tell the component.
    Call(Hook),
    /// Hand the event from outside to the component.
    React,
    /// Send what is waiting to be sent to the compositor.
    Flush,
    /// Start the leave timer: it is to run out after this many milliseconds.
    ArmLeaveTimeout(u32),
    /// Stop the leave timer: it is not to run out any more.
    CancelLeaveTimeout,
}

/// What the driver waits for. It services one of these at a time.
#[derive(Clone, Copy, Debug, PartialEq, Eq, Structural)]
pub enum Event {
    Layer(LayerEvent),
    Pointer(PointerEvent),
    Touch(TouchEvent),
    /// The scale factor of the surface's outputs has become this.
    Scale(i32),
    /// Something happened outside that the component reacts to.
    External,
    /// The timer set when the pointer left has run out.
    LeaveTimeout,
}

/// What a step of a render pass has come to.
#[derive(Clone, Copy, Debug, PartialEq, Eq, Structural)]
pub enum RenderReport {
    /// The pass begins.
    Begin,
    /// The widgets took the input and produced this many messages.
    Messages(usize),
    /// The component has taken every message.
    Dispatched,
    /// The scene was computed and compared with the last one drawn: this
    /// many parts of it differ, if the comparison says.
    Damage(Option<usize>),
    /// The scene was drawn.
    Presented,
}

/// The next step of a render pass.
#[derive(Clone, Debug, PartialEq, Eq)]
pub enum RenderStep {
    /// Build the widget tree from the component's view, the widget cache and
    /// the surface's size, and give it this input.
    Update(Vec<InputEvent>),
    /// Keep the tree's cache, hand every message to the component, flush, and
    /// build the tree again from the component's view and that cache.
    Dispatch,
    /// Compute the scene, compare it with the last one, and keep it as the
    /// last one.
    Draw,
    /// Draw the scene on the GPU.
    Present,
    /// Keep the tree's cache and bring the input region up to date. The pass
    /// is over.
    Finish,
}

/// The next step of a render pass after anything but its beginning. The
/// scene is drawn only where it differs from the last one.
pub open spec fn next_render_step(report: RenderReport) -> RenderStep {
    match report {
        RenderReport::Messages(n) => if n == 0 {
            RenderStep::Draw
        } else {
            RenderStep::Dispatch
        },
        RenderReport::Dispatched => RenderStep::Draw,
        RenderReport::Damage(Some(n)) => if n == 0 {
            RenderStep::Finish
        } else {
            RenderStep::Present
        },
        RenderReport::Damage(None) => RenderStep::Finish,
        RenderReport::Presented => RenderStep::Finish,
        RenderReport::Begin => RenderStep::Finish,
    }
}

/// A list of rectangles, or none, as a value.
pub open spec fn region_of(region: Option<Vec<Rectangle>>) -> Option<Seq<Rectangle>> {
    match region {
        Some(rects) => Some(rects@),
        None => None,
    }
}

/// A driver as a value: what `IcedInstance::state` shows of a driver.
pub struct InstanceState {
    /// The surface that is driven.
    pub surface: u32,
    /// Whether a swap chain was made: before that nothing can be rendered.
    pub swap_chain: bool,
    /// Whether the pointer, or a touch point, is taken to be on the surface.
    pub ptr_active: bool,
    pub scale: i32,
    pub leave_timeout: LeaveTimeout,
    /// The input region that was last set.
    pub prev_input_region: Option<Seq<Rectangle>>,
    /// The touch point that is followed.
    pub touch_point: Option<i32>,
    /// Whether the touch point was lifted since the last touch frame.
    pub touch_leave: bool,
    pub size: Size,
    pub cursor_position: Point,
    /// The input that the widgets have not been given yet.
    pub queue: Seq<InputEvent>,
}

impl InstanceState {
    /// The driver of `surface` before any event.
    pub open spec fn init(surface: u32) -> InstanceState {
        InstanceState {
            surface,
            swap_chain: false,
            ptr_active: false,
            scale: 1,
            leave_timeout: LeaveTimeout::Idle,
            prev_input_region: None,
            touch_point: None,
            touch_leave: false,
            size: Size { width: 0, height: 0 },
            cursor_position: Point { x: 0, y: 0 },
            queue: Seq::empty(),
        }
    }

    /// The cursor is at `(x, y)` now, and the widgets are to learn of it.
    pub open spec fn move_cursor(self, x: i32, y: i32) -> InstanceState {
        InstanceState {
            cursor_position: Point { x, y },
            queue: self.queue.push(InputEvent::CursorMoved { x, y }),
            ..self
        }
    }

    /// A configure event is acknowledged, sets scale and size, and has the
    /// swap chain replaced and a frame rendered. Nothing is done when the
    /// surface is closed.
    pub open spec fn on_layer_event(self, event: LayerEvent) -> (InstanceState, Seq<Command>) {
        match event {
            LayerEvent::Configure { serial, width, height, scale } => (
                InstanceState { scale, size: Size { width, height }, swap_chain: true, ..self },
                seq![Command::AckConfigure(serial), Command::CreateSwapChain, Command::Render],
            ),
            LayerEvent::Closed => (self, Seq::empty()),
        }
    }

    /// A new scale has the swap chain replaced and a frame rendered; the
    /// scale the surface has already changes nothing.
    pub open spec fn on_scale(self, scale: i32) -> (InstanceState, Seq<Command>) {
        if scale == self.scale {
            (self, Seq::empty())
        } else {
            (
                InstanceState { scale, swap_chain: true, ..self },
                seq![Command::CreateSwapChain, Command::Render],
            )
        }
    }

    /// Whether a pointer event can be serviced: a button that is pressed
    /// while the pointer is on the surface has a code that stands for a
    /// button, and a frame comes when there is a swap chain to render to.
    pub open spec fn accepts(self, event: PointerEvent) -> bool {
        &&& event matches PointerEvent::Button { button, .. } ==> !self.ptr_active || button
            >= BTN_LEFT
        &&& event is Frame ==> self.swap_chain
    }

    /// Whether a touch event can be serviced: a frame comes when there is a
    /// swap chain to render to.
    pub open spec fn accepts_touch(self, event: TouchEvent) -> bool {
        event is Frame ==> self.swap_chain
    }

    /// The pointer entering this surface makes it active, stops the leave
    /// timer and is told to the component. Its leaving makes it inactive and
    /// starts the timer. While it is active, buttons and motion become input
    /// for the widgets, which they get at the next frame: a frame has the
    /// surface rendered.
    pub open spec fn on_pointer_event(self, event: PointerEvent) -> (InstanceState, Seq<Command>) {
        match event {
            PointerEvent::Enter { surface } => if surface == self.surface {
                (
                    InstanceState {
                        ptr_active: true,
                        leave_timeout: LeaveTimeout::Idle,
                        ..self
                    },
                    seq![Command::Call(Hook::PointerEnter)],
                )
            } else {
                (self, Seq::empty())
            },
            PointerEvent::Leave { surface } => if surface == self.surface {
                (
                    InstanceState {
                        ptr_active: false,
                        leave_timeout: LeaveTimeout::Pending,
                        ..self
                    },
                    Seq::empty(),
                )
            } else {
                (self, Seq::empty())
            },
            PointerEvent::Button { button, state } => if self.ptr_active {
                (
                    InstanceState {
                        queue: self.queue.push(button_input(button_of(button), state)),
                        ..self
                    },
                    Seq::empty(),
                )
            } else {
                (self, Seq::empty())
            },
            PointerEvent::Motion { x, y } => if self.ptr_active {
                (self.move_cursor(x, y), Seq::empty())
            } else {
                (self, Seq::empty())
            },
            PointerEvent::Frame => (self, seq![Command::Render]),
            PointerEvent::Other => (self, Seq::empty()),
        }
    }

    /// A touch point that comes down on this surface while none is followed
    /// is followed from then on: the surface becomes active, the leave timer
    /// stops, the cursor moves there, and the component is told. The point's
    /// motion moves the cursor. Its lifting is a click of the left button,
    /// and is remembered until the next frame. A frame has the surface
    /// rendered; where the point was lifted, the component is then told, the
    /// point is forgotten, and the surface is rendered once more.
    pub open spec fn on_touch_event(self, event: TouchEvent) -> (InstanceState, Seq<Command>) {
        match event {
            TouchEvent::Down { surface, id, x, y } => if surface == self.surface
                && self.touch_point is None {
                (
                    InstanceState {
                        touch_point: Some(id),
                        ptr_active: true,
                        leave_timeout: LeaveTimeout::Idle,
                        ..self
                    }.move_cursor(x, y),
                    seq![Command::Call(Hook::TouchEnter)],
                )
            } else {
                (self, Seq::empty())
            },
            TouchEvent::Motion { id, x, y } => if self.touch_point == Some(id) {
                (self.move_cursor(x, y), Seq::empty())
            } else {
                (self, Seq::empty())
            },
            TouchEvent::Up { id } => if self.touch_point == Some(id) {
                (
                    InstanceState {
                        queue: self.queue.push(
                            InputEvent::ButtonPressed(MouseButton::Left),
                        ).push(InputEvent::ButtonReleased(MouseButton::Left)),
                        touch_leave: true,
                        ..self
                    },
                    Seq::empty(),
                )
            } else {
                (self, Seq::empty())
            },
            TouchEvent::Frame => if self.touch_leave {
                (
                    InstanceState { touch_point: None, touch_leave: false, ..self },
                    seq![Command::Render, Command::Call(Hook::TouchLeave), Command::Render],
                )
            } else {
                (self, seq![Command::Render])
            },
            TouchEvent::Other => (self, Seq::empty()),
        }
    }

    /// Whether `event` can be serviced: its handler accepts it, and where it
    /// has a frame rendered there is a swap chain, or one is made first.
    pub open spec fn serves(self, event: Event) -> bool {
        match event {
            Event::Pointer(e) => self.accepts(e),
            Event::Touch(e) => self.accepts_touch(e),
            Event::External => self.swap_chain,
            Event::LeaveTimeout => self.leave_timeout == LeaveTimeout::Pending
                ==> self.swap_chain,
            Event::Layer(_) | Event::Scale(_) => true,
        }
    }

    /// What is to be done about the timer kept outside when the leave timer
    /// has gone from `before` to `after`: it is started when the leave timer
    /// begins to run, stopped when a running one is called off, and left
    /// alone otherwise.
    pub open spec fn timer_commands(before: LeaveTimeout, after: LeaveTimeout) -> Seq<Command> {
        if before != LeaveTimeout::Pending && after == LeaveTimeout::Pending {
            seq![Command::ArmLeaveTimeout(LEAVE_TIMEOUT_MS)]
        } else if before == LeaveTimeout::Pending && after == LeaveTimeout::Idle {
            seq![Command::CancelLeaveTimeout]
        } else {
            Seq::empty()
        }
    }

    /// Servicing one event: the state afterwards, and the work of the
    /// event's handler followed by what is to be done about the timer.
    pub open spec fn run(self, event: Event) -> (InstanceState, Seq<Command>) {
        let (after, plan) = self.serviced(event);
        (after, plan + Self::timer_commands(self.leave_timeout, after.leave_timeout))
    }

    /// Servicing one event, without the timer kept outside. The leave timer
    /// is set aside while the event is handled. A running timer that runs
    /// out is told to the component as the pointer having left, and a frame
    /// is rendered; a timer that does not run cannot run out. Afterwards a
    /// timer that was set aside is put back if the surface is still
    /// inactive, and dropped if the surface has become active.
    pub open spec fn serviced(self, event: Event) -> (InstanceState, Seq<Command>) {
        let saved = self.leave_timeout;
        let start = InstanceState { leave_timeout: LeaveTimeout::Idle, ..self };
        let (handled, plan) = match event {
            Event::Layer(e) => start.on_layer_event(e),
            Event::Pointer(e) => start.on_pointer_event(e),
            Event::Touch(e) => start.on_touch_event(e),
            Event::Scale(scale) => start.on_scale(scale),
            Event::External => (start, seq![Command::React, Command::Flush, Command::Render]),
            Event::LeaveTimeout => if saved == LeaveTimeout::Pending {
                (start, seq![Command::Call(Hook::PointerLeave), Command::Render])
            } else {
                (start, Seq::empty())
            },
        };
        let kept = if event == Event::LeaveTimeout && saved == LeaveTimeout::Pending {
            LeaveTimeout::Fired
        } else {
            saved
        };
        if saved != LeaveTimeout::Idle && !handled.ptr_active {
            (InstanceState { leave_timeout: kept, ..handled }, plan)
        } else {
            (handled, plan)
        }
    }

    /// Servicing `events` one after the other: the state at the end, and all
    /// the work in its order.
    pub open spec fn run_all(self, events: Seq<Event>) -> (InstanceState, Seq<Command>)
        decreases events.len(),
    {
        if events.len() == 0 {
            (self, Seq::empty())
        } else {
            let (before, plan) = self.run_all(events.drop_last());
            let (after, more) = before.run(events.last());
            (after, plan + more)
        }
    }

    /// The size of the swap chain: the surface's size in device pixels.
    pub open spec fn swap_chain_size(self) -> Option<(u32, u32)> {
        scaled(self.size, self.scale)
    }
}

/// The driver of one surface.
pub struct IcedInstance {
    surface: u32,
    swap_chain: bool,
    ptr_active: bool,
    scale: i32,
    leave_timeout: LeaveTimeout,
    prev_input_region: Option<Vec<Rectangle>>,
    touch_point: Option<i32>,
    touch_leave: bool,
    size: Size,
    cursor_position: Point,
    queue: Vec<InputEvent>,
}

/// Whether two lists of rectangles hold the same rectangles in the same
/// order.
fn same_rectangles(a: &Vec<Rectangle>, b: &Vec<Rectangle>) -> (same: bool)
    ensures
        same == (a@ == b@),
{
    if a.len() != b.len() {
        return false;
    }
    let mut i: usize = 0;
    while i < a.len()
        invariant
            i <= a@.len(),
            a@.len() == b@.len(),
            forall|k: int| 0 <= k < i ==> a@[k] == b@[k],
        decreases a@.len() - i,
    {
        if a[i] != b[i] {
            return false;
        }
        i += 1;
    }
    assert(a@ =~= b@);
    true
}

impl IcedInstance {
    /// The driver as a value.
    pub closed spec fn state(&self) -> InstanceState {
        InstanceState {
            surface: self.surface,
            swap_chain: self.swap_chain,
            ptr_active: self.ptr_active,
            scale: self.scale,
            leave_timeout: self.leave_timeout,
            prev_input_region: region_of(self.prev_input_region),
            touch_point: self.touch_point,
            touch_leave: self.touch_leave,
            size: self.size,
            cursor_position: self.cursor_position,
            queue: self.queue@,
        }
    }

    /// The driver of `surface`: inactive, at scale 1, without a size or a
    /// swap chain, with no input waiting and no input region set.
    pub fn new(surface: u32) -> (instance: IcedInstance)
        ensures
            instance.state() == InstanceState::init(surface),
    {
        IcedInstance {
            surface,
            swap_chain: false,
            ptr_active: false,
            scale: 1,
            leave_timeout: LeaveTimeout::Idle,
            prev_input_region: None,
            touch_point: None,
            touch_leave: false,
            size: Size { width: 0, height: 0 },
            cursor_position: Point { x: 0, y: 0 },
            queue: Vec::new(),
        }
    }

    /// The surface's size in logical pixels.
    pub fn size(&self) -> (out: Size)
        ensures
            out == self.state().size,
    {
        self.size
    }

    /// The surface's scale.
    pub fn scale(&self) -> (out: i32)
        ensures
            out == self.state().scale,
    {
        self.scale
    }

    /// Where the cursor was last seen.
    pub fn cursor_position(&self) -> (out: Point)
        ensures
            out == self.state().cursor_position,
    {
        self.cursor_position
    }

    /// The leave timer.
    pub fn leave_timeout(&self) -> (out: LeaveTimeout)
        ensures
            out == self.state().leave_timeout,
    {
        self.leave_timeout
    }

    /// The input region that was last set.
    pub fn input_region(&self) -> (out: &Option<Vec<Rectangle>>)
        ensures
            region_of(*out) == self.state().prev_input_region,
    {
        &self.prev_input_region
    }

    /// Takes the input region that the component has computed for the
    /// surface's size. Says whether it differs from the one last set: then it
    /// is to be set, or the region cleared if it is `None`, and the surface
    /// committed.
    pub fn update_input_region(&mut self, region: Option<Vec<Rectangle>>) -> (changed: bool)
        ensures
            changed == (region_of(region) != old(self).state().prev_input_region),
            final(self).state() == (InstanceState {
                prev_input_region: region_of(region),
                ..old(self).state()
            }),
    {
        let same: bool = match (&region, &self.prev_input_region) {
            (Some(new), Some(prev)) => same_rectangles(new, prev),
            (None, None) => true,
            _ => false,
        };
        self.prev_input_region = region;
        !same
    }

    /// One step of a render pass: takes what the last step has come to and
    /// says which step is next. A pass begins only once there is a swap chain
    /// to render to. At the beginning the widgets are given all
    /// the input that has come in, and none of it is kept. After that the
    /// driver's state plays no part: a pass without messages goes on to draw,
    /// one with messages has them dispatched first, and the scene is put on
    /// screen only if it differs from the last one.
    pub fn render(&mut self, report: RenderReport) -> (step: RenderStep)
        requires
            report is Begin ==> old(self).state().swap_chain,
        ensures
            report is Begin ==> {
                &&& step matches RenderStep::Update(events)
                &&& events@ == old(self).state().queue
                &&& final(self).state() == (InstanceState {
                    queue: Seq::empty(),
                    ..old(self).state()
                })
            },
            !(report is Begin) ==> {
                &&& step == next_render_step(report)
                &&& final(self).state() == old(self).state()
            },
    {
        match report {
            RenderReport::Begin => {
                let mut events: Vec<InputEvent> = Vec::new();
                std::mem::swap(&mut self.queue, &mut events);
                RenderStep::Update(events)
            },
            RenderReport::Messages(n) => {
                if n == 0 {
                    RenderStep::Draw
                } else {
                    RenderStep::Dispatch
                }
            },
            RenderReport::Dispatched => RenderStep::Draw,
            RenderReport::Damage(damage) => {
                match damage {
                    Some(n) => {
                        if n == 0 {
                            RenderStep::Finish
                        } else {
                            RenderStep::Present
                        }
                    },
                    None => RenderStep::Finish,
                }
            },
            RenderReport::Presented => RenderStep::Finish,
        }
    }

    /// The size of the swap chain in device pixels, or `None` where the
    /// scale is negative or the size does not fit in 32 bits.
    pub fn create_swap_chain(&self) -> (out: Option<(u32, u32)>)
        ensures
            out == self.state().swap_chain_size(),
    {
        physical_size(self.size, self.scale)
    }

    /// Services a change of the scale.
    pub fn on_scale(&mut self, scale: i32) -> (plan: Vec<Command>)
        ensures
            (final(self).state(), plan@) == old(self).state().on_scale(scale),
    {
        if scale == self.scale {
            return Vec::new();
        }
        self.scale = scale;
        self.swap_chain = true;
        let plan = vec![Command::CreateSwapChain, Command::Render];
        assert(plan@ =~= seq![Command::CreateSwapChain, Command::Render]);
        plan
    }

    /// Services an event of the layer surface.
    pub fn on_layer_event(&mut self, event: LayerEvent) -> (plan: Vec<Command>)
        ensures
            (final(self).state(), plan@) == old(self).state().on_layer_event(event),
    {
        match event {
            LayerEvent::Configure { serial, width, height, scale } => {
                self.scale = scale;
                self.size = Size { width, height };
                self.swap_chain = true;
                let plan = vec![
                    Command::AckConfigure(serial),
                    Command::CreateSwapChain,
                    Command::Render,
                ];
                assert(plan@ =~= seq![
                    Command::AckConfigure(serial),
                    Command::CreateSwapChain,
                    Command::Render,
                ]);
                plan
            },
            LayerEvent::Closed => Vec::new(),
        }
    }

    /// Services an event of the pointer.
    pub fn on_pointer_event(&mut self, event: PointerEvent) -> (plan: Vec<Command>)
        requires
            old(self).state().accepts(event),
        ensures
            (final(self).state(), plan@) == old(self).state().on_pointer_event(event),
    {
        match event {
            PointerEvent::Enter { surface } => {
                if surface == self.surface {
                    self.ptr_active = true;
                    self.leave_timeout = LeaveTimeout::Idle;
                    let plan = vec![Command::Call(Hook::PointerEnter)];
                    assert(plan@ =~= seq![Command::Call(Hook::PointerEnter)]);
                    return plan;
                }
            },
            PointerEvent::Leave { surface } => {
                if surface == self.surface {
                    self.ptr_active = false;
                    self.leave_timeout = LeaveTimeout::Pending;
                }
            },
            PointerEvent::Button { button, state } => {
                if self.ptr_active {
                    let btn = mouse_button(button).unwrap();
                    self.queue.push(
                        match state {
                            ButtonState::Pressed => InputEvent::ButtonPressed(btn),
                            ButtonState::Released => InputEvent::ButtonReleased(btn),
                        },
                    );
                }
            },
            PointerEvent::Motion { x, y } => {
                if self.ptr_active {
                    self.cursor_position = Point { x, y };
                    self.queue.push(InputEvent::CursorMoved { x, y });
                }
            },
            PointerEvent::Frame => {
                let plan = vec![Command::Render];
                assert(plan@ =~= seq![Command::Render]);
                return plan;
            },
            PointerEvent::Other => {},
        }
        Vec::new()
    }

    /// Services an event of the touch screen.
    pub fn on_touch_event(&mut self, event: TouchEvent) -> (plan: Vec<Command>)
        requires
            old(self).state().accepts_touch(event),
        ensures
            (final(self).state(), plan@) == old(self).state().on_touch_event(event),
    {
        match event {
            TouchEvent::Down { surface, id, x, y } => {
                if surface != self.surface {
                    return Vec::new();
                }
                if self.touch_point.is_some() {
                    return Vec::new();
                }
                self.touch_point = Some(id);
                self.ptr_active = true;
                self.leave_timeout = LeaveTimeout::Idle;
                self.cursor_position = Point { x, y };
                self.queue.push(InputEvent::CursorMoved { x, y });
                let plan = vec![Command::Call(Hook::TouchEnter)];
                assert(plan@ =~= seq![Command::Call(Hook::TouchEnter)]);
                plan
            },
            TouchEvent::Motion { id, x, y } => {
                if self.touch_point != Some(id) {
                    return Vec::new();
                }
                self.cursor_position = Point { x, y };
                self.queue.push(InputEvent::CursorMoved { x, y });
                Vec::new()
            },
            TouchEvent::Up { id } => {
                if self.touch_point != Some(id) {
                    return Vec::new();
                }
                self.queue.push(InputEvent::ButtonPressed(MouseButton::Left));
                self.queue.push(InputEvent::ButtonReleased(MouseButton::Left));
                self.touch_leave = true;
                Vec::new()
            },
            TouchEvent::Frame => {
                if self.touch_leave {
                    self.touch_point = None;
                    self.touch_leave = false;
                    let plan = vec![
                        Command::Render,
                        Command::Call(Hook::TouchLeave),
                        Command::Render,
                    ];
                    assert(plan@ =~= seq![
                        Command::Render,
                        Command::Call(Hook::TouchLeave),
                        Command::Render,
                    ]);
                    plan
                } else {
                    let plan = vec![Command::Render];
                    assert(plan@ =~= seq![Command::Render]);
                    plan
                }
            },
            TouchEvent::Other => Vec::new(),
        }
    }

    /// Whether `event` can be serviced now: it is not the press or release of
    /// a button without a name while the pointer is on the surface, and it
    /// has no frame rendered before there is a swap chain.
    pub fn serves(&self, event: Event) -> (out: bool)
        ensures
            out == self.state().serves(event),
    {
        match event {
            Event::Pointer(PointerEvent::Button { button, state }) => !self.ptr_active || button
                >= BTN_LEFT,
            Event::Pointer(PointerEvent::Frame) => self.swap_chain,
            Event::Touch(TouchEvent::Frame) => self.swap_chain,
            Event::External => self.swap_chain,
            Event::LeaveTimeout => self.leave_timeout != LeaveTimeout::Pending || self.swap_chain,
            _ => true,
        }
    }

    /// Services one event and says what is to be done outside, in order.
    pub fn run(&mut self, event: Event) -> (plan: Vec<Command>)
        requires
            old(self).state().serves(event),
        ensures
            (final(self).state(), plan@) == old(self).state().run(event),
    {
        let saved = self.leave_timeout;
        self.leave_timeout = LeaveTimeout::Idle;
        let mut kept = saved;
        let plan = match event {
            Event::Layer(e) => self.on_layer_event(e),
            Event::Pointer(e) => self.on_pointer_event(e),
            Event::Touch(e) => self.on_touch_event(e),
            Event::Scale(scale) => self.on_scale(scale),
            Event::External => {
                let plan = vec![Command::React, Command::Flush, Command::Render];
                assert(plan@ =~= seq![Command::React, Command::Flush, Command::Render]);
                plan
            },
            Event::LeaveTimeout => {
                if saved == LeaveTimeout::Pending {
                    kept = LeaveTimeout::Fired;
                    let plan = vec![Command::Call(Hook::PointerLeave), Command::Render];
                    assert(plan@ =~= seq![Command::Call(Hook::PointerLeave), Command::Render]);
                    plan
                } else {
                    Vec::new()
                }
            },
        };
        if saved != LeaveTimeout::Idle && !self.ptr_active {
            self.leave_timeout = kept;
        }
        let mut plan = plan;
        let ghost handled = plan@;
        if saved != LeaveTimeout::Pending && self.leave_timeout == LeaveTimeout::Pending {
            plan.push(Command::ArmLeaveTimeout(LEAVE_TIMEOUT_MS));
        } else if saved == LeaveTimeout::Pending && self.leave_timeout == LeaveTimeout::Idle {
            plan.push(Command::CancelLeaveTimeout);
        }
        assert(plan@ =~= handled + InstanceState::timer_commands(saved, self.leave_timeout));
        plan
    }
}

/// Nothing is rendered before there is a swap chain: where an event that
/// can be serviced has a frame rendered, there is a swap chain already, or
/// one is made earlier in the same plan. A swap chain that was made stays.
pub proof fn lemma_render_has_swap_chain(state: InstanceState, event: Event)
    requires
        state.serves(event),
    ensures
        ({
            let (after, plan) = state.run(event);
            &&& state.swap_chain ==> after.swap_chain
            &&& plan.contains(Command::Render) ==> after.swap_chain
            &&& forall|j: int|
                0 <= j < plan.len() && #[trigger] plan[j] == Command::Render ==> state.swap_chain
                    || exists|i: int| 0 <= i < j && plan[i] == Command::CreateSwapChain
        }),
{
    let (after, plan) = state.run(event);
    let handled = state.serviced(event).1;
    assert forall|j: int|
        0 <= j < plan.len() && #[trigger] plan[j] == Command::Render implies state.swap_chain
        || exists|i: int| 0 <= i < j && plan[i] == Command::CreateSwapChain by {
        assert(j < handled.len());
        if !state.swap_chain {
            if event is Scale {
                assert(plan[0] == Command::CreateSwapChain);
            } else {
                assert(plan[1] == Command::CreateSwapChain);
            }
        }
    }
    if plan.contains(Command::Render) {
        let k = choose|k: int| 0 <= k < plan.len() && plan[k] == Command::Render;
        assert(k < handled.len());
    }
}

/// Whether `event` is the pointer leaving `surface`.
pub open spec fn is_leave(event: Event, surface: u32) -> bool {
    event == Event::Pointer(PointerEvent::Leave { surface })
}

/// A scene that does not differ from the last one drawn is not drawn again:
/// a render pass goes on to the GPU only after a comparison that found a
/// difference.
pub proof fn lemma_unchanged_scene_is_not_drawn(report: RenderReport)
    ensures
        next_render_step(RenderReport::Damage(None)) == RenderStep::Finish,
        next_render_step(RenderReport::Damage(Some(0))) == RenderStep::Finish,
        next_render_step(report) is Present <==> (report matches RenderReport::Damage(Some(n))
            && n > 0),
{
}

/// While no leave timer is set and the pointer does not leave the surface,
/// none gets set, and the component is never told that the pointer left.
pub proof fn lemma_idle_timer_stays_idle(state: InstanceState, events: Seq<Event>)
    requires
        state.leave_timeout == LeaveTimeout::Idle,
        forall|i: int| 0 <= i < events.len() ==> !is_leave(#[trigger] events[i], state.surface),
    ensures
        state.run_all(events).0.leave_timeout == LeaveTimeout::Idle,
        state.run_all(events).0.surface == state.surface,
        !state.run_all(events).1.contains(Command::Call(Hook::PointerLeave)),
    decreases events.len(),
{
    if events.len() > 0 {
        lemma_idle_timer_stays_idle(state, events.drop_last());
        let (before, plan) = state.run_all(events.drop_last());
        let (after, more) = before.run(events.last());
        assert(!is_leave(events[events.len() - 1], state.surface));
        assert(!more.contains(Command::Call(Hook::PointerLeave)));
        assert forall|k: int| 0 <= k < (plan + more).len() implies (plan + more)[k]
            != Command::Call(Hook::PointerLeave) by {
            if k < plan.len() {
                assert(plan.contains(plan[k]));
            } else {
                assert(more.contains(more[k - plan.len()]));
            }
        }
    }
}

/// The pointer coming back onto the surface calls off the leave timer: a
/// timer that runs is stopped, and as long as the pointer does not leave
/// again the component is never told that it left, whatever else happens, a
/// timer that runs out all the same included.
pub proof fn lemma_enter_cancels_leave(state: InstanceState, events: Seq<Event>)
    requires
        forall|i: int| 0 <= i < events.len() ==> !is_leave(#[trigger] events[i], state.surface),
    ensures
        ({
            let (entered, plan) = state.run(
                Event::Pointer(PointerEvent::Enter { surface: state.surface }),
            );
            &&& entered.ptr_active
            &&& entered.leave_timeout == LeaveTimeout::Idle
            &&& plan == (if state.leave_timeout == LeaveTimeout::Pending {
                seq![Command::Call(Hook::PointerEnter), Command::CancelLeaveTimeout]
            } else {
                seq![Command::Call(Hook::PointerEnter)]
            })
            &&& entered.run_all(events).0.leave_timeout == LeaveTimeout::Idle
            &&& !entered.run_all(events).1.contains(Command::Call(Hook::PointerLeave))
        }),
{
    let (entered, plan) = state.run(Event::Pointer(PointerEvent::Enter { surface: state.surface }));
    assert(plan =~= (if state.leave_timeout == LeaveTimeout::Pending {
        seq![Command::Call(Hook::PointerEnter), Command::CancelLeaveTimeout]
    } else {
        seq![Command::Call(Hook::PointerEnter)]
    }));
    lemma_idle_timer_stays_idle(entered, events);
}

/// Whether nothing is left of a leave timer while the surface is active.
pub open spec fn timer_follows_pointer(state: InstanceState) -> bool {
    state.ptr_active ==> state.leave_timeout == LeaveTimeout::Idle
}

/// No leave timer is kept while the surface is active: this holds of a new
/// driver, and servicing an event keeps it.
pub proof fn lemma_timer_follows_pointer(state: InstanceState, event: Event, surface: u32)
    requires
        timer_follows_pointer(state),
    ensures
        timer_follows_pointer(InstanceState::init(surface)),
        timer_follows_pointer(state.run(event).0),
{
}

/// A timer that was set and has not been called off tells the component
/// exactly once that the pointer left: when it runs out, and not when it
/// runs out again.
pub proof fn lemma_leave_is_told_once(state: InstanceState)
    requires
        state.leave_timeout == LeaveTimeout::Pending,
        !state.ptr_active,
    ensures
        ({
            let (fired, plan) = state.run(Event::LeaveTimeout);
            &&& plan == seq![Command::Call(Hook::PointerLeave), Command::Render]
            &&& fired.leave_timeout == LeaveTimeout::Fired
            &&& fired.run(Event::LeaveTimeout) == (fired, Seq::<Command>::empty())
        }),
{
    let (fired, plan) = state.run(Event::LeaveTimeout);
    assert(plan =~= seq![Command::Call(Hook::PointerLeave), Command::Render]);
    assert(fired.run(Event::LeaveTimeout).1 =~= Seq::<Command>::empty());
}

/// The timer kept outside is started and stopped so that it runs exactly
/// while the leave timer is pending: it is started by the event that makes
/// the leave timer pending, stopped by the event that calls it off, and no
/// event does both or either of them twice.
pub proof fn lemma_timer_commands(state: InstanceState, event: Event)
    ensures
        ({
            let (after, plan) = state.run(event);
            let handled = state.serviced(event).1;
            let arm = Command::ArmLeaveTimeout(LEAVE_TIMEOUT_MS);
            let cancel = Command::CancelLeaveTimeout;
            &&& !handled.contains(arm) && !handled.contains(cancel)
            &&& plan == (if state.leave_timeout != LeaveTimeout::Pending && after.leave_timeout
                == LeaveTimeout::Pending {
                handled.push(arm)
            } else if state.leave_timeout == LeaveTimeout::Pending && after.leave_timeout
                == LeaveTimeout::Idle {
                handled.push(cancel)
            } else {
                handled
            })
            &&& state.leave_timeout == LeaveTimeout::Pending && after.leave_timeout
                != LeaveTimeout::Pending && after.leave_timeout != LeaveTimeout::Idle
                ==> event == Event::LeaveTimeout
        }),
{
    let (after, plan) = state.run(event);
    let handled = state.serviced(event).1;
    assert(plan =~= (if state.leave_timeout != LeaveTimeout::Pending && after.leave_timeout
        == LeaveTimeout::Pending {
        handled.push(Command::ArmLeaveTimeout(LEAVE_TIMEOUT_MS))
    } else if state.leave_timeout == LeaveTimeout::Pending && after.leave_timeout
        == LeaveTimeout::Idle {
        handled.push(Command::CancelLeaveTimeout)
    } else {
        handled
    }));
}

/// A tap: a touch point that comes down on the surface while none is
/// followed, and is lifted before the next frame, is one move of the cursor
/// and one click of the left button. Nothing is rendered before the frame;
/// at the frame the surface is rendered, the component is told once that the
/// touch has left, and the surface is rendered again. The frame after that
/// renders once and tells nothing.
pub proof fn lemma_tap_is_one_click(state: InstanceState, id: i32, x: i32, y: i32)
    requires
        state.touch_point is None,
    ensures
        ({
            let (down, on_down) = state.run(
                Event::Touch(TouchEvent::Down { surface: state.surface, id, x, y }),
            );
            let (up, on_up) = down.run(Event::Touch(TouchEvent::Up { id }));
            let (framed, on_frame) = up.run(Event::Touch(TouchEvent::Frame));
            let (again, on_next_frame) = framed.run(Event::Touch(TouchEvent::Frame));
            &&& on_down == seq![Command::Call(Hook::TouchEnter)] + InstanceState::timer_commands(
                state.leave_timeout,
                LeaveTimeout::Idle,
            )
            &&& on_up == Seq::<Command>::empty()
            &&& up.queue == state.queue.push(InputEvent::CursorMoved { x, y }).push(
                InputEvent::ButtonPressed(MouseButton::Left),
            ).push(InputEvent::ButtonReleased(MouseButton::Left))
            &&& on_frame == seq![
                Command::Render,
                Command::Call(Hook::TouchLeave),
                Command::Render,
            ]
            &&& framed.touch_point is None
            &&& !framed.touch_leave
            &&& on_next_frame == seq![Command::Render]
        }),
{
    let (down, on_down) = state.run(
        Event::Touch(TouchEvent::Down { surface: state.surface, id, x, y }),
    );
    let (up, on_up) = down.run(Event::Touch(TouchEvent::Up { id }));
    let (framed, on_frame) = up.run(Event::Touch(TouchEvent::Frame));
    let (again, on_next_frame) = framed.run(Event::Touch(TouchEvent::Frame));
    assert(on_up =~= Seq::<Command>::empty());
    assert(on_frame =~= seq![
        Command::Render,
        Command::Call(Hook::TouchLeave),
        Command::Render,
    ]);
    assert(on_next_frame =~= seq![Command::Render]);
}

} // verus!
