//! The events a surface receives from the compositor, and the input they
//! become for its widgets.

use vstd::prelude::*;

verus! {

/// The lowest button code a pointer reports: the left button.
pub const BTN_LEFT: u32 = 0x110;

/// The code of the right button.
pub const BTN_RIGHT: u32 = 0x111;

/// The code of the middle button.
pub const BTN_MIDDLE: u32 = 0x112;

/// A button of the pointer.
#[derive(Clone, Copy, Debug, PartialEq, Eq, Structural)]
pub enum MouseButton {
    Left,
    Right,
    Middle,
    /// Another button, by its number after the left one.
    Other(u8),
}

/// Whether a button went down or came up.
#[derive(Clone, Copy, Debug, PartialEq, Eq, Structural)]
pub enum ButtonState {
    Released,
    Pressed,
}

/// Input for the widgets. Coordinates are in 1/256 of a logical pixel.
#[derive(Clone, Copy, Debug, PartialEq, Eq, Structural)]
pub enum InputEvent {
    CursorMoved { x: i32, y: i32 },
    ButtonPressed(MouseButton),
    ButtonReleased(MouseButton),
}

/// What the compositor tells a layer surface about itself.
#[derive(Clone, Copy, Debug, PartialEq, Eq, Structural)]
pub enum LayerEvent {
    /// The surface has a new size. `scale` is the scale factor of the
    /// outputs the surface is on, read when the event arrived.
    Configure { serial: u32, width: u32, height: u32, scale: i32 },
    /// The surface was closed.
    Closed,
}

/// What a pointer reports. `surface` names the surface an event is about.
#[derive(Clone, Copy, Debug, PartialEq, Eq, Structural)]
pub enum PointerEvent {
    Enter { surface: u32 },
    Leave { surface: u32 },
    Button { button: u32, state: ButtonState },
    Motion { x: i32, y: i32 },
    /// The events since the last frame belong together.
    Frame,
    /// Anything else, such as scrolling.
    Other,
}

/// What a touch screen reports. `id` tells the touch points apart.
#[derive(Clone, Copy, Debug, PartialEq, Eq, Structural)]
pub enum TouchEvent {
    Down { surface: u32, id: i32, x: i32, y: i32 },
    Motion { id: i32, x: i32, y: i32 },
    Up { id: i32 },
    /// The events since the last frame belong together.
    Frame,
    /// Anything else, such as a cancelled sequence.
    Other,
}

/// The button that a pointer's button code stands for. Codes start at the
/// left button's; a button after the middle one is numbered by its distance
/// from the left one, of which eight bits are kept.
pub open spec fn button_of(code: u32) -> MouseButton
    recommends
        code >= BTN_LEFT,
{
    if code == BTN_LEFT {
        MouseButton::Left
    } else if code == BTN_RIGHT {
        MouseButton::Right
    } else if code == BTN_MIDDLE {
        MouseButton::Middle
    } else {
        MouseButton::Other(((code - BTN_LEFT) % 256) as u8)
    }
}

/// The input that a button's change of state becomes.
pub open spec fn button_input(button: MouseButton, state: ButtonState) -> InputEvent {
    match state {
        ButtonState::Pressed => InputEvent::ButtonPressed(button),
        ButtonState::Released => InputEvent::ButtonReleased(button),
    }
}

/// The button that `code` stands for, or `None` for a code below the left
/// button's, which no pointer reports.
pub fn mouse_button(code: u32) -> (out: Option<MouseButton>)
    ensures
        out == (if code >= BTN_LEFT {
            Some(button_of(code))
        } else {
            None
        }),
{
    if code == BTN_LEFT {
        Some(MouseButton::Left)
    } else if code == BTN_RIGHT {
        Some(MouseButton::Right)
    } else if code == BTN_MIDDLE {
        Some(MouseButton::Middle)
    } else if code > BTN_LEFT {
        Some(MouseButton::Other(((code - BTN_LEFT) % 256) as u8))
    } else {
        None
    }
}

} // verus!
