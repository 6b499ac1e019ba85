//! A dock for a layer-shell desktop surface, and the driver that keeps one
//! such surface on screen.
//!
//! The crate holds the decisions: which docklets a dock shows, where its
//! popover is anchored, which rectangles take input, how pointer and touch
//! events become widget input, and when a frame is drawn. What needs a
//! compositor connection, a widget toolkit or a GPU is left to the program
//! that embeds it: the functions here take the facts they need as plain
//! values and hand back what is to be done.

pub mod dock;
pub mod docklet;
pub mod driver;
pub mod event_loop;
pub mod geometry;
pub mod input;
pub mod layout;
pub mod popover;
pub mod reconcile;
pub mod toplevels;
pub mod view;
