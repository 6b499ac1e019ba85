//! What to do when the compositor's socket has something to read.

use vstd::prelude::*;

verus! {

/// How reading the socket ended.
#[derive(Clone, Copy, Debug, PartialEq, Eq, Structural)]
pub enum ReadOutcome {
    /// Events were read.
    Done,
    /// There was nothing to read after all.
    WouldBlock,
    /// Reading failed in another way.
    Failed,
}

/// What follows a wakeup.
#[derive(Clone, Copy, Debug, PartialEq, Eq, Structural)]
pub struct Wakeup {
    /// Whether the events that are waiting are to be dispatched now.
    pub dispatch: bool,
    /// Whether the socket is to be watched further.
    pub watch: bool,
}

/// What follows a wakeup on which reading ended as `read` says, where `None`
/// stands for a wakeup on which nothing was to be read because events were
/// waiting already. The socket is always watched further: no failure to send
/// or to read ends that. The events that are waiting are dispatched unless
/// reading would have blocked, a case that is tried again at the next
/// wakeup.
pub open spec fn wakeup_of(read: Option<ReadOutcome>) -> Wakeup {
    Wakeup { dispatch: read != Some(ReadOutcome::WouldBlock), watch: true }
}

/// Decides what follows a wakeup on which reading ended as `read` says.
pub fn on_readable(read: Option<ReadOutcome>) -> (out: Wakeup)
    ensures
        out == wakeup_of(read),
{
    match read {
        Some(ReadOutcome::WouldBlock) => Wakeup { dispatch: false, watch: true },
        _ => Wakeup { dispatch: true, watch: true },
    }
}

} // verus!
