//! The launcher's window: what becomes of it when a client exits, and the links
//! that wait in it.

pub mod browser_join;

use vstd::prelude::*;

verus! {

/// What the launcher does once a client has exited.
#[derive(Debug, Clone, Copy, PartialEq, Eq, Structural)]
pub enum ExitPresentation {
    /// Say that it crashed.
    Crash,
    /// Stay as it is.
    Keep,
    /// Close, with nothing left to stay for.
    Close,
}

/// What the launcher does once a client has exited: a crash is always said, and
/// a launcher that somebody sees, that other clients run under or that a link is
/// being looked up in stays.
pub fn exit_presentation(crashed: bool, remaining: usize, visible: bool, pending: bool) -> (shown:
    ExitPresentation)
    ensures
        shown == (if crashed {
            ExitPresentation::Crash
        } else if remaining > 0 || visible || pending {
            ExitPresentation::Keep
        } else {
            ExitPresentation::Close
        }),
{
    if crashed {
        ExitPresentation::Crash
    } else if remaining > 0 || visible || pending {
        ExitPresentation::Keep
    } else {
        ExitPresentation::Close
    }
}

} // verus!
