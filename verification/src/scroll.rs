//! The keys that move a scroll panel.

use vstd::prelude::*;

verus! {

/// Distance by which one key press moves the content.
pub const SCROLL_STEP: i32 = 10;

/// A key, as far as a scroll panel tells keys apart.
#[derive(Clone, Copy, Debug, PartialEq, Eq, Structural)]
pub enum ScrollKey {
    /// The key that scrolls up.
    Up,
    /// The key that scrolls down.
    Down,
    /// Any other key, or none.
    Other,
}

/// The change of the scroll position that `key` asks for.
pub open spec fn scroll_delta_of(key: ScrollKey) -> int {
    match key {
        ScrollKey::Up => -10,
        ScrollKey::Down => 10,
        ScrollKey::Other => 0,
    }
}

/// The change of the scroll position that `key` asks for, and whether the
/// panel consumes the event: it never does, so that the event goes on to
/// other items.
pub fn scroll_event(key: ScrollKey) -> (response: (i32, bool))
    ensures
        response.0 == scroll_delta_of(key),
        !response.1,
{
    match key {
        ScrollKey::Up => (-SCROLL_STEP, false),
        ScrollKey::Down => (SCROLL_STEP, false),
        ScrollKey::Other => (0, false),
    }
}

} // verus!
