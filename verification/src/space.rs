//! Classification of a single board cell.

use vstd::prelude::*;

verus! {

/// A space of the board.
#[derive(Copy, Clone, Debug, Hash, PartialEq, Eq, Structural)]
pub enum Space {
    /// Not a valid space.
    Invalid,
    /// A normal playable space.
    Normal,
    /// A goal space owned by the given seat.
    Goal(u64),
}

impl Default for Space {
    fn default() -> (r: Self)
        ensures
            r == Space::Normal,
    {
        Self::Normal
    }
}

} // verus!
