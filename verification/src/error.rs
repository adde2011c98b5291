//! What can go wrong: a tile index past the end of the grid, or a
//! configuration that no grid or animation can be built from.

use vstd::prelude::*;

verus! {

/// The failures of the core. Geometry and culling never fail.
#[derive(Copy, Clone, Debug, PartialEq, Eq, Structural)]
pub enum SimError {
    /// A tile index at or past the number of tiles.
    IndexOutOfRange,
    /// A grid was asked for with rows of no tiles.
    ZeroRowWidth,
    /// An animation cycle was given with no states.
    EmptyCycle,
    /// A tile was given a second animation.
    DuplicateAnimation,
}

} // verus!
