//! World-scoped singleton values.

use vstd::prelude::*;
use crate::components::Vector2;

verus! {

/// Time elapsed since the previous tick, in microseconds.
#[derive(Copy, Clone, Debug, PartialEq, Eq, Structural)]
pub struct Delta(pub u32);

impl Default for Delta {
    fn default() -> (d: Delta)
        ensures
            d == Delta(0),
    {
        Delta(0)
    }
}

/// Extent of the play area: its far corner, the near corner being the
/// origin.
#[derive(Copy, Clone, Debug, PartialEq, Eq, Structural)]
pub struct ScreenSize(pub Vector2);

} // verus!
