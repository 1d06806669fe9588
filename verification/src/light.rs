//! The scene's single point light.

use vstd::prelude::*;

verus! {

/// A point light: `power` is the maximum distance it illuminates (a
/// deliberate simplification, not a photometric unit), in fixed-point
/// world units.
#[derive(Debug, Clone, Copy, PartialEq)]
pub struct Light {
    pub power: i64,
    pub color: [u8; 3],
    pub position: [i64; 3],
}

impl Light {
    /// The light's reach is a distance, never negative.
    pub open spec fn wf(&self) -> bool {
        0 <= self.power
    }
}

} // verus!
