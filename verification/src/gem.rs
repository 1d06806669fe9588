//! Entry point for building geometric values.

use vstd::prelude::*;

use crate::dot::Dot;
use crate::spear::Spear;

verus! {

pub struct Gem {}

impl Gem {
    pub fn new() -> (r: Gem)
        ensures
            r == (Gem {  }),
    {
        Gem {  }
    }

    /// New 3-d position.
    pub fn dot(&self, x: i64, y: i64, z: i64) -> (r: Dot)
        ensures
            r == Dot::new_spec(x as int, y as int, z as int),
            r.wf(),
    {
        Dot::new(x, y, z)
    }

    /// New 3-d vector.
    pub fn spear(&self, x: i64, y: i64, z: i64) -> (r: Spear)
        ensures
            r == Spear::new_spec(x as int, y as int, z as int),
            r.wf(),
            r.unit_scaled(),
    {
        Spear::new(x, y, z)
    }
}

} // verus!
