//! An inclusive range of tile indices.

use vstd::prelude::*;
use crate::point::TilePoint;

verus! {

/// An axis-aligned range of tile indices. Both corners belong to the range:
/// it holds every tile `t` with `min <= t <= max` along each axis.
#[derive(Clone, Copy, Debug, PartialEq, Eq, Structural)]
pub struct Region {
    /// The corner with the smallest indices.
    pub min: TilePoint,
    /// The corner with the largest indices.
    pub max: TilePoint,
}

impl Region {
    /// The range that stands for "nothing to draw": both corners at index 0.
    pub open spec fn spec_empty() -> Region {
        Region { min: TilePoint { x: 0, y: 0, z: 0 }, max: TilePoint { x: 0, y: 0, z: 0 } }
    }

    /// True when `min` is not beyond `max` along any axis.
    pub open spec fn is_ordered(self) -> bool {
        self.min.le(self.max)
    }

    /// True when `tile` lies between the two corners, both included.
    pub open spec fn spec_contains(&self, tile: TilePoint) -> bool {
        self.min.le(tile) && tile.le(self.max)
    }

    /// The range from `min` to `max`, both included.
    pub fn new(min: TilePoint, max: TilePoint) -> (r: Region)
        ensures
            r == (Region { min, max }),
    {
        Region { min, max }
    }

    /// The range that stands for "nothing to draw".
    #[verifier::when_used_as_spec(spec_empty)]
    pub fn empty() -> (r: Region)
        ensures
            r == Region::empty(),
    {
        Region { min: TilePoint { x: 0, y: 0, z: 0 }, max: TilePoint { x: 0, y: 0, z: 0 } }
    }

    /// Says whether `tile` lies between the two corners, both included.
    #[verifier::when_used_as_spec(spec_contains)]
    pub fn contains(&self, tile: TilePoint) -> (b: bool)
        ensures
            b == self.contains(tile),
    {
        self.min.is_le(&tile) && tile.is_le(&self.max)
    }
}

} // verus!
