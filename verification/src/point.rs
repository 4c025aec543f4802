//! Points and sizes: tile indices, world positions, extents per axis.

use vstd::prelude::*;

verus! {

/// The index of one tile: column `x`, row `y` and layer `z`, each counted from 0.
#[derive(Clone, Copy, Debug, PartialEq, Eq, Structural)]
pub struct TilePoint {
    pub x: u32,
    pub y: u32,
    pub z: u32,
}

impl TilePoint {
    /// True when no component of `self` is larger than the same component of `other`.
    pub open spec fn le(self, other: TilePoint) -> bool {
        self.x <= other.x && self.y <= other.y && self.z <= other.z
    }

    /// The index of the tile in column `x` and row `y` of layer `z`.
    pub fn new(x: u32, y: u32, z: u32) -> (p: TilePoint)
        ensures
            p == (TilePoint { x, y, z }),
    {
        TilePoint { x, y, z }
    }

    /// Compares two indices component by component.
    pub fn is_le(&self, other: &TilePoint) -> (b: bool)
        ensures
            b == self.le(*other),
    {
        self.x <= other.x && self.y <= other.y && self.z <= other.z
    }
}

/// A position in the world, in whole world units. `x` grows to the right and
/// `y` grows upwards, so the top-left corner of a view has the smallest `x`
/// and the largest `y`.
#[derive(Clone, Copy, Debug, PartialEq, Eq, Structural)]
pub struct WorldPoint {
    pub x: i64,
    pub y: i64,
    pub z: i64,
}

impl WorldPoint {
    /// The point with the coordinates `x`, `y` and `z`.
    pub fn new(x: i64, y: i64, z: i64) -> (p: WorldPoint)
        ensures
            p == (WorldPoint { x, y, z }),
    {
        WorldPoint { x, y, z }
    }
}

/// A size along each of the three axes: of a grid in tiles, or of one tile in
/// world units.
#[derive(Clone, Copy, Debug, PartialEq, Eq, Structural)]
pub struct Dimensions {
    pub x: u32,
    pub y: u32,
    pub z: u32,
}

impl Dimensions {
    /// True when the size is at least 1 along every axis.
    pub open spec fn is_positive(self) -> bool {
        self.x > 0 && self.y > 0 && self.z > 0
    }

    /// The size that is `x` wide, `y` high and `z` deep.
    pub fn new(x: u32, y: u32, z: u32) -> (d: Dimensions)
        ensures
            d == (Dimensions { x, y, z }),
    {
        Dimensions { x, y, z }
    }
}

} // verus!
