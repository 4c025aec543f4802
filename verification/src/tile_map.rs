//! The geometry of a tile map: its size in tiles and the size of one tile.

use vstd::prelude::*;
use crate::point::{Dimensions, TilePoint, WorldPoint};

verus! {

/// Half of the world length of `count` tiles that are `tile` units long each,
/// rounded down to a whole unit.
pub open spec fn half_extent(tile: int, count: int) -> int {
    (tile * count) / 2
}

/// The index, along a centred axis, of the tile that holds the position `pos`,
/// where `count` tiles of `tile` units each lie side by side and tile `i` is
/// centred on `tile * i - tile * count / 2`.
///
/// A tile reaches half a tile to each side of its centre. A position on the
/// edge between two tiles belongs to the one with the larger index; the outer
/// edges of the first and of the last tile lie outside the grid.
pub open spec fn centred_index(pos: int, tile: int, count: int) -> Option<int> {
    // twice the distance from the outer edge of the first tile
    let doubled = 2 * pos + tile * (count + 1);
    if 0 < doubled && doubled < 2 * tile * count {
        Some(doubled / (2 * tile))
    } else {
        None
    }
}

/// The index, along the depth axis, of the layer that holds the depth `pos`,
/// where `count` layers of `tile` units each are stacked from depth 0 upwards.
pub open spec fn depth_index(pos: int, tile: int, count: int) -> Option<int> {
    if 0 <= pos && pos < tile * count {
        Some(pos / tile)
    } else {
        None
    }
}

/// A grid of equally sized tiles. Columns and rows are centred on the world
/// origin: columns are counted from left to right, rows from top to bottom,
/// and layers from depth 0 upwards.
///
/// Every map has at least one tile along each axis, and a tile is at least one
/// world unit long along each axis: `new` makes no other map.
#[derive(Clone, Copy, Debug)]
pub struct TileMap {
    dimensions: Dimensions,
    tile_dimensions: Dimensions,
}

impl TileMap {
    /// The number of tiles along each axis.
    pub closed spec fn spec_dimensions(&self) -> Dimensions {
        self.dimensions
    }

    /// The size of one tile in world units.
    pub closed spec fn spec_tile_dimensions(&self) -> Dimensions {
        self.tile_dimensions
    }

    /// What holds of every map: no extent is zero.
    #[verifier::type_invariant]
    pub open spec fn wf(&self) -> bool {
        self.dimensions().is_positive() && self.tile_dimensions().is_positive()
    }

    /// Half of the map's world width.
    pub open spec fn half_x(&self) -> int {
        half_extent(self.tile_dimensions().x as int, self.dimensions().x as int)
    }

    /// Half of the map's world height.
    pub open spec fn half_y(&self) -> int {
        half_extent(self.tile_dimensions().y as int, self.dimensions().y as int)
    }

    /// Half of the map's world depth.
    pub open spec fn half_z(&self) -> int {
        half_extent(self.tile_dimensions().z as int, self.dimensions().z as int)
    }

    /// True when `tile` is an index of the grid.
    pub open spec fn spec_contains(&self, tile: TilePoint) -> bool {
        tile.x < self.dimensions().x && tile.y < self.dimensions().y && tile.z < self.dimensions().z
    }

    /// The tile that holds the world point `p`, or `None` where `p` lies outside
    /// the grid.
    pub open spec fn spec_world_to_tile(&self, p: WorldPoint) -> Option<TilePoint> {
        match (
            centred_index(
                p.x as int,
                self.tile_dimensions().x as int,
                self.dimensions().x as int,
            ),
            centred_index(
                -(p.y as int),
                self.tile_dimensions().y as int,
                self.dimensions().y as int,
            ),
            depth_index(
                p.z as int,
                self.tile_dimensions().z as int,
                self.dimensions().z as int,
            ),
        ) {
            (Some(column), Some(row), Some(layer)) => Some(
                TilePoint { x: column as u32, y: row as u32, z: layer as u32 },
            ),
            _ => None,
        }
    }

    /// The first tile of layer `z`: column 0, row 0.
    pub open spec fn spec_first_tile(&self, z: u32) -> TilePoint {
        TilePoint { x: 0, y: 0, z }
    }

    /// The last tile of layer `z`: the last column and the last row.
    pub open spec fn spec_last_tile(&self, z: u32) -> TilePoint {
        TilePoint {
            x: (self.dimensions().x - 1) as u32,
            y: (self.dimensions().y - 1) as u32,
            z,
        }
    }

    /// Makes a map of `dimensions` tiles, each `tile_dimensions` world units
    /// large. There is no map with an extent of zero: `None` then.
    pub fn new(dimensions: Dimensions, tile_dimensions: Dimensions) -> (map: Option<TileMap>)
        ensures
            map is Some <==> dimensions.is_positive() && tile_dimensions.is_positive(),
            map matches Some(m) ==> m.wf() && m.dimensions() == dimensions && m.tile_dimensions()
                == tile_dimensions,
    {
        if dimensions.x == 0 || dimensions.y == 0 || dimensions.z == 0 {
            return None;
        }
        if tile_dimensions.x == 0 || tile_dimensions.y == 0 || tile_dimensions.z == 0 {
            return None;
        }
        Some(TileMap { dimensions, tile_dimensions })
    }

    /// The number of tiles along each axis, none of them zero.
    #[verifier::when_used_as_spec(spec_dimensions)]
    pub fn dimensions(&self) -> (d: Dimensions)
        ensures
            d == self.dimensions(),
            d.is_positive(),
    {
        proof {
            use_type_invariant(self);
        }
        self.dimensions
    }

    /// The size of one tile in world units, along no axis zero.
    #[verifier::when_used_as_spec(spec_tile_dimensions)]
    pub fn tile_dimensions(&self) -> (d: Dimensions)
        ensures
            d == self.tile_dimensions(),
            d.is_positive(),
    {
        proof {
            use_type_invariant(self);
        }
        self.tile_dimensions
    }

    /// Half of the map's world extent along each axis: the map reaches from
    /// minus this to plus this.
    pub fn half_dimensions(&self) -> (h: WorldPoint)
        ensures
            h.x == self.half_x(),
            h.y == self.half_y(),
            h.z == self.half_z(),
            0 <= h.x <= 0x7FFF_FFFF_0000_0000,
            0 <= h.y <= 0x7FFF_FFFF_0000_0000,
            0 <= h.z <= 0x7FFF_FFFF_0000_0000,
    {
        WorldPoint {
            x: half_length(self.tile_dimensions.x, self.dimensions.x),
            y: half_length(self.tile_dimensions.y, self.dimensions.y),
            z: half_length(self.tile_dimensions.z, self.dimensions.z),
        }
    }

    /// Says whether `tile` is an index of the grid.
    #[verifier::when_used_as_spec(spec_contains)]
    pub fn contains(&self, tile: TilePoint) -> (b: bool)
        ensures
            b == self.contains(tile),
    {
        tile.x < self.dimensions.x && tile.y < self.dimensions.y && tile.z < self.dimensions.z
    }

    /// Finds the tile that holds a world point. A point outside the grid has
    /// no tile: `None` then.
    #[verifier::when_used_as_spec(spec_world_to_tile)]
    pub fn world_to_tile(&self, p: WorldPoint) -> (tile: Option<TilePoint>)
        ensures
            tile == self.world_to_tile(p),
            tile matches Some(t) ==> self.contains(t),
    {
        proof {
            use_type_invariant(self);
        }
        let column: Option<u32> = centred_tile(
            p.x as i128,
            self.tile_dimensions.x,
            self.dimensions.x,
        );
        let row: Option<u32> = centred_tile(
            -(p.y as i128),
            self.tile_dimensions.y,
            self.dimensions.y,
        );
        let layer: Option<u32> = layer_at(p.z, self.tile_dimensions.z, self.dimensions.z);
        match (column, row, layer) {
            (Some(x), Some(y), Some(z)) => Some(TilePoint { x, y, z }),
            _ => None,
        }
    }

    /// The first tile of layer `z`: column 0, row 0.
    #[verifier::when_used_as_spec(spec_first_tile)]
    pub fn first_tile(&self, z: u32) -> (t: TilePoint)
        ensures
            t == self.first_tile(z),
    {
        TilePoint { x: 0, y: 0, z }
    }

    /// The last tile of layer `z`: the last column and the last row.
    #[verifier::when_used_as_spec(spec_last_tile)]
    pub fn last_tile(&self, z: u32) -> (t: TilePoint)
        ensures
            t == self.last_tile(z),
    {
        proof {
            use_type_invariant(self);
        }
        TilePoint { x: self.dimensions.x - 1, y: self.dimensions.y - 1, z }
    }
}

/// Half of the length of `count` tiles of `tile` units each, in whole units.
fn half_length(tile: u32, count: u32) -> (h: i64)
    ensures
        h == half_extent(tile as int, count as int),
        0 <= h <= 0x7FFF_FFFF_0000_0000,
{
    let t: u64 = tile as u64;
    let c: u64 = count as u64;
    assert(0 <= t * c <= 0xFFFF_FFFF * 0xFFFF_FFFF) by (nonlinear_arith)
        requires
            0 <= t <= 0xFFFF_FFFF,
            0 <= c <= 0xFFFF_FFFF,
    ;
    let product: u64 = t * c;
    (product / 2) as i64
}

/// The index of the tile that holds `pos` along a centred axis.
fn centred_tile(pos: i128, tile: u32, count: u32) -> (index: Option<u32>)
    requires
        tile > 0,
        count > 0,
        -0x8000_0000_0000_0000 <= pos <= 0x8000_0000_0000_0000,
    ensures
        match index {
            Some(i) => i < count && centred_index(pos as int, tile as int, count as int) == Some(
                i as int,
            ),
            None => centred_index(pos as int, tile as int, count as int) is None,
        },
{
    let t: i128 = tile as i128;
    let c: i128 = count as i128;
    assert(0 < t * (c + 1) <= 0xFFFF_FFFF * 0x1_0000_0000) by (nonlinear_arith)
        requires
            0 < t <= 0xFFFF_FFFF,
            0 < c <= 0xFFFF_FFFF,
    ;
    assert(0 < t * c <= 0xFFFF_FFFF * 0xFFFF_FFFF) by (nonlinear_arith)
        requires
            0 < t <= 0xFFFF_FFFF,
            0 < c <= 0xFFFF_FFFF,
    ;
    let doubled: i128 = 2 * pos + t * (c + 1);
    let width: i128 = 2 * t;
    assert(width * c == 2 * (t * c)) by (nonlinear_arith)
        requires
            width == 2 * t,
    ;
    let span: i128 = width * c;
    if doubled <= 0 || doubled >= span {
        return None;
    }
    let i: i128 = doubled / width;
    assert(0 <= i < c) by (nonlinear_arith)
        requires
            0 < doubled < width * c,
            0 < width,
            i == doubled / width,
    ;
    Some(i as u32)
}

/// The index of the layer that holds the depth `pos`.
fn layer_at(pos: i64, tile: u32, count: u32) -> (index: Option<u32>)
    requires
        tile > 0,
        count > 0,
    ensures
        match index {
            Some(i) => i < count && depth_index(pos as int, tile as int, count as int) == Some(
                i as int,
            ),
            None => depth_index(pos as int, tile as int, count as int) is None,
        },
{
    let t: i128 = tile as i128;
    let c: i128 = count as i128;
    assert(0 < t * c <= 0xFFFF_FFFF * 0xFFFF_FFFF) by (nonlinear_arith)
        requires
            0 < t <= 0xFFFF_FFFF,
            0 < c <= 0xFFFF_FFFF,
    ;
    let z: i128 = pos as i128;
    let span: i128 = t * c;
    if z < 0 || z >= span {
        return None;
    }
    let i: i128 = z / t;
    assert(0 <= i < c) by (nonlinear_arith)
        requires
            0 <= z < t * c,
            0 < t,
            i == z / t,
    ;
    Some(i as u32)
}

} // verus!
