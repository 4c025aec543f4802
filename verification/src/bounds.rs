//! From the corners of the camera's view to the range of tiles to draw.

use vstd::prelude::*;
use crate::point::{TilePoint, WorldPoint};
use crate::region::Region;
use crate::tile_map::TileMap;

verus! {

/// The depth of the plane on which the tiles are drawn. The rays through the
/// corners of the screen are cut with the plane `z == DRAWING_PLANE_Z`.
pub const DRAWING_PLANE_Z: i64 = 5;

/// What the camera sees of the drawing plane.
#[derive(Clone, Copy, Debug, PartialEq, Eq, Structural)]
pub enum CameraView {
    /// There is no camera.
    NoCamera,
    /// There is a camera, but a ray through a corner of the screen runs
    /// parallel to the drawing plane and never meets it.
    NoIntersection,
    /// Where the rays through the top-left pixel and through the bottom-right
    /// pixel of the screen meet the drawing plane.
    Corners { top_left: WorldPoint, bottom_right: WorldPoint },
}

/// `v` held at or below `upper` first, and at or above `lower` after that.
/// Where `upper` lies below `lower`, the result is `lower`.
pub open spec fn held_between(v: int, upper: int, lower: int) -> int {
    let held = if v < upper { v } else { upper };
    if held > lower { held } else { lower }
}

/// The `x` to look up for a view whose bottom-right corner is at `x`: one tile
/// further right, but no further than the start of the last column and not
/// left of the map.
pub open spec fn cover_x(map: TileMap, x: int) -> int {
    held_between(
        x + map.tile_dimensions().x,
        map.half_x() - map.tile_dimensions().x,
        -map.half_x(),
    )
}

/// The `y` to look up for a view whose bottom-right corner is at `y`: one tile
/// further down, but no lower than the last row and no higher than one tile
/// below the top of the map.
pub open spec fn cover_y(map: TileMap, y: int) -> int {
    held_between(
        y - map.tile_dimensions().y,
        map.half_y() - map.tile_dimensions().y,
        -map.half_y() + map.tile_dimensions().y,
    )
}

/// The `z` to look up for a view whose bottom-right corner is at depth `z`:
/// `z` itself, held inside the map's depth.
pub open spec fn cover_z(map: TileMap, z: int) -> int {
    held_between(z, map.half_z(), -map.half_z())
}

/// The world point that is looked up for the bottom-right corner of a view.
pub open spec fn spec_covered_bottom_right(map: &TileMap, bottom_right: WorldPoint) -> WorldPoint {
    WorldPoint {
        x: cover_x(*map, bottom_right.x as int) as i64,
        y: cover_y(*map, bottom_right.y as int) as i64,
        z: cover_z(*map, bottom_right.z as int) as i64,
    }
}

/// The range of tiles to draw, given what the map answered for the two
/// corners. A corner that the map does not hold (`None`) is replaced: the
/// top-left one by the first tile of `layer`, the bottom-right one by the last
/// tile of `layer`.
pub open spec fn spec_region_from_lookups(
    map: &TileMap,
    layer: u32,
    top_left: Option<TilePoint>,
    bottom_right: Option<TilePoint>,
) -> Region {
    Region {
        min: match top_left {
            Some(tile) => tile,
            None => map.first_tile(layer),
        },
        max: match bottom_right {
            Some(tile) => tile,
            None => map.last_tile(layer),
        },
    }
}

/// True when `region` is a range that `compute_bounds_with` may return for these
/// arguments: the empty range where the view has no corners, and else the
/// range made from two answers that `world_to_tile` can give for the view's
/// top-left corner and for its covered bottom-right corner.
pub open spec fn is_bounds_of<F: Fn(WorldPoint) -> Option<TilePoint>>(
    map: TileMap,
    view: CameraView,
    layer: u32,
    world_to_tile: F,
    region: Region,
) -> bool {
    match view {
        CameraView::Corners { top_left, bottom_right } => exists|
            first: Option<TilePoint>,
            last: Option<TilePoint>,
        |
            #![trigger call_ensures(world_to_tile, (top_left,), first), call_ensures(world_to_tile, (covered_bottom_right(&map, bottom_right),), last)]
            call_ensures(world_to_tile, (top_left,), first) && call_ensures(
                world_to_tile,
                (covered_bottom_right(&map, bottom_right),),
                last,
            ) && region == region_from_lookups(&map, layer, first, last),
        _ => region == Region::empty(),
    }
}

/// A lookup as a mathematical function: the one answer for each world point.
pub type Lookup = spec_fn(WorldPoint) -> Option<TilePoint>;

/// True when `world_to_tile` can only answer what `lookup` says.
pub open spec fn answers_as<F: Fn(WorldPoint) -> Option<TilePoint>>(
    world_to_tile: F,
    lookup: Lookup,
) -> bool {
    forall|p: WorldPoint, a: Option<TilePoint>| #[trigger]
        call_ensures(world_to_tile, (p,), a) ==> a == lookup(p)
}

/// True when every tile that `world_to_tile` can answer is a tile of `map`.
pub open spec fn answers_inside<F: Fn(WorldPoint) -> Option<TilePoint>>(
    map: TileMap,
    world_to_tile: F,
) -> bool {
    forall|p: WorldPoint, a: Option<TilePoint>| #[trigger]
        call_ensures(world_to_tile, (p,), a) ==> (a matches Some(tile) ==> map.contains(tile))
}

/// The bounds for a lookup that is a function of the point alone.
pub open spec fn bounds_with(map: TileMap, view: CameraView, layer: u32, lookup: Lookup) -> Region {
    match view {
        CameraView::Corners { top_left, bottom_right } => region_from_lookups(
            &map,
            layer,
            lookup(top_left),
            lookup(covered_bottom_right(&map, bottom_right)),
        ),
        _ => Region::empty(),
    }
}

/// The lookup of the map itself.
pub open spec fn grid_lookup(map: TileMap) -> Lookup {
    |p: WorldPoint| map.world_to_tile(p)
}

/// The bounds where the map itself says which tile holds a point.
pub open spec fn spec_compute_bounds(map: &TileMap, view: CameraView, layer: u32) -> Region {
    bounds_with(*map, view, layer, grid_lookup(*map))
}

/// Holds `v` at or below `upper`, then at or above `lower`.
fn clamp_coordinate(v: i128, upper: i64, lower: i64) -> (r: i64)
    ensures
        r == held_between(v as int, upper as int, lower as int),
{
    let ceiling: i128 = upper as i128;
    let held: i128 = if v < ceiling { v } else { ceiling };
    if held > lower as i128 {
        held as i64
    } else {
        lower
    }
}

/// Moves the bottom-right corner of a view one tile outwards (right and
/// down), so that tiles cut by the edge of the screen are not lost, and holds
/// the result inside the map.
///
/// Along `x` the result lies between the left edge of the map and the start
/// of its last column; along `y` between the start of the last row and one
/// tile below the top edge; along `z` inside the map's depth.
#[verifier::when_used_as_spec(spec_covered_bottom_right)]
pub fn covered_bottom_right(map: &TileMap, bottom_right: WorldPoint) -> (p: WorldPoint)
    ensures
        p == covered_bottom_right(map, bottom_right),
        p.x == cover_x(*map, bottom_right.x as int),
        p.y == cover_y(*map, bottom_right.y as int),
        p.z == cover_z(*map, bottom_right.z as int),
{
    let half: WorldPoint = map.half_dimensions();
    let tile = map.tile_dimensions();
    let x: i64 = clamp_coordinate(
        bottom_right.x as i128 + tile.x as i128,
        half.x - tile.x as i64,
        -half.x,
    );
    let y: i64 = clamp_coordinate(
        bottom_right.y as i128 - tile.y as i128,
        half.y - tile.y as i64,
        -half.y + tile.y as i64,
    );
    let z: i64 = clamp_coordinate(bottom_right.z as i128, half.z, -half.z);
    WorldPoint { x, y, z }
}

/// Makes the range of tiles to draw from what the map answered for the two
/// corners of the view. A corner outside the grid (`None`) gives way to the
/// grid's own corner on `layer`.
#[verifier::when_used_as_spec(spec_region_from_lookups)]
pub fn region_from_lookups(
    map: &TileMap,
    layer: u32,
    top_left: Option<TilePoint>,
    bottom_right: Option<TilePoint>,
) -> (region: Region)
    ensures
        region == region_from_lookups(map, layer, top_left, bottom_right),
{
    let min: TilePoint = match top_left {
        Some(tile) => tile,
        None => map.first_tile(layer),
    };
    let max: TilePoint = match bottom_right {
        Some(tile) => tile,
        None => map.last_tile(layer),
    };
    Region::new(min, max)
}

/// The range of tiles of `map` that a camera with the given view sees, for
/// a map whose tiles are found by `world_to_tile`.
///
/// Without a camera, or where a corner ray misses the drawing plane, there is
/// nothing to draw and the range is `Region::empty()`. Otherwise the
/// top-left corner of the view and its covered bottom-right corner are looked
/// up with `world_to_tile`, which answers `None` for a point outside the
/// grid. The range runs from the tile of the one to the tile of the other; a
/// corner outside the grid gives way to the grid's own corner on `layer`.
///
/// Where `layer` is a layer of the map and `world_to_tile` answers with tiles
/// of the map only, both corners of the range are tiles of the map.
pub fn compute_bounds_with<F: Fn(WorldPoint) -> Option<TilePoint>>(
    map: &TileMap,
    view: CameraView,
    layer: u32,
    world_to_tile: F,
) -> (region: Region)
    requires
        view matches CameraView::Corners { top_left, bottom_right } ==> call_requires(
            world_to_tile,
            (top_left,),
        ) && call_requires(world_to_tile, (covered_bottom_right(map, bottom_right),)),
    ensures
        is_bounds_of(*map, view, layer, world_to_tile, region),
        view is NoCamera || view is NoIntersection ==> region == Region::empty(),
        layer < map.dimensions().z && answers_inside(*map, world_to_tile) ==> map.contains(
            region.min,
        ) && map.contains(region.max),
{
    proof {
        use_type_invariant(map);
    }
    match view {
        CameraView::Corners { top_left, bottom_right } => {
            let target: WorldPoint = covered_bottom_right(map, bottom_right);
            let first: Option<TilePoint> = world_to_tile(top_left);
            let last: Option<TilePoint> = world_to_tile(target);
            region_from_lookups(map, layer, first, last)
        },
        _ => Region::empty(),
    }
}

/// The range of tiles of `map` that a camera with the given view sees, where
/// the map itself says which tile holds a point.
///
/// Without a camera, or where a corner ray misses the drawing plane, the
/// range is `Region::empty()`. Otherwise it runs from the tile under the
/// top-left corner of the view to the tile under its covered bottom-right
/// corner, and a corner outside the grid gives way to the grid's own corner
/// on `layer`.
#[verifier::when_used_as_spec(spec_compute_bounds)]
pub fn compute_bounds(map: &TileMap, view: CameraView, layer: u32) -> (region: Region)
    ensures
        region == compute_bounds(map, view, layer),
        view is NoCamera || view is NoIntersection ==> region == Region::empty(),
        layer < map.dimensions().z ==> map.contains(region.min) && map.contains(region.max),
{
    let lookup = |p: WorldPoint| -> (tile: Option<TilePoint>)
        ensures
            tile == map.world_to_tile(p),
            tile matches Some(t) ==> map.contains(t),
        { map.world_to_tile(p) };
    compute_bounds_with(map, view, layer, lookup)
}

} // verus!
