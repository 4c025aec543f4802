//! What holds of the computed bounds, proved once for every map and view.
//!
//! The first part speaks of extents and of bounds made with any lookup, the
//! second part of the tiles of a map along one axis, the third part of bounds
//! made with the map's own lookup.

use vstd::prelude::*;
use vstd::arithmetic::div_mod::{
    lemma_div_is_ordered, lemma_div_plus_one, lemma_fundamental_div_mod_converse,
};
use crate::bounds::{
    answers_as, bounds_with, compute_bounds, cover_x, cover_y, cover_z, covered_bottom_right,
    grid_lookup, held_between, is_bounds_of, region_from_lookups, CameraView, Lookup,
};
use crate::point::{TilePoint, WorldPoint};
use crate::region::Region;
use crate::tile_map::{centred_index, depth_index, half_extent, TileMap};

verus! {

/// True when `world_to_tile` answers each point in one way only.
pub open spec fn answers_once<F: Fn(WorldPoint) -> Option<TilePoint>>(world_to_tile: F) -> bool {
    forall|p: WorldPoint, a: Option<TilePoint>, b: Option<TilePoint>|
        #![trigger call_ensures(world_to_tile, (p,), a), call_ensures(world_to_tile, (p,), b)]
        call_ensures(world_to_tile, (p,), a) && call_ensures(world_to_tile, (p,), b) ==> a == b
}

/// `p` moved `by` world units to the right.
pub open spec fn moved_right(p: WorldPoint, by: int) -> WorldPoint {
    WorldPoint { x: (p.x + by) as i64, y: p.y, z: p.z }
}

/// True when `lookup` counts columns in steps of one tile width: where it
/// finds a tile for a point and for the point one tile width to its right,
/// the second tile is the right-hand neighbour of the first.
pub open spec fn steps_by_columns(map: TileMap, lookup: Lookup) -> bool {
    forall|p: WorldPoint| #![trigger lookup(moved_right(p, map.tile_dimensions().x as int))]
        p.x + map.tile_dimensions().x <= i64::MAX ==> match (
            lookup(p),
            lookup(moved_right(p, map.tile_dimensions().x as int)),
        ) {
            (Some(tile), Some(next)) => next.x == tile.x + 1 && next.y == tile.y && next.z
                == tile.z,
            _ => true,
        }
}

/// True when the two answers do not contradict each other along the depth:
/// the layer of the top-left tile is not beyond that of the bottom-right
/// tile, where a missing answer counts as a tile of `layer`.
pub open spec fn depth_in_order(
    layer: u32,
    top_left: Option<TilePoint>,
    bottom_right: Option<TilePoint>,
) -> bool {
    match (top_left, bottom_right) {
        (Some(a), Some(b)) => a.z <= b.z,
        (Some(a), None) => a.z <= layer,
        (None, Some(b)) => layer <= b.z,
        (None, None) => true,
    }
}

/// True when the answers for the two corners are tiles of `map`, a replaced
/// corner lies on a layer of `map`, and the top-left tile is not beyond the
/// bottom-right one along any axis.
pub open spec fn corners_fit(
    map: TileMap,
    layer: u32,
    top_left: Option<TilePoint>,
    bottom_right: Option<TilePoint>,
) -> bool {
    &&& top_left matches Some(t) ==> map.contains(t)
    &&& bottom_right matches Some(t) ==> map.contains(t)
    &&& top_left is None || bottom_right is None ==> layer < map.dimensions().z
    &&& top_left matches Some(a) ==> (bottom_right matches Some(b) ==> a.x <= b.x && a.y <= b.y)
    &&& depth_in_order(layer, top_left, bottom_right)
}

// ---------------------------------------------------------------------------
// Extents, and bounds made with any lookup
// ---------------------------------------------------------------------------

/// Half of an extent is never negative, and twice the half falls short of the
/// extent by one unit at most.
pub proof fn half_extent_is_natural(tile: int, count: int)
    requires
        0 <= tile,
        0 <= count,
    ensures
        0 <= half_extent(tile, count),
        2 * half_extent(tile, count) <= tile * count,
        tile * count <= 2 * half_extent(tile, count) + 1,
{
}

/// Half of an extent made of 32-bit sizes fits a world coordinate with room
/// to spare.
pub proof fn half_extent_fits(tile: u32, count: u32)
    ensures
        half_extent(tile as int, count as int) <= 0x7FFF_FFFF_0000_0000,
{
    assert(tile * count <= 0xFFFF_FFFF * 0xFFFF_FFFF) by (nonlinear_arith)
        requires
            0 <= tile <= 0xFFFF_FFFF,
            0 <= count <= 0xFFFF_FFFF,
    ;
}

/// The bounds lie inside the map with `min` not beyond `max` exactly when the
/// answers for the corners fit the map: `0 <= min <= max <= dimensions - 1`
/// along each axis.
pub proof fn bounds_in_order_inside_map(
    map: TileMap,
    layer: u32,
    top_left: Option<TilePoint>,
    bottom_right: Option<TilePoint>,
)
    requires
        map.wf(),
    ensures
        ({
            let region = region_from_lookups(&map, layer, top_left, bottom_right);
            region.is_ordered() && map.contains(region.min) && map.contains(region.max)
        }) <==> corners_fit(map, layer, top_left, bottom_right),
{
}

/// Without a camera, and where a corner ray misses the drawing plane, the
/// bounds are the empty range.
pub proof fn no_corners_no_tiles<F: Fn(WorldPoint) -> Option<TilePoint>>(
    map: TileMap,
    view: CameraView,
    layer: u32,
    world_to_tile: F,
    region: Region,
)
    requires
        is_bounds_of(map, view, layer, world_to_tile, region),
        view is NoCamera || view is NoIntersection,
    ensures
        region == Region::empty(),
{
}

/// With a lookup that answers as a function does, the bounds are a function
/// of the arguments.
pub proof fn bounds_follow_lookup<F: Fn(WorldPoint) -> Option<TilePoint>>(
    map: TileMap,
    view: CameraView,
    layer: u32,
    world_to_tile: F,
    lookup: Lookup,
    region: Region,
)
    requires
        answers_as(world_to_tile, lookup),
        is_bounds_of(map, view, layer, world_to_tile, region),
    ensures
        region == bounds_with(map, view, layer, lookup),
{
}

/// Asking twice gives the same bounds: two results for the same arguments are
/// equal, as long as the lookup answers each point in one way only.
pub proof fn bounds_are_repeatable<F: Fn(WorldPoint) -> Option<TilePoint>>(
    map: TileMap,
    view: CameraView,
    layer: u32,
    world_to_tile: F,
    first: Region,
    second: Region,
)
    requires
        answers_once(world_to_tile),
        is_bounds_of(map, view, layer, world_to_tile, first),
        is_bounds_of(map, view, layer, world_to_tile, second),
    ensures
        first == second,
{
}

/// A top-left corner for which the lookup finds no tile gives
/// `min == (0, 0, layer)`.
pub proof fn missed_top_left_gives_first_tile<F: Fn(WorldPoint) -> Option<TilePoint>>(
    map: TileMap,
    top_left: WorldPoint,
    bottom_right: WorldPoint,
    layer: u32,
    world_to_tile: F,
    region: Region,
)
    requires
        is_bounds_of(
            map,
            CameraView::Corners { top_left, bottom_right },
            layer,
            world_to_tile,
            region,
        ),
        forall|a: Option<TilePoint>| #[trigger]
            call_ensures(world_to_tile, (top_left,), a) ==> a is None,
    ensures
        region.min == (TilePoint { x: 0, y: 0, z: layer }),
{
}

/// A bottom-right corner for which the lookup finds no tile, even after the
/// corner was held inside the map's extent, gives
/// `max == (dimensions.x - 1, dimensions.y - 1, layer)`.
pub proof fn missed_bottom_right_gives_last_tile<F: Fn(WorldPoint) -> Option<TilePoint>>(
    map: TileMap,
    top_left: WorldPoint,
    bottom_right: WorldPoint,
    layer: u32,
    world_to_tile: F,
    region: Region,
)
    requires
        map.wf(),
        is_bounds_of(
            map,
            CameraView::Corners { top_left, bottom_right },
            layer,
            world_to_tile,
            region,
        ),
        forall|a: Option<TilePoint>| #[trigger]
            call_ensures(world_to_tile, (covered_bottom_right(&map, bottom_right),), a) ==> a is None,
    ensures
        region.max.x == map.dimensions().x - 1,
        region.max.y == map.dimensions().y - 1,
        region.max.z == layer,
{
}

/// The point looked up for the bottom-right corner never leaves the map's
/// extent: it is not left of the map, not right of the start of the last
/// column, not above the row below the first, not below the last row, and
/// within the map's depth.
pub proof fn cover_stays_inside_map(map: TileMap, bottom_right: WorldPoint)
    requires
        map.wf(),
    ensures
        ({
            let target = covered_bottom_right(&map, bottom_right);
            &&& target.x == cover_x(map, bottom_right.x as int)
            &&& target.y == cover_y(map, bottom_right.y as int)
            &&& target.z == cover_z(map, bottom_right.z as int)
            &&& -map.half_x() <= target.x
            &&& target.x <= map.half_x()
            &&& map.tile_dimensions().x <= 2 * map.half_x() ==> target.x <= map.half_x()
                - map.tile_dimensions().x
            &&& -map.half_y() + map.tile_dimensions().y <= target.y
            &&& map.tile_dimensions().y <= map.half_y() ==> target.y <= map.half_y()
                - map.tile_dimensions().y
            &&& -map.half_z() <= target.z <= map.half_z()
        }),
{
    half_extent_fits(map.tile_dimensions().x, map.dimensions().x);
    half_extent_fits(map.tile_dimensions().y, map.dimensions().y);
}

/// A view further to the right or further down is never covered by a point
/// further to the left or further up: holding a coordinate keeps the order.
pub proof fn cover_keeps_order(v: int, w: int, upper: int, lower: int)
    requires
        v <= w,
    ensures
        held_between(v, upper, lower) <= held_between(w, upper, lower),
{
}

/// The view that shows exactly the extent of `map` on the plane at depth
/// `plane`, as a camera above the middle of the map has it.
pub open spec fn full_view(map: TileMap, plane: i64) -> CameraView {
    CameraView::Corners {
        top_left: WorldPoint { x: (-map.half_x()) as i64, y: map.half_y() as i64, z: plane },
        bottom_right: WorldPoint { x: map.half_x() as i64, y: (-map.half_y()) as i64, z: plane },
    }
}

/// The point one tile inside the bottom-right corner of the extent of `map`:
/// where the covered bottom-right corner of the full view lies.
pub open spec fn inner_corner(map: TileMap, plane: i64) -> WorldPoint {
    WorldPoint {
        x: (map.half_x() - map.tile_dimensions().x) as i64,
        y: (-map.half_y() + map.tile_dimensions().y) as i64,
        z: cover_z(map, plane as int) as i64,
    }
}

/// A camera above the middle of the map whose screen shows exactly the map's
/// extent sees the whole map: the bounds run from column 0 and row 0 to the
/// last column and the last row, for every lookup that puts the map's
/// top-left corner into the first column and row and the point one tile
/// inside its bottom-right corner into the last ones, or finds no tile there.
///
/// The map is at least one tile wide in whole units to each side of the
/// middle. (A map of one column whose tiles have an odd width is not: half
/// of its width, in whole units, is less than half a tile.)
pub proof fn full_view_covers_map(map: TileMap, layer: u32, plane: i64, lookup: Lookup)
    requires
        map.wf(),
        map.tile_dimensions().x <= 2 * map.half_x(),
        lookup(
            WorldPoint { x: (-map.half_x()) as i64, y: map.half_y() as i64, z: plane },
        ) matches Some(t) ==> t.x == 0 && t.y == 0,
        lookup(inner_corner(map, plane)) matches Some(t) ==> t.x == map.dimensions().x - 1 && t.y
            == map.dimensions().y - 1,
    ensures
        ({
            let region = bounds_with(map, full_view(map, plane), layer, lookup);
            &&& region.min.x == 0
            &&& region.min.y == 0
            &&& region.max.x == map.dimensions().x - 1
            &&& region.max.y == map.dimensions().y - 1
        }),
{
    full_view_is_covered_by_inner_corner(map, plane);
}

/// The covered bottom-right corner of the full view is the point one tile
/// inside the bottom-right corner of the map's extent.
pub proof fn full_view_is_covered_by_inner_corner(map: TileMap, plane: i64)
    requires
        map.wf(),
        map.tile_dimensions().x <= 2 * map.half_x(),
    ensures
        covered_bottom_right(
            &map,
            WorldPoint { x: map.half_x() as i64, y: (-map.half_y()) as i64, z: plane },
        ) == inner_corner(map, plane),
{
    half_extent_fits(map.tile_dimensions().x, map.dimensions().x);
    half_extent_fits(map.tile_dimensions().y, map.dimensions().y);
    let corner = WorldPoint { x: map.half_x() as i64, y: (-map.half_y()) as i64, z: plane };
}

/// Moving the view one tile width to the right moves `min.x` and `max.x` one
/// column to the right and changes nothing else, as long as no corner is at
/// an edge of the grid: the lookup finds a tile for each corner before and
/// after the move, and the bottom-right corner is not held back by the map's
/// extent. This holds for every lookup that counts columns in steps of one
/// tile width.
pub proof fn one_tile_right_moves_one_column(
    map: TileMap,
    layer: u32,
    lookup: Lookup,
    top_left: WorldPoint,
    bottom_right: WorldPoint,
)
    requires
        map.wf(),
        steps_by_columns(map, lookup),
        top_left.x + map.tile_dimensions().x <= i64::MAX,
        -map.half_x() <= bottom_right.x + map.tile_dimensions().x,
        bottom_right.x + 2 * map.tile_dimensions().x <= map.half_x() - map.tile_dimensions().x,
        lookup(top_left) is Some,
        lookup(moved_right(top_left, map.tile_dimensions().x as int)) is Some,
        lookup(covered_bottom_right(&map, bottom_right)) is Some,
        lookup(
            covered_bottom_right(&map, moved_right(bottom_right, map.tile_dimensions().x as int)),
        ) is Some,
    ensures
        ({
            let width = map.tile_dimensions().x as int;
            let before = bounds_with(
                map,
                CameraView::Corners { top_left, bottom_right },
                layer,
                lookup,
            );
            let after = bounds_with(
                map,
                CameraView::Corners {
                    top_left: moved_right(top_left, width),
                    bottom_right: moved_right(bottom_right, width),
                },
                layer,
                lookup,
            );
            &&& after.min.x == before.min.x + 1
            &&& after.max.x == before.max.x + 1
            &&& after.min.y == before.min.y
            &&& after.max.y == before.max.y
            &&& after.min.z == before.min.z
            &&& after.max.z == before.max.z
        }),
{
    let width = map.tile_dimensions().x as int;
    cover_stays_inside_map(map, bottom_right);
    cover_stays_inside_map(map, moved_right(bottom_right, width));
    let target = covered_bottom_right(&map, bottom_right);
    assert(lookup(moved_right(target, width)) is Some);
}

// ---------------------------------------------------------------------------
// The tiles of a map along one axis
// ---------------------------------------------------------------------------

/// An index found along an axis is an index of the grid.
pub proof fn centred_index_is_in_range(pos: int, tile: int, count: int)
    requires
        0 < tile,
        0 < count,
    ensures
        centred_index(pos, tile, count) matches Some(i) ==> 0 <= i < count,
{
    let doubled = 2 * pos + tile * (count + 1);
    if 0 < doubled && doubled < 2 * tile * count {
        assert(0 <= doubled / (2 * tile) < count) by (nonlinear_arith)
            requires
                0 < doubled < (2 * tile) * count,
                0 < tile,
        ;
    }
}

/// Tile `i` holds exactly the positions from half a tile before its centre,
/// which is `tile * i - tile * count / 2`, up to half a tile after it. The
/// edge before the centre belongs to the tile, except for the first tile.
pub proof fn centred_index_lies_between_edges(pos: int, tile: int, count: int, i: int)
    requires
        0 < tile,
        0 < count,
    ensures
        centred_index(pos, tile, count) == Some(i) <==> {
            &&& 0 <= i < count
            &&& tile * (2 * i - count - 1) <= 2 * pos < tile * (2 * i - count + 1)
            &&& -(tile * (count + 1)) < 2 * pos
        },
{
    let doubled = 2 * pos + tile * (count + 1);
    let width = 2 * tile;
    assert(tile * (2 * i - count - 1) == width * i - tile * (count + 1)) by (nonlinear_arith)
        requires
            width == 2 * tile,
    ;
    assert(tile * (2 * i - count + 1) == width * i + width - tile * (count + 1))
        by (nonlinear_arith)
        requires
            width == 2 * tile,
    ;
    if centred_index(pos, tile, count) == Some(i) {
        centred_index_is_in_range(pos, tile, count);
        assert(width * i <= doubled < width * i + width) by (nonlinear_arith)
            requires
                i == doubled / width,
                0 < width,
        ;
    }
    if 0 <= i < count && width * i <= doubled < width * i + width && 0 < doubled {
        assert(width * i + width <= width * count) by (nonlinear_arith)
            requires
                i < count,
                0 < width,
        ;
        assert(doubled == i * width + (doubled - width * i)) by (nonlinear_arith);
        lemma_fundamental_div_mod_converse(doubled, width, i, doubled - width * i);
    }
}

/// Further along the axis the index is not smaller.
pub proof fn centred_index_keeps_order(a: int, b: int, tile: int, count: int)
    requires
        0 < tile,
        0 < count,
        a <= b,
    ensures
        centred_index(a, tile, count) matches Some(i) ==> (centred_index(
            b,
            tile,
            count,
        ) matches Some(j) ==> i <= j),
{
    lemma_div_is_ordered(
        2 * a + tile * (count + 1),
        2 * b + tile * (count + 1),
        2 * tile,
    );
}

/// One tile further along the axis the index is one more.
pub proof fn centred_index_steps_with_tiles(pos: int, tile: int, count: int)
    requires
        0 < tile,
        0 < count,
    ensures
        centred_index(pos, tile, count) matches Some(i) ==> (centred_index(
            pos + tile,
            tile,
            count,
        ) matches Some(j) ==> j == i + 1),
{
    let doubled = 2 * pos + tile * (count + 1);
    lemma_div_plus_one(doubled, 2 * tile);
}

/// Less than a tile further along the axis the index is the same or one more.
pub proof fn centred_index_grows_slowly(a: int, b: int, tile: int, count: int)
    requires
        0 < tile,
        0 < count,
        a <= b <= a + tile,
    ensures
        centred_index(a, tile, count) matches Some(i) ==> (centred_index(
            b,
            tile,
            count,
        ) matches Some(j) ==> i <= j <= i + 1),
{
    let doubled = 2 * a + tile * (count + 1);
    lemma_div_is_ordered(doubled, 2 * b + tile * (count + 1), 2 * tile);
    lemma_div_is_ordered(2 * b + tile * (count + 1), 2 * tile + doubled, 2 * tile);
    lemma_div_plus_one(doubled, 2 * tile);
}

/// The position one tile before the end of the extent lies in the last tile,
/// if it lies in a tile at all.
pub proof fn inner_edge_is_in_last_tile(tile: int, count: int)
    requires
        0 < tile,
        0 < count,
    ensures
        centred_index(half_extent(tile, count) - tile, tile, count) matches Some(i) ==> i == count
            - 1,
{
    let half = half_extent(tile, count);
    let doubled = 2 * (half - tile) + tile * (count + 1);
    let width = 2 * tile;
    if centred_index(half - tile, tile, count) is Some {
        assert(tile * (count + 1) == tile * count + tile) by (nonlinear_arith);
        assert(width * (count - 1) == 2 * (tile * count) - width) by (nonlinear_arith)
            requires
                width == 2 * tile,
        ;
        let rest = doubled - width * (count - 1);
        lemma_fundamental_div_mod_converse(doubled, width, count - 1, rest);
    }
}

/// Where the extent is an even number of units, its start lies in the first
/// tile and the position one tile before its end in the last tile.
pub proof fn even_extent_reaches_outer_tiles(tile: int, count: int)
    requires
        0 < tile,
        0 < count,
        2 * half_extent(tile, count) == tile * count,
    ensures
        centred_index(-half_extent(tile, count), tile, count) == Some(0int),
        centred_index(half_extent(tile, count) - tile, tile, count) == Some(count - 1),
{
    let half = half_extent(tile, count);
    let width = 2 * tile;
    assert(tile * (count + 1) == tile * count + tile) by (nonlinear_arith);
    assert(width * count == 2 * (tile * count)) by (nonlinear_arith)
        requires
            width == 2 * tile,
    ;
    assert(tile * count >= tile) by (nonlinear_arith)
        requires
            0 < tile,
            1 <= count,
    ;
    let first = 2 * (-half) + tile * (count + 1);
    lemma_fundamental_div_mod_converse(first, width, 0, tile);
    inner_edge_is_in_last_tile(tile, count);
}

// ---------------------------------------------------------------------------
// Bounds made with the map's own lookup
// ---------------------------------------------------------------------------

/// The map finds tiles of its own grid only.
pub proof fn map_answers_inside(map: TileMap, p: WorldPoint)
    requires
        map.wf(),
    ensures
        map.world_to_tile(p) matches Some(t) ==> map.contains(t),
        map.world_to_tile(p) matches Some(t) ==> {
            &&& centred_index(
                p.x as int,
                map.tile_dimensions().x as int,
                map.dimensions().x as int,
            ) == Some(t.x as int)
            &&& centred_index(
                -(p.y as int),
                map.tile_dimensions().y as int,
                map.dimensions().y as int,
            ) == Some(t.y as int)
            &&& depth_index(
                p.z as int,
                map.tile_dimensions().z as int,
                map.dimensions().z as int,
            ) == Some(t.z as int)
        },
{
    centred_index_is_in_range(
        p.x as int,
        map.tile_dimensions().x as int,
        map.dimensions().x as int,
    );
    centred_index_is_in_range(
        -(p.y as int),
        map.tile_dimensions().y as int,
        map.dimensions().y as int,
    );
    let z = p.z as int;
    let tile = map.tile_dimensions().z as int;
    let count = map.dimensions().z as int;
    if 0 <= z < tile * count {
        assert(0 <= z / tile < count) by (nonlinear_arith)
            requires
                0 <= z < tile * count,
                0 < tile,
        ;
    }
}

/// The point looked up for the bottom-right corner always lies in a column
/// and in a row of the map's own grid, whatever the view: holding the corner
/// back never points past the last column or row. Only its depth can lie
/// outside the grid. (This needs a map that is more than one world unit wide
/// and high: a single tile of one unit holds no whole position.)
pub proof fn covered_corner_lies_in_a_column_and_a_row(map: TileMap, bottom_right: WorldPoint)
    requires
        map.wf(),
        map.tile_dimensions().x > 1 || map.dimensions().x > 1,
        map.tile_dimensions().y > 1 || map.dimensions().y > 1,
    ensures
        ({
            let target = covered_bottom_right(&map, bottom_right);
            &&& centred_index(
                target.x as int,
                map.tile_dimensions().x as int,
                map.dimensions().x as int,
            ) is Some
            &&& centred_index(
                -(target.y as int),
                map.tile_dimensions().y as int,
                map.dimensions().y as int,
            ) is Some
        }),
{
    let tile = map.tile_dimensions();
    let count = map.dimensions();
    let (tx, cx) = (tile.x as int, count.x as int);
    let (ty, cy) = (tile.y as int, count.y as int);
    assert(tx * (cx + 1) == tx * cx + tx) by (nonlinear_arith);
    assert(ty * (cy + 1) == ty * cy + ty) by (nonlinear_arith);
    assert(2 * tx * cx == 2 * (tx * cx)) by (nonlinear_arith);
    assert(2 * ty * cy == 2 * (ty * cy)) by (nonlinear_arith);
    assert(tx * cx >= tx && (tx * cx == 1 ==> tx == 1 && cx == 1)) by (nonlinear_arith)
        requires
            0 < tx,
            0 < cx,
    ;
    assert(ty * cy >= ty && (ty * cy == 1 ==> ty == 1 && cy == 1)) by (nonlinear_arith)
        requires
            0 < ty,
            0 < cy,
    ;
}

/// The map counts columns in steps of one tile width.
pub proof fn map_steps_by_columns(map: TileMap)
    requires
        map.wf(),
    ensures
        steps_by_columns(map, grid_lookup(map)),
{
    let width = map.tile_dimensions().x as int;
    let lookup = grid_lookup(map);
    assert forall|p: WorldPoint| p.x + width <= i64::MAX implies match (
        lookup(p),
        #[trigger] lookup(moved_right(p, width)),
    ) {
        (Some(tile), Some(next)) => next.x == tile.x + 1 && next.y == tile.y && next.z == tile.z,
        _ => true,
    } by {
        let q = moved_right(p, width);
        map_answers_inside(map, p);
        map_answers_inside(map, q);
        centred_index_steps_with_tiles(p.x as int, width, map.dimensions().x as int);
    }
}

/// On the map's own grid, moving the view one tile width to the right moves
/// `min.x` and `max.x` one column to the right and changes nothing else, as
/// long as each corner lies on the grid before and after the move and the
/// bottom-right corner is not held back by the map's extent.
pub proof fn one_tile_right_moves_one_column_on_grid(
    map: TileMap,
    layer: u32,
    top_left: WorldPoint,
    bottom_right: WorldPoint,
)
    requires
        map.wf(),
        top_left.x + map.tile_dimensions().x <= i64::MAX,
        -map.half_x() <= bottom_right.x + map.tile_dimensions().x,
        bottom_right.x + 2 * map.tile_dimensions().x <= map.half_x() - map.tile_dimensions().x,
        map.world_to_tile(top_left) is Some,
        map.world_to_tile(moved_right(top_left, map.tile_dimensions().x as int)) is Some,
        map.world_to_tile(covered_bottom_right(&map, bottom_right)) is Some,
        map.world_to_tile(
            covered_bottom_right(&map, moved_right(bottom_right, map.tile_dimensions().x as int)),
        ) is Some,
    ensures
        ({
            let width = map.tile_dimensions().x as int;
            let before = compute_bounds(
                &map,
                CameraView::Corners { top_left, bottom_right },
                layer,
            );
            let after = compute_bounds(
                &map,
                CameraView::Corners {
                    top_left: moved_right(top_left, width),
                    bottom_right: moved_right(bottom_right, width),
                },
                layer,
            );
            &&& after.min.x == before.min.x + 1
            &&& after.max.x == before.max.x + 1
            &&& after.min.y == before.min.y
            &&& after.max.y == before.max.y
            &&& after.min.z == before.min.z
            &&& after.max.z == before.max.z
        }),
{
    map_steps_by_columns(map);
    one_tile_right_moves_one_column(map, layer, grid_lookup(map), top_left, bottom_right);
}

/// A small move changes the bounds little. On the map's own grid, moving the
/// view to the right by one tile width at most moves `min.x` and `max.x` on
/// by one column at most, never back, and changes nothing else, as long as
/// each corner lies on the grid before and after the move.
pub proof fn small_move_right_changes_columns_little(
    map: TileMap,
    layer: u32,
    top_left: WorldPoint,
    bottom_right: WorldPoint,
    by: int,
)
    requires
        map.wf(),
        0 <= by <= map.tile_dimensions().x,
        top_left.x + by <= i64::MAX,
        bottom_right.x + by <= i64::MAX,
        map.world_to_tile(top_left) is Some,
        map.world_to_tile(moved_right(top_left, by)) is Some,
        map.world_to_tile(covered_bottom_right(&map, bottom_right)) is Some,
        map.world_to_tile(covered_bottom_right(&map, moved_right(bottom_right, by))) is Some,
    ensures
        ({
            let before = compute_bounds(
                &map,
                CameraView::Corners { top_left, bottom_right },
                layer,
            );
            let after = compute_bounds(
                &map,
                CameraView::Corners {
                    top_left: moved_right(top_left, by),
                    bottom_right: moved_right(bottom_right, by),
                },
                layer,
            );
            &&& before.min.x <= after.min.x <= before.min.x + 1
            &&& before.max.x <= after.max.x <= before.max.x + 1
            &&& after.min.y == before.min.y
            &&& after.max.y == before.max.y
            &&& after.min.z == before.min.z
            &&& after.max.z == before.max.z
        }),
{
    let width = map.tile_dimensions().x as int;
    let count = map.dimensions().x as int;
    let target = covered_bottom_right(&map, bottom_right);
    let moved = covered_bottom_right(&map, moved_right(bottom_right, by));
    cover_stays_inside_map(map, moved_right(bottom_right, by));
    map_answers_inside(map, moved_right(top_left, by));
    map_answers_inside(map, moved);
    centred_index_grows_slowly(top_left.x as int, top_left.x + by, width, count);
    centred_index_grows_slowly(target.x as int, moved.x as int, width, count);
}

/// On the map's own grid, a camera above the middle of the map whose screen
/// shows exactly the map's extent sees every column and every row, where the
/// extent is an even number of world units wide and high, so that its half
/// is a whole number of units.
pub proof fn full_view_covers_map_on_grid(map: TileMap, layer: u32, plane: i64)
    requires
        map.wf(),
        2 * map.half_x() == map.tile_dimensions().x * map.dimensions().x,
        2 * map.half_y() == map.tile_dimensions().y * map.dimensions().y,
    ensures
        ({
            let region = compute_bounds(&map, full_view(map, plane), layer);
            &&& region.min.x == 0
            &&& region.min.y == 0
            &&& region.max.x == map.dimensions().x - 1
            &&& region.max.y == map.dimensions().y - 1
        }),
{
    let tile = map.tile_dimensions();
    let count = map.dimensions();
    half_extent_fits(tile.x, count.x);
    half_extent_fits(tile.y, count.y);
    even_extent_reaches_outer_tiles(tile.x as int, count.x as int);
    even_extent_reaches_outer_tiles(tile.y as int, count.y as int);
    assert(tile.x * count.x >= tile.x) by (nonlinear_arith)
        requires
            0 < tile.x,
            1 <= count.x,
    ;
}

/// On the map's own grid the bounds of a view whose top-left corner is not
/// right of and not below its bottom-right corner lie inside the map with
/// `min` not beyond `max`: `0 <= min <= max <= dimensions - 1` along each
/// axis. This needs `layer` to be a layer of the map where a corner lies
/// outside the grid, and the two answers not to contradict each other along
/// the depth.
pub proof fn bounds_in_order_inside_map_on_grid(
    map: TileMap,
    layer: u32,
    top_left: WorldPoint,
    bottom_right: WorldPoint,
)
    requires
        map.wf(),
        top_left.x <= bottom_right.x,
        top_left.y >= bottom_right.y,
        map.world_to_tile(top_left) is None || map.world_to_tile(
            covered_bottom_right(&map, bottom_right),
        ) is None ==> layer < map.dimensions().z,
        depth_in_order(
            layer,
            map.world_to_tile(top_left),
            map.world_to_tile(covered_bottom_right(&map, bottom_right)),
        ),
    ensures
        ({
            let region = compute_bounds(
                &map,
                CameraView::Corners { top_left, bottom_right },
                layer,
            );
            &&& region.is_ordered()
            &&& map.contains(region.min)
            &&& map.contains(region.max)
        }),
{
    let tile = map.tile_dimensions();
    let count = map.dimensions();
    let target = covered_bottom_right(&map, bottom_right);
    let first = map.world_to_tile(top_left);
    let last = map.world_to_tile(target);
    map_answers_inside(map, top_left);
    map_answers_inside(map, target);
    cover_stays_inside_map(map, bottom_right);
    if first is Some && last is Some {
        // columns
        if top_left.x <= target.x {
            centred_index_keeps_order(
                top_left.x as int,
                target.x as int,
                tile.x as int,
                count.x as int,
            );
        } else {
            // the corner was held back at the start of the last column
            if map.half_x() - tile.x >= -map.half_x() {
                inner_edge_is_in_last_tile(tile.x as int, count.x as int);
            } else {
                assert(count.x < 2) by (nonlinear_arith)
                    requires
                        tile.x * count.x < 2 * tile.x,
                        0 < tile.x,
                ;
            }
        }
        // rows
        if target.y <= top_left.y {
            centred_index_keeps_order(
                -(top_left.y as int),
                -(target.y as int),
                tile.y as int,
                count.y as int,
            );
        } else {
            // the corner was lifted to the last row
            inner_edge_is_in_last_tile(tile.y as int, count.y as int);
        }
    }
}

/// On the map's own grid a view whose top-left corner lies left of the grid
/// or above it starts at the first tile: `min == (0, 0, layer)`.
pub proof fn view_from_outside_starts_at_first_tile(
    map: TileMap,
    layer: u32,
    top_left: WorldPoint,
    bottom_right: WorldPoint,
)
    requires
        map.wf(),
        2 * top_left.x <= -(map.tile_dimensions().x * (map.dimensions().x + 1)) || 2 * top_left.y
            >= map.tile_dimensions().y * (map.dimensions().y + 1),
    ensures
        map.world_to_tile(top_left) is None,
        compute_bounds(&map, CameraView::Corners { top_left, bottom_right }, layer).min == (
            TilePoint { x: 0, y: 0, z: layer }
        ),
{
}

} // verus!
