use std::cell::RefCell;

use visible_region::{
    compute_bounds, compute_bounds_with, covered_bottom_right, region_from_lookups, CameraView,
    Dimensions, Region, TileMap, TilePoint, WorldPoint, DRAWING_PLANE_Z,
};

fn map(dimensions: (u32, u32, u32), tile: (u32, u32, u32)) -> TileMap {
    TileMap::new(
        Dimensions::new(dimensions.0, dimensions.1, dimensions.2),
        Dimensions::new(tile.0, tile.1, tile.2),
    )
    .expect("no extent is zero")
}

/// A lookup in the manner of a tile engine, in floating point: tile
/// `(i, j, k)` is centred on `(tile.x * (i - dimensions.x / 2),
/// tile.y * (dimensions.y / 2 - j))` and starts at depth `tile.z * k`.
fn engine_lookup(
    dimensions: (u32, u32, u32),
    tile: (u32, u32, u32),
) -> impl Fn(WorldPoint) -> Option<TilePoint> {
    move |p: WorldPoint| {
        let x = (p.x as f64 / tile.0 as f64 + dimensions.0 as f64 / 2.0).round();
        let y = -(p.y as f64 / tile.1 as f64 - dimensions.1 as f64 / 2.0).round();
        let z = (p.z as f64 / tile.2 as f64).floor();
        if x < 0.0
            || x >= dimensions.0 as f64
            || y < 0.0
            || y >= dimensions.1 as f64
            || z < 0.0
            || z >= dimensions.2 as f64
        {
            None
        } else {
            Some(TilePoint::new(x as u32, y as u32, z as u32))
        }
    }
}

fn corners(top_left: (i64, i64, i64), bottom_right: (i64, i64, i64)) -> CameraView {
    CameraView::Corners {
        top_left: WorldPoint::new(top_left.0, top_left.1, top_left.2),
        bottom_right: WorldPoint::new(bottom_right.0, bottom_right.1, bottom_right.2),
    }
}

#[test]
fn drawing_plane_is_at_depth_five() {
    assert_eq!(DRAWING_PLANE_Z, 5);
}

#[test]
fn ten_by_ten_map_under_a_centred_camera_is_fully_visible() {
    let m = map((10, 10, 1), (32, 32, 1));
    let view = corners((-160, 160, DRAWING_PLANE_Z), (160, -160, DRAWING_PLANE_Z));
    let region = compute_bounds_with(&m, view, 0, engine_lookup((10, 10, 1), (32, 32, 1)));
    assert_eq!(region.min, TilePoint::new(0, 0, 0));
    assert_eq!(region.max, TilePoint::new(9, 9, 0));
}

#[test]
fn no_camera_gives_the_empty_region() {
    let m = map((10, 10, 1), (32, 32, 1));
    let region = compute_bounds_with(&m, CameraView::NoCamera, 3, engine_lookup((10, 10, 1), (32, 32, 1)));
    assert_eq!(region, Region::empty());
    assert_eq!(region.min, TilePoint::new(0, 0, 0));
    assert_eq!(region.max, TilePoint::new(0, 0, 0));
}

#[test]
fn ray_that_misses_the_plane_gives_the_empty_region() {
    let m = map((10, 10, 1), (32, 32, 1));
    let region =
        compute_bounds_with(&m, CameraView::NoIntersection, 3, engine_lookup((10, 10, 1), (32, 32, 1)));
    assert_eq!(region, Region::empty());
}

#[test]
fn no_lookup_is_made_without_corners() {
    let m = map((4, 4, 1), (8, 8, 1));
    let asked = RefCell::new(0u32);
    let lookup = |_: WorldPoint| -> Option<TilePoint> {
        *asked.borrow_mut() += 1;
        Some(TilePoint::new(1, 1, 0))
    };
    assert_eq!(compute_bounds_with(&m, CameraView::NoCamera, 0, &lookup), Region::empty());
    assert_eq!(compute_bounds_with(&m, CameraView::NoIntersection, 0, &lookup), Region::empty());
    assert_eq!(*asked.borrow(), 0);
}

#[test]
fn lookup_is_asked_for_the_top_left_and_the_covered_bottom_right() {
    let m = map((10, 10, 1), (32, 32, 1));
    let asked: RefCell<Vec<WorldPoint>> = RefCell::new(Vec::new());
    let lookup = |p: WorldPoint| -> Option<TilePoint> {
        asked.borrow_mut().push(p);
        None
    };
    let region = compute_bounds_with(&m, corners((-40, 70, 5), (10, -20, 5)), 0, &lookup);
    assert_eq!(
        *asked.borrow(),
        vec![WorldPoint::new(-40, 70, 5), WorldPoint::new(42, -52, 0)]
    );
    assert_eq!(region, Region::new(TilePoint::new(0, 0, 0), TilePoint::new(9, 9, 0)));
}

#[test]
fn answers_of_the_lookup_become_the_corners() {
    let m = map((10, 10, 4), (32, 32, 1));
    let lookup = |p: WorldPoint| -> Option<TilePoint> {
        if p.x < 0 {
            Some(TilePoint::new(2, 3, 1))
        } else {
            Some(TilePoint::new(7, 8, 1))
        }
    };
    let region = compute_bounds_with(&m, corners((-40, 70, 1), (10, -20, 1)), 0, lookup);
    assert_eq!(region, Region::new(TilePoint::new(2, 3, 1), TilePoint::new(7, 8, 1)));
}

#[test]
fn view_of_the_whole_extent_covers_every_column_and_row() {
    for &(dimensions, tile) in &[
        ((10u32, 10u32, 1u32), (32u32, 32u32, 1u32)),
        ((3, 5, 1), (16, 8, 1)),
        ((7, 2, 1), (3, 5, 1)),
        ((2, 1, 1), (1, 1, 1)),
        ((64, 48, 2), (24, 24, 4)),
    ] {
        let m = map(dimensions, tile);
        let half = m.half_dimensions();
        let view = corners((-half.x, half.y, 0), (half.x, -half.y, 0));
        let region = compute_bounds_with(&m, view, 0, engine_lookup(dimensions, tile));
        assert_eq!((region.min.x, region.min.y), (0, 0));
        assert_eq!((region.max.x, region.max.y), (dimensions.0 - 1, dimensions.1 - 1));
    }
}

#[test]
fn one_tile_to_the_right_is_one_column_more() {
    let dimensions = (10, 10, 8);
    let tile = (32, 32, 1);
    let m = map(dimensions, tile);
    let before = compute_bounds_with(
        &m,
        corners((-100, 50, 3), (20, -30, 3)),
        0,
        engine_lookup(dimensions, tile),
    );
    let after = compute_bounds_with(
        &m,
        corners((-100 + 32, 50, 3), (20 + 32, -30, 3)),
        0,
        engine_lookup(dimensions, tile),
    );
    assert_eq!(before, Region::new(TilePoint::new(2, 3, 3), TilePoint::new(7, 7, 3)));
    assert_eq!(after, Region::new(TilePoint::new(3, 3, 3), TilePoint::new(8, 7, 3)));
}

#[test]
fn at_the_right_edge_a_move_to_the_right_keeps_the_last_column() {
    let dimensions = (10, 10, 8);
    let tile = (32, 32, 1);
    let m = map(dimensions, tile);
    let before = compute_bounds_with(
        &m,
        corners((0, 50, 3), (120, -30, 3)),
        0,
        engine_lookup(dimensions, tile),
    );
    let after = compute_bounds_with(
        &m,
        corners((32, 50, 3), (152, -30, 3)),
        0,
        engine_lookup(dimensions, tile),
    );
    assert_eq!(before.max.x, 9);
    assert_eq!(after.max.x, 9);
    assert_eq!(before.min.x + 1, after.min.x);
}

#[test]
fn asking_twice_gives_the_same_region() {
    let dimensions = (10, 10, 8);
    let tile = (32, 32, 1);
    let m = map(dimensions, tile);
    let view = corners((-77, 91, 2), (13, -45, 2));
    let first = compute_bounds_with(&m, view, 1, engine_lookup(dimensions, tile));
    let second = compute_bounds_with(&m, view, 1, engine_lookup(dimensions, tile));
    assert_eq!(first, second);
}

#[test]
fn top_left_off_the_grid_gives_the_first_tile() {
    let dimensions = (10, 10, 8);
    let tile = (32, 32, 1);
    let m = map(dimensions, tile);
    let region = compute_bounds_with(
        &m,
        corners((-1000, 1000, 2), (0, 0, 2)),
        2,
        engine_lookup(dimensions, tile),
    );
    assert_eq!(region.min, TilePoint::new(0, 0, 2));
    assert_eq!(region.max, TilePoint::new(6, 6, 2));
}

#[test]
fn bottom_right_off_the_grid_gives_the_last_tile() {
    let m = map((10, 6, 4), (32, 32, 1));
    let region = compute_bounds_with(&m, corners((0, 0, 0), (50, -50, 0)), 3, |_: WorldPoint| None);
    assert_eq!(region.min, TilePoint::new(0, 0, 3));
    assert_eq!(region.max, TilePoint::new(9, 5, 3));
}

#[test]
fn bounds_lie_inside_the_map_in_order() {
    let dimensions = (10, 10, 8);
    let tile = (32, 32, 1);
    let m = map(dimensions, tile);
    for &(left, top, right, bottom) in &[
        (-160i64, 160i64, 160i64, -160i64),
        (-500, 500, 500, -500),
        (-10, 10, 10, -10),
        (90, -70, 400, -300),
        (-400, 300, -90, 70),
        (159, -159, 160, -160),
    ] {
        let region = compute_bounds_with(
            &m,
            corners((left, top, 2), (right, bottom, 2)),
            2,
            engine_lookup(dimensions, tile),
        );
        assert!(m.contains(region.min));
        assert!(m.contains(region.max));
        assert!(region.min.is_le(&region.max));
    }
}

#[test]
fn bounds_can_come_out_of_order_along_the_depth() {
    // The top-left corner is looked up at the depth of the view, the
    // bottom-right one at a depth held inside the map.
    let dimensions = (10, 10, 8);
    let tile = (32, 32, 1);
    let m = map(dimensions, tile);
    let region = compute_bounds_with(
        &m,
        corners((-160, 160, 5), (160, -160, 5)),
        0,
        engine_lookup(dimensions, tile),
    );
    assert_eq!(region.min, TilePoint::new(0, 0, 5));
    assert_eq!(region.max, TilePoint::new(9, 9, 4));
}

#[test]
fn bottom_right_is_covered_by_one_tile() {
    let m = map((10, 10, 1), (32, 16, 1));
    assert_eq!(
        covered_bottom_right(&m, WorldPoint::new(10, -20, 0)),
        WorldPoint::new(42, -36, 0)
    );
    assert_eq!(
        covered_bottom_right(&m, WorldPoint::new(-150, 60, 0)),
        WorldPoint::new(-118, 44, 0)
    );
}

#[test]
fn covered_bottom_right_stops_at_the_last_column_and_row() {
    let m = map((10, 10, 1), (32, 16, 1));
    // half extents: 160 and 80
    assert_eq!(
        covered_bottom_right(&m, WorldPoint::new(160, -80, 0)),
        WorldPoint::new(128, -64, 0)
    );
    assert_eq!(
        covered_bottom_right(&m, WorldPoint::new(96, -48, 0)),
        WorldPoint::new(128, -64, 0)
    );
    assert_eq!(
        covered_bottom_right(&m, WorldPoint::new(95, -47, 0)),
        WorldPoint::new(127, -63, 0)
    );
    assert_eq!(
        covered_bottom_right(&m, WorldPoint::new(5000, -5000, 0)),
        WorldPoint::new(128, -64, 0)
    );
}

#[test]
fn covered_bottom_right_stops_at_the_left_and_top_of_the_map() {
    let m = map((10, 10, 1), (32, 16, 1));
    assert_eq!(
        covered_bottom_right(&m, WorldPoint::new(-5000, 5000, 0)),
        WorldPoint::new(-160, 64, 0)
    );
    assert_eq!(
        covered_bottom_right(&m, WorldPoint::new(-192, 80, 0)),
        WorldPoint::new(-160, 64, 0)
    );
    assert_eq!(
        covered_bottom_right(&m, WorldPoint::new(-191, 79, 0)),
        WorldPoint::new(-159, 63, 0)
    );
}

#[test]
fn covered_bottom_right_keeps_the_depth_inside_the_map() {
    let m = map((10, 10, 6), (32, 32, 2));
    // half depth: 6
    assert_eq!(covered_bottom_right(&m, WorldPoint::new(0, 0, 5)).z, 5);
    assert_eq!(covered_bottom_right(&m, WorldPoint::new(0, 0, 6)).z, 6);
    assert_eq!(covered_bottom_right(&m, WorldPoint::new(0, 0, 7)).z, 6);
    assert_eq!(covered_bottom_right(&m, WorldPoint::new(0, 0, -6)).z, -6);
    assert_eq!(covered_bottom_right(&m, WorldPoint::new(0, 0, -7)).z, -6);
    let flat = map((10, 10, 1), (32, 32, 1));
    assert_eq!(covered_bottom_right(&flat, WorldPoint::new(0, 0, DRAWING_PLANE_Z)).z, 0);
}

#[test]
fn on_a_map_of_one_tile_the_lower_limit_wins() {
    let m = map((1, 1, 1), (32, 32, 1));
    // half extents: 16; the upper limit 16 - 32 lies below the lower ones
    assert_eq!(
        covered_bottom_right(&m, WorldPoint::new(0, 0, 0)),
        WorldPoint::new(-16, 16, 0)
    );
    assert_eq!(
        covered_bottom_right(&m, WorldPoint::new(-1000, 1000, 0)),
        WorldPoint::new(-16, 16, 0)
    );
    assert_eq!(
        covered_bottom_right(&m, WorldPoint::new(1000, -1000, 0)),
        WorldPoint::new(-16, 16, 0)
    );
}

#[test]
fn covered_bottom_right_takes_the_largest_coordinates() {
    let m = map((u32::MAX, u32::MAX, u32::MAX), (u32::MAX, u32::MAX, u32::MAX));
    let half: i64 = 9223372032559808512;
    let tile: i64 = 4294967295;
    assert_eq!(
        covered_bottom_right(&m, WorldPoint::new(i64::MAX, i64::MIN, i64::MAX)),
        WorldPoint::new(half - tile, -half + tile, half)
    );
    assert_eq!(
        covered_bottom_right(&m, WorldPoint::new(i64::MIN, i64::MAX, i64::MIN)),
        WorldPoint::new(-half, half - tile, -half)
    );
    let small = map((1, 1, 1), (1, 1, 1));
    assert_eq!(
        covered_bottom_right(&small, WorldPoint::new(i64::MAX, i64::MIN, i64::MAX)),
        WorldPoint::new(0, 1, 0)
    );
}

#[test]
fn missing_corners_are_replaced_by_the_corners_of_the_grid() {
    let m = map((10, 6, 4), (32, 32, 1));
    let a = TilePoint::new(2, 1, 0);
    let b = TilePoint::new(5, 4, 0);
    assert_eq!(region_from_lookups(&m, 3, Some(a), Some(b)), Region::new(a, b));
    assert_eq!(
        region_from_lookups(&m, 3, None, Some(b)),
        Region::new(TilePoint::new(0, 0, 3), b)
    );
    assert_eq!(
        region_from_lookups(&m, 3, Some(a), None),
        Region::new(a, TilePoint::new(9, 5, 3))
    );
    assert_eq!(
        region_from_lookups(&m, 3, None, None),
        Region::new(TilePoint::new(0, 0, 3), TilePoint::new(9, 5, 3))
    );
}

#[test]
fn replaced_corners_take_the_layer_as_it_is_given() {
    let m = map((10, 6, 1), (32, 32, 1));
    let region = region_from_lookups(&m, 7, None, None);
    assert_eq!(region.min, TilePoint::new(0, 0, 7));
    assert_eq!(region.max, TilePoint::new(9, 5, 7));
    assert!(!m.contains(region.min));
}

#[test]
fn map_with_its_own_lookup_sees_the_ten_by_ten_map_in_full() {
    let m = map((10, 10, 1), (32, 32, 1));
    let view = corners((-160, 160, DRAWING_PLANE_Z), (160, -160, DRAWING_PLANE_Z));
    let region = compute_bounds(&m, view, 0);
    assert_eq!(region, Region::new(TilePoint::new(0, 0, 0), TilePoint::new(9, 9, 0)));
}

#[test]
fn map_with_its_own_lookup_has_nothing_to_draw_without_corners() {
    let m = map((10, 10, 1), (32, 32, 1));
    assert_eq!(compute_bounds(&m, CameraView::NoCamera, 0), Region::empty());
    assert_eq!(compute_bounds(&m, CameraView::NoIntersection, 0), Region::empty());
}

#[test]
fn map_with_its_own_lookup_finds_the_tiles_under_the_corners() {
    let m = map((10, 10, 8), (32, 32, 1));
    let region = compute_bounds(&m, corners((-100, 50, 3), (20, -30, 3)), 0);
    assert_eq!(region, Region::new(TilePoint::new(2, 3, 3), TilePoint::new(7, 7, 3)));
    let moved = compute_bounds(&m, corners((-68, 50, 3), (52, -30, 3)), 0);
    assert_eq!(moved, Region::new(TilePoint::new(3, 3, 3), TilePoint::new(8, 7, 3)));
}

#[test]
fn map_with_its_own_lookup_starts_at_the_first_tile_for_a_view_from_outside() {
    let m = map((10, 10, 8), (32, 32, 1));
    // the grid begins at x == -176 and ends at y == 176
    let from_left = compute_bounds(&m, corners((-177, 0, 2), (0, -50, 2)), 4);
    assert_eq!(from_left.min, TilePoint::new(0, 0, 4));
    let from_above = compute_bounds(&m, corners((0, 177, 2), (0, -50, 2)), 4);
    assert_eq!(from_above.min, TilePoint::new(0, 0, 4));
    let inside = compute_bounds(&m, corners((-175, 175, 2), (0, -50, 2)), 4);
    assert_eq!(inside.min, TilePoint::new(0, 0, 2));
}

#[test]
fn both_lookups_give_the_same_bounds() {
    for &(dimensions, tile) in &[
        ((10u32, 10u32, 8u32), (32u32, 32u32, 1u32)),
        ((3, 5, 2), (16, 8, 4)),
        ((7, 2, 1), (3, 5, 1)),
        ((1, 1, 1), (1, 1, 1)),
    ] {
        let m = map(dimensions, tile);
        for left in (-200i64..200).step_by(37) {
            for top in (-200i64..200).step_by(41) {
                for z in [-1i64, 0, 1, 5] {
                    let view = corners((left, top, z), (left + 90, top - 70, z));
                    assert_eq!(
                        compute_bounds(&m, view, 0),
                        compute_bounds_with(&m, view, 0, engine_lookup(dimensions, tile))
                    );
                }
            }
        }
    }
}

#[test]
fn world_to_tile_agrees_with_rounding_in_floating_point() {
    for &(dimensions, tile) in &[
        ((10u32, 10u32, 8u32), (32u32, 32u32, 1u32)),
        ((3, 5, 2), (16, 8, 4)),
        ((7, 2, 1), (3, 5, 1)),
        ((4, 4, 3), (2, 2, 2)),
        ((5, 5, 5), (1, 1, 1)),
        ((1, 1, 1), (1, 1, 1)),
    ] {
        let m = map(dimensions, tile);
        let lookup = engine_lookup(dimensions, tile);
        for x in -200i64..200 {
            for y in [-200i64, -81, -80, -79, -21, -20, -19, -1, 0, 1, 2, 3, 19, 20, 21, 79, 80] {
                for z in [-1i64, 0, 1, 3, 7, 8] {
                    let p = WorldPoint::new(x, y, z);
                    assert_eq!(m.world_to_tile(p), lookup(p), "at {:?}", p);
                    let q = WorldPoint::new(y, x, z);
                    assert_eq!(m.world_to_tile(q), lookup(q), "at {:?}", q);
                }
            }
        }
    }
}

#[test]
fn world_to_tile_finds_the_tile_around_its_centre() {
    let m = map((10, 10, 2), (32, 32, 4));
    // column 0 is centred on x == -160, row 0 on y == 160
    assert_eq!(m.world_to_tile(WorldPoint::new(-160, 160, 0)), Some(TilePoint::new(0, 0, 0)));
    assert_eq!(m.world_to_tile(WorldPoint::new(-145, 145, 3)), Some(TilePoint::new(0, 0, 0)));
    assert_eq!(m.world_to_tile(WorldPoint::new(-144, 144, 4)), Some(TilePoint::new(1, 1, 1)));
    assert_eq!(m.world_to_tile(WorldPoint::new(0, 0, 7)), Some(TilePoint::new(5, 5, 1)));
    assert_eq!(m.world_to_tile(WorldPoint::new(128, -128, 0)), Some(TilePoint::new(9, 9, 0)));
    assert_eq!(m.world_to_tile(WorldPoint::new(143, -143, 0)), Some(TilePoint::new(9, 9, 0)));
}

#[test]
fn world_to_tile_finds_nothing_outside_the_grid() {
    let m = map((10, 10, 2), (32, 32, 4));
    // the outer edges themselves lie outside
    assert_eq!(m.world_to_tile(WorldPoint::new(-176, 0, 0)), None);
    assert_eq!(m.world_to_tile(WorldPoint::new(-175, 0, 0)), Some(TilePoint::new(0, 5, 0)));
    assert_eq!(m.world_to_tile(WorldPoint::new(144, 0, 0)), None);
    assert_eq!(m.world_to_tile(WorldPoint::new(143, 0, 0)), Some(TilePoint::new(9, 5, 0)));
    assert_eq!(m.world_to_tile(WorldPoint::new(0, 176, 0)), None);
    assert_eq!(m.world_to_tile(WorldPoint::new(0, 175, 0)), Some(TilePoint::new(5, 0, 0)));
    assert_eq!(m.world_to_tile(WorldPoint::new(0, -144, 0)), None);
    assert_eq!(m.world_to_tile(WorldPoint::new(0, -143, 0)), Some(TilePoint::new(5, 9, 0)));
    assert_eq!(m.world_to_tile(WorldPoint::new(0, 0, -1)), None);
    assert_eq!(m.world_to_tile(WorldPoint::new(0, 0, 8)), None);
    assert_eq!(m.world_to_tile(WorldPoint::new(0, 0, 7)), Some(TilePoint::new(5, 5, 1)));
}

#[test]
fn world_to_tile_takes_the_largest_coordinates() {
    let all = (u32::MAX, u32::MAX, u32::MAX);
    let m = map(all, all);
    assert_eq!(m.world_to_tile(WorldPoint::new(i64::MAX, 0, 0)), None);
    assert_eq!(m.world_to_tile(WorldPoint::new(i64::MIN, 0, 0)), None);
    assert_eq!(m.world_to_tile(WorldPoint::new(0, i64::MAX, 0)), None);
    assert_eq!(m.world_to_tile(WorldPoint::new(0, i64::MIN, 0)), None);
    assert_eq!(m.world_to_tile(WorldPoint::new(0, 0, i64::MIN)), None);
    assert_eq!(
        m.world_to_tile(WorldPoint::new(0, 0, i64::MAX)),
        Some(TilePoint::new(2147483648, 2147483648, 2147483648))
    );
}

#[test]
fn world_to_tile_on_a_map_of_one_tile() {
    // the tile is centred on (-1, 1) and reaches one unit to each side
    let single = map((1, 1, 1), (2, 2, 2));
    assert_eq!(single.world_to_tile(WorldPoint::new(-1, 1, 0)), Some(TilePoint::new(0, 0, 0)));
    assert_eq!(single.world_to_tile(WorldPoint::new(-1, 1, 1)), Some(TilePoint::new(0, 0, 0)));
    assert_eq!(single.world_to_tile(WorldPoint::new(-2, 1, 0)), None);
    assert_eq!(single.world_to_tile(WorldPoint::new(0, 1, 0)), None);
    assert_eq!(single.world_to_tile(WorldPoint::new(-1, 2, 0)), None);
    assert_eq!(single.world_to_tile(WorldPoint::new(-1, 0, 0)), None);
    assert_eq!(single.world_to_tile(WorldPoint::new(-1, 1, 2)), None);
    // a tile of one unit holds no whole position at all
    let unit = map((1, 1, 1), (1, 1, 1));
    for x in -2i64..3 {
        for y in -2i64..3 {
            assert_eq!(unit.world_to_tile(WorldPoint::new(x, y, 0)), None);
        }
    }
}

#[test]
fn a_move_of_less_than_a_tile_changes_the_columns_by_one_at_most() {
    let m = map((10, 10, 8), (32, 32, 1));
    let before = compute_bounds(&m, corners((-100, 50, 3), (20, -30, 3)), 0);
    for by in 0i64..=32 {
        let after = compute_bounds(&m, corners((-100 + by, 50, 3), (20 + by, -30, 3)), 0);
        assert!(before.min.x <= after.min.x && after.min.x <= before.min.x + 1);
        assert!(before.max.x <= after.max.x && after.max.x <= before.max.x + 1);
        assert_eq!((after.min.y, after.min.z), (before.min.y, before.min.z));
        assert_eq!((after.max.y, after.max.z), (before.max.y, before.max.z));
    }
    // the top-left corner crosses into column 3 at x == -80, the covered
    // bottom-right corner into column 8 at x == 80
    assert_eq!(
        compute_bounds(&m, corners((-100 + 19, 50, 3), (20 + 19, -30, 3)), 0),
        Region::new(TilePoint::new(2, 3, 3), TilePoint::new(7, 7, 3))
    );
    assert_eq!(
        compute_bounds(&m, corners((-100 + 20, 50, 3), (20 + 20, -30, 3)), 0),
        Region::new(TilePoint::new(3, 3, 3), TilePoint::new(7, 7, 3))
    );
    assert_eq!(
        compute_bounds(&m, corners((-100 + 28, 50, 3), (20 + 28, -30, 3)), 0),
        Region::new(TilePoint::new(3, 3, 3), TilePoint::new(8, 7, 3))
    );
}

#[test]
fn full_view_of_a_map_with_an_odd_extent_starts_one_column_late() {
    // half of three units is one unit and a half: in whole units the view
    // begins half a unit inside the extent, on the edge of the second column
    let m = map((3, 3, 1), (1, 1, 1));
    let half = m.half_dimensions();
    assert_eq!((half.x, half.y), (1, 1));
    let region = compute_bounds(&m, corners((-1, 1, 0), (1, -1, 0)), 0);
    assert_eq!(region, Region::new(TilePoint::new(1, 1, 0), TilePoint::new(2, 2, 0)));
}
