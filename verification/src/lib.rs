//! Which tiles of a tile map does a camera see?
//!
//! A tile renderer only wants to draw the tiles that are on screen. Given where
//! the rays through two opposite corners of the screen meet the drawing plane,
//! this crate works out the inclusive range of tile indices to draw, and proves
//! what it promises about that range.
//!
//! The crate measures the world in whole world units and never touches the
//! camera itself: the caller casts the rays. The tile under a world point is
//! found either by the map of this crate, [`TileMap::world_to_tile`], or by a
//! function that the caller hands over, as an engine with tile maps of its
//! own will do.
//!
//! - [`bounds`]: from the view to the range of tiles, [`compute_bounds`] and
//!   [`compute_bounds_with`]
//! - [`camera`]: which camera to look through
//! - [`tile_map`], [`region`], [`point`]: the map, ranges of tiles, points
//! - [`theorems`]: what holds of the bounds for every map and view

pub mod bounds;
pub mod camera;
pub mod point;
pub mod region;
pub mod theorems;
pub mod tile_map;

pub use bounds::{
    compute_bounds, compute_bounds_with, covered_bottom_right, region_from_lookups, CameraView,
    DRAWING_PLANE_Z,
};
pub use camera::select_camera;
pub use point::{Dimensions, TilePoint, WorldPoint};
pub use region::Region;
pub use tile_map::TileMap;
