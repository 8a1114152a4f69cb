//! Tile-geometry resolution and compositing for a raster tile server.
//!
//! Coordinates are fixed-point integers: a planar coordinate `c` of the
//! source reference system is held as `round(c * COORD_SCALE)`. A tile at
//! zoom `z` keeps its edges exactly, in units of `2^-z` of those.
//!
//! - `tile_grid`: the extent of each tile of a zoom level.
//! - `window`: which source pixels a tile reads and where they land.
//! - `composite`: the four-band output tile with its nodata mask.
//! - `plan`: the decisions of one tile request.
//! - `cache`: the file name under which a tile is kept.
pub mod extent;
pub mod rounding;
pub mod error;
pub mod window;
pub mod tile_grid;
pub mod composite;
pub mod config;
pub mod plan;
pub mod cache;
