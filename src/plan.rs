use vstd::arithmetic::power2::pow2;
use vstd::prelude::*;
use crate::config::Config;
use crate::error::Error;
use crate::extent::{TileExtent, MAX_ZOOM};
use crate::tile_grid::cells_per_axis;
use crate::window::{
    describes, is_outside, placement_fits, resolve_window, RasterGeometry, Resolution,
};

verus! {

/// What one request draws: the tile's extent and how the image maps onto it.
#[derive(Clone, Copy, Debug, PartialEq, Eq, Structural)]
pub struct TilePlan {
    /// The row in the grid's own numbering, from the bottom.
    pub grid_row: u32,
    pub extent: TileExtent,
    pub resolution: Resolution,
}

/// The grid row that request row `row` at zoom `zoom` addresses.
pub open spec fn grid_row(config: Config, zoom: nat, row: int) -> int {
    if config.reverse_y {
        pow2(zoom) - 1 - row
    } else {
        row
    }
}

/// The request names a tile whose extent the library can represent.
pub open spec fn address_valid(config: Config, zoom: nat, column: int, row: int) -> bool {
    let gr = grid_row(config, zoom, row);
    &&& zoom <= MAX_ZOOM
    &&& 0 <= gr <= u32::MAX
    &&& config.tile_grid.spec_tile_fits(column, gr, zoom)
}

/// Decides what tile `(column, row)` at zoom `zoom` of image `geometry` holds:
/// flips the row if configured, takes the tile's extent from the grid, and
/// resolves the source window and the placement in the output tile.
pub fn plan_tile(config: &Config, zoom: u8, column: u32, row: u32, geometry: &RasterGeometry) -> (r:
    Result<TilePlan, Error>)
    requires
        config.wf(),
        geometry.wf(),
    ensures
        !address_valid(*config, zoom as nat, column as int, row as int) <==> (r is Err
            && r->Err_0 is InvalidTile),
        address_valid(*config, zoom as nat, column as int, row as int) ==> {
            let gr = grid_row(*config, zoom as nat, row as int);
            let t = config.tile_grid.spec_tile_extent(column as int, gr, zoom);
            &&& (r is Err <==> is_outside(t, *geometry))
            &&& (r is Err ==> r->Err_0 is OutsideBounds)
            &&& (r is Ok ==> {
                let plan = r->Ok_0;
                &&& plan.grid_row == gr
                &&& plan.extent == t
                &&& describes(
                    plan.resolution,
                    t,
                    *geometry,
                    config.tile_width as int,
                    config.tile_height as int,
                )
                &&& placement_fits(
                    plan.resolution.placement,
                    config.tile_width as int,
                    config.tile_height as int,
                )
            })
        },
{
    if zoom > MAX_ZOOM {
        return Err(Error::InvalidTile);
    }
    let gr: u32 = if config.reverse_y {
        let n = cells_per_axis(zoom);
        if row as u64 >= n {
            return Err(Error::InvalidTile);
        }
        let flipped: u64 = n - 1 - row as u64;
        if flipped > u32::MAX as u64 {
            return Err(Error::InvalidTile);
        }
        flipped as u32
    } else {
        row
    };
    if !config.tile_grid.tile_fits(column, gr, zoom) {
        return Err(Error::InvalidTile);
    }
    let extent = config.tile_grid.tile_extent(column, gr, zoom);
    match resolve_window(&extent, geometry, config.tile_width, config.tile_height) {
        Ok(resolution) => Ok(TilePlan { grid_row: gr, extent, resolution }),
        Err(e) => Err(e),
    }
}

} // verus!
