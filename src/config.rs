use vstd::prelude::*;
use crate::tile_grid::TileGrid;

verus! {

/// What the server needs to know to cut tiles.
#[derive(Clone, Copy, Debug, PartialEq, Eq, Structural)]
pub struct Config {
    pub tile_grid: TileGrid,
    /// Rows are counted from the top of the grid in requests.
    pub reverse_y: bool,
    pub tile_width: u32,
    pub tile_height: u32,
}

impl Config {
    pub open spec fn wf(&self) -> bool {
        self.tile_grid.wf()
    }
}

} // verus!
