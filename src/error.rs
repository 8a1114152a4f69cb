use vstd::prelude::*;

verus! {

/// Why a tile could not be produced.
#[derive(Debug)]
pub enum Error {
    /// The tile and the image do not overlap: there is nothing to draw.
    OutsideBounds,
    /// The tile address names no extent: the zoom is too deep, the row lies
    /// beyond the grid while rows are flipped, or the extent leaves the
    /// accepted coordinate range.
    InvalidTile,
    /// The raster source or the image encoder failed.
    Raster(String),
    /// Reading or writing the tile cache failed.
    Storage(String),
}

impl Error {
    /// The HTTP status that reports this error: not found for a tile without
    /// content, an internal error for everything else.
    pub fn status_code(&self) -> (r: u16)
        ensures
            r == (if self is OutsideBounds { 404u16 } else { 500u16 }),
    {
        match self {
            Error::OutsideBounds => 404,
            _ => 500,
        }
    }
}

} // verus!
