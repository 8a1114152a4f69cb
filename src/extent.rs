use vstd::arithmetic::power2::pow2;
use vstd::prelude::*;

verus! {

/// Integer coordinate units per unit of the planar reference system.
pub const COORD_SCALE: i64 = 1000000000;

/// Largest magnitude of a coordinate that the geometry accepts (2^60).
pub const COORD_LIMIT: i64 = 1152921504606846976;

/// An axis-aligned rectangle in a planar reference system, in fixed-point units.
#[derive(Clone, Copy, Debug, PartialEq, Eq, Structural)]
pub struct Extent {
    pub xmin: i64,
    pub ymin: i64,
    pub xmax: i64,
    pub ymax: i64,
}

/// Deepest zoom level whose tiles the geometry handles.
pub const MAX_ZOOM: u8 = 30;

pub open spec fn coord_in_range(c: int) -> bool {
    -COORD_LIMIT <= c <= COORD_LIMIT
}

pub open spec fn min_int(a: int, b: int) -> int {
    if a <= b { a } else { b }
}

pub open spec fn max_int(a: int, b: int) -> int {
    if a >= b { a } else { b }
}

impl Extent {
    /// A valid extent has a positive width and height.
    pub open spec fn valid(&self) -> bool {
        self.xmin < self.xmax && self.ymin < self.ymax
    }

    /// Every coordinate lies within `[-COORD_LIMIT, COORD_LIMIT]`.
    pub open spec fn in_range(&self) -> bool {
        coord_in_range(self.xmin as int) && coord_in_range(self.ymin as int)
            && coord_in_range(self.xmax as int) && coord_in_range(self.ymax as int)
    }

    pub open spec fn spec_intersect(&self, o: Extent) -> Extent {
        Extent {
            xmin: max_int(self.xmin as int, o.xmin as int) as i64,
            ymin: max_int(self.ymin as int, o.ymin as int) as i64,
            xmax: min_int(self.xmax as int, o.xmax as int) as i64,
            ymax: min_int(self.ymax as int, o.ymax as int) as i64,
        }
    }

    /// `o` lies within `self` (boundaries included).
    pub open spec fn spec_contains(&self, o: Extent) -> bool {
        self.xmin <= o.xmin && o.xmax <= self.xmax && self.ymin <= o.ymin && o.ymax <= self.ymax
    }

    /// The point `(x, y)` lies in the half-open rectangle `[xmin, xmax) x [ymin, ymax)`.
    pub open spec fn holds_point(&self, x: int, y: int) -> bool {
        self.xmin <= x < self.xmax && self.ymin <= y < self.ymax
    }

    pub fn new(xmin: i64, ymin: i64, xmax: i64, ymax: i64) -> (r: Extent)
        ensures
            r == (Extent { xmin, ymin, xmax, ymax }),
    {
        Extent { xmin, ymin, xmax, ymax }
    }

    pub fn is_valid(&self) -> (r: bool)
        ensures
            r == self.valid(),
    {
        self.xmin < self.xmax && self.ymin < self.ymax
    }

    /// The common part of two rectangles; degenerate when they do not overlap.
    pub fn intersect(&self, o: &Extent) -> (r: Extent)
        ensures
            r == self.spec_intersect(*o),
    {
        Extent {
            xmin: if self.xmin >= o.xmin { self.xmin } else { o.xmin },
            ymin: if self.ymin >= o.ymin { self.ymin } else { o.ymin },
            xmax: if self.xmax <= o.xmax { self.xmax } else { o.xmax },
            ymax: if self.ymax <= o.ymax { self.ymax } else { o.ymax },
        }
    }

    pub fn contains(&self, o: &Extent) -> (r: bool)
        ensures
            r == self.spec_contains(*o),
    {
        self.xmin <= o.xmin && o.xmax <= self.xmax && self.ymin <= o.ymin && o.ymax <= self.ymax
    }
}

/// A rectangle whose edges are held in units of `2^-zoom` fixed-point units:
/// the edge `xmin` stands for the coordinate `xmin / 2^zoom`. Tiles keep their
/// exact edges this way, however deep the zoom.
#[derive(Clone, Copy, Debug, PartialEq, Eq, Structural)]
pub struct TileExtent {
    pub zoom: u8,
    pub xmin: i128,
    pub ymin: i128,
    pub xmax: i128,
    pub ymax: i128,
}

impl TileExtent {
    /// The number of edge units in one fixed-point unit, `2^zoom`.
    pub open spec fn scale(&self) -> int {
        pow2(self.zoom as nat) as int
    }

    pub open spec fn valid(&self) -> bool {
        self.xmin < self.xmax && self.ymin < self.ymax
    }

    /// The zoom is at most `MAX_ZOOM` and every edge lies within
    /// `[-COORD_LIMIT, COORD_LIMIT]`.
    pub open spec fn in_range(&self) -> bool {
        let b = self.scale() * COORD_LIMIT;
        &&& self.zoom <= MAX_ZOOM
        &&& -b <= self.xmin <= b
        &&& -b <= self.ymin <= b
        &&& -b <= self.xmax <= b
        &&& -b <= self.ymax <= b
    }

    /// An extent taken as it is, at zoom `0`.
    pub fn from_extent(e: Extent) -> (r: TileExtent)
        ensures
            r == (TileExtent {
                zoom: 0,
                xmin: e.xmin as i128,
                ymin: e.ymin as i128,
                xmax: e.xmax as i128,
                ymax: e.ymax as i128,
            }),
    {
        TileExtent {
            zoom: 0,
            xmin: e.xmin as i128,
            ymin: e.ymin as i128,
            xmax: e.xmax as i128,
            ymax: e.ymax as i128,
        }
    }
}

} // verus!
