use vstd::arithmetic::div_mod::lemma_fundamental_div_mod;
use vstd::arithmetic::power2::{
    lemma2_to64, lemma_pow2_pos, lemma_pow2_strictly_increases, lemma_pow2_unfold, pow2,
};
use vstd::prelude::*;
use crate::extent::{TileExtent, COORD_LIMIT, MAX_ZOOM};
use crate::window::lemma_scale_bounds;
pub use crate::extent::Extent;

verus! {

/// Half of the side of the square world extent of the spherical Mercator
/// projection, in fixed-point units (20037508.342789248 m).
pub const MERCATOR_ORIGIN_SHIFT: i64 = 20037508342789248;

/// The partition of a global extent into `2^z x 2^z` cells at each zoom `z`.
#[derive(Clone, Copy, Debug, PartialEq, Eq, Structural)]
pub struct TileGrid {
    pub extent: Extent,
}

/// Edge `i` of the `2^z` cells that split `[min, max]`, in units of `2^-z`:
/// it stands for `min + (max - min) i / 2^z`.
pub open spec fn cell_edge(min: int, max: int, i: int, z: nat) -> int {
    pow2(z) * min + (max - min) * i
}

/// Cell `i` of the `2^z` cells that split `[min, max]` holds the point `q / d`,
/// its end excluded.
pub open spec fn cell_holds(min: int, max: int, i: int, z: nat, q: int, d: int) -> bool {
    cell_edge(min, max, i, z) * d <= q * pow2(z) < cell_edge(min, max, i + 1, z) * d
}

/// Tile `(c, r)` at zoom `z` of the grid over `g` holds the point `(qx / d, qy / d)`.
pub open spec fn tile_holds(g: Extent, z: nat, c: int, r: int, qx: int, qy: int, d: int) -> bool {
    cell_holds(g.xmin as int, g.xmax as int, c, z, qx, d) && cell_holds(
        g.ymin as int,
        g.ymax as int,
        r,
        z,
        qy,
        d,
    )
}

/// An edge in units of `2^-z` stands within `[-COORD_LIMIT, COORD_LIMIT]`.
pub open spec fn edge_in_range(e: int, z: nat) -> bool {
    -(pow2(z) * COORD_LIMIT) <= e <= pow2(z) * COORD_LIMIT
}

impl TileGrid {
    pub open spec fn wf(&self) -> bool {
        self.extent.valid() && self.extent.in_range()
    }

    /// The exact extent of tile `(x, y)` at zoom `z`, with row `0` at the
    /// grid's bottom.
    pub open spec fn spec_tile_extent(&self, x: int, y: int, z: u8) -> TileExtent {
        let g = self.extent;
        TileExtent {
            zoom: z,
            xmin: cell_edge(g.xmin as int, g.xmax as int, x, z as nat) as i128,
            ymin: cell_edge(g.ymin as int, g.ymax as int, y, z as nat) as i128,
            xmax: cell_edge(g.xmin as int, g.xmax as int, x + 1, z as nat) as i128,
            ymax: cell_edge(g.ymin as int, g.ymax as int, y + 1, z as nat) as i128,
        }
    }

    /// Every edge of tile `(x, y)` at zoom `z` lies in the accepted range.
    pub open spec fn spec_tile_fits(&self, x: int, y: int, z: nat) -> bool {
        let g = self.extent;
        &&& edge_in_range(cell_edge(g.xmin as int, g.xmax as int, x, z), z)
        &&& edge_in_range(cell_edge(g.ymin as int, g.ymax as int, y, z), z)
        &&& edge_in_range(cell_edge(g.xmin as int, g.xmax as int, x + 1, z), z)
        &&& edge_in_range(cell_edge(g.ymin as int, g.ymax as int, y + 1, z), z)
    }

    pub fn new(extent: Extent) -> (r: TileGrid)
        requires
            extent.valid(),
            extent.in_range(),
        ensures
            r.extent == extent,
            r.wf(),
    {
        TileGrid { extent }
    }

    /// The square grid of the spherical Mercator projection.
    pub fn web_mercator() -> (r: TileGrid)
        ensures
            r.wf(),
            r.extent.xmin == -MERCATOR_ORIGIN_SHIFT,
            r.extent.ymin == -MERCATOR_ORIGIN_SHIFT,
            r.extent.xmax == MERCATOR_ORIGIN_SHIFT,
            r.extent.ymax == MERCATOR_ORIGIN_SHIFT,
    {
        TileGrid::new(
            Extent {
                xmin: -MERCATOR_ORIGIN_SHIFT,
                ymin: -MERCATOR_ORIGIN_SHIFT,
                xmax: MERCATOR_ORIGIN_SHIFT,
                ymax: MERCATOR_ORIGIN_SHIFT,
            },
        )
    }

    /// Whether `tile_extent(x, y, z)` lies in the accepted range.
    pub fn tile_fits(&self, x: u32, y: u32, z: u8) -> (r: bool)
        requires
            self.wf(),
            z <= MAX_ZOOM,
        ensures
            r == self.spec_tile_fits(x as int, y as int, z as nat),
    {
        proof {
            lemma_scale_bounds(z);
        }
        let n = cells_per_axis(z) as i128;
        let g = self.extent;
        let x0 = cell_edge_i128(g.xmin, g.xmax, x as i128, n);
        let x1 = cell_edge_i128(g.xmin, g.xmax, x as i128 + 1, n);
        let y0 = cell_edge_i128(g.ymin, g.ymax, y as i128, n);
        let y1 = cell_edge_i128(g.ymin, g.ymax, y as i128 + 1, n);
        assert(n * COORD_LIMIT <= 0x4000_0000 * COORD_LIMIT) by (nonlinear_arith)
            requires
                1 <= n <= 0x4000_0000,
        ;
        let b = n * (COORD_LIMIT as i128);
        -b <= x0 && x0 <= b && -b <= x1 && x1 <= b && -b <= y0 && y0 <= b && -b <= y1 && y1 <= b
    }

    /// The extent of tile `(x, y)` at zoom `z`: the grid's extent cut into
    /// `2^z` equal columns and rows, edges held exactly in units of `2^-z`.
    pub fn tile_extent(&self, x: u32, y: u32, z: u8) -> (r: TileExtent)
        requires
            self.wf(),
            z <= MAX_ZOOM,
            self.spec_tile_fits(x as int, y as int, z as nat),
        ensures
            r == self.spec_tile_extent(x as int, y as int, z),
            r.in_range(),
            r.valid(),
    {
        proof {
            lemma_scale_bounds(z);
        }
        let n = cells_per_axis(z) as i128;
        let g = self.extent;
        let x0 = cell_edge_i128(g.xmin, g.xmax, x as i128, n);
        let x1 = cell_edge_i128(g.xmin, g.xmax, x as i128 + 1, n);
        let y0 = cell_edge_i128(g.ymin, g.ymax, y as i128, n);
        let y1 = cell_edge_i128(g.ymin, g.ymax, y as i128 + 1, n);
        proof {
            lemma_children_split_parent(g.xmin as int, g.xmax as int, z as nat, x as int);
            lemma_children_split_parent(g.ymin as int, g.ymax as int, z as nat, y as int);
        }
        TileExtent { zoom: z, xmin: x0, ymin: y0, xmax: x1, ymax: y1 }
    }
}

/// `2^z`, the number of columns (and rows) at zoom `z`.
pub fn cells_per_axis(z: u8) -> (r: u64)
    requires
        z < 64,
    ensures
        r == pow2(z as nat),
        r >= 1,
{
    let mut r: u64 = 1;
    let mut i: u8 = 0;
    proof {
        lemma2_to64();
    }
    while i < z
        invariant
            i <= z,
            z < 64,
            r == pow2(i as nat),
            pow2(64) == 0x1_0000_0000_0000_0000,
        decreases z - i,
    {
        proof {
            lemma_pow2_unfold((i + 1) as nat);
            lemma_pow2_strictly_increases((i + 1) as nat, 64);
        }
        r = r * 2;
        i = i + 1;
    }
    proof {
        lemma2_to64();
        if z > 0 {
            lemma_pow2_strictly_increases(0, z as nat);
        }
    }
    r
}

fn cell_edge_i128(min: i64, max: i64, i: i128, n: i128) -> (r: i128)
    requires
        -COORD_LIMIT <= min < max <= COORD_LIMIT,
        0 <= i <= 0x1_0000_0000,
        1 <= n <= 0x4000_0000,
    ensures
        r == n * min + (max - min) * i,
{
    let w = max as i128 - min as i128;
    assert(0 <= w * i <= 2 * COORD_LIMIT * 0x1_0000_0000 && -(0x4000_0000 * COORD_LIMIT) <= n
        * min <= 0x4000_0000 * COORD_LIMIT) by (nonlinear_arith)
        requires
            0 < w <= 2 * COORD_LIMIT,
            0 <= i <= 0x1_0000_0000,
            1 <= n <= 0x4000_0000,
            -COORD_LIMIT <= min <= COORD_LIMIT,
    ;
    n * (min as i128) + w * i
}

/// Cell `i` holds `q / d` exactly when `w i d <= (q - min d) 2^z < w (i + 1) d`.
proof fn lemma_cell_holds_iff(min: int, max: int, i: int, z: nat, q: int, d: int)
    ensures
        cell_holds(min, max, i, z, q, d) <==> ((max - min) * d * i <= (q - min * d) * pow2(z) < (
        max - min) * d * (i + 1)),
{
    let n = pow2(z) as int;
    let w = max - min;
    assert((n * min + w * i) * d <= q * n <==> w * d * i <= (q - min * d) * n) by (nonlinear_arith);
    assert(q * n < (n * min + w * (i + 1)) * d <==> (q - min * d) * n < w * d * (i + 1))
        by (nonlinear_arith);
}

/// Exactly one of the `2^z` cells that split `[min, max)` holds each point
/// `q / d` of it, and none holds a point outside it.
proof fn lemma_cells_partition(min: int, max: int, z: nat, q: int, d: int)
    requires
        min < max,
        d >= 1,
    ensures
        (exists|i: int| 0 <= i < pow2(z) && #[trigger] cell_holds(min, max, i, z, q, d)) <==> (min
            * d <= q < max * d),
        forall|i: int, j: int|
            #[trigger] cell_holds(min, max, i, z, q, d) && #[trigger] cell_holds(min, max, j, z, q, d)
                ==> i == j,
{
    let n = pow2(z) as int;
    let wd = (max - min) * d;
    let e = (q - min * d) * n;
    lemma_pow2_pos(z);
    assert(wd >= 1 && wd == max * d - min * d) by (nonlinear_arith)
        requires
            wd == (max - min) * d,
            max - min >= 1,
            d >= 1,
    ;
    if min * d <= q < max * d {
        lemma_fundamental_div_mod(e, wd);
        let i = e / wd;
        let r = e % wd;
        assert(0 <= i < n && wd * i <= e < wd * (i + 1)) by (nonlinear_arith)
            requires
                e == wd * i + r,
                0 <= r < wd,
                e == (q - min * d) * n,
                wd == (max - min) * d,
                0 <= q - min * d < wd,
                n > 0,
        ;
        lemma_cell_holds_iff(min, max, i, z, q, d);
    }
    assert forall|i: int| 0 <= i < n && #[trigger] cell_holds(min, max, i, z, q, d) implies min
        * d <= q < max * d by {
        lemma_cell_holds_iff(min, max, i, z, q, d);
        assert(0 <= q - min * d < wd) by (nonlinear_arith)
            requires
                wd * i <= (q - min * d) * n < wd * (i + 1),
                0 <= i < n,
                wd >= 1,
        ;
    }
    assert forall|i: int, j: int|
        #[trigger] cell_holds(min, max, i, z, q, d) && #[trigger] cell_holds(min, max, j, z, q, d)
            implies i == j by {
        lemma_cell_holds_iff(min, max, i, z, q, d);
        lemma_cell_holds_iff(min, max, j, z, q, d);
        assert(i == j) by (nonlinear_arith)
            requires
                wd * i <= e < wd * (i + 1),
                wd * j <= e < wd * (j + 1),
                wd >= 1,
        ;
    }
}

/// The tiles of one zoom level partition the grid's extent: a point
/// `(qx / d, qy / d)` lies in some tile of the level exactly when it lies in
/// the extent, and in at most one tile. Rectangles are taken with their right
/// and top edges excluded.
pub proof fn lemma_tiles_partition_extent(grid: TileGrid, z: nat, qx: int, qy: int, d: int)
    requires
        grid.wf(),
        d >= 1,
    ensures
        (exists|c: int, r: int|
            0 <= c < pow2(z) && 0 <= r < pow2(z) && #[trigger] tile_holds(
                grid.extent,
                z,
                c,
                r,
                qx,
                qy,
                d,
            )) <==> (grid.extent.xmin * d <= qx < grid.extent.xmax * d && grid.extent.ymin * d <= qy
            < grid.extent.ymax * d),
        forall|c1: int, r1: int, c2: int, r2: int|
            #[trigger] tile_holds(grid.extent, z, c1, r1, qx, qy, d) && #[trigger] tile_holds(
                grid.extent,
                z,
                c2,
                r2,
                qx,
                qy,
                d,
            ) ==> c1 == c2 && r1 == r2,
{
    let g = grid.extent;
    lemma_cells_partition(g.xmin as int, g.xmax as int, z, qx, d);
    lemma_cells_partition(g.ymin as int, g.ymax as int, z, qy, d);
    if g.xmin * d <= qx < g.xmax * d && g.ymin * d <= qy < g.ymax * d {
        let c = choose|i: int|
            0 <= i < pow2(z) && #[trigger] cell_holds(g.xmin as int, g.xmax as int, i, z, qx, d);
        let r = choose|i: int|
            0 <= i < pow2(z) && #[trigger] cell_holds(g.ymin as int, g.ymax as int, i, z, qy, d);
        assert(tile_holds(g, z, c, r, qx, qy, d));
    }
    assert forall|c: int, r: int|
        0 <= c < pow2(z) && 0 <= r < pow2(z) && #[trigger] tile_holds(
            g,
            z,
            c,
            r,
            qx,
            qy,
            d,
        ) implies g.xmin * d <= qx < g.xmax * d && g.ymin * d <= qy < g.ymax * d by {
        assert(cell_holds(g.xmin as int, g.xmax as int, c, z, qx, d));
        assert(cell_holds(g.ymin as int, g.ymax as int, r, z, qy, d));
    }
}

/// Each cell at zoom `z` splits exactly in two at zoom `z + 1`: the children
/// share the parent's ends, meet at its midpoint, and every cell is as wide as
/// the grid divided by `2^z`, never empty. Edges at zoom `z + 1` count twice
/// as many units as edges at zoom `z`.
pub proof fn lemma_children_split_parent(min: int, max: int, z: nat, i: int)
    requires
        min < max,
    ensures
        cell_edge(min, max, 2 * i, z + 1) == 2 * cell_edge(min, max, i, z),
        cell_edge(min, max, 2 * i + 1, z + 1) == cell_edge(min, max, i, z) + cell_edge(
            min,
            max,
            i + 1,
            z,
        ),
        cell_edge(min, max, 2 * i + 2, z + 1) == 2 * cell_edge(min, max, i + 1, z),
        cell_edge(min, max, i + 1, z) - cell_edge(min, max, i, z) == max - min > 0,
{
    lemma_pow2_unfold(z + 1);
    let n = pow2(z) as int;
    let w = max - min;
    assert(2 * n * min + w * (2 * i) == 2 * (n * min + w * i)) by (nonlinear_arith);
    assert(2 * n * min + w * (2 * i + 1) == (n * min + w * i) + (n * min + w * (i + 1)))
        by (nonlinear_arith);
    assert(2 * n * min + w * (2 * i + 2) == 2 * (n * min + w * (i + 1))) by (nonlinear_arith);
    assert(w * (i + 1) - w * i == w) by (nonlinear_arith);
}

} // verus!
