use vstd::prelude::*;
use crate::error::Error;
use vstd::arithmetic::power2::{lemma2_to64, lemma_pow2_strictly_increases, pow2};
use crate::extent::{coord_in_range, max_int, min_int, Extent, TileExtent, COORD_LIMIT, MAX_ZOOM};
use crate::tile_grid::cells_per_axis;
use crate::rounding::{
    lemma_round_pos_bounds, lemma_round_pos_scaled, round_div, round_div_i128, round_pos,
};

verus! {

/// Largest magnitude of a pixel size that the geometry accepts (2^61).
pub const PIXEL_LIMIT: i64 = 2305843009213693952;

/// The affine georeferencing of a north-up source raster.
#[derive(Clone, Copy, Debug, PartialEq, Eq, Structural)]
pub struct RasterGeometry {
    /// Coordinate of the left edge of the image.
    pub origin_x: i64,
    /// Coordinate of the top edge of the image.
    pub origin_y: i64,
    /// Width of one pixel; positive.
    pub pixel_size_x: i64,
    /// Height of one pixel; negative, rows run southwards.
    pub pixel_size_y: i64,
    pub width: u32,
    pub height: u32,
}

/// A rectangle of source pixels to read.
#[derive(Clone, Copy, Debug, PartialEq, Eq, Structural)]
pub struct Window {
    pub x: i64,
    pub y: i64,
    pub width: i64,
    pub height: i64,
}

/// The distance, in source pixels, between each side of a tile and the part
/// of it that the image covers.
#[derive(Clone, Copy, Debug, PartialEq, Eq, Structural)]
pub struct Padding {
    pub left: i64,
    pub top: i64,
    pub right: i64,
    pub bottom: i64,
}

/// Where the pixels read from the window land in the output tile.
#[derive(Clone, Copy, Debug, PartialEq, Eq, Structural)]
pub struct Placement {
    pub offset_x: i64,
    pub offset_y: i64,
    pub width: i64,
    pub height: i64,
}

/// Everything needed to draw one tile from one image.
#[derive(Clone, Copy, Debug, PartialEq, Eq, Structural)]
pub struct Resolution {
    pub window: Window,
    pub padding: Padding,
    pub placement: Placement,
}

impl RasterGeometry {
    pub open spec fn wf(&self) -> bool {
        &&& 0 < self.pixel_size_x <= PIXEL_LIMIT
        &&& -PIXEL_LIMIT <= self.pixel_size_y < 0
        &&& coord_in_range(self.origin_x as int)
        &&& coord_in_range(self.origin_y as int)
        &&& coord_in_range(self.origin_x + self.pixel_size_x * self.width)
        &&& coord_in_range(self.origin_y + self.pixel_size_y * self.height)
    }

    /// The rectangle that the image covers.
    pub open spec fn spec_extent(&self) -> Extent {
        Extent {
            xmin: self.origin_x,
            ymin: (self.origin_y + self.pixel_size_y * self.height) as i64,
            xmax: (self.origin_x + self.pixel_size_x * self.width) as i64,
            ymax: self.origin_y,
        }
    }

    pub fn extent(&self) -> (r: Extent)
        requires
            self.wf(),
        ensures
            r == self.spec_extent(),
            r.in_range(),
    {
        let sx = self.pixel_size_x as i128;
        let sy = self.pixel_size_y as i128;
        let w = self.width as i128;
        let h = self.height as i128;
        assert(-PIXEL_LIMIT * 0x1_0000_0000 <= sx * w <= PIXEL_LIMIT * 0x1_0000_0000)
            by (nonlinear_arith)
            requires
                0 < sx <= PIXEL_LIMIT,
                0 <= w < 0x1_0000_0000,
        ;
        assert(-PIXEL_LIMIT * 0x1_0000_0000 <= sy * h <= PIXEL_LIMIT * 0x1_0000_0000)
            by (nonlinear_arith)
            requires
                -PIXEL_LIMIT <= sy < 0,
                0 <= h < 0x1_0000_0000,
        ;
        let xmax = self.origin_x as i128 + sx * w;
        let ymin = self.origin_y as i128 + sy * h;
        Extent { xmin: self.origin_x, ymin: ymin as i64, xmax: xmax as i64, ymax: self.origin_y }
    }
}

/// Edges of image `g` in units of `1 / n` fixed-point units.
pub open spec fn img_xmin(g: RasterGeometry, n: int) -> int {
    n * g.origin_x
}

pub open spec fn img_xmax(g: RasterGeometry, n: int) -> int {
    n * (g.origin_x + g.pixel_size_x * g.width)
}

pub open spec fn img_ymin(g: RasterGeometry, n: int) -> int {
    n * (g.origin_y + g.pixel_size_y * g.height)
}

pub open spec fn img_ymax(g: RasterGeometry, n: int) -> int {
    n * g.origin_y
}

/// Edges of the part of tile `t` that image `g` covers, in the tile's units.
pub open spec fn ov_xmin(t: TileExtent, g: RasterGeometry) -> int {
    max_int(t.xmin as int, img_xmin(g, t.scale()))
}

pub open spec fn ov_ymin(t: TileExtent, g: RasterGeometry) -> int {
    max_int(t.ymin as int, img_ymin(g, t.scale()))
}

pub open spec fn ov_xmax(t: TileExtent, g: RasterGeometry) -> int {
    min_int(t.xmax as int, img_xmax(g, t.scale()))
}

pub open spec fn ov_ymax(t: TileExtent, g: RasterGeometry) -> int {
    min_int(t.ymax as int, img_ymax(g, t.scale()))
}

/// The tile and the image share no area.
pub open spec fn is_outside(t: TileExtent, g: RasterGeometry) -> bool {
    ov_xmin(t, g) >= ov_xmax(t, g) || ov_ymin(t, g) >= ov_ymax(t, g)
}

/// The tile lies wholly within the image.
pub open spec fn image_contains(g: RasterGeometry, t: TileExtent) -> bool {
    let n = t.scale();
    img_xmin(g, n) <= t.xmin && t.xmax <= img_xmax(g, n) && img_ymin(g, n) <= t.ymin && t.ymax
        <= img_ymax(g, n)
}

// Each quantity below is a quotient of two lengths both measured in the
// tile's units; scaling both by `2^zoom` leaves it as it is over the reals.
pub open spec fn window_x(t: TileExtent, g: RasterGeometry) -> int {
    round_div(ov_xmin(t, g) - img_xmin(g, t.scale()), t.scale() * g.pixel_size_x)
}

pub open spec fn window_y(t: TileExtent, g: RasterGeometry) -> int {
    round_div(ov_ymax(t, g) - img_ymax(g, t.scale()), t.scale() * g.pixel_size_y)
}

pub open spec fn window_width(t: TileExtent, g: RasterGeometry) -> int {
    round_div(ov_xmax(t, g) - img_xmin(g, t.scale()), t.scale() * g.pixel_size_x) - window_x(t, g)
}

pub open spec fn window_height(t: TileExtent, g: RasterGeometry) -> int {
    round_div(ov_ymin(t, g) - img_ymax(g, t.scale()), t.scale() * g.pixel_size_y) - window_y(t, g)
}

pub open spec fn pad_left(t: TileExtent, g: RasterGeometry) -> int {
    round_div(ov_xmin(t, g) - t.xmin, t.scale() * g.pixel_size_x)
}

pub open spec fn pad_top(t: TileExtent, g: RasterGeometry) -> int {
    round_div(ov_ymax(t, g) - t.ymax, t.scale() * g.pixel_size_y)
}

pub open spec fn pad_right(t: TileExtent, g: RasterGeometry) -> int {
    round_div(t.xmax - ov_xmax(t, g), t.scale() * g.pixel_size_x)
}

pub open spec fn pad_bottom(t: TileExtent, g: RasterGeometry) -> int {
    round_div(t.ymin - ov_ymin(t, g), t.scale() * g.pixel_size_y)
}

/// A horizontal source padding rescaled to output pixels: `pad * tw / (span / sx)`.
pub open spec fn dest_x(pad: int, t: TileExtent, g: RasterGeometry, tw: int) -> int {
    round_div(pad * tw * (t.scale() * g.pixel_size_x), t.xmax - t.xmin)
}

/// A vertical source padding rescaled to output pixels: `pad * th / (span / sy)`.
pub open spec fn dest_y(pad: int, t: TileExtent, g: RasterGeometry, th: int) -> int {
    round_div(pad * th * (t.scale() * g.pixel_size_y), t.ymin - t.ymax)
}

/// `res` holds exactly the window, padding and placement that tile `t` of an
/// output of `tw x th` pixels takes from image `g`.
pub open spec fn describes(res: Resolution, t: TileExtent, g: RasterGeometry, tw: int, th: int) -> bool {
    let left = dest_x(pad_left(t, g), t, g, tw);
    let right = dest_x(pad_right(t, g), t, g, tw);
    let top = dest_y(pad_top(t, g), t, g, th);
    let bottom = dest_y(pad_bottom(t, g), t, g, th);
    &&& res.window.x == window_x(t, g)
    &&& res.window.y == window_y(t, g)
    &&& res.window.width == window_width(t, g)
    &&& res.window.height == window_height(t, g)
    &&& res.padding.left == pad_left(t, g)
    &&& res.padding.top == pad_top(t, g)
    &&& res.padding.right == pad_right(t, g)
    &&& res.padding.bottom == pad_bottom(t, g)
    &&& res.placement.offset_x == left
    &&& res.placement.offset_y == top
    &&& res.placement.width == tw - left - right
    &&& res.placement.height == th - top - bottom
}

/// The placement lies inside a `tw x th` tile, counted from its top-left corner.
pub open spec fn placement_fits(p: Placement, tw: int, th: int) -> bool {
    &&& 0 <= p.offset_x
    &&& 0 <= p.offset_y
    &&& p.offset_x + p.width <= tw
    &&& p.offset_y + p.height <= th
}

/// Largest length, in a tile's units, that the resolver meets (2^92).
pub open spec fn span_limit() -> int {
    0x1000_0000_0000_0000_0000_0000
}

/// A length `a` of at most `2 COORD_LIMIT` fixed-point units, measured in
/// units of `1 / n`, is at most `2 COORD_LIMIT` pixels of size `s`.
proof fn lemma_pixel_count(a: int, n: int, s: int)
    requires
        0 <= a <= 2 * COORD_LIMIT * n,
        n >= 1,
        s >= 1,
    ensures
        n * s >= 1,
        0 <= round_pos(a, n * s) <= 2 * COORD_LIMIT,
{
    assert(n * s >= n && n * s >= 1 && 2 * COORD_LIMIT * n <= 2 * COORD_LIMIT * (n * s))
        by (nonlinear_arith)
        requires
            n >= 1,
            s >= 1,
    ;
    lemma_round_pos_scaled(a, n * s, 2 * COORD_LIMIT);
}

/// The rescaled padding of a side whose source distance is `a` lies in `[0, 2 t]`.
proof fn lemma_dest_padding(a: int, d: int, span: int, t: int)
    requires
        0 <= a <= span,
        1 <= d,
        1 <= span <= span_limit(),
        0 <= t < 0x1_0000_0000,
    ensures
        0 <= round_pos(a, d) <= a,
        0 <= round_pos(a, d) * t <= span_limit() * 0x1_0000_0000,
        0 <= round_pos(a, d) * t * d <= 2 * t * span,
        2 * t * span <= 2 * span_limit() * 0x1_0000_0000,
        0 <= round_pos(round_pos(a, d) * t * d, span) <= 2 * t,
{
    let p = round_pos(a, d);
    lemma_round_pos_bounds(a, d);
    assert(0 <= p * t <= span_limit() * 0x1_0000_0000) by (nonlinear_arith)
        requires
            0 <= p <= a,
            a <= span <= span_limit(),
            0 <= t < 0x1_0000_0000,
    ;
    assert(0 <= p * t * d <= 2 * t * span) by (nonlinear_arith)
        requires
            0 <= p,
            p * d <= 2 * a,
            a <= span,
            0 <= t,
            1 <= d,
    ;
    assert(2 * t * span <= 2 * span_limit() * 0x1_0000_0000) by (nonlinear_arith)
        requires
            1 <= span <= span_limit(),
            0 <= t < 0x1_0000_0000,
    ;
    lemma_round_pos_scaled(p * t * d, span, 2 * t);
}

/// `2^zoom` lies in `[1, 2^30]` for the zooms the geometry handles.
pub proof fn lemma_scale_bounds(zoom: u8)
    requires
        zoom <= MAX_ZOOM,
    ensures
        1 <= pow2(zoom as nat) <= 0x4000_0000,
{
    lemma2_to64();
    if zoom < 30 {
        lemma_pow2_strictly_increases(zoom as nat, 30);
    }
}

/// Resolves which source pixels tile `t` reads from image `g`, and where they
/// land in an output tile of `tw x th` pixels.
#[verifier::rlimit(60)]
pub fn resolve_window(t: &TileExtent, g: &RasterGeometry, tw: u32, th: u32) -> (r: Result<
    Resolution,
    Error,
>)
    requires
        t.in_range(),
        g.wf(),
    ensures
        r is Err <==> is_outside(*t, *g),
        r is Err ==> r->Err_0 is OutsideBounds,
        r is Ok ==> describes(r->Ok_0, *t, *g, tw as int, th as int),
        r is Ok ==> placement_fits(r->Ok_0.placement, tw as int, th as int),
{
    proof {
        lemma_scale_bounds(t.zoom);
    }
    let n = cells_per_axis(t.zoom) as i128;
    let img = g.extent();
    let b: i128 = COORD_LIMIT as i128;
    assert(-(n * b) <= n * img.xmin <= n * b && -(n * b) <= n * img.xmax <= n * b && -(n * b)
        <= n * img.ymin <= n * b && -(n * b) <= n * img.ymax <= n * b && n * b <= 0x4000_0000
        * COORD_LIMIT) by (nonlinear_arith)
        requires
            1 <= n <= 0x4000_0000,
            b == COORD_LIMIT,
            -b <= img.xmin <= b,
            -b <= img.xmax <= b,
            -b <= img.ymin <= b,
            -b <= img.ymax <= b,
    ;
    let ix0 = n * img.xmin as i128;
    let ix1 = n * img.xmax as i128;
    let iy0 = n * img.ymin as i128;
    let iy1 = n * img.ymax as i128;
    let x0 = if t.xmin >= ix0 { t.xmin } else { ix0 };
    let y0 = if t.ymin >= iy0 { t.ymin } else { iy0 };
    let x1 = if t.xmax <= ix1 { t.xmax } else { ix1 };
    let y1 = if t.ymax <= iy1 { t.ymax } else { iy1 };
    if x0 >= x1 || y0 >= y1 {
        return Err(Error::OutsideBounds);
    }
    let sx = g.pixel_size_x as i128;
    let sy = g.pixel_size_y as i128;
    assert(n * sx >= 1 && n * sx <= 0x4000_0000 * PIXEL_LIMIT && n * sy <= -1 && n * sy >= -(
    0x4000_0000 * PIXEL_LIMIT) && n * sy == -(n * (-sy))) by (nonlinear_arith)
        requires
            1 <= n <= 0x4000_0000,
            1 <= sx <= PIXEL_LIMIT,
            -PIXEL_LIMIT <= sy <= -1,
    ;
    let sxn = n * sx;
    let syn = n * sy;
    let tw_w = tw as i128;
    let th_w = th as i128;

    proof {
        lemma_pixel_count(x0 - ix0, n as int, sx as int);
        lemma_pixel_count(x1 - ix0, n as int, sx as int);
        lemma_pixel_count(iy1 - y1, n as int, -sy);
        lemma_pixel_count(iy1 - y0, n as int, -sy);
        lemma_pixel_count(x0 - t.xmin, n as int, sx as int);
        lemma_pixel_count(t.xmax - x1, n as int, sx as int);
        lemma_pixel_count(t.ymax - y1, n as int, -sy);
        lemma_pixel_count(y0 - t.ymin, n as int, -sy);
    }
    let wx0 = round_div_i128(x0 - ix0, sxn);
    let wx1 = round_div_i128(x1 - ix0, sxn);
    let wy0 = round_div_i128(y1 - iy1, syn);
    let wy1 = round_div_i128(y0 - iy1, syn);

    let span_x = t.xmax - t.xmin;
    let span_y = t.ymin - t.ymax;
    proof {
        lemma_dest_padding(x0 - t.xmin, sxn as int, span_x as int, tw as int);
        lemma_dest_padding(t.xmax - x1, sxn as int, span_x as int, tw as int);
        lemma_dest_padding(t.ymax - y1, -syn, -span_y, th as int);
        lemma_dest_padding(y0 - t.ymin, -syn, -span_y, th as int);
    }
    let left = round_div_i128(x0 - t.xmin, sxn);
    let right = round_div_i128(t.xmax - x1, sxn);
    let top = round_div_i128(y1 - t.ymax, syn);
    let bottom = round_div_i128(t.ymin - y0, syn);
    proof {
        assert(top * th * syn == -(top * th * (-syn))) by (nonlinear_arith);
        assert(bottom * th * syn == -(bottom * th * (-syn))) by (nonlinear_arith);
    }
    let dl = round_div_i128(left * tw_w * sxn, span_x);
    let dr = round_div_i128(right * tw_w * sxn, span_x);
    let dt = round_div_i128(top * th_w * syn, span_y);
    let db = round_div_i128(bottom * th_w * syn, span_y);

    Ok(Resolution {
        window: Window {
            x: wx0 as i64,
            y: wy0 as i64,
            width: (wx1 - wx0) as i64,
            height: (wy1 - wy0) as i64,
        },
        padding: Padding {
            left: left as i64,
            top: top as i64,
            right: right as i64,
            bottom: bottom as i64,
        },
        placement: Placement {
            offset_x: dl as i64,
            offset_y: dt as i64,
            width: (tw_w - dl - dr) as i64,
            height: (th_w - dt - db) as i64,
        },
    })
}

/// The pixel sizes measured in the tile's units keep their signs.
proof fn lemma_scaled_pixel_sizes(t: TileExtent, g: RasterGeometry)
    requires
        t.in_range(),
        g.wf(),
    ensures
        t.scale() * g.pixel_size_x >= 1,
        t.scale() * g.pixel_size_y <= -1,
{
    lemma_scale_bounds(t.zoom);
    let n = t.scale();
    let sx = g.pixel_size_x as int;
    let sy = g.pixel_size_y as int;
    assert(n * sx >= 1 && n * sy <= -1) by (nonlinear_arith)
        requires
            n >= 1,
            sx >= 1,
            sy <= -1,
    ;
}

/// A tile that lies wholly within the image needs no padding on any side and
/// fills the whole output tile.
pub proof fn lemma_contained_tile_fills_output(
    t: TileExtent,
    g: RasterGeometry,
    tw: u32,
    th: u32,
    res: Resolution,
)
    requires
        t.in_range(),
        t.valid(),
        g.wf(),
        image_contains(g, t),
        describes(res, t, g, tw as int, th as int),
    ensures
        !is_outside(t, g),
        res.padding == (Padding { left: 0, top: 0, right: 0, bottom: 0 }),
        res.placement == (Placement { offset_x: 0, offset_y: 0, width: tw as i64, height: th as i64 }),
{
    lemma_scaled_pixel_sizes(t, g);
    let dx = t.scale() * g.pixel_size_x;
    let dy = t.scale() * g.pixel_size_y;
    lemma_round_pos_bounds(0, dx);
    lemma_round_pos_bounds(0, -dy);
    lemma_round_pos_bounds(0, t.xmax - t.xmin);
    lemma_round_pos_bounds(0, t.ymax - t.ymin);
    assert(pad_left(t, g) == 0);
    assert(pad_top(t, g) == 0);
    assert(pad_right(t, g) == 0);
    assert(pad_bottom(t, g) == 0);
    assert(0 * (tw as int) * dx == 0) by (nonlinear_arith);
    assert(0 * (th as int) * dy == 0) by (nonlinear_arith);
    assert(dest_x(0, t, g, tw as int) == 0);
    assert(dest_y(0, t, g, th as int) == 0);
}

/// A tile that overhangs the image only past its right edge, by at least half
/// a pixel, is padded on the right and nowhere else.
pub proof fn lemma_right_overhang_pads_right(t: TileExtent, g: RasterGeometry)
    requires
        t.in_range(),
        t.valid(),
        g.wf(),
        img_xmin(g, t.scale()) <= t.xmin < img_xmax(g, t.scale()) < t.xmax,
        img_ymin(g, t.scale()) <= t.ymin,
        t.ymax <= img_ymax(g, t.scale()),
        2 * (t.xmax - img_xmax(g, t.scale())) >= t.scale() * g.pixel_size_x,
    ensures
        !is_outside(t, g),
        pad_left(t, g) == 0,
        pad_top(t, g) == 0,
        pad_bottom(t, g) == 0,
        pad_right(t, g) > 0,
{
    lemma_scaled_pixel_sizes(t, g);
    let dx = t.scale() * g.pixel_size_x;
    let dy = t.scale() * g.pixel_size_y;
    let a = t.xmax - img_xmax(g, t.scale());
    lemma_round_pos_bounds(0, dx);
    lemma_round_pos_bounds(0, -dy);
    let q = (2 * a + dx) / (2 * dx);
    assert(q >= 1) by (nonlinear_arith)
        requires
            q == (2 * a + dx) / (2 * dx),
            2 * a >= dx,
            dx >= 1,
    ;
}

/// A tile's window, padding and placement depend on the tile, the image and
/// the output size alone: two resolutions of the same request are equal, so a
/// tile drawn twice from the same image comes out the same.
pub proof fn lemma_resolution_is_determined(
    t: TileExtent,
    g: RasterGeometry,
    tw: int,
    th: int,
    a: Resolution,
    b: Resolution,
)
    requires
        describes(a, t, g, tw, th),
        describes(b, t, g, tw, th),
    ensures
        a == b,
{
}

} // verus!
