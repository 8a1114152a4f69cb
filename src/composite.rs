use vstd::arithmetic::div_mod::lemma_fundamental_div_mod_converse;
use vstd::prelude::*;
use crate::window::{placement_fits, Placement};

verus! {

/// A four-band (red, green, blue, alpha) image, each band row-major.
pub struct TileImage {
    pub width: u32,
    pub height: u32,
    pub red: Vec<u8>,
    pub green: Vec<u8>,
    pub blue: Vec<u8>,
    pub alpha: Vec<u8>,
}

/// Transparency of a pixel whose first band holds `v`: value `0` marks no data.
pub open spec fn alpha_of(v: u8) -> u8 {
    if v == 0 {
        0
    } else {
        255
    }
}

/// The alpha band that a first band yields, sample by sample.
pub open spec fn mask_of(band: Seq<u8>) -> Seq<u8> {
    Seq::new(band.len(), |i: int| alpha_of(band[i]))
}

/// Column `col` and row `row` of the tile fall inside the placement.
pub open spec fn inside(p: Placement, col: int, row: int) -> bool {
    p.offset_x <= col < p.offset_x + p.width && p.offset_y <= row < p.offset_y + p.height
}

/// Index into a placed buffer of the tile pixel at `(col, row)`.
pub open spec fn source_index(p: Placement, col: int, row: int) -> int {
    (row - p.offset_y) * p.width + (col - p.offset_x)
}

/// Sample `k` of a `tw`-wide tile into which `src` was written at `p`.
pub open spec fn placed_sample(src: Seq<u8>, p: Placement, tw: int, k: int) -> u8 {
    if inside(p, k % tw, k / tw) {
        src[source_index(p, k % tw, k / tw)]
    } else {
        0
    }
}

/// A `tw x th` band holding `src` at `p` and zero everywhere else.
pub open spec fn placed(src: Seq<u8>, p: Placement, tw: int, th: int) -> Seq<u8> {
    Seq::new((tw * th) as nat, |k: int| placed_sample(src, p, tw, k))
}

/// A buffer fills the placement exactly, or the placement is empty.
pub open spec fn buffer_fits(src: Seq<u8>, p: Placement) -> bool {
    p.width > 0 && p.height > 0 ==> src.len() == p.width * p.height
}

/// The alpha band for a first band: transparent where it holds `0`, opaque elsewhere.
pub fn alpha_mask(band: &Vec<u8>) -> (r: Vec<u8>)
    ensures
        r@ == mask_of(band@),
{
    let mut out: Vec<u8> = Vec::with_capacity(band.len());
    let mut i: usize = 0;
    while i < band.len()
        invariant
            i <= band@.len(),
            out@ == mask_of(band@.subrange(0, i as int)),
        decreases band@.len() - i,
    {
        let a: u8 = if band[i] == 0 { 0 } else { 255 };
        out.push(a);
        i = i + 1;
        assert(out@ =~= mask_of(band@.subrange(0, i as int)));
    }
    assert(band@.subrange(0, band@.len() as int) =~= band@);
    out
}

/// A `tw x th` band that holds `src` at placement `p` and `0` outside it.
pub fn place_band(src: &Vec<u8>, p: Placement, tw: u32, th: u32) -> (r: Vec<u8>)
    requires
        placement_fits(p, tw as int, th as int),
        buffer_fits(src@, p),
    ensures
        r@ == placed(src@, p, tw as int, th as int),
{
    let mut out: Vec<u8> = Vec::new();
    let mut row: u32 = 0;
    while row < th
        invariant
            row <= th,
            placement_fits(p, tw as int, th as int),
            buffer_fits(src@, p),
            out@.len() == row * tw,
            forall|k: int| 0 <= k < out@.len() ==> out@[k] == placed_sample(src@, p, tw as int, k),
        decreases th - row,
    {
        let mut col: u32 = 0;
        while col < tw
            invariant
                row < th,
                col <= tw,
                placement_fits(p, tw as int, th as int),
                buffer_fits(src@, p),
                out@.len() == row * tw + col,
                forall|k: int|
                    0 <= k < out@.len() ==> out@[k] == placed_sample(src@, p, tw as int, k),
            decreases tw - col,
        {
            let ghost k: int = row * tw + col;
            proof {
                lemma_fundamental_div_mod_converse(k, tw as int, row as int, col as int);
            }
            let c = col as i64;
            let rw = row as i64;
            let v: u8 = if p.offset_x <= c && c < p.offset_x + p.width && p.offset_y <= rw && rw
                < p.offset_y + p.height {
                let dy = (rw - p.offset_y) as i128;
                let dx = (c - p.offset_x) as i128;
                assert(0 <= dy * p.width + dx < p.width * p.height && dy * p.width
                    <= 0x1_0000_0000_0000_0000) by (nonlinear_arith)
                    requires
                        0 <= dy < p.height,
                        0 <= dx < p.width,
                        p.width <= 0x1_0000_0000,
                        p.height <= 0x1_0000_0000,
                ;
                assert(src@.len() == p.width * p.height);
                let n: usize = src.len();
                let wide: i128 = dy * (p.width as i128) + dx;
                assert(wide == source_index(p, col as int, row as int));
                assert(wide < n);
                let idx = wide as usize;
                src[idx]
            } else {
                0
            };
            out.push(v);
            col = col + 1;
        }
        assert(row * tw + tw == (row + 1) * tw) by (nonlinear_arith);
        row = row + 1;
    }
    assert(th * tw == tw * th) by (nonlinear_arith);
    assert(out@ =~= placed(src@, p, tw as int, th as int));
    out
}

/// Assembles a `tw x th` tile: the three colour bands written at the
/// placement, alpha derived from the first band, all else transparent black.
pub fn compose_tile(
    tw: u32,
    th: u32,
    p: Placement,
    red: &Vec<u8>,
    green: &Vec<u8>,
    blue: &Vec<u8>,
) -> (r: TileImage)
    requires
        placement_fits(p, tw as int, th as int),
        buffer_fits(red@, p),
        buffer_fits(green@, p),
        buffer_fits(blue@, p),
    ensures
        r.width == tw,
        r.height == th,
        r.red@ == placed(red@, p, tw as int, th as int),
        r.green@ == placed(green@, p, tw as int, th as int),
        r.blue@ == placed(blue@, p, tw as int, th as int),
        r.alpha@ == placed(mask_of(red@), p, tw as int, th as int),
{
    let mask = alpha_mask(red);
    TileImage {
        width: tw,
        height: th,
        red: place_band(red, p, tw, th),
        green: place_band(green, p, tw, th),
        blue: place_band(blue, p, tw, th),
        alpha: place_band(&mask, p, tw, th),
    }
}

/// In a composed tile, a pixel whose first-band sample is `0` is transparent,
/// any other pixel inside the placement is opaque, and every pixel outside
/// the placement is transparent.
pub proof fn lemma_alpha_rule(red: Seq<u8>, p: Placement, tw: int, th: int, col: int, row: int)
    requires
        placement_fits(p, tw, th),
        buffer_fits(red, p),
        0 <= col < tw,
        0 <= row < th,
    ensures
        inside(p, col, row) && red[source_index(p, col, row)] == 0 ==> placed(
            mask_of(red),
            p,
            tw,
            th,
        )[row * tw + col] == 0,
        inside(p, col, row) && red[source_index(p, col, row)] != 0 ==> placed(
            mask_of(red),
            p,
            tw,
            th,
        )[row * tw + col] == 255,
        !inside(p, col, row) ==> placed(mask_of(red), p, tw, th)[row * tw + col] == 0,
{
    let k = row * tw + col;
    lemma_fundamental_div_mod_converse(k, tw, row, col);
    assert(0 <= k < tw * th) by (nonlinear_arith)
        requires
            k == row * tw + col,
            0 <= col < tw,
            0 <= row < th,
    ;
    if inside(p, col, row) {
        let dy = row - p.offset_y;
        let dx = col - p.offset_x;
        assert(0 <= dy * p.width + dx < p.width * p.height) by (nonlinear_arith)
            requires
                0 <= dy < p.height,
                0 <= dx < p.width,
        ;
    }
}

} // verus!
