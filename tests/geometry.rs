use tile_server::composite::{alpha_mask, compose_tile, place_band};
use tile_server::config::Config;
use tile_server::error::Error;
use tile_server::extent::{Extent, TileExtent};
use tile_server::plan::plan_tile;
use tile_server::rounding::round_div_i128;
use tile_server::tile_grid::{TileGrid, MERCATOR_ORIGIN_SHIFT};
use tile_server::window::{resolve_window, Placement, RasterGeometry};

fn te(zoom: u8, xmin: i128, ymin: i128, xmax: i128, ymax: i128) -> TileExtent {
    TileExtent { zoom, xmin, ymin, xmax, ymax }
}

fn at_zoom_zero(xmin: i64, ymin: i64, xmax: i64, ymax: i64) -> TileExtent {
    TileExtent::from_extent(Extent::new(xmin, ymin, xmax, ymax))
}

fn square_grid() -> TileGrid {
    TileGrid::new(Extent::new(0, 0, 1000, 1000))
}

fn square_image() -> RasterGeometry {
    RasterGeometry {
        origin_x: 0,
        origin_y: 1000,
        pixel_size_x: 1,
        pixel_size_y: -1,
        width: 1000,
        height: 1000,
    }
}

#[test]
fn zoom_zero_tile_is_the_global_extent() {
    let grid = square_grid();
    let t = grid.tile_extent(0, 0, 0);
    assert_eq!(t, te(0, 0, 0, 1000, 1000));
    let res = resolve_window(&t, &square_image(), 256, 256).unwrap();
    assert_eq!(res.placement, Placement { offset_x: 0, offset_y: 0, width: 256, height: 256 });
    assert_eq!((res.window.x, res.window.y), (0, 0));
    assert_eq!((res.window.width, res.window.height), (1000, 1000));
}

#[test]
fn zoom_one_tile_reads_a_quarter_of_the_image() {
    let grid = square_grid();
    let t = grid.tile_extent(0, 0, 1);
    // edges in halves of a unit: [0, 500] x [0, 500]
    assert_eq!(t, te(1, 0, 0, 1000, 1000));
    let res = resolve_window(&t, &square_image(), 256, 256).unwrap();
    assert_eq!(res.placement, Placement { offset_x: 0, offset_y: 0, width: 256, height: 256 });
    assert_eq!((res.window.x, res.window.y), (0, 500));
    assert_eq!((res.window.width, res.window.height), (500, 500));
    assert_eq!(
        (res.padding.left, res.padding.top, res.padding.right, res.padding.bottom),
        (0, 0, 0, 0)
    );
}

#[test]
fn tiles_of_a_level_share_their_edges() {
    let grid = TileGrid::new(Extent::new(0, 0, 1000, 999));
    let z = 3;
    let mut expected_x = 0;
    for c in 0..8u32 {
        let t = grid.tile_extent(c, 0, z);
        assert_eq!(t.xmin, expected_x);
        expected_x = t.xmax;
    }
    assert_eq!(expected_x, 8000);
    let mut expected_y = 0;
    for r in 0..8u32 {
        let t = grid.tile_extent(0, r, z);
        assert_eq!(t.ymin, expected_y);
        expected_y = t.ymax;
    }
    assert_eq!(expected_y, 7992);
    // row 1 starts at 124.875 = 999 / 8
    assert_eq!(grid.tile_extent(1, 1, 3), te(3, 1000, 999, 2000, 1998));
}

#[test]
fn mercator_grid_is_centred() {
    let grid = TileGrid::web_mercator();
    let t = grid.tile_extent(1, 1, 1);
    let s = MERCATOR_ORIGIN_SHIFT as i128;
    assert_eq!(t, te(1, 0, 0, 2 * s, 2 * s));
    assert!(grid.tile_fits(1, 1, 1));
    assert!(!grid.tile_fits(u32::MAX, 0, 0));
}

#[test]
fn disjoint_tile_is_outside_bounds() {
    let t = at_zoom_zero(2000, 0, 3000, 1000);
    let r = resolve_window(&t, &square_image(), 256, 256);
    assert!(matches!(r, Err(Error::OutsideBounds)));
    let touching = at_zoom_zero(1000, 0, 2000, 1000);
    assert!(matches!(
        resolve_window(&touching, &square_image(), 256, 256),
        Err(Error::OutsideBounds)
    ));
}

#[test]
fn right_overhang_pads_only_the_right() {
    let t = at_zoom_zero(800, 0, 1200, 400);
    let res = resolve_window(&t, &square_image(), 256, 256).unwrap();
    assert_eq!(res.padding.left, 0);
    assert_eq!(res.padding.top, 0);
    assert_eq!(res.padding.bottom, 0);
    assert_eq!(res.padding.right, 200);
    assert_eq!(res.placement, Placement { offset_x: 0, offset_y: 0, width: 128, height: 256 });
    assert_eq!((res.window.x, res.window.y, res.window.width, res.window.height), (800, 600, 200, 400));
}

#[test]
fn corner_overlap_scales_padding_to_output_pixels() {
    let image = RasterGeometry {
        origin_x: 100,
        origin_y: 900,
        pixel_size_x: 2,
        pixel_size_y: -2,
        width: 300,
        height: 300,
    };
    let t = at_zoom_zero(0, 0, 400, 400);
    let res = resolve_window(&t, &image, 256, 256).unwrap();
    // image covers [100, 300] x [700, 900]: the overlap is [100, 400] x [300, 400]
    assert_eq!((res.padding.left, res.padding.top, res.padding.right, res.padding.bottom), (50, 0, 0, 150));
    assert_eq!(res.placement, Placement { offset_x: 64, offset_y: 0, width: 192, height: 64 });
    assert_eq!((res.window.x, res.window.y, res.window.width, res.window.height), (0, 250, 150, 50));
}

#[test]
fn rounding_goes_half_away_from_zero() {
    assert_eq!(round_div_i128(5, 2), 3);
    assert_eq!(round_div_i128(-5, 2), -3);
    assert_eq!(round_div_i128(7, -2), -4);
    assert_eq!(round_div_i128(-7, -2), 4);
    assert_eq!(round_div_i128(4, 3), 1);
    assert_eq!(round_div_i128(0, -3), 0);
}

#[test]
fn alpha_follows_first_band() {
    let band = vec![0u8, 1, 200, 0, 255];
    assert_eq!(alpha_mask(&band), vec![0u8, 255, 255, 0, 255]);
}

#[test]
fn placed_band_is_zero_outside_placement() {
    let p = Placement { offset_x: 1, offset_y: 1, width: 2, height: 1 };
    let out = place_band(&vec![7u8, 9], p, 4, 3);
    assert_eq!(out, vec![0u8, 0, 0, 0, 0, 7, 9, 0, 0, 0, 0, 0]);
}

#[test]
fn composed_tile_is_transparent_where_band_one_is_zero() {
    let p = Placement { offset_x: 0, offset_y: 1, width: 2, height: 1 };
    let red = vec![0u8, 10];
    let green = vec![5u8, 6];
    let blue = vec![8u8, 0];
    let img = compose_tile(2, 2, p, &red, &green, &blue);
    assert_eq!((img.width, img.height), (2, 2));
    assert_eq!(img.red, vec![0u8, 0, 0, 10]);
    assert_eq!(img.green, vec![0u8, 0, 5, 6]);
    assert_eq!(img.blue, vec![0u8, 0, 8, 0]);
    assert_eq!(img.alpha, vec![0u8, 0, 0, 255]);
}

#[test]
fn empty_placement_gives_a_transparent_tile() {
    let p = Placement { offset_x: 1, offset_y: 0, width: 0, height: 2 };
    let img = compose_tile(2, 2, p, &vec![], &vec![], &vec![]);
    assert_eq!(img.alpha, vec![0u8; 4]);
    assert_eq!(img.red, vec![0u8; 4]);
}

#[test]
fn plan_flips_rows_when_configured() {
    let config = Config { tile_grid: square_grid(), reverse_y: true, tile_width: 256, tile_height: 256 };
    let plan = plan_tile(&config, 1, 0, 0, &square_image()).unwrap();
    assert_eq!(plan.grid_row, 1);
    assert_eq!(plan.extent, te(1, 0, 1000, 1000, 2000));
    assert_eq!((plan.resolution.window.x, plan.resolution.window.y), (0, 0));
    assert!(matches!(plan_tile(&config, 1, 0, 2, &square_image()), Err(Error::InvalidTile)));
    assert!(matches!(plan_tile(&config, 64, 0, 0, &square_image()), Err(Error::InvalidTile)));
}

#[test]
fn plan_reports_tiles_without_content() {
    let config = Config { tile_grid: square_grid(), reverse_y: false, tile_width: 256, tile_height: 256 };
    let small = RasterGeometry { origin_x: 0, origin_y: 100, pixel_size_x: 1, pixel_size_y: -1, width: 100, height: 100 };
    let r = plan_tile(&config, 1, 1, 1, &small);
    assert!(matches!(r, Err(Error::OutsideBounds)));
    assert_eq!(Error::OutsideBounds.status_code(), 404);
    assert_eq!(Error::InvalidTile.status_code(), 500);
    assert_eq!(Error::Raster("read failed".to_string()).status_code(), 500);
    assert_eq!(Error::Storage("disk full".to_string()).status_code(), 500);
}

#[test]
fn image_extent_follows_the_geotransform() {
    let g = RasterGeometry { origin_x: 10, origin_y: 50, pixel_size_x: 3, pixel_size_y: -2, width: 4, height: 5 };
    assert_eq!(g.extent(), Extent::new(10, 40, 22, 50));
}

#[test]
fn extents_intersect_and_contain() {
    let a = Extent::new(0, 0, 10, 10);
    let b = Extent::new(5, -5, 15, 5);
    assert_eq!(a.intersect(&b), Extent::new(5, 0, 10, 5));
    assert!(a.contains(&Extent::new(1, 1, 9, 9)));
    assert!(!a.contains(&b));
    assert!(a.is_valid());
    assert!(!Extent::new(5, 5, 5, 6).is_valid());
}

#[test]
fn overhang_under_half_a_pixel_rounds_away() {
    let image = RasterGeometry { origin_x: 0, origin_y: 1000, pixel_size_x: 10, pixel_size_y: -10, width: 100, height: 100 };
    let t = at_zoom_zero(600, 0, 1004, 404);
    let res = resolve_window(&t, &image, 256, 256).unwrap();
    assert_eq!(res.padding.right, 0);
    let t = at_zoom_zero(600, 0, 1005, 405);
    let res = resolve_window(&t, &image, 256, 256).unwrap();
    assert_eq!(res.padding.right, 1);
    assert_eq!((res.padding.left, res.padding.top, res.padding.bottom), (0, 0, 0));
}

#[test]
fn repeated_requests_plan_the_same_tile() {
    let config = Config { tile_grid: square_grid(), reverse_y: false, tile_width: 256, tile_height: 256 };
    let image = RasterGeometry { origin_x: 130, origin_y: 870, pixel_size_x: 3, pixel_size_y: -3, width: 200, height: 200 };
    let a = plan_tile(&config, 2, 1, 2, &image).unwrap();
    let b = plan_tile(&config, 2, 1, 2, &image).unwrap();
    assert_eq!(a, b);
    let n = (a.resolution.placement.width * a.resolution.placement.height) as usize;
    let band: Vec<u8> = (0..n).map(|i| (i % 7) as u8).collect();
    let first = compose_tile(256, 256, a.resolution.placement, &band, &band, &band);
    let second = compose_tile(256, 256, b.resolution.placement, &band, &band, &band);
    assert_eq!(first.alpha, second.alpha);
    assert_eq!(first.red, second.red);
}

#[test]
fn narrow_cells_keep_their_width() {
    let grid = TileGrid::new(Extent::new(0, 0, 1, 1));
    let t = grid.tile_extent(0, 0, 1);
    assert_eq!(t, te(1, 0, 0, 1, 1));
    assert!(t.xmin < t.xmax && t.ymin < t.ymax);
    let deep = grid.tile_extent(5, 7, 30);
    assert_eq!(deep.xmax - deep.xmin, 1);
}

#[test]
fn children_meet_at_the_parent_midpoint() {
    let grid = TileGrid::new(Extent::new(0, 0, 3, 3));
    let parent = grid.tile_extent(0, 0, 0);
    let left = grid.tile_extent(0, 0, 1);
    let right = grid.tile_extent(1, 1, 1);
    // at zoom 1 the edges count halves: the children meet at 1.5
    assert_eq!(left.xmax, 3);
    assert_eq!(right.xmin, 3);
    assert_eq!(2 * parent.xmax, right.xmax);
    assert_eq!(2 * parent.xmin, left.xmin);
}

#[test]
fn deep_tile_of_a_fine_grid_still_has_content() {
    // a grid one unit wide at zoom 29: every tile is narrower than a unit
    let config = Config { tile_grid: TileGrid::new(Extent::new(0, 0, 1, 1)), reverse_y: false, tile_width: 256, tile_height: 256 };
    let image = RasterGeometry { origin_x: 0, origin_y: 1, pixel_size_x: 1, pixel_size_y: -1, width: 1, height: 1 };
    let plan = plan_tile(&config, 29, 3, 4, &image).unwrap();
    assert_eq!(plan.resolution.placement, Placement { offset_x: 0, offset_y: 0, width: 256, height: 256 });
    assert!(matches!(plan_tile(&config, 31, 0, 0, &image), Err(Error::InvalidTile)));
}

#[test]
fn large_pixels_are_accepted() {
    // 5 km pixels with coordinates in metres
    let km5 = 5_000 * tile_server::extent::COORD_SCALE;
    let image = RasterGeometry { origin_x: 0, origin_y: 100 * km5, pixel_size_x: km5, pixel_size_y: -km5, width: 100, height: 100 };
    let t = at_zoom_zero(0, 50 * km5, 50 * km5, 100 * km5);
    let res = resolve_window(&t, &image, 256, 256).unwrap();
    assert_eq!((res.window.x, res.window.y, res.window.width, res.window.height), (0, 0, 50, 50));
}
