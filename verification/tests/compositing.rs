use tilescroll::fetch::FetchColor;
use tilescroll::render::animation_pixel;
use tilescroll::render::animation_target;
use tilescroll::render::render_animation;
use tilescroll::render::sprites_done;

/// Raw bytes for `count` background tiles where tile `t`'s pixel 0 decodes
/// to the RGB triple (t / 7 % 256, t / 256 % 256, t % 256).
fn synthetic_tiles(count: usize) -> Vec<u8> {
    let mut raw = vec![0u8; count * 256];
    for t in 0..count {
        raw[t * 256] = (t % 256) as u8;
        raw[t * 256 + 1] = ((t / 256) % 256) as u8;
        raw[t * 256 + 2] = ((t / 7) % 256) as u8;
    }
    raw
}

fn tile0_rgb(t: usize) -> (u8, u8, u8) {
    (((t / 7) % 256) as u8, ((t / 256) % 256) as u8, (t % 256) as u8)
}

/// A compositor whose atlas covers every tile-id the overlay can name.
fn covered_fetch() -> FetchColor {
    let map_bytes: Vec<u8> = (0..600).map(|i| if i % 2 == 0 { (i / 2 % 100) as u8 } else { 0 }).collect();
    let tile_bytes = synthetic_tiles(0x650);
    FetchColor::new(&map_bytes, &tile_bytes)
}

#[test]
fn out_of_bounds_is_none() {
    let fc = covered_fetch();
    assert_eq!(fc.get_color(256, 0), None);
    assert_eq!(fc.get_color(0, 256), None);
    assert_eq!(fc.get_color(1000, 1000), None);
    assert!(fc.get_color(135, 255).is_some());
}

#[test]
fn undefined_subregions_are_none() {
    let fc = covered_fetch();
    // Past the cache columns, row zero of tiles is undefined.
    assert_eq!(fc.get_color(240, 0), None);
    // Past the cache columns, tile rows below the window are undefined.
    assert_eq!(fc.get_color(136, 168), None);
}

#[test]
fn every_defined_pixel_has_a_color() {
    let fc = covered_fetch();
    for y in (0..256).step_by(7) {
        for x in (0..256).step_by(7) {
            let defined = x / 8 < 17 || fc.map.tilemap1[(y / 8) * 32 + x / 8] > 0 || (y / 8 >= 1
                && y / 8 <= 20);
            assert_eq!(fc.get_color(x, y).is_some(), defined, "pixel ({}, {})", x, y);
        }
    }
}

#[test]
fn overlay_beats_scrolling_background() {
    let fc = covered_fetch();
    // Tile (12, 0) holds the first title-card tile, 0x0612.
    assert_eq!(fc.get_color(96, 0), Some(tile0_rgb(0x0612)));
}

#[test]
fn cache_region_shows_cache_tile() {
    let fc = covered_fetch();
    // A fresh cache is all zero, so a transparent overlay cell over the
    // cache region shows tile 0.
    assert_eq!(fc.get_color(0, 64), Some(tile0_rgb(0)));
}

#[test]
fn active_region_shows_window_tile() {
    let fc = covered_fetch();
    // Tile (17, 1) maps to window cell (0, 0), which holds backing entry 0.
    let id = fc.map.tilemap0[0] as usize;
    assert_eq!(fc.get_color(136, 8), Some(tile0_rgb(id)));
}

#[test]
fn missing_tile_is_none_not_a_crash() {
    // An atlas too small for the overlay's title-card ids yields no color
    // there instead of failing.
    let map_bytes = vec![0u8; 600];
    let tile_bytes = synthetic_tiles(4);
    let fc = FetchColor::new(&map_bytes, &tile_bytes);
    assert_eq!(fc.get_color(96, 0), None);
    assert_eq!(fc.get_color(0, 0), Some(tile0_rgb(0)));
}

#[test]
fn advance_pulls_window_into_cache() {
    let map_bytes: Vec<u8> = (0..17560u32).map(|i| if i % 2 == 0 { ((i / 2) % 256) as u8 } else { ((i / 2) / 256) as u8 }).collect();
    let mut fc = FetchColor::new(&map_bytes, &[]);
    let w00 = fc.map.tilemap0[0];
    let w01 = fc.map.tilemap0[1];
    fc.next_frame();
    // Rows two and down of the cache's right columns take the old window's
    // two left columns.
    assert_eq!(fc.cache[2 * 17 + 15], w00);
    assert_eq!(fc.cache[2 * 17 + 16], w01);
    assert_eq!(fc.frame, 1);
}

#[test]
fn masked_regions_render_black() {
    let fc = covered_fetch();
    // Bottom right slope.
    assert_eq!(animation_pixel(&fc, 500, 250), (0, 0, 0));
    // Bottom left slope.
    assert_eq!(animation_pixel(&fc, 0, 250), (0, 0, 0));
    // Unmasked pixels show the compositor's color, black where none.
    assert_eq!(animation_pixel(&fc, 0, 0), fc.get_color(0, 0).unwrap());
    assert_eq!(animation_pixel(&fc, 240, 0), (0, 0, 0));
    // The width tiles the 256-wide image twice.
    assert_eq!(animation_pixel(&fc, 257, 0), animation_pixel(&fc, 1, 0));
}

#[test]
fn full_raster_matches_pixels() {
    let fc = covered_fetch();
    let raster = render_animation(&fc);
    assert_eq!(raster.len(), 512 * 256);
    assert_eq!(raster[0], animation_pixel(&fc, 0, 0));
    assert_eq!(raster[100 * 512 + 300], animation_pixel(&fc, 300, 100));
}

#[test]
fn pacing_decisions() {
    // One frame per hundred milliseconds, stopping after frame seven.
    assert_eq!(animation_target(0, 0), None);
    assert_eq!(animation_target(530, 3), Some(5));
    assert_eq!(animation_target(300, 3), None);
    assert_eq!(animation_target(800, 3), None);
    assert_eq!(animation_target(799, 6), Some(7));
    assert!(!sprites_done(10));
    assert!(sprites_done(11));
}
