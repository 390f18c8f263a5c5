use tilescroll::tiles::Tiles;
use tilescroll::sprites::create_bitmap;
use tilescroll::sprites::get_image;

/// Raw bytes for `count` background tiles where tile `t` has its pixel 0
/// set to blue `t % 256`, green `(t / 256) % 256`, red `(t / 7) % 256`.
fn synthetic_tiles(count: usize) -> Vec<u8> {
    let mut raw = vec![0u8; count * 256];
    for t in 0..count {
        raw[t * 256] = (t % 256) as u8;
        raw[t * 256 + 1] = ((t / 256) % 256) as u8;
        raw[t * 256 + 2] = ((t / 7) % 256) as u8;
    }
    raw
}

#[test]
fn atlas_channel_permutation() {
    // Pixel 0 stored as B, G, R, pad comes out as (R, G, B).
    let mut raw = vec![0u8; 256];
    raw[0] = 0x10;
    raw[1] = 0x20;
    raw[2] = 0x30;
    raw[3] = 0xFF;
    let tiles = Tiles::new(&raw);
    assert_eq!(tiles.data().len(), 1);
    assert_eq!(tiles.data()[0].at(0, 0), (0x30, 0x20, 0x10));
}

#[test]
fn atlas_drops_partial_chunk() {
    let raw = vec![0u8; 300];
    let tiles = Tiles::new(&raw);
    assert_eq!(tiles.data().len(), 1);
}

#[test]
fn atlas_tile_count_and_layout() {
    let mut raw = vec![0u8; 512];
    // Tile 1, pixel at row 2, column 3: flat pixel 19, bytes 76..80.
    raw[256 + 19 * 4] = 9;
    raw[256 + 19 * 4 + 1] = 8;
    raw[256 + 19 * 4 + 2] = 7;
    let tiles = Tiles::new(&raw);
    assert_eq!(tiles.data().len(), 2);
    assert_eq!(tiles.data()[1].at(2, 3), (7, 8, 9));
    assert_eq!(tiles.tile_at(1).at(2, 3), (7, 8, 9));
}

#[test]
fn glyph_accessors_use_fixed_ranges() {
    let raw = synthetic_tiles(0x640);
    let tiles = Tiles::new(&raw);
    // Letters start at tile 0x600, digits follow at 0x61a.
    let a = tiles.alphabet(0).at(0, 0);
    assert_eq!(a, (((0x600 / 7) % 256) as u8, 6, 0));
    let d9 = tiles.dec_digit(9).at(0, 0);
    let t = 0x61a + 9;
    assert_eq!(d9, (((t / 7) % 256) as u8, (t / 256) as u8, (t % 256) as u8));
    // Hex digits split between the two ranges.
    assert_eq!(tiles.hex_digit(9).at(0, 0), tiles.dec_digit(9).at(0, 0));
    assert_eq!(tiles.hex_digit(10).at(0, 0), tiles.alphabet(0).at(0, 0));
}

#[test]
fn sprite_image_extraction() {
    let mut raw = vec![0u8; 2 * 4096];
    // Tile 1, pixel at row 1, column 2: flat pixel 34.
    raw[4096 + 34 * 4] = 3;
    raw[4096 + 34 * 4 + 1] = 2;
    raw[4096 + 34 * 4 + 2] = 1;
    let img = get_image(1, &raw);
    assert_eq!(img.len(), 3072);
    assert_eq!(img[34 * 3], 1);
    assert_eq!(img[34 * 3 + 1], 2);
    assert_eq!(img[34 * 3 + 2], 3);
}

#[test]
fn sprite_end_to_end() {
    // Frame 0 of the sprite mode at output (0, 0) shows the top-left pixel
    // of tile 0 of the first atlas, channel order corrected.
    let mut tiles = vec![0u8; 64 * 4096];
    tiles[0] = 5;
    tiles[1] = 6;
    tiles[2] = 7;
    let tiles2 = vec![0u8; 64 * 4096];
    let bitmap = create_bitmap(&tiles, &tiles2);
    assert_eq!(bitmap.len(), 512 * 256);
    assert_eq!(bitmap[0], (7, 6, 5));
}

#[test]
fn sprite_bitmap_halves_and_tiling() {
    let mut tiles = vec![0u8; 64 * 4096];
    let mut tiles2 = vec![0u8; 64 * 4096];
    // Left half, tile column 1, tile row 0 shows sprite tile 8.
    tiles[8 * 4096 + 2] = 0x11;
    // Right half at x = 256 shows tile 0 of the second atlas.
    tiles2[2] = 0x22;
    let bitmap = create_bitmap(&tiles, &tiles2);
    assert_eq!(bitmap[32], (0x11, 0, 0));
    assert_eq!(bitmap[256], (0x22, 0, 0));
    // Row 33, column 1 lies one pixel into tile 0's second row.
    let mut t3 = vec![0u8; 64 * 4096];
    t3[(33 * 32 + 1) * 4 + 2] = 0x33;
    let b2 = create_bitmap(&t3, &tiles2);
    assert_eq!(b2[33 * 512 + 1], (0x33, 0, 0));
}
