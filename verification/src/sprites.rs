//! The sprite-atlas rendering mode: two atlases of 32 by 32 pixel tiles,
//! composed side by side into one 512 by 256 bitmap.
//!
//! Sprite tiles use the same four-byte blue-green-red-pad pixel encoding as
//! the background tiles; the bitmap stores red-green-blue triples.

use vstd::prelude::*;

verus! {

/// Width of the composed bitmap in pixels.
pub const BITMAP_WIDTH: usize = 512;

/// Height of the composed bitmap in pixels.
pub const BITMAP_HEIGHT: usize = 256;

/// Bytes of raw data that make up one sprite tile: 32 x 32 pixels, 4 bytes
/// each.
pub const SPRITE_TILE_BYTES: usize = 4096;

/// The flat RGB image of sprite tile `n` of a raw buffer: 32 by 32 pixels,
/// row-major, three bytes per pixel, channel-permuted from blue-green-red
/// source order.
pub open spec fn image_spec(data: Seq<u8>, n: int) -> Seq<u8> {
    Seq::new(3072, |b: int| data[n * 4096 + (b / 3) * 4 + (2 - (b % 3))])
}

/// The color of the composed bitmap at pixel (x, y): the left half shows the
/// first atlas, the right half the second; each half is an 8 by 8 grid of
/// 32-pixel tiles, the tile-id growing down each column of tiles first.
pub open spec fn bitmap_spec(t1: Seq<u8>, t2: Seq<u8>, x: int, y: int) -> (u8, u8, u8) {
    let d = if x < 256 {
        t1
    } else {
        t2
    };
    let n = ((x % 256) / 32) * 8 + y / 32;
    let base = n * 4096 + ((y % 32) * 32 + (x % 32)) * 4;
    (d[base + 2], d[base + 1], d[base])
}

/// Extracts sprite tile `n` of a raw buffer as a flat RGB image, as
/// `image_spec` describes.
pub fn get_image(n: usize, data: &[u8]) -> (r: Vec<u8>)
    requires
        n * 4096 + 4096 <= data@.len(),
    ensures
        r@ == image_spec(data@, n as int),
{
    let len = data.len();
    let mut img: Vec<u8> = Vec::new();
    let mut b: usize = 0;
    while b < 3072
        invariant
            b <= 3072,
            len == data@.len(),
            n * 4096 + 4096 <= len,
            img@.len() == b,
            forall|k: int| 0 <= k < b ==> img@[k] == image_spec(data@, n as int)[k],
        decreases 3072 - b,
    {
        let p = b / 3;
        let ch = b % 3;
        img.push(data[n * SPRITE_TILE_BYTES + p * 4 + (2 - ch)]);
        b += 1;
    }
    proof {
        assert(img@ =~= image_spec(data@, n as int));
    }
    img
}

/// Composes the two sprite atlases into the 512 by 256 bitmap, row-major,
/// as `bitmap_spec` describes; each atlas must hold its full 64 tiles.
pub fn create_bitmap(tiles: &[u8], tiles2: &[u8]) -> (r: Vec<(u8, u8, u8)>)
    requires
        tiles@.len() >= 262144,
        tiles2@.len() >= 262144,
    ensures
        r@.len() == 131072,
        forall|i: int|
            0 <= i < 131072 ==> r@[i] == bitmap_spec(tiles@, tiles2@, i % 512, i / 512),
    {
    let len1 = tiles.len();
    let len2 = tiles2.len();
    let mut rgb: Vec<(u8, u8, u8)> = Vec::new();
    let mut i: usize = 0;
    while i < BITMAP_WIDTH * BITMAP_HEIGHT
        invariant
            i <= 131072,
            len1 == tiles@.len(),
            len2 == tiles2@.len(),
            len1 >= 262144,
            len2 >= 262144,
            rgb@.len() == i,
            forall|k: int|
                0 <= k < i ==> rgb@[k] == bitmap_spec(tiles@, tiles2@, k % 512, k / 512),
        decreases 131072 - i,
    {
        let x = i % BITMAP_WIDTH;
        let y = i / BITMAP_WIDTH;
        let d = if x < 256 {
            tiles
        } else {
            tiles2
        };
        let n = ((x % 256) / 32) * 8 + y / 32;
        let base = n * SPRITE_TILE_BYTES + ((y % 32) * 32 + (x % 32)) * 4;
        rgb.push((d[base + 2], d[base + 1], d[base]));
        i += 1;
    }
    rgb
}

} // verus!
