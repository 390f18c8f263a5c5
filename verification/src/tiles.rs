//! The tile atlas: fixed-size square RGB tiles sliced from a raw byte buffer.
//!
//! The raw buffer stores four bytes per pixel in blue-green-red-pad order;
//! tiles store red-green-blue triples. A trailing partial chunk, shorter than
//! one full tile, is dropped.

use vstd::prelude::*;

verus! {

/// Bytes of raw data that make up one tile: 8 x 8 pixels, 4 bytes each.
pub const TILE_BYTES: usize = 256;

/// One square tile of RGB pixels, row-major, side length 8.
pub struct Tile {
    pub px: Vec<(u8, u8, u8)>,
}

impl Tile {
    /// A tile holds exactly its 8 x 8 pixels.
    pub open spec fn wf(&self) -> bool {
        self.px@.len() == 64
    }

    /// The pixel in row `y`, column `x`.
    pub fn at(&self, y: usize, x: usize) -> (c: (u8, u8, u8))
        requires
            self.wf(),
            y < 8,
            x < 8,
        ensures
            c == self.px@[y as int * 8 + x as int],
    {
        self.px[y * 8 + x]
    }
}

/// The color stored for flat pixel `i` of tile `t` of a raw buffer: the
/// pixel's four source bytes are blue, green, red, pad; the tile keeps
/// (red, green, blue).
pub open spec fn tile_pixel(raw: Seq<u8>, t: int, i: int) -> (u8, u8, u8) {
    let base = t * 256 + i * 4;
    (raw[base + 2], raw[base + 1], raw[base])
}

/// The tile atlas: an ordered sequence of tiles, indexed by tile-id.
pub struct Tiles {
    pub data: Vec<Tile>,
}

impl Tiles {
    pub open spec fn wf(&self) -> bool {
        forall|t: int| 0 <= t < self.data@.len() ==> (#[trigger] self.data@[t]).wf()
    }

    /// The atlas built from `raw`: one tile per full 256-byte chunk, each
    /// pixel channel-permuted from blue-green-red source order.
    pub open spec fn models(&self, raw: Seq<u8>) -> bool {
        &&& self.data@.len() == raw.len() / 256
        &&& forall|t: int, i: int|
            0 <= t < self.data@.len() && 0 <= i < 64 ==> (#[trigger] self.data@[t].px@[i])
                == tile_pixel(raw, t, i)
    }

    /// Slices `raw` into tiles; a trailing partial chunk is dropped.
    pub fn new(raw: &[u8]) -> (r: Tiles)
        ensures
            r.wf(),
            r.models(raw@),
    {
        let n = raw.len();
        let count = n / TILE_BYTES;
        proof {
            vstd::arithmetic::div_mod::lemma_fundamental_div_mod(raw@.len() as int, 256);
        }
        let mut data: Vec<Tile> = Vec::new();
        let mut t: usize = 0;
        while t < count
            invariant
                t <= count,
                n == raw@.len(),
                count == raw@.len() / 256,
                count * 256 <= n,
                data@.len() == t,
                forall|tt: int| 0 <= tt < t ==> (#[trigger] data@[tt]).wf(),
                forall|tt: int, i: int|
                    0 <= tt < t && 0 <= i < 64 ==> (#[trigger] data@[tt].px@[i]) == tile_pixel(
                        raw@,
                        tt,
                        i,
                    ),
            decreases count - t,
        {
            proof {
                assert((t + 1) * 256 <= count * 256) by (nonlinear_arith)
                    requires
                        t + 1 <= count,
                ;
            }
            let mut px: Vec<(u8, u8, u8)> = Vec::new();
            let mut i: usize = 0;
            while i < 64
                invariant
                    i <= 64,
                    n == raw@.len(),
                    t * 256 + 256 <= n,
                    px@.len() == i,
                    forall|k: int| 0 <= k < i ==> (#[trigger] px@[k]) == tile_pixel(raw@, t as int, k),
                decreases 64 - i,
            {
                let base = t * 256 + i * 4;
                px.push((raw[base + 2], raw[base + 1], raw[base]));
                i += 1;
            }
            data.push(Tile { px });
            t += 1;
        }
        Tiles { data }
    }

    /// The tile with tile-id `id`; the id must lie inside the atlas.
    pub fn tile_at(&self, id: usize) -> (r: &Tile)
        requires
            id < self.data@.len(),
        ensures
            r == &self.data@[id as int],
    {
        &self.data[id]
    }

    /// All tiles of the atlas, in tile-id order.
    pub fn data(&self) -> (r: &Vec<Tile>)
        ensures
            r == &self.data,
    {
        &self.data
    }

    /// The glyph tile for letter `n` of the alphabet (0 is A), taken from
    /// the fixed letter sub-range of the atlas.
    pub fn alphabet(&self, n: usize) -> (r: &Tile)
        requires
            0x600 + n < self.data@.len(),
        ensures
            r == &self.data@[0x600 + n],
    {
        let len = self.data.len();
        assert(0x600 + n < len);
        &self.data[0x600 + n]
    }

    /// The glyph tile for decimal digit `n`, taken from the fixed digit
    /// sub-range of the atlas, which follows the letters.
    pub fn dec_digit(&self, n: usize) -> (r: &Tile)
        requires
            0x61a + n < self.data@.len(),
        ensures
            r == &self.data@[0x61a + n],
    {
        let len = self.data.len();
        assert(0x61a + n < len);
        &self.data[0x600 + 26 + n]
    }

    /// The glyph tile for hexadecimal digit `n`: a decimal digit below ten,
    /// a letter from ten on.
    pub fn hex_digit(&self, n: usize) -> (r: &Tile)
        requires
            n < 10 ==> 0x61a + n < self.data@.len(),
            n >= 10 ==> 0x5f6 + n < self.data@.len(),
        ensures
            n < 10 ==> r == &self.data@[0x61a + n],
            n >= 10 ==> r == &self.data@[0x5f6 + n],
    {
        if n < 10 {
            self.dec_digit(n)
        } else {
            self.alphabet(n - 10)
        }
    }
}

} // verus!
