//! The scrolling tile-index map.
//!
//! A backing map of tile-ids is decoded from byte pairs (little-endian).
//! A 20-row by 15-column visible window slides over it, conveyor style:
//! each advance shifts every cell one row down and two columns left, and
//! refills the vacated top row and right columns from the backing map
//! through a monotonically advancing cursor. A 32 by 32 static overlay map
//! holds the fixed title elements.

use vstd::prelude::*;

verus! {

/// Rows of the visible window.
pub const WINDOW_ROWS: usize = 20;

/// Columns of the visible window.
pub const WINDOW_COLS: usize = 15;

/// Cells of the visible window.
pub const WINDOW_CELLS: usize = 300;

/// Backing-map entries consumed by one advance: one full top row plus the
/// two rightmost columns of the nineteen rows below it.
pub const STEP_CELLS: usize = 53;

/// Cells of the static overlay map.
pub const OVERLAY_CELLS: usize = 1024;

/// The tile-ids a backing map holds: every two consecutive bytes form one
/// id, little-endian; a trailing odd byte is dropped.
pub open spec fn pairs_spec(src: Seq<u8>) -> Seq<u16> {
    Seq::new((src.len() / 2) as nat, |i: int| (src[2 * i] + 256 * src[2 * i + 1]) as u16)
}

/// The freshly seeded window: the first 300 backing entries in row-major
/// order, padded with zero where the backing map is shorter.
pub open spec fn seed_window(backing: Seq<u16>) -> Seq<u16> {
    Seq::new(300, |i: int| if i < backing.len() { backing[i] } else { 0u16 })
}

/// The window after one conveyor advance: every cell moves one row down and
/// two columns left; the top row, then the two rightmost columns of the
/// remaining rows, are refilled from the backing map at the cursor.
pub open spec fn next_window(w: Seq<u16>, backing: Seq<u16>, cur: int) -> Seq<u16> {
    Seq::new(
        300,
        |i: int|
            {
                let r = i / 15;
                let c = i % 15;
                if r == 0 {
                    backing[cur + c]
                } else if c >= 13 {
                    backing[cur + 15 + 2 * (r - 1) + (c - 13)]
                } else {
                    w[(r - 1) * 15 + (c + 2)]
                }
            },
    )
}

/// The visible window after `f` conveyor advances from the freshly seeded
/// window: the pure mapping from frame number to window state.
pub open spec fn window_after(backing: Seq<u16>, f: nat) -> Seq<u16>
    decreases f,
{
    if f == 0 {
        seed_window(backing)
    } else {
        next_window(window_after(backing, (f - 1) as nat), backing, 300 + 53 * (f - 1))
    }
}

/// How many advances ago window cell (r, c) was refilled, counting from the
/// current state: cells trace back one row up and two columns right per
/// advance until they hit the top row or the two rightmost columns.
pub open spec fn fill_delay(r: int, c: int) -> int {
    let jc = if c >= 13 {
        0
    } else {
        (14 - c) / 2
    };
    if r <= jc {
        r
    } else {
        jc
    }
}

/// The stateless index function of the conveyor: which backing entry window
/// cell (r, c) holds after `f` advances. A cell refilled `j` advances ago
/// holds the entry the refill of advance `f - j` pulled; a cell never
/// refilled still holds its seed entry, shifted.
pub open spec fn stateless_index(r: int, c: int, f: int) -> int {
    let j = fill_delay(r, c);
    if j >= f {
        15 * (r - f) + (c + 2 * f)
    } else {
        let rr = r - j;
        let cc = c + 2 * j;
        if rr == 0 {
            300 + 53 * (f - j - 1) + cc
        } else {
            300 + 53 * (f - j - 1) + 15 + 2 * (rr - 1) + (cc - 13)
        }
    }
}

/// The conveyor's visible window is a pure function of the frame number:
/// after `f` advances from the freshly seeded window, cell (r, c) holds
/// exactly the backing entry that the stateless index function names.
pub proof fn lemma_window_stateless(backing: Seq<u16>, f: nat, r: int, c: int)
    requires
        0 <= r < 20,
        0 <= c < 15,
        backing.len() >= 300 + 53 * f,
    ensures
        0 <= stateless_index(r, c, f as int) < 300 + 53 * f,
        window_after(backing, f)[15 * r + c] == backing[stateless_index(r, c, f as int)],
    decreases f,
{
    let i = 15 * r + c;
    vstd::arithmetic::div_mod::lemma_fundamental_div_mod_converse(i, 15, r, c);
    assert(i / 15 == r && i % 15 == c);
    if f == 0 {
        assert(window_after(backing, 0) == seed_window(backing));
        assert(seed_window(backing)[i] == backing[i]);
        assert(stateless_index(r, c, 0) == i);
    } else {
        let w1 = window_after(backing, (f - 1) as nat);
        let cur = 300 + 53 * (f - 1);
        assert(window_after(backing, f) == next_window(w1, backing, cur));
        assert(next_window(w1, backing, cur)[i] == {
            if r == 0 {
                backing[cur + c]
            } else if c >= 13 {
                backing[cur + 15 + 2 * (r - 1) + (c - 13)]
            } else {
                w1[(r - 1) * 15 + (c + 2)]
            }
        });
        if r == 0 {
            assert(fill_delay(r, c) == 0);
            assert(stateless_index(r, c, f as int) == cur + c);
        } else if c >= 13 {
            assert(fill_delay(r, c) == 0);
            assert(stateless_index(r, c, f as int) == cur + 15 + 2 * (r - 1) + (c - 13));
        } else {
            lemma_window_stateless(backing, (f - 1) as nat, r - 1, c + 2);
            assert((r - 1) * 15 + (c + 2) == 15 * (r - 1) + (c + 2));
            let jc = (14 - c) / 2;
            assert(jc >= 1);
            assert((14 - (c + 2)) / 2 == jc - 1);
            assert(fill_delay(r - 1, c + 2) == fill_delay(r, c) - 1);
            assert(stateless_index(r - 1, c + 2, f - 1) == stateless_index(r, c, f as int));
        }
    }
}

/// The fixed tiles of the overlay's title card, in order.
pub open spec fn title_tile(j: int) -> u16 {
    if j == 0 {
        0x0612
    } else if j == 1 {
        0x060f
    } else if j == 2 {
        0x0600
    } else if j == 3 {
        0x0602
    } else if j == 4 {
        0x0604
    } else if j == 5 {
        0x05ed
    } else if j == 6 {
        0x0606
    } else if j == 7 {
        0x0600
    } else if j == 8 {
        0x060c
    } else if j == 9 {
        0x0604
    } else if j == 10 {
        0x05ed
    } else if j == 11 {
        0x0605
    } else if j == 12 {
        0x060e
    } else if j == 13 {
        0x0611
    } else if j == 14 {
        0x05ed
    } else if j == 15 {
        0x0617
    } else if j == 16 {
        0x0620
    } else {
        0x061e
    }
}

/// The static overlay map: the title card in row zero, two single accent
/// tiles below it, zero (transparent) everywhere else.
pub open spec fn overlay_spec(i: int) -> u16 {
    if 12 <= i < 30 {
        title_tile(i - 12)
    } else if i == 258 {
        0x064d
    } else if i == 418 {
        0x0643
    } else {
        0u16
    }
}

fn title_tile_exec(j: usize) -> (r: u16)
    requires
        j < 18,
    ensures
        r == title_tile(j as int),
{
    if j == 0 {
        0x0612
    } else if j == 1 {
        0x060f
    } else if j == 2 {
        0x0600
    } else if j == 3 {
        0x0602
    } else if j == 4 {
        0x0604
    } else if j == 5 {
        0x05ed
    } else if j == 6 {
        0x0606
    } else if j == 7 {
        0x0600
    } else if j == 8 {
        0x060c
    } else if j == 9 {
        0x0604
    } else if j == 10 {
        0x05ed
    } else if j == 11 {
        0x0605
    } else if j == 12 {
        0x060e
    } else if j == 13 {
        0x0611
    } else if j == 14 {
        0x05ed
    } else if j == 15 {
        0x0617
    } else if j == 16 {
        0x0620
    } else {
        0x061e
    }
}

fn overlay_value(i: usize) -> (r: u16)
    requires
        i < 1024,
    ensures
        r == overlay_spec(i as int),
{
    if 12 <= i && i < 30 {
        title_tile_exec(i - 12)
    } else if i == 258 {
        0x064d
    } else if i == 418 {
        0x0643
    } else {
        0
    }
}

/// The scrolling tile-index map: backing map, visible window, overlay and
/// refill cursor.
pub struct TileMap {
    /// The visible window, 20 rows by 15 columns, row-major.
    pub tilemap0: Vec<u16>,
    /// The static overlay, 32 by 32, row-major; zero means transparent.
    pub tilemap1: Vec<u16>,
    /// The full backing map of tile-ids.
    pub map: Vec<u16>,
    /// Index of the next backing entry to pull into the window.
    pub cursor: usize,
}

impl TileMap {
    pub open spec fn wf(&self) -> bool {
        &&& self.tilemap0@.len() == 300
        &&& self.tilemap1@.len() == 1024
    }

    /// Builds the map from decoded asset bytes: pairs the bytes into ids,
    /// seeds the window with the first 300, writes the fixed overlay, and
    /// puts the cursor right after the seed region.
    pub fn new(map_source: &[u8]) -> (r: TileMap)
        ensures
            r.wf(),
            r.map@ == pairs_spec(map_source@),
            r.tilemap0@ == seed_window(pairs_spec(map_source@)),
            forall|i: int| 0 <= i < 1024 ==> r.tilemap1@[i] == overlay_spec(i),
            r.cursor == 300,
    {
        let n = map_source.len();
        let half = n / 2;
        let mut map: Vec<u16> = Vec::new();
        let mut i: usize = 0;
        proof {
            vstd::arithmetic::div_mod::lemma_fundamental_div_mod(map_source@.len() as int, 2);
        }
        while i < half
            invariant
                i <= half,
                n == map_source@.len(),
                half == n / 2,
                2 * half <= n,
                map@.len() == i,
                forall|k: int| 0 <= k < i ==> map@[k] == pairs_spec(map_source@)[k],
            decreases half - i,
        {
            let lo = map_source[2 * i] as u16;
            let hi = map_source[2 * i + 1] as u16;
            map.push(lo + hi * 256);
            i += 1;
        }
        proof {
            assert(map@ =~= pairs_spec(map_source@));
        }
        let mut window: Vec<u16> = Vec::new();
        let mut i: usize = 0;
        while i < WINDOW_CELLS
            invariant
                i <= 300,
                map@ == pairs_spec(map_source@),
                window@.len() == i,
                forall|k: int| 0 <= k < i ==> window@[k] == seed_window(map@)[k],
            decreases 300 - i,
        {
            if i < map.len() {
                let v = map[i];
                window.push(v);
            } else {
                window.push(0);
            }
            i += 1;
        }
        proof {
            assert(window@ =~= seed_window(map@));
        }
        let mut overlay: Vec<u16> = Vec::new();
        let mut i: usize = 0;
        while i < OVERLAY_CELLS
            invariant
                i <= 1024,
                overlay@.len() == i,
                forall|k: int| 0 <= k < i ==> overlay@[k] == overlay_spec(k),
            decreases 1024 - i,
        {
            let v = overlay_value(i);
            overlay.push(v);
            i += 1;
        }
        TileMap { tilemap0: window, tilemap1: overlay, map, cursor: WINDOW_CELLS }
    }

    /// The visible window's tile-id at map pixel (x, y): tile coordinates
    /// come from integer division by the tile side; outside the window's
    /// 15 by 20 tile grid there is no id.
    pub fn tile_id_at(&self, map_pixel_x: usize, map_pixel_y: usize) -> (r: Option<u16>)
        requires
            self.wf(),
        ensures
            map_pixel_x / 8 >= 15 || map_pixel_y / 8 >= 20 ==> r is None,
            map_pixel_x / 8 < 15 && map_pixel_y / 8 < 20 ==> r == Some(
                self.tilemap0@[(map_pixel_y / 8) * 15 + map_pixel_x / 8],
            ),
    {
        let tx = map_pixel_x / 8;
        let ty = map_pixel_y / 8;
        if tx >= WINDOW_COLS || ty >= WINDOW_ROWS {
            None
        } else {
            Some(self.tilemap0[ty * WINDOW_COLS + tx])
        }
    }

    /// Hard wraparound: reseeds the window from the start of the backing map
    /// and resets the cursor to just past the seed region.
    pub fn reset(&mut self)
        requires
            old(self).wf(),
            old(self).map@.len() >= 300,
        ensures
            final(self).wf(),
            final(self).tilemap0@ == seed_window(old(self).map@),
            final(self).cursor == 300,
            final(self).map == old(self).map,
            final(self).tilemap1 == old(self).tilemap1,
    {
        let mut window: Vec<u16> = Vec::new();
        let mut i: usize = 0;
        while i < WINDOW_CELLS
            invariant
                i <= 300,
                old(self).map@.len() >= 300,
                self == old(self),
                window@.len() == i,
                forall|k: int| 0 <= k < i ==> window@[k] == seed_window(self.map@)[k],
            decreases 300 - i,
        {
            let v = self.map[i];
            window.push(v);
            i += 1;
        }
        proof {
            assert(window@ =~= seed_window(self.map@));
        }
        self.tilemap0 = window;
        self.cursor = WINDOW_CELLS;
    }

    /// One conveyor advance of the visible window, as `next_window`
    /// describes; consumes 53 backing entries through the cursor.
    pub fn next(&mut self)
        requires
            old(self).wf(),
            old(self).cursor + 53 <= old(self).map@.len(),
        ensures
            final(self).wf(),
            final(self).tilemap0@ == next_window(
                old(self).tilemap0@,
                old(self).map@,
                old(self).cursor as int,
            ),
            final(self).cursor == old(self).cursor + 53,
            final(self).map == old(self).map,
            final(self).tilemap1 == old(self).tilemap1,
    {
        let cur0 = self.cursor;
        let n = self.map.len();
        let mut data: Vec<u16> = Vec::new();
        let mut i: usize = 0;
        while i < WINDOW_CELLS
            invariant
                i <= 300,
                self == old(self),
                cur0 == old(self).cursor,
                cur0 + 53 <= n,
                n == self.map@.len(),
                self.tilemap0@.len() == 300,
                data@.len() == i,
                forall|k: int|
                    0 <= k < i ==> data@[k] == next_window(
                        self.tilemap0@,
                        self.map@,
                        cur0 as int,
                    )[k],
            decreases 300 - i,
        {
            let r = i / WINDOW_COLS;
            let c = i % WINDOW_COLS;
            let v = if r == 0 {
                self.map[cur0 + c]
            } else if c >= 13 {
                self.map[cur0 + 15 + 2 * (r - 1) + (c - 13)]
            } else {
                self.tilemap0[(r - 1) * 15 + (c + 2)]
            };
            data.push(v);
            i += 1;
        }
        proof {
            assert(data@ =~= next_window(self.tilemap0@, self.map@, cur0 as int));
        }
        self.tilemap0 = data;
        self.cursor = cur0 + STEP_CELLS;
    }
}

} // verus!
