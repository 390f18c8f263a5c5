//! The compositor for the scrolling rendering mode.
//!
//! `FetchColor` owns the scrolling tile map, the tile atlas, a frame counter
//! and a 32 by 17 cache grid holding recently scrolled cells. Per pixel it
//! resolves, in priority order, the static overlay, the cache region, then
//! the active window region, and returns that tile's pixel; out of every
//! defined region it returns no color and the caller picks a fallback.

use vstd::prelude::*;
use crate::tilemap::TileMap;
use crate::tilemap::pairs_spec;
use crate::tilemap::seed_window;
use crate::tilemap::next_window;
use crate::tiles::Tiles;

verus! {

/// Rows of the cache grid.
pub const CACHE_ROWS: usize = 32;

/// Columns of the cache grid.
pub const CACHE_COLS: usize = 17;

/// Cells of the cache grid.
pub const CACHE_CELLS: usize = 544;

/// Advances after which the next advance wraps the map around instead.
pub const FRAME_BUDGET: usize = 160;

/// The mutable state of the scrolling renderer, as one ghost record:
/// visible window, cache grid, backing cursor and frame counter.
#[verifier::ext_equal]
pub struct FrameModel {
    pub window: Seq<u16>,
    pub cache: Seq<u16>,
    pub cursor: int,
    pub frame: int,
}

/// The cache grid after one advance: every cell moves one row down and two
/// columns left; rows two to twenty-one of the two rightmost columns take
/// the two leftmost columns of the old visible window; the rest keeps its
/// old value.
pub open spec fn next_cache(cache: Seq<u16>, w: Seq<u16>) -> Seq<u16> {
    Seq::new(
        544,
        |i: int|
            {
                let y = i / 17;
                let x = i % 17;
                if y >= 1 && x < 15 {
                    cache[(y - 1) * 17 + (x + 2)]
                } else if 2 <= y < 22 && x >= 15 {
                    w[(y - 2) * 15 + (x - 15)]
                } else {
                    cache[i]
                }
            },
    )
}

/// One advance of the renderer state: within the frame budget the cache and
/// window shift and refill; once the budget is exhausted the window is
/// reseeded from the start of the backing map and the counter restarts.
pub open spec fn step_model(m: FrameModel, backing: Seq<u16>) -> FrameModel {
    if m.frame >= 160 {
        FrameModel { window: seed_window(backing), cache: m.cache, cursor: 300, frame: 0 }
    } else {
        FrameModel {
            window: next_window(m.window, backing, m.cursor),
            cache: next_cache(m.cache, m.window),
            cursor: m.cursor + 53,
            frame: m.frame + 1,
        }
    }
}

/// The state after `n` advances from `m`.
pub open spec fn iter_model(m: FrameModel, backing: Seq<u16>, n: nat) -> FrameModel
    decreases n,
{
    if n == 0 {
        m
    } else {
        step_model(iter_model(m, backing, (n - 1) as nat), backing)
    }
}

/// The state right after construction: seeded window, all-zero cache,
/// cursor past the seed region, frame zero.
pub open spec fn initial_model(backing: Seq<u16>) -> FrameModel {
    FrameModel {
        window: seed_window(backing),
        cache: Seq::new(544, |i: int| 0u16),
        cursor: 300,
        frame: 0,
    }
}

/// States reachable by advancing: the cursor tracks the frame counter and
/// the counter stays within the frame budget.
pub open spec fn synced(m: FrameModel) -> bool {
    &&& m.cursor == 300 + 53 * m.frame
    &&& 0 <= m.frame <= 160
}

proof fn lemma_step_synced(m: FrameModel, backing: Seq<u16>)
    requires
        synced(m),
    ensures
        synced(step_model(m, backing)),
{
}

/// The compositor: scrolling map, cache grid, tile atlas and frame counter.
pub struct FetchColor {
    pub map: TileMap,
    pub cache: Vec<u16>,
    pub tiles: Tiles,
    pub frame: usize,
}

/// The tile-id the scrolling mode shows at tile coordinate (tpx, tpy), by
/// priority: a non-zero overlay entry; else the cache region in the first
/// seventeen columns; else the active window region, shifted one row up and
/// seventeen columns left; else none.
pub open spec fn resolve_tile_id(fc: FetchColor, tpx: int, tpy: int) -> Option<int> {
    let t1 = fc.map.tilemap1@[tpy * 32 + tpx] as int;
    if t1 > 0 {
        Some(t1)
    } else if tpx < 17 {
        Some(fc.cache@[tpy * 17 + tpx] as int)
    } else if 1 <= tpy <= 20 {
        Some(fc.map.tilemap0@[(tpy - 1) * 15 + (tpx - 17)] as int)
    } else {
        None
    }
}

/// The color the scrolling mode shows at pixel (x, y): the resolved tile's
/// pixel, or none outside the 256 by 256 region, outside every defined
/// sub-region, or for a tile-id past the end of the atlas.
pub open spec fn get_color_spec(fc: FetchColor, x: int, y: int) -> Option<(u8, u8, u8)> {
    let tpx = x / 8;
    let tpy = y / 8;
    if tpx >= 32 || tpy >= 32 {
        None
    } else {
        match resolve_tile_id(fc, tpx, tpy) {
            Some(id) => if id < fc.tiles.data@.len() {
                Some(fc.tiles.data@[id].px@[(y % 8) * 8 + (x % 8)])
            } else {
                None
            },
            None => None,
        }
    }
}

/// Every tile-id any of the three sources can name lies inside the atlas.
pub open spec fn atlas_covers(fc: FetchColor) -> bool {
    &&& forall|i: int|
        0 <= i < 1024 ==> (#[trigger] fc.map.tilemap1@[i]) < fc.tiles.data@.len()
    &&& forall|i: int| 0 <= i < 544 ==> (#[trigger] fc.cache@[i]) < fc.tiles.data@.len()
    &&& forall|i: int|
        0 <= i < 300 ==> (#[trigger] fc.map.tilemap0@[i]) < fc.tiles.data@.len()
}

impl FetchColor {
    pub open spec fn wf(&self) -> bool {
        &&& self.map.wf()
        &&& self.cache@.len() == CACHE_ROWS * CACHE_COLS
        &&& self.tiles.wf()
    }

    /// The ghost record of the mutable state.
    pub open spec fn model(&self) -> FrameModel {
        FrameModel {
            window: self.map.tilemap0@,
            cache: self.cache@,
            cursor: self.map.cursor as int,
            frame: self.frame as int,
        }
    }

    /// Builds the renderer from the two decoded assets: the tile-index map
    /// bytes and the tile-pixel bytes.
    pub fn new(map_source: &[u8], tiles_source: &[u8]) -> (r: FetchColor)
        ensures
            r.wf(),
            r.map.map@ == pairs_spec(map_source@),
            forall|i: int|
                0 <= i < 1024 ==> r.map.tilemap1@[i] == crate::tilemap::overlay_spec(i),
            r.tiles.models(tiles_source@),
            r.model() == initial_model(pairs_spec(map_source@)),
            synced(r.model()),
    {
        let map = TileMap::new(map_source);
        let tiles = Tiles::new(tiles_source);
        let mut cache: Vec<u16> = Vec::new();
        let mut i: usize = 0;
        while i < CACHE_CELLS
            invariant
                i <= 544,
                cache@.len() == i,
                forall|k: int| 0 <= k < i ==> cache@[k] == 0u16,
            decreases 544 - i,
        {
            cache.push(0);
            i += 1;
        }
        let r = FetchColor { map, tiles, frame: 0, cache };
        proof {
            assert(r.model().cache =~= initial_model(pairs_spec(map_source@)).cache);
            assert(r.model() =~= initial_model(pairs_spec(map_source@)));
        }
        r
    }

    /// One advance: shifts the cache, pulls the old window's left columns
    /// into it, advances the window, and counts the frame — or, once the
    /// frame budget is exhausted, wraps the map around.
    pub fn next_frame(&mut self)
        requires
            old(self).wf(),
            old(self).frame >= 160 ==> old(self).map.map@.len() >= 300,
            old(self).frame < 160 ==> old(self).map.cursor + 53 <= old(self).map.map@.len(),
        ensures
            final(self).wf(),
            final(self).model() == step_model(old(self).model(), old(self).map.map@),
            final(self).map.map == old(self).map.map,
            final(self).map.tilemap1 == old(self).map.tilemap1,
            final(self).tiles == old(self).tiles,
    {
        if self.frame >= FRAME_BUDGET {
            self.map.reset();
            self.frame = 0;
            proof {
                assert(self.model() =~= step_model(old(self).model(), old(self).map.map@));
            }
            return;
        }
        let ghost m0 = old(self).model();
        let mut cache2: Vec<u16> = Vec::new();
        let mut i: usize = 0;
        while i < CACHE_CELLS
            invariant
                i <= 544,
                self == old(self),
                self.wf(),
                cache2@.len() == i,
                forall|k: int|
                    0 <= k < i ==> cache2@[k] == next_cache(self.cache@, self.map.tilemap0@)[k],
            decreases 544 - i,
        {
            let y = i / CACHE_COLS;
            let x = i % CACHE_COLS;
            let v = if y >= 1 && x < 15 {
                self.cache[(y - 1) * 17 + (x + 2)]
            } else if 2 <= y && y < 22 && x >= 15 {
                self.map.tilemap0[(y - 2) * 15 + (x - 15)]
            } else {
                self.cache[i]
            };
            cache2.push(v);
            i += 1;
        }
        proof {
            assert(cache2@ =~= next_cache(self.cache@, self.map.tilemap0@));
        }
        self.cache = cache2;
        self.map.next();
        self.frame = self.frame + 1;
        proof {
            assert(self.model() =~= step_model(m0, old(self).map.map@));
        }
    }

    /// Applies `elapsed_ticks` advances, each exactly once: the state after
    /// the call is the step model iterated that many times.
    pub fn advance(&mut self, elapsed_ticks: usize)
        requires
            old(self).wf(),
            synced(old(self).model()),
            old(self).map.map@.len() >= 8780,
        ensures
            final(self).wf(),
            synced(final(self).model()),
            final(self).model() == iter_model(
                old(self).model(),
                old(self).map.map@,
                elapsed_ticks as nat,
            ),
            final(self).map.map == old(self).map.map,
            final(self).map.tilemap1 == old(self).map.tilemap1,
            final(self).tiles == old(self).tiles,
    {
        let mut k: usize = 0;
        while k < elapsed_ticks
            invariant
                k <= elapsed_ticks,
                self.wf(),
                self.map.map@.len() >= 8780,
                synced(self.model()),
                self.model() == iter_model(old(self).model(), old(self).map.map@, k as nat),
                self.map.map == old(self).map.map,
                self.map.tilemap1 == old(self).map.tilemap1,
                self.tiles == old(self).tiles,
            decreases elapsed_ticks - k,
        {
            proof {
                lemma_step_synced(self.model(), self.map.map@);
            }
            self.next_frame();
            k += 1;
        }
    }

    /// Advances up to `target_frame`, one frame at a time: exactly one
    /// advance per elapsed tick, none when the target is not ahead.
    pub fn skip_to(&mut self, target_frame: usize)
        requires
            old(self).wf(),
            synced(old(self).model()),
            old(self).map.map@.len() >= 8780,
        ensures
            final(self).wf(),
            synced(final(self).model()),
            final(self).model() == iter_model(
                old(self).model(),
                old(self).map.map@,
                if target_frame > old(self).frame {
                    (target_frame - old(self).frame) as nat
                } else {
                    0
                },
            ),
            final(self).map.map == old(self).map.map,
            final(self).map.tilemap1 == old(self).map.tilemap1,
            final(self).tiles == old(self).tiles,
    {
        let start = self.frame;
        if target_frame <= start {
            return;
        }
        let count = target_frame - start;
        let mut k: usize = 0;
        while k < count
            invariant
                k <= count,
                self.wf(),
                self.map.map@.len() >= 8780,
                synced(self.model()),
                self.model() == iter_model(old(self).model(), old(self).map.map@, k as nat),
                self.map.map == old(self).map.map,
                self.map.tilemap1 == old(self).map.tilemap1,
                self.tiles == old(self).tiles,
            decreases count - k,
        {
            proof {
                lemma_step_synced(self.model(), self.map.map@);
            }
            self.next_frame();
            k += 1;
        }
    }

    /// The color at pixel (x, y), as `get_color_spec` describes. Outside
    /// the 256 by 256 region, outside every defined sub-region, and for a
    /// tile-id past the end of the atlas the result is `None`; when the
    /// atlas covers every referenced id, every defined coordinate yields a
    /// color.
    pub fn get_color(&self, x: usize, y: usize) -> (r: Option<(u8, u8, u8)>)
        requires
            self.wf(),
        ensures
            r == get_color_spec(*self, x as int, y as int),
            x >= 256 || y >= 256 ==> r is None,
            atlas_covers(*self) ==> (r is Some <==> x < 256 && y < 256 && resolve_tile_id(
                *self,
                x as int / 8,
                y as int / 8,
            ) is Some),
    {
        let tile_pos_x = x / 8;
        let tile_pos_y = y / 8;
        if tile_pos_x >= 32 || tile_pos_y >= 32 {
            return None;
        }
        let tile_x = x % 8;
        let tile_y = y % 8;
        let tile1_id = self.map.tilemap1[tile_pos_y * 32 + tile_pos_x] as usize;
        let tile_id = if tile1_id > 0 {
            tile1_id
        } else if tile_pos_x < 17 {
            self.cache[tile_pos_y * 17 + tile_pos_x] as usize
        } else {
            if tile_pos_y < 1 || tile_pos_y > 20 {
                return None;
            }
            self.map.tilemap0[(tile_pos_y - 1) * 15 + (tile_pos_x - 17)] as usize
        };
        if tile_id >= self.tiles.data.len() {
            return None;
        }
        Some(self.tiles.data[tile_id].at(tile_y, tile_x))
    }
}

/// After the whole 160-step frame budget and one more advance — 161 in all
/// from a fresh state — the visible window again holds the first 300
/// backing entries and the cursor sits right after them: the wraparound
/// restores the freshly seeded state.
pub proof fn lemma_wraparound(backing: Seq<u16>)
    ensures
        iter_model(initial_model(backing), backing, 161).window == seed_window(backing),
        iter_model(initial_model(backing), backing, 161).cursor == 300,
        iter_model(initial_model(backing), backing, 161).frame == 0,
{
    lemma_frame_counter(backing, 160);
}

/// Within one frame budget, the renderer's window state is the pure
/// function `window_after` of the frame number alone: advancing `f` times
/// from a fresh state never replays history and depends on nothing but `f`
/// and the backing map.
pub proof fn lemma_window_pure(backing: Seq<u16>, f: nat)
    requires
        f <= 160,
    ensures
        iter_model(initial_model(backing), backing, f).frame == f,
        iter_model(initial_model(backing), backing, f).cursor == 300 + 53 * f,
        iter_model(initial_model(backing), backing, f).window == crate::tilemap::window_after(
            backing,
            f,
        ),
    decreases f,
{
    if f > 0 {
        lemma_window_pure(backing, (f - 1) as nat);
    }
}

/// The scrolling state is recomputable from scratch: after `f` advances
/// from a fresh state, window cell (r, c) holds exactly the backing entry
/// named by the conveyor's stateless index function.
pub proof fn lemma_conveyor_stateless(backing: Seq<u16>, f: nat, r: int, c: int)
    requires
        f <= 160,
        0 <= r < 20,
        0 <= c < 15,
        backing.len() >= 300 + 53 * f,
    ensures
        iter_model(initial_model(backing), backing, f).window[15 * r + c] == backing[
            crate::tilemap::stateless_index(r, c, f as int)
        ],
{
    lemma_window_pure(backing, f);
    crate::tilemap::lemma_window_stateless(backing, f, r, c);
}

proof fn lemma_frame_counter(backing: Seq<u16>, k: nat)
    requires
        k <= 160,
    ensures
        iter_model(initial_model(backing), backing, k).frame == k,
    decreases k,
{
    if k > 0 {
        lemma_frame_counter(backing, (k - 1) as nat);
    }
}

} // verus!

