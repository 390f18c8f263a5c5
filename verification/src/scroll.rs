//! The stateless diagonal scroll policy.
//!
//! One rendering mode scrolls a fixed tile grid by pure coordinate
//! arithmetic: at frame `f` the screen pixel (x, y) shows map pixel
//! (x + f, y + f / 2) — the vertical axis advances at half the rate of the
//! horizontal axis — and the map wraps around at the grid edges. The same
//! scroll also runs incrementally, advancing a pair of pixel offsets once
//! per frame; the two forms agree at every frame, which is proved below.

use vstd::prelude::*;

verus! {

/// The pair of pixel offsets the incremental form maintains, with the frame
/// counter they are derived from.
#[verifier::ext_equal]
pub struct ScrollOffsets {
    pub frame: int,
    pub off_x: int,
    pub off_y: int,
}

/// The offsets at frame zero.
pub open spec fn initial_offsets() -> ScrollOffsets {
    ScrollOffsets { frame: 0, off_x: 0, off_y: 0 }
}

/// One incremental advance: the horizontal offset grows every frame, the
/// vertical offset every second frame.
pub open spec fn step_offsets(s: ScrollOffsets) -> ScrollOffsets {
    ScrollOffsets {
        frame: s.frame + 1,
        off_x: s.off_x + 1,
        off_y: if s.frame % 2 == 1 {
            s.off_y + 1
        } else {
            s.off_y
        },
    }
}

/// The offsets after `n` advances from `s`.
pub open spec fn iter_offsets(s: ScrollOffsets, n: nat) -> ScrollOffsets
    decreases n,
{
    if n == 0 {
        s
    } else {
        step_offsets(iter_offsets(s, (n - 1) as nat))
    }
}

/// The stateless formula: the tile-id shown at screen pixel (x, y) at frame
/// `frame`, read from a `rows` by `cols` tile grid that wraps around.
pub open spec fn diagonal_spec(
    grid: Seq<u16>,
    rows: int,
    cols: int,
    frame: int,
    x: int,
    y: int,
) -> u16 {
    let tx = ((x + frame) / 8) % cols;
    let ty = ((y + frame / 2) / 8) % rows;
    grid[ty * cols + tx]
}

/// The diagonal scroll, incremental form: a fixed backing tile grid and the
/// current scroll offsets.
pub struct DiagonalScroll {
    /// The backing tile grid, `rows` by `cols`, row-major.
    pub grid: Vec<u16>,
    pub rows: usize,
    pub cols: usize,
    pub frame: usize,
    pub off_x: usize,
    pub off_y: usize,
}

impl DiagonalScroll {
    pub open spec fn wf(&self) -> bool {
        &&& self.grid@.len() == self.rows * self.cols
        &&& self.rows > 0
        &&& self.cols > 0
        &&& self.offsets() == iter_offsets(initial_offsets(), self.frame as nat)
    }

    /// The ghost record of the scroll state.
    pub open spec fn offsets(&self) -> ScrollOffsets {
        ScrollOffsets {
            frame: self.frame as int,
            off_x: self.off_x as int,
            off_y: self.off_y as int,
        }
    }

    pub fn new(grid: Vec<u16>, rows: usize, cols: usize) -> (r: DiagonalScroll)
        requires
            grid@.len() == rows * cols,
            rows > 0,
            cols > 0,
        ensures
            r.wf(),
            r.grid == grid,
            r.rows == rows,
            r.cols == cols,
            r.frame == 0,
    {
        DiagonalScroll { grid, rows, cols, frame: 0, off_x: 0, off_y: 0 }
    }

    /// One incremental advance, as `step_offsets` describes.
    pub fn advance_one_step(&mut self)
        requires
            old(self).wf(),
            old(self).frame < 4000000000,
        ensures
            final(self).wf(),
            final(self).offsets() == step_offsets(old(self).offsets()),
            final(self).frame == old(self).frame + 1,
            final(self).grid == old(self).grid,
            final(self).rows == old(self).rows,
            final(self).cols == old(self).cols,
    {
        proof {
            lemma_offsets_bounded(self.frame as nat);
        }
        if self.frame % 2 == 1 {
            self.off_y = self.off_y + 1;
        }
        self.off_x = self.off_x + 1;
        self.frame = self.frame + 1;
        proof {
            assert(self.offsets() =~= step_offsets(old(self).offsets()));
        }
    }

    /// The tile-id shown at screen pixel (x, y), looked up through the
    /// incremental offsets; it equals the stateless formula at the current
    /// frame.
    pub fn tile_id_at(&self, x: usize, y: usize) -> (r: u16)
        requires
            self.wf(),
            x + self.off_x < 4000000000,
            y + self.off_y < 4000000000,
        ensures
            r == diagonal_spec(
                self.grid@,
                self.rows as int,
                self.cols as int,
                self.frame as int,
                x as int,
                y as int,
            ),
    {
        proof {
            lemma_scroll_consistency(self.frame as nat);
        }
        let glen = self.grid.len();
        let tx = ((x + self.off_x) / 8) % self.cols;
        let ty = ((y + self.off_y) / 8) % self.rows;
        proof {
            assert(ty * self.cols + tx < self.rows * self.cols) by (nonlinear_arith)
                requires
                    0 <= tx < self.cols,
                    0 <= ty < self.rows,
            ;
        }
        self.grid[ty * self.cols + tx]
    }
}

/// The tile-id the stateless formula gives directly from a frame number.
pub fn stateless_tile_id(
    grid: &Vec<u16>,
    rows: usize,
    cols: usize,
    frame: usize,
    x: usize,
    y: usize,
) -> (r: u16)
    requires
        grid@.len() == rows * cols,
        rows > 0,
        cols > 0,
        x + frame < 4000000000,
        y + frame < 4000000000,
    ensures
        r == diagonal_spec(grid@, rows as int, cols as int, frame as int, x as int, y as int),
{
    let glen = grid.len();
    let tx = ((x + frame) / 8) % cols;
    let ty = ((y + frame / 2) / 8) % rows;
    proof {
        assert(ty * cols + tx < rows * cols) by (nonlinear_arith)
            requires
                0 <= tx < cols,
                0 <= ty < rows,
        ;
    }
    grid[ty * cols + tx]
}

proof fn lemma_offsets_bounded(f: nat)
    ensures
        iter_offsets(initial_offsets(), f).frame == f,
        iter_offsets(initial_offsets(), f).off_x == f,
        0 <= iter_offsets(initial_offsets(), f).off_y <= f,
    decreases f,
{
    if f > 0 {
        lemma_offsets_bounded((f - 1) as nat);
    }
}

/// Scroll consistency: after `f` incremental advances from the initial
/// state, the offsets are exactly the stateless formula's — the horizontal
/// offset is `f` and the vertical offset is `f / 2` — so a lookup through
/// the incremental form equals the stateless formula at frame `f`.
pub proof fn lemma_scroll_consistency(f: nat)
    ensures
        iter_offsets(initial_offsets(), f).frame == f,
        iter_offsets(initial_offsets(), f).off_x == f,
        iter_offsets(initial_offsets(), f).off_y == f / 2,
    decreases f,
{
    if f > 0 {
        lemma_scroll_consistency((f - 1) as nat);
    }
}

/// Scroll consistency at the lookup level: a well-formed incremental scroll
/// advanced to frame `f` shows, at every screen pixel, the tile the
/// stateless formula names at frame `f`.
pub proof fn lemma_incremental_matches_stateless(s: DiagonalScroll, x: int, y: int)
    requires
        s.wf(),
        x >= 0,
        y >= 0,
    ensures
        diagonal_spec(s.grid@, s.rows as int, s.cols as int, s.frame as int, x, y) == {
            let tx = ((x + s.off_x) / 8) % (s.cols as int);
            let ty = ((y + s.off_y) / 8) % (s.rows as int);
            s.grid@[ty * s.cols + tx]
        },
{
    lemma_scroll_consistency(s.frame as nat);
}

} // verus!
