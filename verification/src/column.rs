//! The row-major single-column conveyor policy.
//!
//! A `rows` by `cols` window slides over a backing sequence of tile-ids:
//! each advance shifts every cell one column toward the left edge and
//! refills the vacated rightmost column from the backing map through a
//! cursor, one entry per row, top to bottom. Like the diagonal conveyor,
//! the window is a pure function of the advance count, proved below.

use vstd::prelude::*;

verus! {

/// The window after one advance: every cell moves one column left; the
/// rightmost column takes the next `rows` backing entries, one per row.
pub open spec fn column_next_window(
    w: Seq<u16>,
    backing: Seq<u16>,
    cur: int,
    rows: int,
    cols: int,
) -> Seq<u16> {
    Seq::new(
        (rows * cols) as nat,
        |i: int|
            {
                let r = i / cols;
                let c = i % cols;
                if c < cols - 1 {
                    w[i + 1]
                } else {
                    backing[cur + r]
                }
            },
    )
}

/// The window after `f` advances from the seeded window: the pure mapping
/// from advance count to window state. The seed is the first `rows * cols`
/// backing entries, row-major, and each advance consumes `rows` entries.
pub open spec fn column_window_after(backing: Seq<u16>, rows: int, cols: int, f: nat) -> Seq<u16>
    decreases f,
{
    if f == 0 {
        backing.take(rows * cols)
    } else {
        column_next_window(
            column_window_after(backing, rows, cols, (f - 1) as nat),
            backing,
            rows * cols + rows * (f - 1),
            rows,
            cols,
        )
    }
}

/// The stateless index function of this policy: which backing entry window
/// cell (r, c) holds after `f` advances. A cell still showing seed content
/// has slid `f` columns; one past the seed was refilled when it sat at the
/// right edge.
pub open spec fn column_stateless_index(r: int, c: int, f: int, rows: int, cols: int) -> int {
    if c + f < cols {
        r * cols + (c + f)
    } else {
        rows * cols + rows * (f - (cols - 1 - c) - 1) + r
    }
}

/// The single-column conveyor's window is a pure function of the advance
/// count: after `f` advances from the seeded window, cell (r, c) holds
/// exactly the backing entry the stateless index function names.
pub proof fn lemma_column_stateless(backing: Seq<u16>, rows: int, cols: int, f: nat, r: int, c: int)
    requires
        0 <= r < rows,
        0 <= c < cols,
        backing.len() >= rows * cols + rows * f,
    ensures
        0 <= column_stateless_index(r, c, f as int, rows, cols) < rows * cols + rows * f,
        column_window_after(backing, rows, cols, f)[r * cols + c] == backing[
            column_stateless_index(r, c, f as int, rows, cols)
        ],
    decreases f,
{
    let i = r * cols + c;
    vstd::arithmetic::div_mod::lemma_fundamental_div_mod_converse(i, cols, r, c);
    assert(i / cols == r && i % cols == c);
    assert(0 <= i < rows * cols) by (nonlinear_arith)
        requires
            0 <= r < rows,
            0 <= c < cols,
            i == r * cols + c,
    ;
    if f == 0 {
        assert(column_stateless_index(r, c, 0, rows, cols) == i);
    } else {
        let w1 = column_window_after(backing, rows, cols, (f - 1) as nat);
        let cur = rows * cols + rows * (f - 1);
        assert(column_window_after(backing, rows, cols, f) == column_next_window(
            w1,
            backing,
            cur,
            rows,
            cols,
        ));
        assert(rows * f == rows * (f - 1) + rows) by (nonlinear_arith);
        if c < cols - 1 {
            lemma_column_stateless(backing, rows, cols, (f - 1) as nat, r, c + 1);
            assert(r * cols + (c + 1) == i + 1);
            assert(column_stateless_index(r, c + 1, f - 1, rows, cols)
                == column_stateless_index(r, c, f as int, rows, cols));
        } else {
            assert(column_window_after(backing, rows, cols, f)[i] == backing[cur + r]);
            assert(column_stateless_index(r, c, f as int, rows, cols) == cur + r);
        }
    }
}

/// The single-column conveyor: backing map, visible window and refill
/// cursor.
pub struct ColumnConveyor {
    /// The visible window, `rows` by `cols`, row-major.
    pub window: Vec<u16>,
    /// The full backing map of tile-ids.
    pub backing: Vec<u16>,
    pub rows: usize,
    pub cols: usize,
    /// Index of the next backing entry to pull into the window.
    pub cursor: usize,
}

impl ColumnConveyor {
    pub open spec fn wf(&self) -> bool {
        &&& self.window@.len() == self.rows * self.cols
        &&& self.rows > 0
        &&& self.cols > 0
        &&& self.cursor <= self.backing@.len()
    }

    /// Seeds the window with the first `rows * cols` backing entries,
    /// row-major, and puts the cursor right after them.
    pub fn new(backing: Vec<u16>, rows: usize, cols: usize) -> (r: ColumnConveyor)
        requires
            rows > 0,
            cols > 0,
            rows * cols <= backing@.len(),
        ensures
            r.wf(),
            r.backing == backing,
            r.rows == rows,
            r.cols == cols,
            r.window@ == backing@.take(rows as int * cols as int),
            r.cursor == rows * cols,
    {
        let blen = backing.len();
        proof {
            assert(rows * cols <= blen);
        }
        let cells = rows * cols;
        let mut window: Vec<u16> = Vec::new();
        let mut i: usize = 0;
        while i < cells
            invariant
                i <= cells,
                cells == rows * cols,
                cells <= backing@.len(),
                window@.len() == i,
                forall|k: int| 0 <= k < i ==> window@[k] == backing@[k],
            decreases cells - i,
        {
            let v = backing[i];
            window.push(v);
            i += 1;
        }
        proof {
            assert(window@ =~= backing@.take(rows as int * cols as int));
        }
        ColumnConveyor { window, backing, rows, cols, cursor: cells }
    }

    /// One advance: every cell shifts one column left and the rightmost
    /// column takes the next `rows` backing entries through the cursor.
    pub fn advance_one_step(&mut self)
        requires
            old(self).wf(),
            old(self).cursor + old(self).rows <= old(self).backing@.len(),
        ensures
            final(self).wf(),
            final(self).window@ == column_next_window(
                old(self).window@,
                old(self).backing@,
                old(self).cursor as int,
                old(self).rows as int,
                old(self).cols as int,
            ),
            final(self).cursor == old(self).cursor + old(self).rows,
            final(self).backing == old(self).backing,
            final(self).rows == old(self).rows,
            final(self).cols == old(self).cols,
    {
        let cells = self.window.len();
        let blen = self.backing.len();
        let cur0 = self.cursor;
        let mut data: Vec<u16> = Vec::new();
        let mut i: usize = 0;
        while i < cells
            invariant
                i <= cells,
                self == old(self),
                self.wf(),
                cells == self.rows * self.cols,
                cur0 == self.cursor,
                blen == self.backing@.len(),
                cur0 + self.rows <= blen,
                data@.len() == i,
                forall|k: int|
                    0 <= k < i ==> data@[k] == column_next_window(
                        self.window@,
                        self.backing@,
                        cur0 as int,
                        self.rows as int,
                        self.cols as int,
                    )[k],
            decreases cells - i,
        {
            let r = i / self.cols;
            let c = i % self.cols;
            proof {
                vstd::arithmetic::div_mod::lemma_fundamental_div_mod(
                    i as int,
                    self.cols as int,
                );
                assert(r < self.rows && (c < self.cols - 1 ==> i + 1 < self.rows * self.cols))
                    by (nonlinear_arith)
                    requires
                        self.cols > 0,
                        i < self.rows * self.cols,
                        i == self.cols as int * (r as int) + c,
                        0 <= c < self.cols,
                ;
            }
            let v = if c < self.cols - 1 {
                self.window[i + 1]
            } else {
                self.backing[cur0 + r]
            };
            data.push(v);
            i += 1;
        }
        proof {
            assert(data@ =~= column_next_window(
                self.window@,
                self.backing@,
                cur0 as int,
                self.rows as int,
                self.cols as int,
            ));
        }
        self.window = data;
        self.cursor = cur0 + self.rows;
    }

    /// The window's tile-id at map pixel (x, y), or none outside the grid.
    pub fn tile_id_at(&self, map_pixel_x: usize, map_pixel_y: usize) -> (r: Option<u16>)
        requires
            self.wf(),
        ensures
            map_pixel_x / 8 >= self.cols || map_pixel_y / 8 >= self.rows ==> r is None,
            map_pixel_x / 8 < self.cols && map_pixel_y / 8 < self.rows ==> r == Some(
                self.window@[(map_pixel_y / 8) * self.cols + map_pixel_x / 8],
            ),
    {
        let wlen = self.window.len();
        let tx = map_pixel_x / 8;
        let ty = map_pixel_y / 8;
        if tx >= self.cols || ty >= self.rows {
            None
        } else {
            proof {
                assert(ty * self.cols + tx < self.rows * self.cols) by (nonlinear_arith)
                    requires
                        0 <= tx < self.cols,
                        0 <= ty < self.rows,
                ;
            }
            Some(self.window[ty * self.cols + tx])
        }
    }
}

} // verus!
