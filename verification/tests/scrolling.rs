use tilescroll::column::ColumnConveyor;
use tilescroll::tilemap::TileMap;
use tilescroll::fetch::FetchColor;
use tilescroll::scroll::DiagonalScroll;
use tilescroll::scroll::stateless_tile_id;

/// Asset bytes whose decoded backing map holds tile-id `i` at entry `i`,
/// for `count` entries.
fn counting_map_bytes(count: usize) -> Vec<u8> {
    let mut bytes = Vec::with_capacity(count * 2);
    for i in 0..count {
        bytes.push((i % 256) as u8);
        bytes.push((i / 256) as u8);
    }
    bytes
}

#[test]
fn backing_map_little_endian_pairs() {
    let tm = TileMap::new(&[0x34, 0x12, 0xCD, 0xAB, 0xFF]);
    // The trailing odd byte is dropped.
    assert_eq!(tm.map, vec![0x1234, 0xABCD]);
}

#[test]
fn window_seeded_row_major() {
    let bytes = counting_map_bytes(400);
    let tm = TileMap::new(&bytes);
    assert_eq!(tm.tilemap0.len(), 300);
    for i in 0..300 {
        assert_eq!(tm.tilemap0[i], i as u16);
    }
    assert_eq!(tm.cursor, 300);
}

#[test]
fn window_zero_padded_when_backing_short() {
    let tm = TileMap::new(&[7, 0, 9, 0]);
    assert_eq!(tm.tilemap0[0], 7);
    assert_eq!(tm.tilemap0[1], 9);
    assert_eq!(tm.tilemap0[2], 0);
    assert_eq!(tm.tilemap0[299], 0);
}

#[test]
fn overlay_holds_title_card() {
    let tm = TileMap::new(&[]);
    assert_eq!(tm.tilemap1.len(), 1024);
    assert_eq!(tm.tilemap1[12], 0x0612);
    assert_eq!(tm.tilemap1[13], 0x060f);
    assert_eq!(tm.tilemap1[29], 0x061e);
    assert_eq!(tm.tilemap1[258], 0x064d);
    assert_eq!(tm.tilemap1[418], 0x0643);
    assert_eq!(tm.tilemap1[0], 0);
    assert_eq!(tm.tilemap1[30], 0);
    assert_eq!(tm.tilemap1[1023], 0);
}

#[test]
fn conveyor_advance_shifts_and_refills() {
    let bytes = counting_map_bytes(400);
    let mut tm = TileMap::new(&bytes);
    let before = tm.tilemap0.clone();
    tm.next();
    // Every surviving cell moved one row down and two columns left.
    for r in 1..20 {
        for c in 0..13 {
            assert_eq!(tm.tilemap0[r * 15 + c], before[(r - 1) * 15 + (c + 2)]);
        }
    }
    // The top row took the next fifteen backing entries.
    for c in 0..15 {
        assert_eq!(tm.tilemap0[c], (300 + c) as u16);
    }
    // The right two columns of the lower rows took the entries after them.
    for r in 1..20 {
        for c in 13..15 {
            let pulled = 300 + 15 + (r - 1) * 2 + (c - 13);
            assert_eq!(tm.tilemap0[r * 15 + c], pulled as u16);
        }
    }
    assert_eq!(tm.cursor, 353);
}

#[test]
fn map_pixel_lookup_bounds() {
    let bytes = counting_map_bytes(400);
    let tm = TileMap::new(&bytes);
    // Tile coordinates come from division by the tile side.
    assert_eq!(tm.tile_id_at(0, 0), Some(0));
    assert_eq!(tm.tile_id_at(9, 17), Some(2 * 15 + 1));
    assert_eq!(tm.tile_id_at(119, 159), Some(19 * 15 + 14));
    assert_eq!(tm.tile_id_at(120, 0), None);
    assert_eq!(tm.tile_id_at(0, 160), None);
}

#[test]
fn reset_reseeds_window() {
    let bytes = counting_map_bytes(400);
    let mut tm = TileMap::new(&bytes);
    tm.next();
    tm.reset();
    assert_eq!(tm.cursor, 300);
    for i in 0..300 {
        assert_eq!(tm.tilemap0[i], i as u16);
    }
}

#[test]
fn wraparound_after_161_advances() {
    // 8780 backing entries cover one full frame budget.
    let bytes = counting_map_bytes(8780);
    let mut fc = FetchColor::new(&bytes, &[]);
    for _ in 0..161 {
        fc.next_frame();
    }
    // The window again equals a freshly reset one and the cursor sits
    // right past the seed region.
    let mut fresh = TileMap::new(&bytes);
    fresh.reset();
    assert_eq!(fc.map.tilemap0, fresh.tilemap0);
    assert_eq!(fc.map.cursor, 300);
    assert_eq!(fc.frame, 0);
}

#[test]
fn no_reset_before_budget_exhausted() {
    let bytes = counting_map_bytes(8780);
    let mut fc = FetchColor::new(&bytes, &[]);
    for _ in 0..160 {
        fc.next_frame();
    }
    assert_eq!(fc.frame, 160);
    assert_eq!(fc.map.cursor, 8780);
}

#[test]
fn advance_applies_each_tick_once() {
    let bytes = counting_map_bytes(8780);
    let mut a = FetchColor::new(&bytes, &[]);
    let mut b = FetchColor::new(&bytes, &[]);
    a.advance(4);
    a.advance(3);
    for _ in 0..7 {
        b.next_frame();
    }
    assert_eq!(a.map.tilemap0, b.map.tilemap0);
    assert_eq!(a.cache, b.cache);
    assert_eq!(a.frame, 7);
}

#[test]
fn skip_to_matches_repeated_advances() {
    let bytes = counting_map_bytes(8780);
    let mut a = FetchColor::new(&bytes, &[]);
    let mut b = FetchColor::new(&bytes, &[]);
    a.skip_to(5);
    for _ in 0..5 {
        b.next_frame();
    }
    assert_eq!(a.map.tilemap0, b.map.tilemap0);
    assert_eq!(a.cache, b.cache);
    assert_eq!(a.map.cursor, b.map.cursor);
    assert_eq!(a.frame, 5);
    // A target not ahead of the current frame changes nothing.
    let cursor = a.map.cursor;
    a.skip_to(3);
    assert_eq!(a.frame, 5);
    assert_eq!(a.map.cursor, cursor);
}

#[test]
fn column_conveyor_shifts_one_column() {
    let backing: Vec<u16> = (0..100).map(|i| i as u16).collect();
    let mut cc = ColumnConveyor::new(backing, 3, 5);
    assert_eq!(cc.window, vec![0, 1, 2, 3, 4, 5, 6, 7, 8, 9, 10, 11, 12, 13, 14]);
    assert_eq!(cc.cursor, 15);
    cc.advance_one_step();
    // Cells moved one column left; the right edge took entries 15, 16, 17.
    assert_eq!(cc.window, vec![1, 2, 3, 4, 15, 6, 7, 8, 9, 16, 11, 12, 13, 14, 17]);
    assert_eq!(cc.cursor, 18);
    cc.advance_one_step();
    assert_eq!(cc.window, vec![2, 3, 4, 15, 18, 7, 8, 9, 16, 19, 12, 13, 14, 17, 20]);
}

#[test]
fn column_conveyor_window_is_pure_function_of_advances() {
    // Cell (r, c) after f advances holds the backing entry whose index
    // depends on (r, c, f) alone.
    let backing: Vec<u16> = (0..1000).map(|i| i as u16).collect();
    let (rows, cols) = (4usize, 6usize);
    let mut cc = ColumnConveyor::new(backing, rows, cols);
    let index_of = |r: usize, c: usize, f: usize| -> usize {
        if c + f < cols {
            r * cols + c + f
        } else {
            rows * cols + rows * (f - (cols - 1 - c) - 1) + r
        }
    };
    for f in 0..30 {
        for r in 0..rows {
            for c in 0..cols {
                assert_eq!(
                    cc.window[r * cols + c] as usize,
                    index_of(r, c, f),
                    "advance {} cell ({}, {})",
                    f,
                    r,
                    c
                );
            }
        }
        cc.advance_one_step();
    }
}

#[test]
fn column_conveyor_pixel_lookup() {
    let backing: Vec<u16> = (0..100).map(|i| i as u16).collect();
    let cc = ColumnConveyor::new(backing, 3, 5);
    assert_eq!(cc.tile_id_at(0, 0), Some(0));
    assert_eq!(cc.tile_id_at(39, 23), Some(2 * 5 + 4));
    assert_eq!(cc.tile_id_at(40, 0), None);
    assert_eq!(cc.tile_id_at(0, 24), None);
}

#[test]
fn scroll_consistency_incremental_vs_stateless() {
    // The incremental diagonal scroll agrees with the stateless formula at
    // every frame of one budget.
    let grid: Vec<u16> = (0..16).map(|i| i as u16).collect();
    let mut s = DiagonalScroll::new(grid.clone(), 4, 4);
    for f in 0..160 {
        for &(x, y) in &[(0usize, 0usize), (7, 3), (31, 17), (100, 99)] {
            assert_eq!(
                s.tile_id_at(x, y),
                stateless_tile_id(&grid, 4, 4, f, x, y),
                "frame {} pixel ({}, {})",
                f,
                x,
                y
            );
        }
        s.advance_one_step();
    }
}

#[test]
fn conveyor_window_is_pure_function_of_frame() {
    // The window after f advances holds, at cell (r, c), the backing entry
    // whose index depends only on (r, c, f): cells trace back one row up
    // and two columns right per advance until a refill edge.
    let bytes = counting_map_bytes(8780);
    let mut fc = FetchColor::new(&bytes, &[]);
    let index_of = |r: usize, c: usize, f: usize| -> usize {
        let jc = if c >= 13 { 0 } else { (14 - c) / 2 };
        let j = if r <= jc { r } else { jc };
        if j >= f {
            15 * (r - f) + (c + 2 * f)
        } else {
            let rr = r - j;
            let cc = c + 2 * j;
            if rr == 0 {
                300 + 53 * (f - j - 1) + cc
            } else {
                300 + 53 * (f - j - 1) + 15 + 2 * (rr - 1) + (cc - 13)
            }
        }
    };
    let mut f = 0;
    for checkpoint in [0usize, 1, 2, 7, 40, 160] {
        while f < checkpoint {
            fc.next_frame();
            f += 1;
        }
        for r in 0..20 {
            for c in 0..15 {
                // The counting backing map holds entry i at index i.
                assert_eq!(
                    fc.map.tilemap0[r * 15 + c] as usize,
                    index_of(r, c, f),
                    "frame {} cell ({}, {})",
                    f,
                    r,
                    c
                );
            }
        }
    }
}

#[test]
fn diagonal_scroll_offsets() {
    let grid: Vec<u16> = vec![0; 16];
    let mut s = DiagonalScroll::new(grid, 4, 4);
    s.advance_one_step();
    assert_eq!((s.frame, s.off_x, s.off_y), (1, 1, 0));
    s.advance_one_step();
    assert_eq!((s.frame, s.off_x, s.off_y), (2, 2, 1));
    s.advance_one_step();
    assert_eq!((s.frame, s.off_x, s.off_y), (3, 3, 1));
}

#[test]
fn stateless_formula_values() {
    let grid: Vec<u16> = (0..16).map(|i| i as u16).collect();
    // Frame 0 at (0, 0): tile (0, 0).
    assert_eq!(stateless_tile_id(&grid, 4, 4, 0, 0, 0), 0);
    // Frame 8 at (0, 0): map x is 8, one tile right; map y is 4, still row 0.
    assert_eq!(stateless_tile_id(&grid, 4, 4, 8, 0, 0), 1);
    // Frame 16 at (0, 0): two tiles right, one tile down.
    assert_eq!(stateless_tile_id(&grid, 4, 4, 16, 0, 0), 4 + 2);
    // Wraparound at the grid edge.
    assert_eq!(stateless_tile_id(&grid, 4, 4, 32, 0, 0), 2 * 4 + 0);
}
