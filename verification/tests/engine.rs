use game_of_life::{GridError, Universe};

fn cell(u: &Universe, row: u32, col: u32) -> bool {
    u.cells()[(row * u.width() + col) as usize]
}

fn live_cells(u: &Universe) -> Vec<(u32, u32)> {
    let mut live: Vec<(u32, u32)> = Vec::new();
    for row in 0..u.height() {
        for col in 0..u.width() {
            if cell(u, row, col) {
                live.push((row, col));
            }
        }
    }
    live
}

#[test]
fn new_has_default_dimensions_and_dead_cells() {
    let u = Universe::new();
    assert_eq!(u.width(), 320);
    assert_eq!(u.height(), 128);
    assert_eq!(u.cells().len(), 320 * 128);
    assert!(u.cells().iter().all(|&alive| !alive));
}

#[test]
fn with_size_rejects_zero_dimensions() {
    assert_eq!(Universe::with_size(0, 5).err(), Some(GridError::InvalidDimensions));
    assert_eq!(Universe::with_size(5, 0).err(), Some(GridError::InvalidDimensions));
    assert_eq!(Universe::with_size(0, 0).err(), Some(GridError::InvalidDimensions));
    let u = Universe::with_size(7, 9).unwrap();
    assert_eq!(u.width(), 7);
    assert_eq!(u.height(), 9);
    assert_eq!(u.cells().len(), 63);
}

#[test]
fn set_cell_reads_back_and_resets() {
    let mut u = Universe::with_size(6, 6).unwrap();
    assert_eq!(u.set_cell(3, 4, true), Ok(()));
    assert!(cell(&u, 3, 4));
    assert_eq!(live_cells(&u), vec![(3, 4)]);
    assert_eq!(u.set_cell(3, 4, false), Ok(()));
    assert!(live_cells(&u).is_empty());
}

#[test]
fn set_cell_out_of_bounds_is_refused() {
    let mut u = Universe::with_size(6, 4).unwrap();
    assert_eq!(u.set_cell(4, 0, true), Err(GridError::OutOfBounds));
    assert_eq!(u.set_cell(0, 6, true), Err(GridError::OutOfBounds));
    assert!(live_cells(&u).is_empty());
}

#[test]
fn tick_is_deterministic() {
    let mut a = Universe::new();
    let mut b = Universe::new();
    a.insert_glider(5, 5).unwrap();
    b.insert_glider(5, 5).unwrap();
    a.tick();
    b.tick();
    assert_eq!(a.cells(), b.cells());
}

#[test]
fn tick_preserves_dimensions() {
    let mut u = Universe::with_size(9, 5).unwrap();
    u.randomize();
    u.tick();
    assert_eq!(u.width(), 9);
    assert_eq!(u.height(), 5);
    assert_eq!(u.cells().len(), 45);
}

#[test]
fn block_is_a_still_life() {
    let mut u = Universe::with_size(8, 8).unwrap();
    for (row, col) in [(3, 3), (3, 4), (4, 3), (4, 4)] {
        u.set_cell(row, col, true).unwrap();
    }
    let before = u.cells().clone();
    u.tick();
    assert_eq!(u.cells(), &before);
}

#[test]
fn blinker_oscillates_with_period_two() {
    let mut u = Universe::with_size(8, 8).unwrap();
    for col in [2, 3, 4] {
        u.set_cell(3, col, true).unwrap();
    }
    let start = u.cells().clone();
    u.tick();
    assert_eq!(live_cells(&u), vec![(2, 3), (3, 3), (4, 3)]);
    u.tick();
    assert_eq!(u.cells(), &start);
}

#[test]
fn corner_cell_is_born_through_wraparound() {
    // The three live cells are all neighbours of (0, 0) only by toroidal
    // wraparound, among them the diagonally opposite corner.
    let mut u = Universe::with_size(7, 5).unwrap();
    u.set_cell(4, 6, true).unwrap();
    u.set_cell(4, 1, true).unwrap();
    u.set_cell(1, 6, true).unwrap();
    u.tick();
    assert!(cell(&u, 0, 0));
}

#[test]
fn glider_translates_diagonally_in_four_ticks() {
    let mut u = Universe::new();
    u.insert_glider(2, 2).unwrap();
    let start = live_cells(&u);
    assert_eq!(start.len(), 5);
    for _ in 0..4 {
        u.tick();
    }
    let expected: Vec<(u32, u32)> = {
        let mut moved: Vec<(u32, u32)> = start.iter().map(|&(r, c)| (r + 1, c + 1)).collect();
        moved.sort();
        moved
    };
    let mut after = live_cells(&u);
    after.sort();
    assert_eq!(after, expected);
}

#[test]
fn glider_near_edge_is_refused() {
    let mut u = Universe::with_size(10, 10).unwrap();
    assert_eq!(u.insert_glider(1, 5), Err(GridError::OutOfBounds));
    assert_eq!(u.insert_glider(2, 0), Err(GridError::OutOfBounds));
    assert_eq!(u.insert_glider(2, 9), Err(GridError::OutOfBounds));
    assert_eq!(u.insert_glider(10, 5), Err(GridError::OutOfBounds));
    assert!(live_cells(&u).is_empty());
}

#[test]
fn pulsar_has_forty_eight_cells_and_period_three() {
    let mut u = Universe::new();
    u.insert_pulsar(10, 10).unwrap();
    let start = live_cells(&u);
    assert_eq!(start.len(), 48);
    // Spot-check one arm in each quadrant.
    assert!(cell(&u, 9, 8) && cell(&u, 9, 7) && cell(&u, 9, 6));
    assert!(cell(&u, 9, 12) && cell(&u, 4, 12));
    assert!(cell(&u, 11, 8) && cell(&u, 16, 8));
    assert!(cell(&u, 12, 11) && cell(&u, 12, 16));
    for _ in 0..3 {
        u.tick();
    }
    assert_eq!(live_cells(&u), start);
}

#[test]
fn pulsar_near_edge_is_refused() {
    let mut u = Universe::with_size(20, 20).unwrap();
    assert_eq!(u.insert_pulsar(5, 10), Err(GridError::OutOfBounds));
    assert_eq!(u.insert_pulsar(10, 5), Err(GridError::OutOfBounds));
    assert_eq!(u.insert_pulsar(14, 10), Err(GridError::OutOfBounds));
    assert_eq!(u.insert_pulsar(10, 14), Err(GridError::OutOfBounds));
    assert!(live_cells(&u).is_empty());
}

#[test]
fn render_has_height_lines_of_width_glyphs() {
    let mut u = Universe::with_size(4, 3).unwrap();
    u.set_cell(1, 2, true).unwrap();
    let text = u.render();
    assert!(text.ends_with('\n'));
    let lines: Vec<&str> = text.lines().collect();
    assert_eq!(lines.len(), 3);
    for line in &lines {
        assert_eq!(line.chars().count(), 4);
    }
}

#[test]
fn render_uses_one_glyph_per_state() {
    let mut u = Universe::with_size(3, 2).unwrap();
    u.set_cell(0, 1, true).unwrap();
    assert_eq!(u.render(), "◻◼◻\n◻◻◻\n");
}

#[test]
fn clear_is_idempotent() {
    let mut u = Universe::with_size(12, 7).unwrap();
    u.randomize();
    u.clear();
    let once = u.cells().clone();
    u.clear();
    assert_eq!(u.cells(), &once);
    assert!(once.iter().all(|&alive| !alive));
    assert_eq!(once.len(), 12 * 7);
}

#[test]
fn randomize_produces_both_states() {
    let mut u = Universe::new();
    let mut saw_alive = false;
    let mut saw_dead = false;
    for _ in 0..5 {
        u.randomize();
        saw_alive = saw_alive || u.cells().iter().any(|&alive| alive);
        saw_dead = saw_dead || u.cells().iter().any(|&alive| !alive);
    }
    assert!(saw_alive);
    assert!(saw_dead);
}
