use crate::model::{
    cleared, empty_grid, glider_covers, glyph, lemma_cell_index, lemma_index_injective,
    lemma_pulsar_quadrants, lemma_row_major, lemma_wrap, live_neighbors, next_cell, pulsar_covers,
    pulsar_quadrant, render_rows, render_text, step, GridView,
};
use vstd::prelude::*;

verus! {

/// Default grid width, in cells.
pub const GRID_WIDTH: u32 = 320;

/// Default grid height, in cells.
pub const GRID_HEIGHT: u32 = 128;

/// Why an operation on a grid was refused.
#[derive(Clone, Copy, Debug, PartialEq, Eq, Structural)]
pub enum GridError {
    /// A row or column lies outside the grid, or a stamped pattern would.
    OutOfBounds,
    /// A grid dimension is zero.
    InvalidDimensions,
}

/// A toroidal Game of Life grid: fixed dimensions and a row-major cell
/// buffer, `true` standing for a live cell.
pub struct Universe {
    width: u32,
    height: u32,
    cells: Vec<bool>,
}

impl View for Universe {
    type V = GridView;

    closed spec fn view(&self) -> GridView {
        GridView { width: self.width as int, height: self.height as int, cells: self.cells@ }
    }
}

/// A buffer of `n` dead cells.
fn make_cells(n: usize) -> (cells: Vec<bool>)
    ensures
        cells@ == Seq::new(n as nat, |k: int| false),
{
    let mut cells: Vec<bool> = Vec::new();
    let mut i: usize = 0;
    while i < n
        invariant
            i <= n,
            cells@.len() == i,
            forall|k: int| 0 <= k < i ==> !cells@[k],
        decreases n - i,
    {
        cells.push(false);
        i = i + 1;
    }
    proof {
        assert(cells@ =~= Seq::new(n as nat, |k: int| false));
    }
    cells
}

impl Universe {
    /// A grid of the given dimensions with every cell dead. Zero in either
    /// dimension is refused.
    pub fn with_size(width: u32, height: u32) -> (result: Result<Universe, GridError>)
        requires
            width * height <= usize::MAX,
        ensures
            result is Ok <==> (0 < width && 0 < height),
            (result matches Ok(u) ==> u@ == empty_grid(width as int, height as int)),
            (result matches Ok(u) ==> u@.wf()),
            (result matches Err(e) ==> e == GridError::InvalidDimensions),
    {
        if width == 0 || height == 0 {
            return Err(GridError::InvalidDimensions);
        }
        let n: usize = (width as usize) * (height as usize);
        let u = Universe { width, height, cells: make_cells(n) };
        proof {
            assert(u@ =~= empty_grid(width as int, height as int));
        }
        Ok(u)
    }

    /// The default grid: 320 by 128 cells, all dead.
    pub fn new() -> (u: Universe)
        ensures
            u@ == empty_grid(GRID_WIDTH as int, GRID_HEIGHT as int),
            u@.wf(),
            u@.width == GRID_WIDTH,
            u@.height == GRID_HEIGHT,
    {
        match Universe::with_size(GRID_WIDTH, GRID_HEIGHT) {
            Ok(u) => u,
            Err(_) => vstd::pervasive::unreached(),
        }
    }

    /// The grid width, in cells.
    pub fn width(&self) -> (w: u32)
        ensures
            w == self@.width,
    {
        self.width
    }

    /// The grid height, in cells.
    pub fn height(&self) -> (h: u32)
        ensures
            h == self@.height,
    {
        self.height
    }

    /// Read-only access to the row-major cell buffer.
    pub fn cells(&self) -> (cells: &Vec<bool>)
        ensures
            cells@ == self@.cells,
    {
        &self.cells
    }

    /// The buffer index of the cell at `(row, column)`.
    fn get_index(&self, row: u32, column: u32) -> (idx: usize)
        requires
            self@.wf(),
            row < self@.height,
            column < self@.width,
        ensures
            idx == row * self@.width + column,
            idx < self@.cells.len(),
    {
        proof {
            lemma_cell_index(self@.width, self@.height, row as int, column as int);
            assert(self@.cells.len() <= usize::MAX) by {
                assert(self.cells.len() == self@.cells.len());
            }
        }
        (row as usize) * (self.width as usize) + (column as usize)
    }

    /// The number of live cells among the eight toroidally wrapped
    /// neighbours of `(row, column)`.
    #[verifier::rlimit(30)]
    fn live_neighbor_count(&self, row: u32, column: u32) -> (count: u8)
        requires
            self@.wf(),
            row < self@.height,
            column < self@.width,
        ensures
            count == live_neighbors(self@, row as int, column as int),
            count <= 8,
    {
        let up = if row == 0 {
            self.height - 1
        } else {
            row - 1
        };
        let down = if row == self.height - 1 {
            0
        } else {
            row + 1
        };
        let left = if column == 0 {
            self.width - 1
        } else {
            column - 1
        };
        let right = if column == self.width - 1 {
            0
        } else {
            column + 1
        };
        let ghost g: GridView = self@;
        let ghost r: int = row as int;
        let ghost c: int = column as int;
        proof {
            lemma_wrap(g.height, r);
            lemma_wrap(g.width, c);
            assert((r + (g.height - 1)) % g.height == up as int);
            assert((r + 1) % g.height == down as int);
            assert(r % g.height == r);
            assert((c + (g.width - 1)) % g.width == left as int);
            assert((c + 1) % g.width == right as int);
            assert(c % g.width == c);
        }
        let mut count: u8 = 0;
        if self.cells[self.get_index(up, left)] {
            count = count + 1;
        }
        if self.cells[self.get_index(up, column)] {
            count = count + 1;
        }
        if self.cells[self.get_index(up, right)] {
            count = count + 1;
        }
        if self.cells[self.get_index(row, left)] {
            count = count + 1;
        }
        if self.cells[self.get_index(row, right)] {
            count = count + 1;
        }
        if self.cells[self.get_index(down, left)] {
            count = count + 1;
        }
        if self.cells[self.get_index(down, column)] {
            count = count + 1;
        }
        if self.cells[self.get_index(down, right)] {
            count = count + 1;
        }
        count
    }

    /// Advance the grid by exactly one generation: every cell is rewritten
    /// simultaneously, from a snapshot of the current generation, by the
    /// life-and-death rule.
    #[verifier::loop_isolation(false)]
    pub fn tick(&mut self)
        requires
            old(self)@.wf(),
        ensures
            final(self)@ == step(old(self)@),
            final(self)@.wf(),
    {
        let ghost g: GridView = self@;
        let mut next: Vec<bool> = Vec::new();
        let mut row: u32 = 0;
        while row < self.height
            invariant
                row <= self.height,
                next@.len() == row * g.width,
                forall|k: int| 0 <= k < next@.len() ==> next@[k] == step(g).cells[k],
            decreases self.height - row,
        {
            let mut col: u32 = 0;
            while col < self.width
                invariant
                    col <= self.width,
                    next@.len() == row * g.width + col,
                    forall|k: int| 0 <= k < next@.len() ==> next@[k] == step(g).cells[k],
                decreases self.width - col,
            {
                let idx = self.get_index(row, col);
                let alive = self.cells[idx];
                let neighbors = self.live_neighbor_count(row, col);
                let next_state = if alive {
                    neighbors == 2 || neighbors == 3
                } else {
                    neighbors == 3
                };
                proof {
                    lemma_cell_index(g.width, g.height, row as int, col as int);
                    lemma_row_major(g.width, row as int, col as int);
                    assert(step(g).cells[row * g.width + col] == next_cell(
                        alive,
                        live_neighbors(g, row as int, col as int),
                    ));
                }
                next.push(next_state);
                col = col + 1;
            }
            proof {
                assert((row + 1) * g.width == row * g.width + g.width) by (nonlinear_arith);
            }
            row = row + 1;
        }
        self.cells = next;
        proof {
            assert(g.height * g.width == g.width * g.height) by (nonlinear_arith);
            assert(self@ =~= step(g));
        }
    }

    /// Rewrite every cell independently with a uniformly random state. The
    /// dimensions are kept; nothing is promised of the cells that come out.
    #[verifier::loop_isolation(false)]
    pub fn randomize(&mut self)
        requires
            old(self)@.wf(),
        ensures
            final(self)@.wf(),
            final(self)@.width == old(self)@.width,
            final(self)@.height == old(self)@.height,
    {
        let n: usize = self.cells.len();
        let mut cells: Vec<bool> = Vec::new();
        let mut i: usize = 0;
        while i < n
            invariant
                i <= n,
                cells@.len() == i,
            decreases n - i,
        {
            cells.push(crate::rng::random_cell());
            i = i + 1;
        }
        self.cells = cells;
    }

    /// Reset every cell to dead; the dimensions are kept.
    pub fn clear(&mut self)
        requires
            old(self)@.wf(),
        ensures
            final(self)@ == cleared(old(self)@),
            final(self)@.wf(),
    {
        let n: usize = self.cells.len();
        self.cells = make_cells(n);
        proof {
            assert(self@ =~= cleared(old(self)@));
        }
    }

    /// The grid as text: `height` rows of `width` glyphs, a filled square
    /// for a live cell and an open one for a dead cell, every row ended by
    /// a newline.
    #[verifier::loop_isolation(false)]
    pub fn render(&self) -> (out: String)
        requires
            self@.wf(),
        ensures
            out@ == render_text(self@),
    {
        let ghost g: GridView = self@;
        let mut out = String::new();
        proof {
            assert(out@ =~= render_rows(g, 0));
        }
        let mut row: u32 = 0;
        while row < self.height
            invariant
                row <= self.height,
                out@ == render_rows(g, row as int),
            decreases self.height - row,
        {
            let mut col: u32 = 0;
            while col < self.width
                invariant
                    col <= self.width,
                    out@ == render_rows(g, row as int) + Seq::new(
                        col as nat,
                        |j: int| glyph(g.cell(row as int, j)),
                    ),
                decreases self.width - col,
            {
                let idx = self.get_index(row, col);
                if self.cells[idx] {
                    out.append("◼");
                } else {
                    out.append("◻");
                }
                proof {
                    reveal_strlit("◼");
                    reveal_strlit("◻");
                    assert(out@ =~= render_rows(g, row as int) + Seq::new(
                        (col + 1) as nat,
                        |j: int| glyph(g.cell(row as int, j)),
                    ));
                }
                col = col + 1;
            }
            out.append("\n");
            proof {
                reveal_strlit("\n");
                assert(out@ =~= render_rows(g, row as int + 1));
            }
            row = row + 1;
        }
        out
    }

    /// Set the single cell at `(row, column)` to the given state. Out-of-range
    /// coordinates are refused and leave the grid unchanged.
    pub fn set_cell(&mut self, row: u32, column: u32, new_value: bool) -> (result: Result<
        (),
        GridError,
    >)
        requires
            old(self)@.wf(),
        ensures
            final(self)@.wf(),
            final(self)@.width == old(self)@.width,
            final(self)@.height == old(self)@.height,
            result is Ok <==> (row < old(self)@.height && column < old(self)@.width),
            (result is Ok ==> final(self)@.cells == old(self)@.cells.update(
                row * old(self)@.width + column,
                new_value,
            )),
            (result is Err ==> final(self)@ == old(self)@ && result == Err::<(), GridError>(
                GridError::OutOfBounds,
            )),
    {
        if row < self.height && column < self.width {
            let idx = self.get_index(row, column);
            self.cells[idx] = new_value;
            Ok(())
        } else {
            Err(GridError::OutOfBounds)
        }
    }

    /// Set the single in-range cell at `(row, column)` live.
    fn stamp(&mut self, row: u32, column: u32)
        requires
            old(self)@.wf(),
            row < old(self)@.height,
            column < old(self)@.width,
        ensures
            final(self)@.wf(),
            final(self)@.width == old(self)@.width,
            final(self)@.height == old(self)@.height,
            final(self)@.cells == old(self)@.cells.update(row * old(self)@.width + column, true),
    {
        let idx = self.get_index(row, column);
        self.cells[idx] = true;
    }

    /// Stamp the five cells of a glider with `(row, column)` as the anchor of
    /// its bottom row. An anchor closer than two rows to the top edge or one
    /// column to either side edge is refused and leaves the grid unchanged.
    pub fn insert_glider(&mut self, row: u32, column: u32) -> (result: Result<(), GridError>)
        requires
            old(self)@.wf(),
        ensures
            final(self)@.wf(),
            final(self)@.width == old(self)@.width,
            final(self)@.height == old(self)@.height,
            result is Ok <==> (2 <= row && row < old(self)@.height && 1 <= column && column + 1
                < old(self)@.width),
            (result is Ok ==> final(self)@.cells.len() == old(self)@.cells.len() && forall|
                i: int,
                j: int,
            |
                0 <= i < old(self)@.height && 0 <= j < old(self)@.width ==> final(self)@.cell(i, j)
                    == (old(self)@.cell(i, j) || glider_covers(row as int, column as int, i, j))),
            (result is Err ==> final(self)@ == old(self)@ && result == Err::<(), GridError>(
                GridError::OutOfBounds,
            )),
    {
        if !(row >= 2 && row < self.height && column >= 1 && column < self.width - 1) {
            return Err(GridError::OutOfBounds);
        }
        let ghost g: GridView = self@;
        self.stamp(row, column);
        self.stamp(row, column - 1);
        self.stamp(row, column + 1);
        self.stamp(row - 1, column + 1);
        self.stamp(row - 2, column);
        proof {
            let r = row as int;
            let c = column as int;
            let w = g.width;
            let h = g.height;
            lemma_index_injective(w, h, r, c);
            lemma_index_injective(w, h, r, c - 1);
            lemma_index_injective(w, h, r, c + 1);
            lemma_index_injective(w, h, r - 1, c + 1);
            lemma_index_injective(w, h, r - 2, c);
            assert forall|i: int, j: int| 0 <= i < h && 0 <= j < w implies self@.cell(i, j) == (
            g.cell(i, j) || glider_covers(r, c, i, j)) by {
                lemma_cell_index(w, h, i, j);
            }
        }
        Ok(())
    }

    /// Stamp the twelve arm cells of the pulsar quadrant above and to the
    /// left of the centre `(row, column)`.
    #[verifier::rlimit(100)]
    fn stamp_pulsar_top_left(&mut self, row: u32, column: u32)
        requires
            old(self)@.wf(),
            6 <= row < old(self)@.height,
            6 <= column < old(self)@.width,
        ensures
            final(self)@.wf(),
            final(self)@.width == old(self)@.width,
            final(self)@.height == old(self)@.height,
            forall|i: int, j: int|
                0 <= i < old(self)@.height && 0 <= j < old(self)@.width ==> #[trigger] final(self)@.cell(i, j) == (old(self)@.cell(i, j) || pulsar_quadrant(
                    row as int,
                    column as int,
                    -1,
                    -1,
                    i,
                    j,
                )),
    {
        let ghost g: GridView = self@;
        let ghost w = g.width;
        let ghost h = g.height;
        let ghost r = row as int;
        let ghost c = column as int;
        self.stamp(row - 1, column - 2);
        self.stamp(row - 1, column - 3);
        self.stamp(row - 1, column - 4);
        self.stamp(row - 2, column - 1);
        self.stamp(row - 3, column - 1);
        self.stamp(row - 4, column - 1);
        self.stamp(row - 2, column - 6);
        self.stamp(row - 3, column - 6);
        self.stamp(row - 4, column - 6);
        self.stamp(row - 6, column - 2);
        self.stamp(row - 6, column - 3);
        self.stamp(row - 6, column - 4);
        proof {
            lemma_index_injective(w, h, r - 1, c - 2);
            lemma_index_injective(w, h, r - 1, c - 3);
            lemma_index_injective(w, h, r - 1, c - 4);
            lemma_index_injective(w, h, r - 2, c - 1);
            lemma_index_injective(w, h, r - 3, c - 1);
            lemma_index_injective(w, h, r - 4, c - 1);
            lemma_index_injective(w, h, r - 2, c - 6);
            lemma_index_injective(w, h, r - 3, c - 6);
            lemma_index_injective(w, h, r - 4, c - 6);
            lemma_index_injective(w, h, r - 6, c - 2);
            lemma_index_injective(w, h, r - 6, c - 3);
            lemma_index_injective(w, h, r - 6, c - 4);
            assert forall|i: int, j: int| 0 <= i < h && 0 <= j < w implies #[trigger] self@.cell(
                i,
                j,
            ) == (g.cell(i, j) || pulsar_quadrant(r, c, -1, -1, i, j)) by {
                lemma_cell_index(w, h, i, j);
            }
        }
    }

    /// Stamp the twelve arm cells of the pulsar quadrant above and to the
    /// right of the centre `(row, column)`.
    #[verifier::rlimit(100)]
    fn stamp_pulsar_top_right(&mut self, row: u32, column: u32)
        requires
            old(self)@.wf(),
            6 <= row < old(self)@.height,
            column + 6 < old(self)@.width,
        ensures
            final(self)@.wf(),
            final(self)@.width == old(self)@.width,
            final(self)@.height == old(self)@.height,
            forall|i: int, j: int|
                0 <= i < old(self)@.height && 0 <= j < old(self)@.width ==> #[trigger] final(self)@.cell(i, j) == (old(self)@.cell(i, j) || pulsar_quadrant(
                    row as int,
                    column as int,
                    -1,
                    1,
                    i,
                    j,
                )),
    {
        let ghost g: GridView = self@;
        let ghost w = g.width;
        let ghost h = g.height;
        let ghost r = row as int;
        let ghost c = column as int;
        self.stamp(row - 1, column + 2);
        self.stamp(row - 1, column + 3);
        self.stamp(row - 1, column + 4);
        self.stamp(row - 2, column + 1);
        self.stamp(row - 3, column + 1);
        self.stamp(row - 4, column + 1);
        self.stamp(row - 2, column + 6);
        self.stamp(row - 3, column + 6);
        self.stamp(row - 4, column + 6);
        self.stamp(row - 6, column + 2);
        self.stamp(row - 6, column + 3);
        self.stamp(row - 6, column + 4);
        proof {
            lemma_index_injective(w, h, r - 1, c + 2);
            lemma_index_injective(w, h, r - 1, c + 3);
            lemma_index_injective(w, h, r - 1, c + 4);
            lemma_index_injective(w, h, r - 2, c + 1);
            lemma_index_injective(w, h, r - 3, c + 1);
            lemma_index_injective(w, h, r - 4, c + 1);
            lemma_index_injective(w, h, r - 2, c + 6);
            lemma_index_injective(w, h, r - 3, c + 6);
            lemma_index_injective(w, h, r - 4, c + 6);
            lemma_index_injective(w, h, r - 6, c + 2);
            lemma_index_injective(w, h, r - 6, c + 3);
            lemma_index_injective(w, h, r - 6, c + 4);
            assert forall|i: int, j: int| 0 <= i < h && 0 <= j < w implies #[trigger] self@.cell(
                i,
                j,
            ) == (g.cell(i, j) || pulsar_quadrant(r, c, -1, 1, i, j)) by {
                lemma_cell_index(w, h, i, j);
            }
        }
    }

    /// Stamp the twelve arm cells of the pulsar quadrant below and to the
    /// left of the centre `(row, column)`.
    #[verifier::rlimit(100)]
    fn stamp_pulsar_bottom_left(&mut self, row: u32, column: u32)
        requires
            old(self)@.wf(),
            row + 6 < old(self)@.height,
            6 <= column < old(self)@.width,
        ensures
            final(self)@.wf(),
            final(self)@.width == old(self)@.width,
            final(self)@.height == old(self)@.height,
            forall|i: int, j: int|
                0 <= i < old(self)@.height && 0 <= j < old(self)@.width ==> #[trigger] final(self)@.cell(i, j) == (old(self)@.cell(i, j) || pulsar_quadrant(
                    row as int,
                    column as int,
                    1,
                    -1,
                    i,
                    j,
                )),
    {
        let ghost g: GridView = self@;
        let ghost w = g.width;
        let ghost h = g.height;
        let ghost r = row as int;
        let ghost c = column as int;
        self.stamp(row + 1, column - 2);
        self.stamp(row + 1, column - 3);
        self.stamp(row + 1, column - 4);
        self.stamp(row + 2, column - 1);
        self.stamp(row + 3, column - 1);
        self.stamp(row + 4, column - 1);
        self.stamp(row + 2, column - 6);
        self.stamp(row + 3, column - 6);
        self.stamp(row + 4, column - 6);
        self.stamp(row + 6, column - 2);
        self.stamp(row + 6, column - 3);
        self.stamp(row + 6, column - 4);
        proof {
            lemma_index_injective(w, h, r + 1, c - 2);
            lemma_index_injective(w, h, r + 1, c - 3);
            lemma_index_injective(w, h, r + 1, c - 4);
            lemma_index_injective(w, h, r + 2, c - 1);
            lemma_index_injective(w, h, r + 3, c - 1);
            lemma_index_injective(w, h, r + 4, c - 1);
            lemma_index_injective(w, h, r + 2, c - 6);
            lemma_index_injective(w, h, r + 3, c - 6);
            lemma_index_injective(w, h, r + 4, c - 6);
            lemma_index_injective(w, h, r + 6, c - 2);
            lemma_index_injective(w, h, r + 6, c - 3);
            lemma_index_injective(w, h, r + 6, c - 4);
            assert forall|i: int, j: int| 0 <= i < h && 0 <= j < w implies #[trigger] self@.cell(
                i,
                j,
            ) == (g.cell(i, j) || pulsar_quadrant(r, c, 1, -1, i, j)) by {
                lemma_cell_index(w, h, i, j);
            }
        }
    }

    /// Stamp the twelve arm cells of the pulsar quadrant below and to the
    /// right of the centre `(row, column)`.
    #[verifier::rlimit(100)]
    fn stamp_pulsar_bottom_right(&mut self, row: u32, column: u32)
        requires
            old(self)@.wf(),
            row + 6 < old(self)@.height,
            column + 6 < old(self)@.width,
        ensures
            final(self)@.wf(),
            final(self)@.width == old(self)@.width,
            final(self)@.height == old(self)@.height,
            forall|i: int, j: int|
                0 <= i < old(self)@.height && 0 <= j < old(self)@.width ==> #[trigger] final(self)@.cell(i, j) == (old(self)@.cell(i, j) || pulsar_quadrant(
                    row as int,
                    column as int,
                    1,
                    1,
                    i,
                    j,
                )),
    {
        let ghost g: GridView = self@;
        let ghost w = g.width;
        let ghost h = g.height;
        let ghost r = row as int;
        let ghost c = column as int;
        self.stamp(row + 1, column + 2);
        self.stamp(row + 1, column + 3);
        self.stamp(row + 1, column + 4);
        self.stamp(row + 2, column + 1);
        self.stamp(row + 3, column + 1);
        self.stamp(row + 4, column + 1);
        self.stamp(row + 2, column + 6);
        self.stamp(row + 3, column + 6);
        self.stamp(row + 4, column + 6);
        self.stamp(row + 6, column + 2);
        self.stamp(row + 6, column + 3);
        self.stamp(row + 6, column + 4);
        proof {
            lemma_index_injective(w, h, r + 1, c + 2);
            lemma_index_injective(w, h, r + 1, c + 3);
            lemma_index_injective(w, h, r + 1, c + 4);
            lemma_index_injective(w, h, r + 2, c + 1);
            lemma_index_injective(w, h, r + 3, c + 1);
            lemma_index_injective(w, h, r + 4, c + 1);
            lemma_index_injective(w, h, r + 2, c + 6);
            lemma_index_injective(w, h, r + 3, c + 6);
            lemma_index_injective(w, h, r + 4, c + 6);
            lemma_index_injective(w, h, r + 6, c + 2);
            lemma_index_injective(w, h, r + 6, c + 3);
            lemma_index_injective(w, h, r + 6, c + 4);
            assert forall|i: int, j: int| 0 <= i < h && 0 <= j < w implies #[trigger] self@.cell(
                i,
                j,
            ) == (g.cell(i, j) || pulsar_quadrant(r, c, 1, 1, i, j)) by {
                lemma_cell_index(w, h, i, j);
            }
        }
    }

    /// Stamp the forty-eight cells of a pulsar centred at `(row, column)`:
    /// the twelve-cell arm pattern repeated in all four quadrants around the
    /// centre. A centre closer than six cells to any edge is refused and
    /// leaves the grid unchanged.
    pub fn insert_pulsar(&mut self, row: u32, column: u32) -> (result: Result<(), GridError>)
        requires
            old(self)@.wf(),
        ensures
            final(self)@.wf(),
            final(self)@.width == old(self)@.width,
            final(self)@.height == old(self)@.height,
            result is Ok <==> (6 <= row && row + 6 < old(self)@.height && 6 <= column && column + 6
                < old(self)@.width),
            (result is Ok ==> final(self)@.cells.len() == old(self)@.cells.len() && forall|
                i: int,
                j: int,
            |
                0 <= i < old(self)@.height && 0 <= j < old(self)@.width ==> final(self)@.cell(i, j)
                    == (old(self)@.cell(i, j) || pulsar_covers(row as int, column as int, i, j))),
            (result is Err ==> final(self)@ == old(self)@ && result == Err::<(), GridError>(
                GridError::OutOfBounds,
            )),
    {
        if !(row >= 6 && (row as u64) + 6 < (self.height as u64) && column >= 6 && (column as u64)
            + 6 < (self.width as u64)) {
            return Err(GridError::OutOfBounds);
        }
        let ghost g: GridView = self@;
        let ghost w = g.width;
        let ghost h = g.height;
        let ghost r = row as int;
        let ghost c = column as int;
        self.stamp_pulsar_top_left(row, column);
        let ghost g1: GridView = self@;
        self.stamp_pulsar_top_right(row, column);
        let ghost g2: GridView = self@;
        self.stamp_pulsar_bottom_left(row, column);
        let ghost g3: GridView = self@;
        self.stamp_pulsar_bottom_right(row, column);
        proof {
            assert forall|i: int, j: int| 0 <= i < h && 0 <= j < w implies #[trigger] self@.cell(
                i,
                j,
            ) == (g.cell(i, j) || pulsar_covers(r, c, i, j)) by {
                lemma_pulsar_quadrants(r, c, i, j);
                assert(g1.cell(i, j) == (g.cell(i, j) || pulsar_quadrant(r, c, -1, -1, i, j)));
                assert(g2.cell(i, j) == (g1.cell(i, j) || pulsar_quadrant(r, c, -1, 1, i, j)));
                assert(g3.cell(i, j) == (g2.cell(i, j) || pulsar_quadrant(r, c, 1, -1, i, j)));
                assert(self@.cell(i, j) == (g3.cell(i, j) || pulsar_quadrant(r, c, 1, 1, i, j)));
            }
        }
        Ok(())
    }
}

} // verus!

