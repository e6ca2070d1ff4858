use vstd::arithmetic::div_mod::{
    lemma_fundamental_div_mod, lemma_fundamental_div_mod_converse, lemma_mod_add_multiples_vanish,
    lemma_mod_bound, lemma_small_mod,
};
use vstd::prelude::*;

verus! {

/// Mathematical model of a grid state: fixed dimensions and the
/// row-major sequence of cells, `true` standing for a live cell.
#[verifier::ext_equal]
pub ghost struct GridView {
    pub width: int,
    pub height: int,
    pub cells: Seq<bool>,
}

impl GridView {
    /// A well-formed grid: positive dimensions and a cell buffer of
    /// exactly `width * height` entries.
    pub open spec fn wf(self) -> bool {
        &&& 0 < self.width
        &&& 0 < self.height
        &&& self.cells.len() == self.width * self.height
    }

    /// The cell in the given row and column, by row-major indexing.
    pub open spec fn cell(self, row: int, col: int) -> bool {
        self.cells[row * self.width + col]
    }
}

/// 1 for a live cell, 0 for a dead one.
pub open spec fn live(alive: bool) -> int {
    if alive {
        1
    } else {
        0
    }
}

/// Contribution of the neighbour reached from `(row, col)` by the modular
/// offsets `(dr, dc)`; offsets `height - 1` and `width - 1` reach the
/// previous row and column by wraparound.
pub open spec fn neighbor_term(g: GridView, row: int, col: int, dr: int, dc: int) -> int {
    live(g.cell((row + dr) % g.height, (col + dc) % g.width))
}

/// The number of live cells among the eight toroidally wrapped neighbours
/// of `(row, col)`.
pub open spec fn live_neighbors(g: GridView, row: int, col: int) -> int {
    neighbor_term(g, row, col, g.height - 1, g.width - 1) + neighbor_term(
        g,
        row,
        col,
        g.height - 1,
        0,
    ) + neighbor_term(g, row, col, g.height - 1, 1) + neighbor_term(g, row, col, 0, g.width - 1)
        + neighbor_term(g, row, col, 0, 1) + neighbor_term(g, row, col, 1, g.width - 1)
        + neighbor_term(g, row, col, 1, 0) + neighbor_term(g, row, col, 1, 1)
}

/// The life-and-death rule for a single cell: a live cell survives with
/// two or three live neighbours, a dead cell is born with exactly three,
/// and every other combination leaves the cell dead.
pub open spec fn next_cell(alive: bool, neighbors: int) -> bool {
    if alive {
        neighbors == 2 || neighbors == 3
    } else {
        neighbors == 3
    }
}

/// One generation: every cell is stepped simultaneously from `g`.
pub open spec fn step(g: GridView) -> GridView {
    GridView {
        width: g.width,
        height: g.height,
        cells: Seq::new(
            (g.width * g.height) as nat,
            |k: int| next_cell(g.cells[k], live_neighbors(g, k / g.width, k % g.width)),
        ),
    }
}

/// The all-dead grid of the given dimensions.
pub open spec fn empty_grid(width: int, height: int) -> GridView {
    GridView { width, height, cells: Seq::new((width * height) as nat, |k: int| false) }
}

/// `g` with every cell dead and its dimensions kept.
pub open spec fn cleared(g: GridView) -> GridView {
    empty_grid(g.width, g.height)
}

/// The five cells of a glider anchored at `(row, col)`: the anchor, its
/// left and right neighbours, the cell above the right neighbour, and the
/// cell two rows above the anchor.
pub open spec fn glider_covers(row: int, col: int, i: int, j: int) -> bool {
    ||| (i == row && j == col)
    ||| (i == row && j == col - 1)
    ||| (i == row && j == col + 1)
    ||| (i == row - 1 && j == col + 1)
    ||| (i == row - 2 && j == col)
}

/// One quadrant arm of the pulsar, over the absolute row and column
/// distances `a` and `b` from the centre.
pub open spec fn pulsar_arm(a: int, b: int) -> bool {
    ||| (a == 1 && (b == 2 || b == 3 || b == 4))
    ||| ((a == 2 || a == 3 || a == 4) && b == 1)
    ||| ((a == 2 || a == 3 || a == 4) && b == 6)
    ||| (a == 6 && (b == 2 || b == 3 || b == 4))
}

/// The forty-eight cells of a pulsar centred at `(row, col)`: the arm
/// pattern repeated in all four quadrants around the centre.
pub open spec fn pulsar_covers(row: int, col: int, i: int, j: int) -> bool {
    pulsar_arm(
        if i <= row {
            row - i
        } else {
            i - row
        },
        if j <= col {
            col - j
        } else {
            j - col
        },
    )
}

/// The twelve arm cells of the pulsar quadrant in direction `(sr, sc)`
/// from the centre `(row, col)`, each direction being `-1` or `1`.
pub open spec fn pulsar_quadrant(row: int, col: int, sr: int, sc: int, i: int, j: int) -> bool {
    ||| (i == row + sr * 1 && (j == col + sc * 2 || j == col + sc * 3 || j == col + sc * 4))
    ||| ((i == row + sr * 2 || i == row + sr * 3 || i == row + sr * 4) && (j == col + sc * 1 || j
        == col + sc * 6))
    ||| (i == row + sr * 6 && (j == col + sc * 2 || j == col + sc * 3 || j == col + sc * 4))
}

/// The pulsar is exactly its four quadrant arms.
pub proof fn lemma_pulsar_quadrants(row: int, col: int, i: int, j: int)
    ensures
        pulsar_covers(row, col, i, j) == (pulsar_quadrant(row, col, -1, -1, i, j)
            || pulsar_quadrant(row, col, -1, 1, i, j) || pulsar_quadrant(row, col, 1, -1, i, j)
            || pulsar_quadrant(row, col, 1, 1, i, j)),
{
}

/// The glyph a cell is rendered as.
pub open spec fn glyph(alive: bool) -> char {
    if alive {
        '◼'
    } else {
        '◻'
    }
}

/// One rendered row: `width` glyphs followed by a newline.
pub open spec fn render_row(g: GridView, row: int) -> Seq<char> {
    Seq::new(g.width as nat, |j: int| glyph(g.cell(row, j))).push('\n')
}

/// The first `rows` rendered rows, concatenated.
pub open spec fn render_rows(g: GridView, rows: int) -> Seq<char>
    decreases rows,
{
    if rows <= 0 {
        Seq::empty()
    } else {
        render_rows(g, rows - 1) + render_row(g, rows - 1)
    }
}

/// The full text rendering of `g`: `height` rows, each ended by a newline.
pub open spec fn render_text(g: GridView) -> Seq<char> {
    render_rows(g, g.height)
}

/// How the three modular offsets used for neighbour lookup wrap an
/// in-range coordinate: `m - 1` steps back, `1` steps forward, `0` stays.
pub proof fn lemma_wrap(m: int, x: int)
    requires
        0 < m,
        0 <= x < m,
    ensures
        x % m == x,
        (x + 1) % m == (if x == m - 1 {
            0int
        } else {
            x + 1
        }),
        (x + (m - 1)) % m == (if x == 0 {
            m - 1
        } else {
            x - 1
        }),
{
    lemma_small_mod(x as nat, m as nat);
    if x == m - 1 {
        lemma_mod_add_multiples_vanish(0, m);
        lemma_small_mod(0, m as nat);
    } else {
        lemma_small_mod((x + 1) as nat, m as nat);
    }
    if x == 0 {
        lemma_small_mod((m - 1) as nat, m as nat);
    } else {
        lemma_mod_add_multiples_vanish(x - 1, m);
        lemma_small_mod((x - 1) as nat, m as nat);
    }
}

/// A row-major index decomposes back into its row and column.
pub proof fn lemma_row_major(w: int, row: int, col: int)
    requires
        0 < w,
        0 <= row,
        0 <= col < w,
    ensures
        (row * w + col) / w == row,
        (row * w + col) % w == col,
{
    lemma_fundamental_div_mod_converse(row * w + col, w, row, col);
}

/// Row-major indices of in-range coordinates lie inside the cell buffer.
pub proof fn lemma_cell_index(w: int, h: int, row: int, col: int)
    requires
        0 < w,
        0 < h,
        0 <= row < h,
        0 <= col < w,
    ensures
        0 <= row * w + col,
        row * w + col < w * h,
        w * h == h * w,
{
    assert(0 <= row * w + col) by (nonlinear_arith)
        requires
            0 <= row,
            0 < w,
            0 <= col,
    ;
    assert(row * w + col < w * h) by (nonlinear_arith)
        requires
            0 < w,
            0 < h,
            0 <= row < h,
            0 <= col < w,
    ;
    assert(w * h == h * w) by (nonlinear_arith);
}

/// A buffer index decomposes into in-range row and column coordinates.
pub proof fn lemma_index_decompose(w: int, h: int, k: int)
    requires
        0 < w,
        0 < h,
        0 <= k < w * h,
    ensures
        0 <= k / w < h,
        0 <= k % w < w,
        k == (k / w) * w + (k % w),
{
    lemma_fundamental_div_mod(k, w);
    lemma_mod_bound(k, w);
    assert((k / w) * w == w * (k / w)) by (nonlinear_arith);
    let q = k / w;
    assert(0 <= q && q < h) by (nonlinear_arith)
        requires
            0 < w,
            0 < h,
            0 <= k < w * h,
            k == w * q + k % w,
            0 <= k % w < w,
    ;
}

/// A row-major index of in-range coordinates lies inside the buffer and
/// coincides with another such index exactly when the coordinates do.
pub proof fn lemma_index_injective(w: int, h: int, i: int, j: int)
    requires
        0 < w,
        0 < h,
        0 <= i < h,
        0 <= j < w,
    ensures
        0 <= i * w + j,
        i * w + j < w * h,
        w * h == h * w,
        forall|r: int, c: int|
            0 <= r && 0 <= c < w ==> ((i * w + j == #[trigger] (r * w + c)) <==> (i == r && j
                == c)),
{
    lemma_cell_index(w, h, i, j);
    assert forall|r: int, c: int| 0 <= r && 0 <= c < w implies ((i * w + j == #[trigger] (r * w
        + c)) <==> (i == r && j == c)) by {
        if i * w + j == r * w + c {
            lemma_row_major(w, i, j);
            lemma_row_major(w, r, c);
        }
    }
}

} // verus!
