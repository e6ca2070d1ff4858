use crate::model::{
    cleared, glyph, lemma_cell_index, lemma_index_decompose, lemma_row_major, lemma_wrap,
    live_neighbors, neighbor_term, next_cell, render_row, render_rows, render_text, step, GridView,
};
use vstd::prelude::*;

verus! {

/// One generation keeps the grid well formed: the cell buffer still holds
/// exactly `width * height` cells, and the dimensions are unchanged.
pub proof fn lemma_step_preserves_wf(g: GridView)
    requires
        g.wf(),
    ensures
        step(g).wf(),
        step(g).width == g.width,
        step(g).height == g.height,
{
}

/// Stepping is deterministic: from one and the same starting grid, one
/// generation always yields one and the same resulting grid.
pub proof fn lemma_step_deterministic(g1: GridView, g2: GridView)
    requires
        g1 == g2,
    ensures
        step(g1) == step(g2),
{
}

/// Toroidal wraparound: a live cell in the bottom-right corner is counted
/// as a diagonal neighbour of the cell in the top-left corner.
pub proof fn lemma_corner_wraparound(g: GridView)
    requires
        g.wf(),
        g.cell(g.height - 1, g.width - 1),
    ensures
        live_neighbors(g, 0, 0) >= 1,
{
    lemma_wrap(g.height, 0);
    lemma_wrap(g.width, 0);
    assert(neighbor_term(g, 0, 0, g.height - 1, g.width - 1) == 1);
}

/// Clearing is idempotent: clearing a second time changes nothing, and both
/// reach the same all-dead grid.
pub proof fn lemma_clear_idempotent(g: GridView)
    ensures
        cleared(cleared(g)) == cleared(g),
{
    assert(cleared(cleared(g)) =~= cleared(g));
}

/// Two well-formed grids of the same dimensions whose cells agree pointwise
/// are equal.
proof fn lemma_same_cells_equal(a: GridView, b: GridView)
    requires
        a.wf(),
        b.wf(),
        a.width == b.width,
        a.height == b.height,
        forall|i: int, j: int|
            0 <= i < a.height && 0 <= j < a.width ==> #[trigger] a.cell(i, j) == b.cell(i, j),
    ensures
        a == b,
{
    assert forall|k: int| 0 <= k < a.cells.len() implies a.cells[k] == b.cells[k] by {
        lemma_index_decompose(a.width, a.height, k);
        let i = k / a.width;
        let j = k % a.width;
        assert(a.cell(i, j) == b.cell(i, j));
    }
    assert(a.cells =~= b.cells);
    assert(a =~= b);
}

/// The grid holds live cells exactly in the two-by-two block whose top-left
/// corner is `(r, c)`.
pub open spec fn block_only(g: GridView, r: int, c: int) -> bool {
    forall|i: int, j: int|
        0 <= i < g.height && 0 <= j < g.width ==> (#[trigger] g.cell(i, j) <==> ((i == r || i == r
            + 1) && (j == c || j == c + 1)))
}

/// A two-by-two block of live cells, placed away from every edge on an
/// otherwise dead grid, is a still life: one generation leaves the grid
/// unchanged.
#[verifier::rlimit(100)]
pub proof fn lemma_block_still_life(g: GridView, r: int, c: int)
    requires
        g.wf(),
        1 <= r,
        r + 2 <= g.height - 1,
        1 <= c,
        c + 2 <= g.width - 1,
        block_only(g, r, c),
    ensures
        step(g) == g,
{
    let w = g.width;
    let h = g.height;
    assert forall|i: int, j: int| 0 <= i < h && 0 <= j < w implies #[trigger] step(g).cell(i, j)
        == g.cell(i, j) by {
        lemma_cell_index(w, h, i, j);
        lemma_row_major(w, i, j);
        lemma_wrap(h, i);
        lemma_wrap(w, j);
        assert(step(g).cell(i, j) == next_cell(g.cell(i, j), live_neighbors(g, i, j)));
    }
    lemma_step_preserves_wf(g);
    lemma_same_cells_equal(step(g), g);
}

/// The grid holds live cells exactly in the three-cell row centred at
/// `(r, c)`.
pub open spec fn row_blinker_only(g: GridView, r: int, c: int) -> bool {
    forall|i: int, j: int|
        0 <= i < g.height && 0 <= j < g.width ==> (#[trigger] g.cell(i, j) <==> (i == r && c - 1
            <= j <= c + 1))
}

/// The grid holds live cells exactly in the three-cell column centred at
/// `(r, c)`.
pub open spec fn column_blinker_only(g: GridView, r: int, c: int) -> bool {
    forall|i: int, j: int|
        0 <= i < g.height && 0 <= j < g.width ==> (#[trigger] g.cell(i, j) <==> (r - 1 <= i <= r
            + 1 && j == c))
}

/// One generation turns a horizontal blinker, placed away from every edge
/// on an otherwise dead grid, into the vertical blinker with the same
/// centre.
#[verifier::rlimit(100)]
pub proof fn lemma_blinker_turns_vertical(g: GridView, r: int, c: int)
    requires
        g.wf(),
        2 <= r,
        r + 2 <= g.height - 1,
        2 <= c,
        c + 2 <= g.width - 1,
        row_blinker_only(g, r, c),
    ensures
        column_blinker_only(step(g), r, c),
{
    let w = g.width;
    let h = g.height;
    assert forall|i: int, j: int| 0 <= i < h && 0 <= j < w implies (#[trigger] step(g).cell(i, j)
        <==> (r - 1 <= i <= r + 1 && j == c)) by {
        lemma_cell_index(w, h, i, j);
        lemma_row_major(w, i, j);
        lemma_wrap(h, i);
        lemma_wrap(w, j);
        assert(step(g).cell(i, j) == next_cell(g.cell(i, j), live_neighbors(g, i, j)));
    }
}

/// One generation turns a vertical blinker, placed away from every edge on
/// an otherwise dead grid, into the horizontal blinker with the same
/// centre.
#[verifier::rlimit(100)]
pub proof fn lemma_blinker_turns_horizontal(g: GridView, r: int, c: int)
    requires
        g.wf(),
        2 <= r,
        r + 2 <= g.height - 1,
        2 <= c,
        c + 2 <= g.width - 1,
        column_blinker_only(g, r, c),
    ensures
        row_blinker_only(step(g), r, c),
{
    let w = g.width;
    let h = g.height;
    assert forall|i: int, j: int| 0 <= i < h && 0 <= j < w implies (#[trigger] step(g).cell(i, j)
        <==> (i == r && c - 1 <= j <= c + 1)) by {
        lemma_cell_index(w, h, i, j);
        lemma_row_major(w, i, j);
        lemma_wrap(h, i);
        lemma_wrap(w, j);
        assert(step(g).cell(i, j) == next_cell(g.cell(i, j), live_neighbors(g, i, j)));
    }
}

/// A blinker oscillates with period two: two generations return a
/// horizontal blinker, placed away from every edge on an otherwise dead
/// grid, to exactly the starting grid.
pub proof fn lemma_blinker_period_two(g: GridView, r: int, c: int)
    requires
        g.wf(),
        2 <= r,
        r + 2 <= g.height - 1,
        2 <= c,
        c + 2 <= g.width - 1,
        row_blinker_only(g, r, c),
    ensures
        step(step(g)) == g,
{
    lemma_blinker_turns_vertical(g, r, c);
    lemma_step_preserves_wf(g);
    lemma_blinker_turns_horizontal(step(g), r, c);
    lemma_step_preserves_wf(step(g));
    lemma_same_cells_equal(step(step(g)), g);
}

/// The first `rows` rendered rows take `width + 1` characters each.
pub proof fn lemma_render_rows_len(g: GridView, rows: int)
    requires
        g.wf(),
        0 <= rows,
    ensures
        render_rows(g, rows).len() == rows * (g.width + 1),
    decreases rows,
{
    if rows == 0 {
    } else {
        lemma_render_rows_len(g, rows - 1);
        assert(render_row(g, rows - 1).len() == g.width + 1);
        assert(rows * (g.width + 1) == (rows - 1) * (g.width + 1) + (g.width + 1))
            by (nonlinear_arith);
    }
}

/// The character at offset `off` of rendered row `r`: a glyph for the cell
/// in column `off`, or the newline that ends the row.
pub proof fn lemma_render_rows_index(g: GridView, rows: int, r: int, off: int)
    requires
        g.wf(),
        0 <= r < rows,
        0 <= off <= g.width,
    ensures
        render_rows(g, rows)[r * (g.width + 1) + off] == (if off < g.width {
            glyph(g.cell(r, off))
        } else {
            '\n'
        }),
    decreases rows,
{
    lemma_render_rows_len(g, rows - 1);
    if r == rows - 1 {
        assert(render_row(g, r)[off] == (if off < g.width {
            glyph(g.cell(r, off))
        } else {
            '\n'
        }));
    } else {
        lemma_render_rows_index(g, rows - 1, r, off);
        assert(r * (g.width + 1) + off < (rows - 1) * (g.width + 1)) by (nonlinear_arith)
            requires
                0 <= off <= g.width,
                0 <= r <= rows - 2,
                0 < g.width,
        ;
    }
}

/// The rendered text consists of exactly `height` lines of exactly `width`
/// glyphs each: it takes `height * (width + 1)` characters, position
/// `width` of every line holds the only newline of the line, and every
/// other position holds the glyph of its cell, which is never a newline.
pub proof fn lemma_render_shape(g: GridView)
    requires
        g.wf(),
    ensures
        render_text(g).len() == g.height * (g.width + 1),
        forall|r: int|
            0 <= r < g.height ==> render_text(g)[#[trigger] (r * (g.width + 1)) + g.width]
                == '\n',
        forall|r: int, off: int|
            0 <= r < g.height && 0 <= off < g.width ==> render_text(g)[#[trigger] (r * (g.width
                + 1) + off)] == glyph(g.cell(r, off)) && glyph(g.cell(r, off)) != '\n',
{
    lemma_render_rows_len(g, g.height);
    assert forall|r: int| 0 <= r < g.height implies render_text(g)[#[trigger] (r * (g.width + 1))
        + g.width] == '\n' by {
        lemma_render_rows_index(g, g.height, r, g.width);
    }
    assert forall|r: int, off: int| 0 <= r < g.height && 0 <= off < g.width implies render_text(
        g,
    )[#[trigger] (r * (g.width + 1) + off)] == glyph(g.cell(r, off)) && glyph(g.cell(r, off))
        != '\n' by {
        lemma_render_rows_index(g, g.height, r, off);
    }
}

} // verus!
