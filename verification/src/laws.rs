//! What holds of every grid: the laws of the rule, of the blank grid, of
//! the block, of toggling and of rendering.

use crate::grid::{glyph, next_state, Grid};
use vstd::prelude::*;

verus! {

/// The next generation holds, at every position, the state that
/// `next_state` gives for the cell and its live neighbours now.
pub proof fn lemma_step_cell(g: Grid, row: int, col: int)
    requires
        g.wf(),
        g.in_bounds(row, col),
    ensures
        g.step().alive(row, col) == next_state(g.alive(row, col), g.live_neighbours(row, col)),
{
    g.lemma_offset(row, col);
}

/// A generation keeps the dimensions of the grid and the number of its cells.
pub proof fn lemma_step_keeps_shape(g: Grid)
    requires
        g.wf(),
    ensures
        g.step().wf(),
        g.step().width == g.width,
        g.step().height == g.height,
        g.step().cells.len() == g.cells.len(),
{
}

/// Any number of generations keeps the dimensions of the grid and the
/// number of its cells.
pub proof fn lemma_steps_keep_shape(g: Grid, n: nat)
    requires
        g.wf(),
    ensures
        g.steps(n).wf(),
        g.steps(n).width == g.width,
        g.steps(n).height == g.height,
        g.steps(n).cells.len() == g.cells.len(),
    decreases n,
{
    if n > 0 {
        lemma_step_keeps_shape(g);
        lemma_steps_keep_shape(g.step(), (n - 1) as nat);
    }
}

/// A cell with exactly three live neighbours is alive in the next
/// generation, whether it is alive now or not.
pub proof fn lemma_three_neighbours_give_life(g: Grid, row: int, col: int)
    requires
        g.wf(),
        g.in_bounds(row, col),
        g.live_neighbours(row, col) == 3,
    ensures
        g.step().alive(row, col),
{
    lemma_step_cell(g, row, col);
}

/// A live cell with no live neighbour or with one is dead in the next
/// generation.
pub proof fn lemma_underpopulation(g: Grid, row: int, col: int)
    requires
        g.wf(),
        g.alive(row, col),
        g.live_neighbours(row, col) < 2,
    ensures
        !g.step().alive(row, col),
{
    lemma_step_cell(g, row, col);
}

/// A live cell with more than three live neighbours is dead in the next
/// generation.
pub proof fn lemma_overpopulation(g: Grid, row: int, col: int)
    requires
        g.wf(),
        g.alive(row, col),
        g.live_neighbours(row, col) > 3,
    ensures
        !g.step().alive(row, col),
{
    lemma_step_cell(g, row, col);
}

/// The blank grid has no live cell, on the grid or beyond its edges.
pub proof fn lemma_blank_is_dead(width: nat, height: nat, row: int, col: int)
    ensures
        !Grid::blank(width, height).alive(row, col),
{
    let g = Grid::blank(width, height);
    if g.in_bounds(row, col) {
        g.lemma_offset(row, col);
    }
}

/// The blank grid is a fixed point: its next generation is blank again.
pub proof fn lemma_blank_is_fixed_point(width: nat, height: nat)
    ensures
        Grid::blank(width, height).step() == Grid::blank(width, height),
{
    let g = Grid::blank(width, height);
    assert forall|i: int| 0 <= i < g.cells.len() implies g.step().cells[i] == false by {
        let row = i / (width as int);
        let col = i % (width as int);
        lemma_blank_is_dead(width, height, row - 1, col - 1);
        lemma_blank_is_dead(width, height, row - 1, col);
        lemma_blank_is_dead(width, height, row - 1, col + 1);
        lemma_blank_is_dead(width, height, row, col - 1);
        lemma_blank_is_dead(width, height, row, col + 1);
        lemma_blank_is_dead(width, height, row + 1, col - 1);
        lemma_blank_is_dead(width, height, row + 1, col);
        lemma_blank_is_dead(width, height, row + 1, col + 1);
    }
    assert(g.step().cells =~= g.cells);
}

/// The blank grid stays blank through any number of generations.
pub proof fn lemma_blank_stays_blank(width: nat, height: nat, n: nat)
    ensures
        Grid::blank(width, height).steps(n) == Grid::blank(width, height),
    decreases n,
{
    if n > 0 {
        lemma_blank_is_fixed_point(width, height);
        lemma_blank_stays_blank(width, height, (n - 1) as nat);
    }
}

/// Whether the live cells of `g` are exactly the four cells of the 2 by 2
/// block whose upper left cell is `(row, col)`.
pub open spec fn is_block(g: Grid, row: int, col: int) -> bool {
    &&& g.wf()
    &&& g.in_bounds(row, col)
    &&& g.in_bounds(row + 1, col + 1)
    &&& forall|r: int, c: int|
        #[trigger] g.alive(r, c) <==> (row <= r <= row + 1 && col <= c <= col + 1)
}

/// The block is a still life: the next generation is the same grid. This
/// holds wherever the block stands, also along an edge, since a position
/// beyond the edges counts as dead.
pub proof fn lemma_block_is_still(g: Grid, row: int, col: int)
    requires
        is_block(g, row, col),
    ensures
        g.step() == g,
{
    assert forall|i: int| 0 <= i < g.cells.len() implies g.step().cells[i] == g.cells[i] by {
        let r = i / (g.width as int);
        let c = i % (g.width as int);
        g.lemma_position(i);
        assert(g.cells[i] == g.alive(r, c));
    }
    assert(g.step().cells =~= g.cells);
}

/// The block stays as it is through any number of generations.
pub proof fn lemma_block_stays(g: Grid, row: int, col: int, n: nat)
    requires
        is_block(g, row, col),
    ensures
        g.steps(n) == g,
    decreases n,
{
    if n > 0 {
        lemma_block_is_still(g, row, col);
        lemma_block_stays(g, row, col, (n - 1) as nat);
    }
}

/// Toggling a cell inverts that cell and changes no other cell, nor the
/// dimensions.
pub proof fn lemma_toggle_one_cell(g: Grid, row: int, col: int, r: int, c: int)
    requires
        g.wf(),
        g.in_bounds(row, col),
        g.in_bounds(r, c),
    ensures
        g.toggled(row, col).wf(),
        g.toggled(row, col).width == g.width,
        g.toggled(row, col).height == g.height,
        g.toggled(row, col).alive(r, c) == (if r == row && c == col {
            !g.alive(r, c)
        } else {
            g.alive(r, c)
        }),
{
    g.lemma_offset(row, col);
    g.lemma_offset(r, c);
}

/// Toggling the same cell twice gives the grid back as it was.
pub proof fn lemma_toggle_twice(g: Grid, row: int, col: int)
    requires
        g.wf(),
        g.in_bounds(row, col),
    ensures
        g.toggled(row, col).toggled(row, col) == g,
{
    g.lemma_offset(row, col);
    assert(g.toggled(row, col).toggled(row, col).cells =~= g.cells);
}

/// The text of the first `n` rows has `width + 1` characters for each row:
/// the glyphs of the row's cells, then a line feed.
pub proof fn lemma_rows_text(g: Grid, n: nat, row: int, col: int)
    requires
        0 <= row < n,
        0 <= col <= g.width,
    ensures
        g.rows_text(n).len() == n * (g.width + 1),
        0 <= row * (g.width + 1) + col < n * (g.width + 1),
        g.rows_text(n)[row * (g.width + 1) + col] == (if col == g.width {
            '\n'
        } else {
            glyph(g.alive(row, col))
        }),
    decreases n,
{
    let line = g.width + 1;
    assert(n * line == (n - 1) * line + line) by (nonlinear_arith);
    assert(0 <= row * line && row * line + line <= n * line) by (nonlinear_arith)
        requires
            0 <= row < n,
            0 < line,
    ;
    if n == 1 {
        assert(g.rows_text(0).len() == 0);
        assert(g.rows_text(1) =~= g.row_text(0));
    } else if row == n - 1 {
        lemma_rows_text(g, (n - 1) as nat, 0, 0);
    } else {
        lemma_rows_text(g, (n - 1) as nat, row, col);
    }
}

/// The rendering has one line for each row of the grid; the line of a row
/// holds the glyph of each of its cells, in column order, and ends with a
/// line feed.
pub proof fn lemma_rendering(g: Grid, row: int, col: int)
    requires
        0 <= row < g.height,
        0 <= col <= g.width,
    ensures
        g.rendering().len() == g.height * (g.width + 1),
        g.rendering()[row * (g.width + 1) + col] == (if col == g.width {
            '\n'
        } else {
            glyph(g.alive(row, col))
        }),
{
    lemma_rows_text(g, g.height, row, col);
}

/// Rendering reads the grid and nothing else: two renderings of one grid,
/// with no change between them, are the same text.
pub proof fn lemma_rendering_repeats(g: Grid, first: Seq<char>, second: Seq<char>)
    requires
        first == g.rendering(),
        second == g.rendering(),
    ensures
        first == second,
{
}

} // verus!
