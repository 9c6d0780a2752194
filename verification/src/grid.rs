//! The mathematical model of a grid and of one generation of the automaton.

use vstd::arithmetic::div_mod::{
    lemma_fundamental_div_mod, lemma_fundamental_div_mod_converse, lemma_mod_bound,
};
use vstd::prelude::*;

verus! {

/// A rectangular grid of cells, stored row by row.
pub struct Grid {
    pub width: nat,
    pub height: nat,
    pub cells: Seq<bool>,
}

/// One for a true condition, zero for a false one.
pub open spec fn count_if(b: bool) -> nat {
    if b {
        1
    } else {
        0
    }
}

/// The glyph that shows a live cell.
pub const ALIVE_GLYPH: char = '\u{25FB}';

/// The glyph that shows a dead cell.
pub const DEAD_GLYPH: char = '\u{25FC}';

/// The glyph that shows a cell.
pub open spec fn glyph(alive: bool) -> char {
    if alive {
        ALIVE_GLYPH
    } else {
        DEAD_GLYPH
    }
}

/// The state of a cell in the next generation, from its state now and the
/// number of its neighbours that are alive now: a live cell lives on with
/// two or three live neighbours, a dead cell comes alive with exactly three.
pub open spec fn next_state(alive: bool, neighbours: nat) -> bool {
    neighbours == 3 || (alive && neighbours == 2)
}

impl Grid {
    /// The grid has at least one cell and holds one state for each position.
    pub open spec fn wf(self) -> bool {
        &&& self.width > 0
        &&& self.height > 0
        &&& self.cells.len() == self.width * self.height
    }

    /// Whether `(row, col)` is a position of the grid.
    pub open spec fn in_bounds(self, row: int, col: int) -> bool {
        0 <= row < self.height && 0 <= col < self.width
    }

    /// The index of position `(row, col)` in `cells`.
    pub open spec fn offset(self, row: int, col: int) -> int {
        row * self.width + col
    }

    /// Whether the cell at `(row, col)` is alive. Beyond the edges there is
    /// no cell, and the answer is `false`.
    pub open spec fn alive(self, row: int, col: int) -> bool {
        self.in_bounds(row, col) && self.cells[self.offset(row, col)]
    }

    /// How many of the eight positions around `(row, col)` hold a live cell.
    pub open spec fn live_neighbours(self, row: int, col: int) -> nat {
        count_if(self.alive(row - 1, col - 1)) + count_if(self.alive(row - 1, col)) + count_if(
            self.alive(row - 1, col + 1),
        ) + count_if(self.alive(row, col - 1)) + count_if(self.alive(row, col + 1)) + count_if(
            self.alive(row + 1, col - 1),
        ) + count_if(self.alive(row + 1, col)) + count_if(self.alive(row + 1, col + 1))
    }

    /// The live cells among the first `k` of the nine positions of the 3 by 3
    /// block around `(row, col)`, taken row by row, the centre never counted.
    pub open spec fn neighbours_before(self, row: int, col: int, k: nat) -> nat
        decreases k,
    {
        if k == 0 {
            0
        } else {
            let p = k - 1;
            let dr = p / 3 - 1;
            let dc = p % 3 - 1;
            self.neighbours_before(row, col, p as nat) + count_if(
                (dr != 0 || dc != 0) && self.alive(row + dr, col + dc),
            )
        }
    }

    /// The next generation: every cell changes at once, by `next_state`
    /// applied to this generation.
    pub open spec fn step(self) -> Grid {
        Grid {
            width: self.width,
            height: self.height,
            cells: Seq::new(
                self.cells.len(),
                |i: int|
                    next_state(
                        self.cells[i],
                        self.live_neighbours(i / (self.width as int), i % (self.width as int)),
                    ),
            ),
        }
    }

    /// The grid after `n` generations.
    pub open spec fn steps(self, n: nat) -> Grid
        decreases n,
    {
        if n == 0 {
            self
        } else {
            self.step().steps((n - 1) as nat)
        }
    }

    /// The grid with the cell at `(row, col)` inverted and every other cell
    /// as it was.
    pub open spec fn toggled(self, row: int, col: int) -> Grid {
        Grid {
            width: self.width,
            height: self.height,
            cells: self.cells.update(
                self.offset(row, col),
                !self.cells[self.offset(row, col)],
            ),
        }
    }

    /// The grid of the given size in which every cell is dead.
    pub open spec fn blank(width: nat, height: nat) -> Grid {
        Grid { width, height, cells: Seq::new(width * height, |i: int| false) }
    }

    /// The grid of the given size with the fixed seed pattern: counting the
    /// cells row by row from zero, a cell is alive where its index is a
    /// multiple of 2 or of 7.
    pub open spec fn pattern(width: nat, height: nat) -> Grid {
        Grid { width, height, cells: Seq::new(width * height, |i: int| i % 2 == 0 || i % 7 == 0) }
    }

    /// Row `row` as text: one glyph for each cell, then a line feed.
    pub open spec fn row_text(self, row: int) -> Seq<char> {
        Seq::new(self.width, |col: int| glyph(self.alive(row, col))).push('\n')
    }

    /// The text of the first `n` rows, one after the other.
    pub open spec fn rows_text(self, n: nat) -> Seq<char>
        decreases n,
    {
        if n == 0 {
            Seq::empty()
        } else {
            self.rows_text((n - 1) as nat) + self.row_text(n - 1)
        }
    }

    /// The grid as text: its rows from the first to the last.
    pub open spec fn rendering(self) -> Seq<char> {
        self.rows_text(self.height)
    }

    /// Counting the nine positions of the block one by one gives the number
    /// of live neighbours.
    pub proof fn lemma_neighbours_before_all(self, row: int, col: int)
        ensures
            self.neighbours_before(row, col, 9) == self.live_neighbours(row, col),
    {
        reveal_with_fuel(Grid::neighbours_before, 10);
    }

    /// A position of the grid has its own index in `cells`, from which the
    /// position is read back by division.
    pub proof fn lemma_offset(self, row: int, col: int)
        requires
            self.in_bounds(row, col),
        ensures
            0 <= self.offset(row, col) < self.width * self.height,
            self.offset(row, col) / (self.width as int) == row,
            self.offset(row, col) % (self.width as int) == col,
    {
        let w = self.width as int;
        let h = self.height as int;
        assert(0 <= row * w && (row + 1) * w <= w * h) by (nonlinear_arith)
            requires
                0 <= row < h,
                0 < w,
        ;
        assert((row + 1) * w == row * w + w) by (nonlinear_arith);
        lemma_fundamental_div_mod_converse(row * w + col, w, row, col);
    }

    /// Every index of `cells` belongs to exactly one position of the grid.
    pub proof fn lemma_position(self, i: int)
        requires
            self.wf(),
            0 <= i < self.cells.len(),
        ensures
            self.in_bounds(i / (self.width as int), i % (self.width as int)),
            self.offset(i / (self.width as int), i % (self.width as int)) == i,
    {
        let w = self.width as int;
        let h = self.height as int;
        lemma_fundamental_div_mod(i, w);
        lemma_mod_bound(i, w);
        assert(w * (i / w) == (i / w) * w) by (nonlinear_arith);
        assert(0 <= i / w < h) by (nonlinear_arith)
            requires
                0 <= i < w * h,
                0 < w,
                i == (i / w) * w + i % w,
                0 <= i % w < w,
        ;
    }
}

} // verus!
