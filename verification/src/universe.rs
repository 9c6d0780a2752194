//! The executable grid: a `FixedBitSet` of cells with its dimensions.

use crate::bitset::{bits_of, packs, set_range};
use crate::grid::{glyph, next_state, Grid, ALIVE_GLYPH, DEAD_GLYPH};
use fixedbitset::FixedBitSet;
use vstd::prelude::*;

verus! {

/// A grid of cells, each alive or dead, that advances by generations.
pub struct Universe {
    width: usize,
    height: usize,
    cells: FixedBitSet,
}

impl View for Universe {
    type V = Grid;

    closed spec fn view(&self) -> Grid {
        Grid { width: self.width as nat, height: self.height as nat, cells: bits_of(self.cells) }
    }
}

impl Universe {
    /// The invariant of the type: the grid is not empty, it holds one bit
    /// for each position, and the number of positions fits in a `usize`.
    pub open spec fn wf(&self) -> bool {
        &&& self@.wf()
        &&& self@.width * self@.height <= usize::MAX
    }

    /// A grid of `width` columns and `height` rows in which every cell is dead.
    pub fn new(width: usize, height: usize) -> (universe: Universe)
        requires
            0 < width,
            0 < height,
            width * height <= usize::MAX,
        ensures
            universe.wf(),
            universe@ == Grid::blank(width as nat, height as nat),
    {
        let cells = FixedBitSet::with_capacity(width * height);
        let universe = Universe { width, height, cells };
        assert(universe@.cells =~= Grid::blank(width as nat, height as nat).cells);
        universe
    }

    /// The number of columns.
    pub fn width(&self) -> (width: usize)
        ensures
            width == self@.width,
    {
        self.width
    }

    /// The number of rows.
    pub fn height(&self) -> (height: usize)
        ensures
            height == self@.height,
    {
        self.height
    }

    /// The index of the cell at `(row, col)` in the bit set.
    fn get_offset(&self, row: usize, col: usize) -> (offset: usize)
        requires
            self.wf(),
            self@.in_bounds(row as int, col as int),
        ensures
            offset == self@.offset(row as int, col as int),
            offset < self@.cells.len(),
    {
        proof {
            self@.lemma_offset(row as int, col as int);
            assert(0 <= row * self.width) by (nonlinear_arith);
        }
        self.width * row + col
    }

    /// Whether the cell at `(row, col)` is alive. A position beyond the
    /// edges holds no cell and is reported dead.
    pub fn is_alive(&self, row: usize, col: usize) -> (alive: bool)
        requires
            self.wf(),
        ensures
            alive == self@.alive(row as int, col as int),
    {
        if row < self.height && col < self.width {
            self.cells.contains(self.get_offset(row, col))
        } else {
            false
        }
    }

    /// Advances the grid by one generation. Every cell of the new
    /// generation is computed from the old one: no cell sees the new state
    /// of another.
    pub fn tick(&mut self)
        requires
            old(self).wf(),
        ensures
            final(self).wf(),
            final(self)@ == old(self)@.step(),
            final(self)@.width == old(self)@.width,
            final(self)@.height == old(self)@.height,
            final(self)@.cells.len() == old(self)@.cells.len(),
    {
        // all changes must be applied at once
        let mut next_gen = self.cells.clone();
        let ghost now = self@;
        assert(0 * now.width == 0 && self.height * now.width == now.cells.len())
            by (nonlinear_arith)
            requires
                now.cells.len() == now.width * now.height,
                self.height == now.height,
        ;

        for row in 0..self.height
            invariant
                self.wf(),
                self@ == now,
                self.height * now.width == now.cells.len(),
                bits_of(next_gen).len() == now.cells.len(),
                forall|k: int|
                    0 <= k < row * now.width ==> bits_of(next_gen)[k] == now.step().cells[k],
        {
            for col in 0..self.width
                invariant
                    self.wf(),
                    self@ == now,
                    row < self.height,
                    bits_of(next_gen).len() == now.cells.len(),
                    forall|k: int|
                        0 <= k < row * now.width + col ==> bits_of(next_gen)[k]
                            == now.step().cells[k],
            {
                let cell = self.is_alive(row, col);
                let neighbour_count = self.live_neighbour_count(row, col);
                let next_cell = next_cell(cell, neighbour_count);
                let offset = self.get_offset(row, col);
                proof {
                    now.lemma_offset(row as int, col as int);
                }
                next_gen.set(offset, next_cell);
            }
            assert((row + 1) * now.width == row * now.width + now.width) by (nonlinear_arith);
        }

        self.cells = next_gen;
        assert(self@.cells =~= now.step().cells);
    }

    /// Sets every cell from `draws`, one draw for each cell in row order:
    /// the cell is alive where its draw is `true`. The caller makes the
    /// draws, so that the source of chance is the caller's own.
    pub fn set_random(&mut self, draws: &[bool])
        requires
            old(self).wf(),
            draws@.len() == old(self)@.cells.len(),
        ensures
            final(self).wf(),
            final(self)@.width == old(self)@.width,
            final(self)@.height == old(self)@.height,
            final(self)@.cells == draws@,
    {
        let ghost width = self@.width;
        let ghost height = self@.height;
        let count = self.height * self.width;
        for i in 0..count
            invariant
                self.wf(),
                self@.width == width,
                self@.height == height,
                count == draws@.len(),
                count == self@.cells.len(),
                forall|k: int| 0 <= k < i ==> self@.cells[k] == draws@[k],
        {
            self.cells.set(i, draws[i]);
        }
        assert(self@.cells =~= draws@);
    }

    /// Sets the fixed seed pattern: counting the cells row by row from
    /// zero, a cell is alive where its index is a multiple of 2 or of 7.
    pub fn set_pattern(&mut self)
        requires
            old(self).wf(),
        ensures
            final(self).wf(),
            final(self)@ == Grid::pattern(old(self)@.width, old(self)@.height),
    {
        let ghost width = self@.width;
        let ghost height = self@.height;
        let count = self.height * self.width;
        for i in 0..count
            invariant
                self.wf(),
                self@.width == width,
                self@.height == height,
                count == self@.cells.len(),
                forall|k: int| 0 <= k < i ==> self@.cells[k] == (k % 2 == 0 || k % 7 == 0),
        {
            self.cells.set(i, i % 2 == 0 || i % 7 == 0);
        }
        assert(self@.cells =~= Grid::pattern(width, height).cells);
    }

    /// Makes every cell dead.
    pub fn set_blank(&mut self)
        requires
            old(self).wf(),
        ensures
            final(self).wf(),
            final(self)@ == Grid::blank(old(self)@.width, old(self)@.height),
    {
        set_range(&mut self.cells, 0, self.width * self.height, false);
        assert(self@.cells =~= Grid::blank(self@.width, self@.height).cells);
    }

    /// Inverts the cell at `(row, col)` and leaves every other cell as it
    /// was.
    pub fn toggle_cell(&mut self, row: usize, col: usize)
        requires
            old(self).wf(),
            old(self)@.in_bounds(row as int, col as int),
        ensures
            final(self).wf(),
            final(self)@ == old(self)@.toggled(row as int, col as int),
    {
        let offset = self.get_offset(row, col);
        self.cells.toggle(offset);
    }

    /// The cells as the bit set packs them, for a caller that draws the
    /// grid: one `u32` for every 32 cells in row order, the last one partly
    /// used. Cell `i` is bit `i % 32` of block `i / 32`, bit 0 being the
    /// least significant. The borrow ends before the grid next changes.
    pub fn cells(&self) -> (blocks: &[u32])
        ensures
            packs(blocks@, self@.cells),
    {
        self.cells.as_slice()
    }

    /// The grid as text, one line for each row and one glyph for each cell:
    /// `ALIVE_GLYPH` for a live cell and `DEAD_GLYPH` for a dead one. Every
    /// row ends with a line feed.
    pub fn display(&self) -> (text: String)
        requires
            self.wf(),
        ensures
            text@ == self@.rendering(),
    {
        let mut text = String::new();
        for row in 0..self.height
            invariant
                self.wf(),
                text@ == self@.rows_text(row as nat),
        {
            let ghost done = text@;
            for col in 0..self.width
                invariant
                    self.wf(),
                    row < self.height,
                    text@ == done + Seq::new(
                        col as nat,
                        |c: int| glyph(self@.alive(row as int, c)),
                    ),
            {
                let symbol = if self.is_alive(row, col) {
                    "\u{25FB}"
                } else {
                    "\u{25FC}"
                };
                proof {
                    reveal_strlit("\u{25FB}");
                    reveal_strlit("\u{25FC}");
                }
                text.append(symbol);
                assert(text@ =~= done + Seq::new(
                    (col + 1) as nat,
                    |c: int| glyph(self@.alive(row as int, c)),
                ));
            }
            proof {
                reveal_strlit("\n");
            }
            text.append("\n");
            assert(text@ =~= done + self@.row_text(row as int));
        }
        text
    }

    /// Whether the cell one step from `(row, col)` in the direction
    /// `(i, j)` is alive; beyond the edges there is none.
    fn neighbour_alive(&self, row: usize, col: usize, i: i32, j: i32) -> (alive: bool)
        requires
            self.wf(),
            self@.in_bounds(row as int, col as int),
            -1 <= i <= 1,
            -1 <= j <= 1,
        ensures
            alive == self@.alive(row + i, col + j),
    {
        match (neighbour_coord(row, i, self.height), neighbour_coord(col, j, self.width)) {
            (Some(r), Some(c)) => self.is_alive(r, c),
            _ => false,
        }
    }

    /// The number of live cells among the eight positions around
    /// `(row, col)`. Positions beyond the edges count as dead.
    pub fn live_neighbour_count(&self, row: usize, col: usize) -> (count: u8)
        requires
            self.wf(),
            self@.in_bounds(row as int, col as int),
        ensures
            count == self@.live_neighbours(row as int, col as int),
    {
        let mut count: u8 = 0;
        let mut i: i32 = -1;
        while i <= 1
            invariant
                self.wf(),
                self@.in_bounds(row as int, col as int),
                -1 <= i <= 2,
                count <= 3 * (i + 1),
                count == self@.neighbours_before(row as int, col as int, (3 * (i + 1)) as nat),
            decreases 2 - i,
        {
            let mut j: i32 = -1;
            while j <= 1
                invariant
                    self.wf(),
                    self@.in_bounds(row as int, col as int),
                    -1 <= i <= 1,
                    -1 <= j <= 2,
                    count <= 3 * (i + 1) + (j + 1),
                    count == self@.neighbours_before(
                        row as int,
                        col as int,
                        (3 * (i + 1) + (j + 1)) as nat,
                    ),
                decreases 2 - j,
            {
                // the cell itself is no neighbour
                if !(i == 0 && j == 0) && self.neighbour_alive(row, col, i, j) {
                    count += 1;
                }
                j += 1;
            }
            i += 1;
        }
        proof {
            self@.lemma_neighbours_before_all(row as int, col as int);
        }
        count
    }
}

/// The state of a cell in the next generation.
fn next_cell(cell: bool, neighbour_count: u8) -> (next: bool)
    ensures
        next == next_state(cell, neighbour_count as nat),
{
    match (cell, neighbour_count) {
        // A live cell with fewer than two live neighbours dies, as if by
        // underpopulation.
        (true, x) if x < 2 => false,
        // A live cell with two or three live neighbours lives on.
        (true, 2) | (true, 3) => true,
        // A live cell with more than three live neighbours dies, as if by
        // overpopulation.
        (true, x) if x > 3 => false,
        // A dead cell with exactly three live neighbours becomes a live
        // cell, as if by reproduction.
        (false, 3) => true,
        // All other cells remain in the same state.
        (otherwise, _) => otherwise,
    }
}

/// The coordinate one step from `x` in the direction `delta`, where it is
/// at least zero and below `limit`.
fn neighbour_coord(x: usize, delta: i32, limit: usize) -> (coord: Option<usize>)
    requires
        x < limit,
        -1 <= delta <= 1,
    ensures
        coord == (if 0 <= x + delta < limit {
            Some((x + delta) as usize)
        } else {
            None::<usize>
        }),
{
    if delta < 0 {
        if x == 0 {
            None
        } else {
            Some(x - 1)
        }
    } else if delta == 0 {
        Some(x)
    } else if x + 1 < limit {
        Some(x + 1)
    } else {
        None
    }
}

} // verus!
