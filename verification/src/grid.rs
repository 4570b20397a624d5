//! The mathematical model of a grid: its dimensions, its cells in row-major
//! order, and the generation step.

use crate::arith::{lemma_cell_of_index, lemma_index_of_cell, lemma_wrap};
use crate::rule::lives_on;
use vstd::prelude::*;

verus! {

/// A grid of cells on a torus: `height` rows of `width` cells, the cell at
/// row `r` and column `c` at position `r * width + c` of `cells`. `true` is
/// alive.
pub struct Grid {
    pub width: nat,
    pub height: nat,
    pub cells: Seq<bool>,
}

/// One for a live cell, nothing for a dead one.
pub open spec fn count(alive: bool) -> int {
    if alive {
        1
    } else {
        0
    }
}

impl Grid {
    /// Both dimensions are positive and there is exactly one cell for each
    /// pair of a row and a column.
    pub open spec fn wf(self) -> bool {
        &&& self.width > 0
        &&& self.height > 0
        &&& self.cells.len() == self.width * self.height
    }

    /// The grid of the given dimensions with every cell dead.
    pub open spec fn empty(width: nat, height: nat) -> Grid {
        Grid { width, height, cells: Seq::new(width * height, |i: int| false) }
    }

    /// No cell is alive.
    pub open spec fn all_dead(self) -> bool {
        forall|i: int| 0 <= i < self.cells.len() ==> !self.cells[i]
    }

    /// `row` and `col` name a cell of the grid.
    pub open spec fn in_bounds(self, row: int, col: int) -> bool {
        0 <= row < self.height && 0 <= col < self.width
    }

    /// The position in `cells` of the cell at `row` and `col`.
    pub open spec fn index_of(self, row: int, col: int) -> int {
        row * self.width + col
    }

    /// Whether the cell at `row` and `col` is alive.
    pub open spec fn alive(self, row: int, col: int) -> bool {
        self.cells[self.index_of(row, col)]
    }

    /// Whether the cell is alive that lies `d_row` rows below and `d_col`
    /// columns to the right of the cell at `row` and `col`, going round the
    /// torus on both axes.
    pub open spec fn neighbor(self, row: int, col: int, d_row: int, d_col: int) -> bool {
        self.alive((row + d_row) % (self.height as int), (col + d_col) % (self.width as int))
    }

    /// How many of the eight offsets by at most one row and one column, the
    /// cell itself left out, lead from the cell at `row` and `col` to a live
    /// cell. On a grid less than three cells wide or high several offsets
    /// lead to one cell, which then counts once for each.
    pub open spec fn live_neighbors(self, row: int, col: int) -> int {
        count(self.neighbor(row, col, -1, -1)) + count(self.neighbor(row, col, -1, 0)) + count(
            self.neighbor(row, col, -1, 1),
        ) + count(self.neighbor(row, col, 0, -1)) + count(self.neighbor(row, col, 0, 1)) + count(
            self.neighbor(row, col, 1, -1),
        ) + count(self.neighbor(row, col, 1, 0)) + count(self.neighbor(row, col, 1, 1))
    }

    /// The next generation: every cell passes through the rule, with its
    /// state and its live neighbors taken from this grid.
    pub open spec fn step(self) -> Grid {
        Grid {
            width: self.width,
            height: self.height,
            cells: Seq::new(
                self.cells.len(),
                |i: int|
                    lives_on(
                        self.cells[i],
                        self.live_neighbors(i / (self.width as int), i % (self.width as int)),
                    ),
            ),
        }
    }

    /// The grid after `n` generations.
    pub open spec fn iterate(self, n: nat) -> Grid
        decreases n,
    {
        if n == 0 {
            self
        } else {
            self.iterate((n - 1) as nat).step()
        }
    }

    /// The grid with the state of the cell at `row` and `col` inverted.
    pub open spec fn toggled(self, row: int, col: int) -> Grid {
        Grid {
            width: self.width,
            height: self.height,
            cells: self.cells.update(self.index_of(row, col), !self.alive(row, col)),
        }
    }

    /// The grid with the cell at `row` and `col` alive; the grid itself where
    /// there is no such cell.
    pub open spec fn set_alive(self, row: int, col: int) -> Grid {
        if self.in_bounds(row, col) {
            Grid {
                width: self.width,
                height: self.height,
                cells: self.cells.update(self.index_of(row, col), true),
            }
        } else {
            self
        }
    }

    /// The grid with each cell alive that `coords` names, as a row and a
    /// column.
    pub open spec fn with_alive(self, coords: Seq<(u32, u32)>) -> Grid
        decreases coords.len(),
    {
        if coords.len() == 0 {
            self
        } else {
            self.with_alive(coords.drop_last()).set_alive(
                coords.last().0 as int,
                coords.last().1 as int,
            )
        }
    }

    /// Every pair in `coords` names a cell of the grid.
    pub open spec fn all_in_bounds(self, coords: Seq<(u32, u32)>) -> bool {
        forall|k: int|
            0 <= k < coords.len() ==> self.in_bounds(
                (#[trigger] coords[k]).0 as int,
                coords[k].1 as int,
            )
    }

    /// The row above `row`, the last row above the first.
    pub open spec fn up(self, row: int) -> int {
        if row > 0 {
            row - 1
        } else {
            self.height - 1
        }
    }

    /// The row below `row`, the first row below the last.
    pub open spec fn down(self, row: int) -> int {
        if row + 1 < self.height {
            row + 1
        } else {
            0
        }
    }

    /// The column left of `col`, the last column left of the first.
    pub open spec fn left(self, col: int) -> int {
        if col > 0 {
            col - 1
        } else {
            self.width - 1
        }
    }

    /// The column right of `col`, the first column right of the last.
    pub open spec fn right(self, col: int) -> int {
        if col + 1 < self.width {
            col + 1
        } else {
            0
        }
    }

    /// The cells of a well-formed grid are those that `in_bounds` names: the
    /// index of each lies within `cells`, and no two share one.
    pub proof fn lemma_index_in_range(self, row: int, col: int)
        requires
            self.wf(),
            self.in_bounds(row, col),
        ensures
            0 <= self.index_of(row, col) < self.cells.len(),
            self.index_of(row, col) / (self.width as int) == row,
            self.index_of(row, col) % (self.width as int) == col,
    {
        lemma_index_of_cell(row, col, self.width as int, self.height as int);
    }

    /// Two well-formed grids of the same dimensions that agree on every cell
    /// are the same grid.
    pub proof fn lemma_equal_by_cells(self, other: Grid)
        requires
            self.wf(),
            other.wf(),
            self.width == other.width,
            self.height == other.height,
            forall|row: int, col: int|
                self.in_bounds(row, col) ==> self.alive(row, col) == other.alive(row, col),
        ensures
            self == other,
    {
        assert forall|i: int| 0 <= i < self.cells.len() implies self.cells[i] == other.cells[i] by {
            let w = self.width as int;
            lemma_cell_of_index(i, w, self.height as int);
            assert(self.in_bounds(i / w, i % w));
            assert(self.alive(i / w, i % w) == other.alive(i / w, i % w));
        }
        assert(self.cells =~= other.cells);
    }

    /// The eight neighbors of a cell, named: the three cells of the row
    /// above, the two beside the cell, and the three of the row below, each
    /// axis going round.
    pub proof fn lemma_live_neighbors(self, row: int, col: int)
        requires
            self.wf(),
            self.in_bounds(row, col),
        ensures
            self.live_neighbors(row, col) == count(self.alive(self.up(row), self.left(col)))
                + count(self.alive(self.up(row), col)) + count(
                self.alive(self.up(row), self.right(col)),
            ) + count(self.alive(row, self.left(col))) + count(self.alive(row, self.right(col)))
                + count(self.alive(self.down(row), self.left(col))) + count(
                self.alive(self.down(row), col),
            ) + count(self.alive(self.down(row), self.right(col))),
            0 <= self.live_neighbors(row, col) <= 8,
    {
        lemma_wrap(row, self.height as int);
        lemma_wrap(col, self.width as int);
    }

    /// One generation keeps the dimensions, and gives each cell the state
    /// that the rule makes of its state and its live neighbors before.
    pub proof fn lemma_step(self)
        requires
            self.wf(),
        ensures
            self.step().wf(),
            self.step().width == self.width,
            self.step().height == self.height,
            forall|row: int, col: int|
                self.in_bounds(row, col) ==> #[trigger] self.step().alive(row, col) == lives_on(
                    self.alive(row, col),
                    self.live_neighbors(row, col),
                ),
    {
        assert forall|row: int, col: int| self.in_bounds(row, col) implies #[trigger] self.step().alive(
            row,
            col,
        ) == lives_on(self.alive(row, col), self.live_neighbors(row, col)) by {
            self.lemma_index_in_range(row, col);
        }
    }
}

} // verus!
