//! The executable grid: dimensions fixed at construction and the cells in a
//! packed bit set, every operation stated over [`Grid`].

use crate::arith::{lemma_index_of_cell, lemma_wrap};
use crate::bitset::{bits_of, block_bit};
use crate::grid::{count, Grid};
use crate::pattern::{DEFAULT_PATTERN, DEFAULT_SIZE};
use crate::rule::{lives_on, next_state};
use fixedbitset::FixedBitSet;
use vstd::prelude::*;

verus! {

/// Why a grid was not made or not changed.
#[derive(Clone, Copy, Debug, PartialEq, Eq)]
pub enum GridError {
    /// A grid must have at least one row and one column.
    ZeroDimension,
    /// The number of cells must fit in a `u32`, as every cell's index does.
    TooLarge,
    /// A row or a column that was given lies outside the grid.
    OutOfBounds,
}

/// A Game of Life grid on a torus.
pub struct Universe {
    width: u32,
    height: u32,
    cells: FixedBitSet,
}

/// The live neighbors of a cell that the first `k` offsets lead to, the nine
/// offsets by at most one row and one column taken row by row and the middle
/// one, the cell itself, counting for nothing.
spec fn counted(grid: Grid, row: int, col: int, k: nat) -> int
    decreases k,
{
    if k == 0 {
        0
    } else {
        let j = k - 1;
        counted(grid, row, col, j as nat) + (if j == 4 {
            0
        } else {
            count(grid.neighbor(row, col, j / 3 - 1, j % 3 - 1))
        })
    }
}

/// All nine offsets counted are the live neighbors.
proof fn lemma_counted_all(grid: Grid, row: int, col: int)
    ensures
        counted(grid, row, col, 9) == grid.live_neighbors(row, col),
{
    reveal_with_fuel(counted, 10);
}

impl View for Universe {
    type V = Grid;

    closed spec fn view(&self) -> Grid {
        Grid { width: self.width as nat, height: self.height as nat, cells: bits_of(self.cells) }
    }
}

impl Universe {
    /// The grid is well formed and no index of a cell exceeds a `u32`.
    pub open spec fn wf(&self) -> bool {
        self@.wf() && self@.width * self@.height <= u32::MAX
    }

    /// The grid made without dimensions: `DEFAULT_SIZE` cells wide and high,
    /// with the cells of `DEFAULT_PATTERN` alive and every other cell dead.
    pub fn new() -> (universe: Universe)
        ensures
            universe.wf(),
            universe@.width == DEFAULT_SIZE,
            universe@.height == DEFAULT_SIZE,
            universe@ == Grid::empty(DEFAULT_SIZE as nat, DEFAULT_SIZE as nat).with_alive(
                DEFAULT_PATTERN@,
            ),
    {
        let width = DEFAULT_SIZE;
        let height = DEFAULT_SIZE;
        let size = (width * height) as usize;
        let cells = FixedBitSet::with_capacity(size);
        let mut universe = Universe { width, height, cells };
        assert(universe@.cells =~= Grid::empty(width as nat, height as nat).cells);
        universe.mark_alive(DEFAULT_PATTERN.as_slice());
        universe
    }

    /// An all-dead grid of the given dimensions. A dimension of zero is
    /// refused, and so are dimensions whose product exceeds a `u32`.
    pub fn from_dimensions(width: u32, height: u32) -> (made: Result<Universe, GridError>)
        ensures
            match made {
                Ok(universe) => {
                    &&& width > 0
                    &&& height > 0
                    &&& width * height <= u32::MAX
                    &&& universe.wf()
                    &&& universe@ == Grid::empty(width as nat, height as nat)
                },
                Err(e) => if width == 0 || height == 0 {
                    e == GridError::ZeroDimension
                } else {
                    e == GridError::TooLarge && width * height > u32::MAX
                },
            },
    {
        if width == 0 || height == 0 {
            return Err(GridError::ZeroDimension);
        }
        match width.checked_mul(height) {
            Some(size) => {
                let cells = FixedBitSet::with_capacity(size as usize);
                let universe = Universe { width, height, cells };
                assert(universe@.cells =~= Grid::empty(width as nat, height as nat).cells);
                Ok(universe)
            },
            None => Err(GridError::TooLarge),
        }
    }

    /// The number of columns.
    pub fn width(&self) -> (width: u32)
        ensures
            width == self@.width,
    {
        self.width
    }

    /// The number of rows.
    pub fn height(&self) -> (height: u32)
        ensures
            height == self@.height,
    {
        self.height
    }

    /// The position of the cell at `row` and `column` in the row-major
    /// sequence of cells.
    pub fn get_index(&self, row: u32, column: u32) -> (index: usize)
        requires
            self.wf(),
            self@.in_bounds(row as int, column as int),
        ensures
            index == self@.index_of(row as int, column as int),
            index < self@.cells.len(),
    {
        proof {
            lemma_index_of_cell(row as int, column as int, self.width as int, self.height as int);
        }
        (row * self.width + column) as usize
    }

    /// How many of the eight offsets by at most one row and one column lead
    /// from the cell at `row` and `column` to a live cell, both axes going
    /// round: a step back from the first row or column is a step forward by
    /// one less than the axis is long.
    #[verifier::loop_isolation(false)]
    pub fn live_neighbor_count(&self, row: u32, column: u32) -> (live: u8)
        requires
            self.wf(),
            self@.in_bounds(row as int, column as int),
        ensures
            live == self@.live_neighbors(row as int, column as int),
            live <= 8,
    {
        let delta_rows: [u32; 3] = [self.height - 1, 0, 1];
        let delta_cols: [u32; 3] = [self.width - 1, 0, 1];
        let ghost grid = self@;
        proof {
            lemma_wrap(row as int, self.height as int);
            lemma_wrap(column as int, self.width as int);
        }
        let mut live: u8 = 0;
        for i in 0..3usize
            invariant
                live == counted(grid, row as int, column as int, (3 * i) as nat),
                live <= 3 * i,
        {
            for j in 0..3usize
                invariant
                    live == counted(grid, row as int, column as int, (3 * i + j) as nat),
                    live <= 3 * i + j,
            {
                if i != 1 || j != 1 {
                    let height = self.height as u64;
                    let width = self.width as u64;
                    let neighbor_row = ((row as u64 + delta_rows[i] as u64) % height) as u32;
                    let neighbor_col = ((column as u64 + delta_cols[j] as u64) % width) as u32;
                    let idx = self.get_index(neighbor_row, neighbor_col);
                    if self.cells.contains(idx) {
                        live += 1;
                    }
                }
            }
        }
        proof {
            lemma_counted_all(grid, row as int, column as int);
        }
        live
    }

    /// Advances the grid by one generation. Every cell's next state is made
    /// from the grid as it was before the call: the new cells are built
    /// beside the old ones and replace them at the end.
    #[verifier::loop_isolation(false)]
    pub fn tick(&mut self)
        requires
            old(self).wf(),
        ensures
            final(self).wf(),
            final(self)@ == old(self)@.step(),
            forall|row: int, col: int|
                old(self)@.in_bounds(row, col) ==> #[trigger] final(self)@.alive(row, col)
                    == lives_on(
                    old(self)@.alive(row, col),
                    old(self)@.live_neighbors(row, col),
                ),
    {
        let mut next = self.cells.clone();
        let ghost before = self@;
        let ghost width = self.width as int;
        let ghost height = self.height as int;
        assert(0 * width == 0 && height * width == width * height) by (nonlinear_arith);
        for row in 0..self.height
            invariant
                self@ == before,
                bits_of(next).len() == before.cells.len(),
                forall|i: int|
                    0 <= i < row * width ==> bits_of(next)[i] == before.step().cells[i],
        {
            for col in 0..self.width
                invariant
                    self@ == before,
                    bits_of(next).len() == before.cells.len(),
                    forall|i: int|
                        0 <= i < row * width + col ==> bits_of(next)[i] == before.step().cells[i],
            {
                let idx = self.get_index(row, col);
                let cell = self.cells.contains(idx);
                let live_neighbors = self.live_neighbor_count(row, col);
                let next_cell = next_state(cell, live_neighbors);
                next.set(idx, next_cell);
                proof {
                    before.lemma_index_in_range(row as int, col as int);
                }
            }
            assert((row + 1) * width == row * width + width) by (nonlinear_arith);
        }
        self.cells = next;
        proof {
            assert(self@.cells =~= before.step().cells);
            before.lemma_step();
        }
    }

    /// Makes each cell of `cells` alive that lies inside the grid, and skips
    /// the others.
    fn mark_alive(&mut self, cells: &[(u32, u32)])
        requires
            old(self).wf(),
        ensures
            final(self).wf(),
            final(self)@.width == old(self)@.width,
            final(self)@.height == old(self)@.height,
            final(self)@ == old(self)@.with_alive(cells@),
    {
        let ghost before = self@;
        for k in 0..cells.len()
            invariant
                self.wf(),
                self@.width == before.width,
                self@.height == before.height,
                self@ == before.with_alive(cells@.take(k as int)),
        {
            let (row, col) = cells[k];
            if row < self.height && col < self.width {
                let idx = self.get_index(row, col);
                self.cells.set(idx, true);
            }
            proof {
                assert(cells@.take(k + 1).drop_last() =~= cells@.take(k as int));
            }
        }
        assert(cells@.take(cells.len() as int) =~= cells@);
    }

    /// Makes each cell of `cells`, a row and a column, alive and leaves every
    /// other cell as it was. If any of them lies outside the grid the call is
    /// refused and the grid stays as it was.
    pub fn set_cells(&mut self, cells: &[(u32, u32)]) -> (done: Result<(), GridError>)
        requires
            old(self).wf(),
        ensures
            final(self).wf(),
            final(self)@.width == old(self)@.width,
            final(self)@.height == old(self)@.height,
            match done {
                Ok(()) => {
                    &&& old(self)@.all_in_bounds(cells@)
                    &&& final(self)@ == old(self)@.with_alive(cells@)
                },
                Err(e) => {
                    &&& e == GridError::OutOfBounds
                    &&& !old(self)@.all_in_bounds(cells@)
                    &&& final(self)@ == old(self)@
                },
            },
    {
        for k in 0..cells.len()
            invariant
                self.wf(),
                self@ == old(self)@,
                forall|j: int|
                    0 <= j < k ==> self@.in_bounds(
                        (#[trigger] cells@[j]).0 as int,
                        cells@[j].1 as int,
                    ),
        {
            let (row, col) = cells[k];
            if row >= self.height || col >= self.width {
                return Err(GridError::OutOfBounds);
            }
        }
        self.mark_alive(cells);
        Ok(())
    }

    /// The cells as they are held: a bit set whose bits, in order, are the
    /// cells in row-major order.
    pub fn get_cells(&self) -> (cells: &FixedBitSet)
        ensures
            bits_of(*cells) == self@.cells,
    {
        &self.cells
    }

    /// The cells as packed 32-bit blocks, for a reader that takes them as
    /// they lie in memory: cell `i` of the row-major order is bit `i % 32` of
    /// block `i / 32`.
    pub fn cells(&self) -> (blocks: &[u32])
        ensures
            blocks@.len() == (self@.cells.len() + 31) / 32,
            forall|i: int|
                0 <= i < self@.cells.len() ==> self@.cells[i] == #[trigger] block_bit(blocks@, i),
    {
        self.cells.as_slice()
    }

    /// Kills every cell. The dimensions stay.
    pub fn clear(&mut self)
        requires
            old(self).wf(),
        ensures
            final(self).wf(),
            final(self)@ == Grid::empty(old(self)@.width, old(self)@.height),
            final(self)@.all_dead(),
    {
        self.cells.clear();
        assert(self@.cells =~= Grid::empty(old(self)@.width, old(self)@.height).cells);
    }

    /// Inverts the state of the cell at `row` and `col`. Coordinates outside
    /// the grid are refused and leave it as it was.
    pub fn toggle_cell(&mut self, row: u32, col: u32) -> (done: Result<(), GridError>)
        requires
            old(self).wf(),
        ensures
            final(self).wf(),
            match done {
                Ok(()) => {
                    &&& old(self)@.in_bounds(row as int, col as int)
                    &&& final(self)@ == old(self)@.toggled(row as int, col as int)
                },
                Err(e) => {
                    &&& e == GridError::OutOfBounds
                    &&& !old(self)@.in_bounds(row as int, col as int)
                    &&& final(self)@ == old(self)@
                },
            },
    {
        if row >= self.height || col >= self.width {
            return Err(GridError::OutOfBounds);
        }
        let idx = self.get_index(row, col);
        self.cells.toggle(idx);
        Ok(())
    }
}

} // verus!
