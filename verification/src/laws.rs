//! What holds of every grid: how the torus closes at a corner, that an empty
//! grid stays empty, that a square of four is still and a line of three
//! turns, and how toggling and setting cells change a grid.

use crate::grid::{count, Grid};
use crate::rule::lives_on;
use vstd::prelude::*;

verus! {

/// The only live cells of the grid are the four of the square whose upper
/// left cell is at `row` and `col`, the torus going round where the square
/// reaches past the last row or column.
pub open spec fn is_block(grid: Grid, row: int, col: int) -> bool {
    forall|r: int, c: int|
        grid.in_bounds(r, c) ==> (#[trigger] grid.alive(r, c) <==> (r == row || r == grid.down(row))
            && (c == col || c == grid.right(col)))
}

/// The only live cells of the grid are three in row `row`: the cell at
/// column `col` and the two beside it.
pub open spec fn is_row_of_three(grid: Grid, row: int, col: int) -> bool {
    forall|r: int, c: int|
        grid.in_bounds(r, c) ==> (#[trigger] grid.alive(r, c) <==> r == row && (c == grid.left(col)
            || c == col || c == grid.right(col)))
}

/// The only live cells of the grid are three in column `col`: the cell at
/// row `row` and the two above and below it.
pub open spec fn is_column_of_three(grid: Grid, row: int, col: int) -> bool {
    forall|r: int, c: int|
        grid.in_bounds(r, c) ==> (#[trigger] grid.alive(r, c) <==> c == col && (r == grid.up(row)
            || r == row || r == grid.down(row)))
}

/// One of the pairs in `coords` is `row` and `col`.
pub open spec fn names(coords: Seq<(u32, u32)>, row: int, col: int) -> bool {
    exists|k: int| 0 <= k < coords.len() && (#[trigger] coords[k]).0 == row && coords[k].1 == col
}

/// The torus closes at the corner: on a grid at least two cells wide and
/// high, the neighbors of the cell in the first row and the first column are
/// the three cells around it in the last row, the three in the second row,
/// and the last and the second cell of its own row.
pub proof fn lemma_corner_neighbors(grid: Grid)
    requires
        grid.wf(),
        grid.height >= 2,
        grid.width >= 2,
    ensures
        grid.live_neighbors(0, 0) == count(grid.alive(grid.height - 1, grid.width - 1)) + count(
            grid.alive(grid.height - 1, 0),
        ) + count(grid.alive(grid.height - 1, 1)) + count(grid.alive(0, grid.width - 1)) + count(
            grid.alive(0, 1),
        ) + count(grid.alive(1, grid.width - 1)) + count(grid.alive(1, 0)) + count(
            grid.alive(1, 1),
        ),
{
    grid.lemma_live_neighbors(0, 0);
}

/// A grid on which the rule leaves every cell as it is, is the same grid
/// after one generation.
proof fn lemma_fixed_by_step(grid: Grid)
    requires
        grid.wf(),
        forall|r: int, c: int|
            grid.in_bounds(r, c) ==> lives_on(grid.alive(r, c), #[trigger] grid.live_neighbors(r, c))
                == grid.alive(r, c),
    ensures
        grid.step() == grid,
{
    grid.lemma_step();
    grid.step().lemma_equal_by_cells(grid);
}

/// In a grid without a live cell no cell has a live neighbor.
proof fn lemma_dead_neighbors(grid: Grid, row: int, col: int)
    requires
        grid.wf(),
        grid.all_dead(),
        grid.in_bounds(row, col),
    ensures
        grid.live_neighbors(row, col) == 0,
        !grid.alive(row, col),
{
    grid.lemma_live_neighbors(row, col);
    grid.lemma_index_in_range(row, col);
    grid.lemma_index_in_range(row, grid.left(col));
    grid.lemma_index_in_range(row, grid.right(col));
    grid.lemma_index_in_range(grid.up(row), grid.left(col));
    grid.lemma_index_in_range(grid.up(row), col);
    grid.lemma_index_in_range(grid.up(row), grid.right(col));
    grid.lemma_index_in_range(grid.down(row), grid.left(col));
    grid.lemma_index_in_range(grid.down(row), col);
    grid.lemma_index_in_range(grid.down(row), grid.right(col));
}

/// A grid without a live cell is the same grid after any number of
/// generations.
pub proof fn lemma_empty_stays_empty(grid: Grid, n: nat)
    requires
        grid.wf(),
        grid.all_dead(),
    ensures
        grid.iterate(n) == grid,
    decreases n,
{
    if n > 0 {
        lemma_empty_stays_empty(grid, (n - 1) as nat);
        assert forall|r: int, c: int| grid.in_bounds(r, c) implies lives_on(
            grid.alive(r, c),
            #[trigger] grid.live_neighbors(r, c),
        ) == grid.alive(r, c) by {
            lemma_dead_neighbors(grid, r, c);
        }
        lemma_fixed_by_step(grid);
    }
}

/// Of the three rows around a cell, how the two rows of a square lie among
/// them on a torus at least four rows high: never in the row above and the
/// row below at once, and where the cell's own row is one of the two, so is
/// exactly one of the rows beside it.
proof fn lemma_block_rows(grid: Grid, row: int, r: int)
    requires
        grid.height >= 4,
        0 <= row < grid.height,
        0 <= r < grid.height,
    ensures
        ({
            let above = grid.up(r) == row || grid.up(r) == grid.down(row);
            let here = r == row || r == grid.down(row);
            let below = grid.down(r) == row || grid.down(r) == grid.down(row);
            !(above && below) && (here ==> (above != below))
        }),
{
}

/// The same of the three columns around a cell and the two columns of a
/// square, on a torus at least four columns wide.
proof fn lemma_block_cols(grid: Grid, col: int, c: int)
    requires
        grid.width >= 4,
        0 <= col < grid.width,
        0 <= c < grid.width,
    ensures
        ({
            let before = grid.left(c) == col || grid.left(c) == grid.right(col);
            let here = c == col || c == grid.right(col);
            let after = grid.right(c) == col || grid.right(c) == grid.right(col);
            !(before && after) && (here ==> (before != after))
        }),
{
}

/// A square of four live cells keeps every cell of the grid as it is for one
/// generation: each of the four has the other three for neighbors, and no
/// dead cell has more than two of them.
proof fn lemma_block_cell(grid: Grid, row: int, col: int, r: int, c: int)
    requires
        grid.wf(),
        grid.height >= 4,
        grid.width >= 4,
        grid.in_bounds(row, col),
        is_block(grid, row, col),
        grid.in_bounds(r, c),
    ensures
        lives_on(grid.alive(r, c), grid.live_neighbors(r, c)) == grid.alive(r, c),
{
    grid.lemma_live_neighbors(r, c);
    lemma_block_rows(grid, row, r);
    lemma_block_cols(grid, col, c);
}

/// A square of four live cells, on a grid at least four cells wide and high
/// on which nothing else is alive, is the same grid after one generation.
proof fn lemma_block_step(grid: Grid, row: int, col: int)
    requires
        grid.wf(),
        grid.height >= 4,
        grid.width >= 4,
        grid.in_bounds(row, col),
        is_block(grid, row, col),
    ensures
        grid.step() == grid,
{
    assert forall|r: int, c: int| grid.in_bounds(r, c) implies lives_on(
        grid.alive(r, c),
        #[trigger] grid.live_neighbors(r, c),
    ) == grid.alive(r, c) by {
        lemma_block_cell(grid, row, col, r, c);
    }
    lemma_fixed_by_step(grid);
}

/// A square of four live cells, on a grid at least four cells wide and high
/// on which nothing else is alive, is the same grid after any number of
/// generations.
pub proof fn lemma_block_is_still(grid: Grid, row: int, col: int, n: nat)
    requires
        grid.wf(),
        grid.height >= 4,
        grid.width >= 4,
        grid.in_bounds(row, col),
        is_block(grid, row, col),
    ensures
        grid.iterate(n) == grid,
    decreases n,
{
    if n > 0 {
        lemma_block_is_still(grid, row, col, (n - 1) as nat);
        lemma_block_step(grid, row, col);
    }
}

/// Under a row of three live cells, each cell of the grid is alive in the
/// next generation if and only if it is one of the column of three through
/// the same middle cell.
proof fn lemma_row_cell(grid: Grid, row: int, col: int, r: int, c: int)
    requires
        grid.wf(),
        grid.height >= 4,
        grid.width >= 4,
        grid.in_bounds(row, col),
        is_row_of_three(grid, row, col),
        grid.in_bounds(r, c),
    ensures
        lives_on(grid.alive(r, c), grid.live_neighbors(r, c)) <==> c == col && (r == grid.up(row)
            || r == row || r == grid.down(row)),
{
    grid.lemma_live_neighbors(r, c);
}

/// Under a column of three live cells, each cell of the grid is alive in
/// the next generation if and only if it is one of the row of three through
/// the same middle cell.
proof fn lemma_column_cell(grid: Grid, row: int, col: int, r: int, c: int)
    requires
        grid.wf(),
        grid.height >= 4,
        grid.width >= 4,
        grid.in_bounds(row, col),
        is_column_of_three(grid, row, col),
        grid.in_bounds(r, c),
    ensures
        lives_on(grid.alive(r, c), grid.live_neighbors(r, c)) <==> r == row && (c == grid.left(col)
            || c == col || c == grid.right(col)),
{
    grid.lemma_live_neighbors(r, c);
}

/// A row of three live cells, on a grid at least four cells wide and high on
/// which nothing else is alive, is a column of three through the same middle
/// cell after one generation, which is another grid, and the row again after
/// two.
pub proof fn lemma_blinker(grid: Grid, row: int, col: int)
    requires
        grid.wf(),
        grid.height >= 4,
        grid.width >= 4,
        grid.in_bounds(row, col),
        is_row_of_three(grid, row, col),
    ensures
        is_column_of_three(grid.step(), row, col),
        grid.step() != grid,
        grid.iterate(2) == grid,
{
    let turned = grid.step();
    grid.lemma_step();
    assert forall|r: int, c: int| turned.in_bounds(r, c) implies (#[trigger] turned.alive(r, c) <==> c
        == col && (r == turned.up(row) || r == row || r == turned.down(row))) by {
        lemma_row_cell(grid, row, col, r, c);
    }
    assert(grid.alive(row, grid.left(col)));
    assert(!turned.alive(row, turned.left(col)));
    turned.lemma_step();
    assert forall|r: int, c: int| grid.in_bounds(r, c) implies turned.step().alive(r, c)
        == grid.alive(r, c) by {
        lemma_column_cell(turned, row, col, r, c);
    }
    turned.step().lemma_equal_by_cells(grid);
    assert(grid.iterate(2) == turned.step()) by {
        reveal_with_fuel(Grid::iterate, 3);
    }
}

/// Toggling a cell inverts it and leaves every other cell as it was.
pub proof fn lemma_toggled(grid: Grid, row: int, col: int)
    requires
        grid.wf(),
        grid.in_bounds(row, col),
    ensures
        grid.toggled(row, col).wf(),
        grid.toggled(row, col).width == grid.width,
        grid.toggled(row, col).height == grid.height,
        forall|r: int, c: int|
            grid.in_bounds(r, c) ==> #[trigger] grid.toggled(row, col).alive(r, c) == (if r == row
                && c == col {
                !grid.alive(r, c)
            } else {
                grid.alive(r, c)
            }),
{
    grid.lemma_index_in_range(row, col);
    assert forall|r: int, c: int| grid.in_bounds(r, c) implies #[trigger] grid.toggled(
        row,
        col,
    ).alive(r, c) == (if r == row && c == col {
        !grid.alive(r, c)
    } else {
        grid.alive(r, c)
    }) by {
        grid.lemma_index_in_range(r, c);
    }
}

/// Toggling a cell twice gives the grid back.
pub proof fn lemma_toggle_twice(grid: Grid, row: int, col: int)
    requires
        grid.wf(),
        grid.in_bounds(row, col),
    ensures
        grid.toggled(row, col).toggled(row, col) == grid,
{
    grid.lemma_index_in_range(row, col);
    assert(grid.toggled(row, col).toggled(row, col).cells =~= grid.cells);
}

/// Setting a cell alive keeps the dimensions, makes that cell alive and
/// leaves every other cell as it was; outside the grid it changes nothing.
pub proof fn lemma_set_alive(grid: Grid, row: int, col: int)
    requires
        grid.wf(),
    ensures
        grid.set_alive(row, col).wf(),
        grid.set_alive(row, col).width == grid.width,
        grid.set_alive(row, col).height == grid.height,
        forall|r: int, c: int|
            grid.in_bounds(r, c) ==> #[trigger] grid.set_alive(row, col).alive(r, c) == (grid.alive(
                r,
                c,
            ) || (r == row && c == col)),
{
    if grid.in_bounds(row, col) {
        grid.lemma_index_in_range(row, col);
    }
    assert forall|r: int, c: int| grid.in_bounds(r, c) implies #[trigger] grid.set_alive(
        row,
        col,
    ).alive(r, c) == (grid.alive(r, c) || (r == row && c == col)) by {
        grid.lemma_index_in_range(r, c);
    }
}

/// A cell is named by a sequence of pairs if and only if it is named by all
/// but the last of them or is the last.
proof fn lemma_names_last(coords: Seq<(u32, u32)>, r: int, c: int)
    requires
        coords.len() > 0,
    ensures
        names(coords, r, c) <==> (names(coords.drop_last(), r, c) || (coords.last().0 == r
            && coords.last().1 == c)),
{
    let rest = coords.drop_last();
    if names(rest, r, c) {
        let k = choose|k: int| 0 <= k < rest.len() && (#[trigger] rest[k]).0 == r && rest[k].1 == c;
        assert(coords[k].0 == r && coords[k].1 == c);
    }
    if coords.last().0 == r && coords.last().1 == c {
        assert(coords[coords.len() - 1].0 == r && coords[coords.len() - 1].1 == c);
    }
    if names(coords, r, c) {
        let k = choose|k: int|
            0 <= k < coords.len() && (#[trigger] coords[k]).0 == r && coords[k].1 == c;
        if k < rest.len() {
            assert(rest[k].0 == r && rest[k].1 == c);
        }
    }
}

/// Setting cells alive keeps the dimensions; afterwards a cell is alive if
/// and only if it was alive before or is one of those that were named.
pub proof fn lemma_with_alive(grid: Grid, coords: Seq<(u32, u32)>)
    requires
        grid.wf(),
    ensures
        grid.with_alive(coords).wf(),
        grid.with_alive(coords).width == grid.width,
        grid.with_alive(coords).height == grid.height,
        forall|r: int, c: int|
            grid.in_bounds(r, c) ==> #[trigger] grid.with_alive(coords).alive(r, c) == (grid.alive(
                r,
                c,
            ) || names(coords, r, c)),
    decreases coords.len(),
{
    if coords.len() > 0 {
        let rest = coords.drop_last();
        let row = coords.last().0 as int;
        let col = coords.last().1 as int;
        let marked = grid.with_alive(rest);
        lemma_with_alive(grid, rest);
        lemma_set_alive(marked, row, col);
        assert(grid.with_alive(coords) == marked.set_alive(row, col));
        assert forall|r: int, c: int| grid.in_bounds(r, c) implies #[trigger] grid.with_alive(
            coords,
        ).alive(r, c) == (grid.alive(r, c) || names(coords, r, c)) by {
            lemma_names_last(coords, r, c);
            assert(marked.in_bounds(r, c));
        }
    }
}

/// Setting one cell alive makes that cell alive and leaves every other cell
/// as it was.
pub proof fn lemma_set_one(grid: Grid, row: u32, col: u32)
    requires
        grid.wf(),
        grid.in_bounds(row as int, col as int),
    ensures
        grid.with_alive(seq![(row, col)]).alive(row as int, col as int),
        forall|r: int, c: int|
            grid.in_bounds(r, c) && !(r == row && c == col) ==> #[trigger] grid.with_alive(
                seq![(row, col)],
            ).alive(r, c) == grid.alive(r, c),
{
    let coords = seq![(row, col)];
    lemma_with_alive(grid, coords);
    assert(coords[0] == (row, col));
    assert(names(coords, row as int, col as int));
}

} // verus!
