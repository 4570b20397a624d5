//! The rule by which one cell passes from a generation to the next.

use vstd::prelude::*;

verus! {

/// Whether a cell is alive in the next generation, given whether it is alive
/// now and how many of its neighbors are: a cell with three live neighbors
/// lives, a live cell with two stays alive, every other cell is dead.
pub open spec fn lives_on(alive: bool, live_neighbors: int) -> bool {
    live_neighbors == 3 || (alive && live_neighbors == 2)
}

/// The next state of a cell from its state and its count of live neighbors.
pub fn next_state(alive: bool, live_neighbors: u8) -> (next: bool)
    ensures
        next == lives_on(alive, live_neighbors as int),
{
    if alive && live_neighbors < 2 {
        // underpopulation
        false
    } else if alive && (live_neighbors == 2 || live_neighbors == 3) {
        // stable
        true
    } else if alive && live_neighbors > 3 {
        // overpopulation
        false
    } else if !alive && live_neighbors == 3 {
        // reproduction
        true
    } else {
        alive
    }
}

/// The rule, row by row: a live cell with fewer than two live neighbors dies,
/// one with two or three lives on, one with more than three dies; a dead cell
/// with exactly three live neighbors comes alive; and any other cell keeps
/// its state.
pub proof fn lemma_rule_table(alive: bool, live_neighbors: int)
    requires
        0 <= live_neighbors <= 8,
    ensures
        alive && live_neighbors < 2 ==> !lives_on(alive, live_neighbors),
        alive && (live_neighbors == 2 || live_neighbors == 3) ==> lives_on(alive, live_neighbors),
        alive && live_neighbors > 3 ==> !lives_on(alive, live_neighbors),
        !alive && live_neighbors == 3 ==> lives_on(alive, live_neighbors),
        !alive && live_neighbors != 3 ==> lives_on(alive, live_neighbors) == alive,
{
}

} // verus!
