//! The transition rule of a single cell.

use vstd::prelude::*;

verus! {

/// The state a cell takes in the next generation, given whether it is alive now and how
/// many of its eight neighbours are alive, with the rules tried in this order:
/// underpopulation, survival, overpopulation, reproduction, otherwise unchanged.
pub open spec fn next_state(alive: bool, live_neighbors: int) -> bool {
    if alive && live_neighbors < 2 {
        false
    } else if alive && (live_neighbors == 2 || live_neighbors == 3) {
        true
    } else if alive && live_neighbors > 3 {
        false
    } else if !alive && live_neighbors == 3 {
        true
    } else {
        alive
    }
}

/// The rule in closed form: a live cell stays alive exactly when two or three of its
/// neighbours are alive, and a dead cell comes alive exactly when three are.
pub proof fn lemma_rule_table(alive: bool, live_neighbors: int)
    ensures
        next_state(alive, live_neighbors) == if alive {
            live_neighbors == 2 || live_neighbors == 3
        } else {
            live_neighbors == 3
        },
{
}

} // verus!
