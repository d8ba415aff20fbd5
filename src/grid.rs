//! The mathematical model of a toroidal grid stored row by row in a sequence of cells.

use vstd::prelude::*;
use vstd::arithmetic::div_mod::lemma_small_mod;
use crate::rules::next_state;

verus! {

/// Flat position of the cell at `(row, col)` in a grid `width` cells wide.
pub open spec fn index_of(width: int, row: int, col: int) -> int {
    width * row + col
}

/// The offset added to a coordinate in slot `k` (0, 1 or 2) of the 3 by 3 window around a
/// cell, along a dimension of size `n`: one step back (written as `n - 1`), none, one ahead.
pub open spec fn offset(n: int, k: int) -> int {
    if k == 0 {
        n - 1
    } else if k == 1 {
        0
    } else {
        1
    }
}

/// Slot `k` (0 to 8, row-major) of the window names a neighbour unless both of its
/// offsets are zero, which denotes the cell itself.
pub open spec fn is_neighbor_slot(height: int, width: int, k: int) -> bool {
    0 <= k < 9 && !(offset(height, k / 3) == 0 && offset(width, k % 3) == 0)
}

/// The position in slot `k` of the window around `(row, col)`, wrapped around both edges.
pub open spec fn neighbor(height: int, width: int, row: int, col: int, k: int) -> (int, int) {
    ((row + offset(height, k / 3)) % height, (col + offset(width, k % 3)) % width)
}

/// The neighbour positions of `(row, col)`.
pub open spec fn neighbor_set(height: int, width: int, row: int, col: int) -> Set<(int, int)> {
    Set::new(
        |p: (int, int)|
            exists|k: int| is_neighbor_slot(height, width, k) && neighbor(height, width, row, col, k) == p,
    )
}

/// Whether the cell at position `p` is alive.
pub open spec fn alive_at(cells: Seq<bool>, width: int, p: (int, int)) -> bool {
    cells[index_of(width, p.0, p.1)]
}

/// The number of live neighbours found in the first `k` slots of the window.
pub open spec fn window_count(cells: Seq<bool>, height: int, width: int, row: int, col: int, k: int) -> nat
    decreases k,
{
    if k <= 0 {
        0
    } else {
        window_count(cells, height, width, row, col, k - 1) + if is_neighbor_slot(height, width, k - 1)
            && alive_at(cells, width, neighbor(height, width, row, col, k - 1)) {
            1nat
        } else {
            0nat
        }
    }
}

/// The number of live neighbours of `(row, col)`.
pub open spec fn live_neighbors(cells: Seq<bool>, height: int, width: int, row: int, col: int) -> nat {
    window_count(cells, height, width, row, col, 9)
}

/// The state of the cell at flat position `i` in the generation after `cells`.
pub open spec fn next_cell(cells: Seq<bool>, height: int, width: int, i: int) -> bool {
    next_state(cells[i], live_neighbors(cells, height, width, i / width, i % width) as int)
}

/// The generation after `cells`, every cell computed from the current one alone.
pub open spec fn next_generation(cells: Seq<bool>, height: int, width: int) -> Seq<bool> {
    Seq::new(cells.len(), |i: int| next_cell(cells, height, width, i))
}

/// The initial pattern: cell `i` is alive when `i` is a multiple of 2 or of 7.
pub open spec fn seeded(n: nat) -> Seq<bool> {
    Seq::new(n, |i: int| i % 2 == 0 || i % 7 == 0)
}

/// A grid with `n` cells, all dead.
pub open spec fn all_dead(n: nat) -> Seq<bool> {
    Seq::new(n, |i: int| false)
}

/// Whether some position in `positions` has flat index `i`.
pub open spec fn is_marked(width: int, positions: Seq<(u32, u32)>, i: int) -> bool {
    exists|k: int| 0 <= k < positions.len() && index_of(width, positions[k].0 as int, positions[k].1 as int) == i
}

/// `cells` with the cell at each of `positions` made alive.
pub open spec fn with_alive(cells: Seq<bool>, width: int, positions: Seq<(u32, u32)>) -> Seq<bool> {
    Seq::new(cells.len(), |i: int| cells[i] || is_marked(width, positions, i))
}

/// At most one is counted per slot.
pub proof fn lemma_window_count_bound(cells: Seq<bool>, height: int, width: int, row: int, col: int, k: int)
    requires
        0 <= k,
    ensures
        window_count(cells, height, width, row, col, k) <= k,
    decreases k,
{
    if k > 0 {
        lemma_window_count_bound(cells, height, width, row, col, k - 1);
    }
}

/// Wraparound at the corner: on a grid at least 2 by 2 the neighbours of `(0, 0)` are the
/// last row and column together with rows and columns 0 and 1, its own position left out;
/// on a grid more than 2 by 2 the eight slots give eight different positions.
pub proof fn lemma_corner_neighbors(height: int, width: int)
    requires
        height >= 2,
        width >= 2,
    ensures
        neighbor_set(height, width, 0, 0) == set![
            (height - 1, width - 1), (height - 1, 0), (height - 1, 1),
            (0, width - 1), (0, 1),
            (1, width - 1), (1, 0), (1, 1),
        ],
        height > 2 && width > 2 ==> forall|k1: int, k2: int|
            is_neighbor_slot(height, width, k1) && is_neighbor_slot(height, width, k2) && k1 != k2
                ==> neighbor(height, width, 0, 0, k1) != neighbor(height, width, 0, 0, k2),
{
    lemma_small_mod((height - 1) as nat, height as nat);
    lemma_small_mod(0, height as nat);
    lemma_small_mod(1, height as nat);
    lemma_small_mod((width - 1) as nat, width as nat);
    lemma_small_mod(0, width as nat);
    lemma_small_mod(1, width as nat);
    let rows = seq![height - 1, 0, 1];
    let cols = seq![width - 1, 0, 1];
    assert forall|k: int| 0 <= k < 9 implies neighbor(height, width, 0, 0, k) == (rows[k / 3], cols[k % 3])
        && (is_neighbor_slot(height, width, k) <==> k != 4) by {
        assert(0 <= k / 3 < 3 && 0 <= k % 3 < 3);
    }
    let s = set![
        (height - 1, width - 1), (height - 1, 0), (height - 1, 1),
        (0, width - 1), (0, 1),
        (1, width - 1), (1, 0), (1, 1),
    ];
    assert forall|p: (int, int)| neighbor_set(height, width, 0, 0).contains(p) <==> s.contains(p) by {
        if s.contains(p) {
            let k: int = if p == (height - 1, width - 1) {
                0
            } else if p == (height - 1, 0int) {
                1
            } else if p == (height - 1, 1int) {
                2
            } else if p == (0int, width - 1) {
                3
            } else if p == (0int, 1int) {
                5
            } else if p == (1int, width - 1) {
                6
            } else if p == (1int, 0int) {
                7
            } else {
                8
            };
            assert(is_neighbor_slot(height, width, k) && neighbor(height, width, 0, 0, k) == p);
        }
    }
    assert(neighbor_set(height, width, 0, 0) =~= s);
    if height > 2 && width > 2 {
        assert forall|k1: int, k2: int|
            is_neighbor_slot(height, width, k1) && is_neighbor_slot(height, width, k2) && k1 != k2
                implies neighbor(height, width, 0, 0, k1) != neighbor(height, width, 0, 0, k2) by {
            assert(k1 == 3 * (k1 / 3) + k1 % 3 && k2 == 3 * (k2 / 3) + k2 % 3);
        }
    }
}

} // verus!
