//! The universe: grid dimensions and the cells of the current generation.

use vstd::prelude::*;
use fixedbitset::FixedBitSet;
use vstd::arithmetic::div_mod::lemma_fundamental_div_mod_converse;
use crate::bitset::{bits_of, bit_at, put_bit, copy_bits, cleared_bits, blocks_of, packed_bit};
use crate::rules::next_state;
use crate::grid::{
    seeded, all_dead, index_of, is_marked, with_alive, next_cell, next_generation, offset, neighbor,
    window_count, live_neighbors, lemma_window_count_bound,
};

verus! {

/// The state of a single cell.
#[derive(Clone, Copy, Debug, PartialEq, Eq, Structural)]
pub enum Cell {
    Dead,
    Alive,
}

/// A `width` by `height` grid whose edges wrap around, its cells stored row by row.
pub struct Universe {
    width: u32,
    height: u32,
    cells: FixedBitSet,
}

impl Universe {
    /// The number of columns.
    pub closed spec fn spec_width(&self) -> nat {
        self.width as nat
    }

    /// The number of rows.
    pub closed spec fn spec_height(&self) -> nat {
        self.height as nat
    }

    /// The cells, row by row; `true` is alive.
    pub closed spec fn spec_cells(&self) -> Seq<bool> {
        bits_of(self.cells)
    }

    /// One cell per position, and every flat index fits in a `u32`.
    pub open spec fn wf(&self) -> bool {
        &&& self.spec_width() * self.spec_height() <= u32::MAX
        &&& self.spec_cells().len() == self.spec_width() * self.spec_height()
    }

    /// A 64 by 64 universe in which cell `i` is alive when `i` is a multiple of 2 or of 7.
    pub fn new() -> (r: Universe)
        ensures
            r.wf(),
            r.spec_width() == 64,
            r.spec_height() == 64,
            r.spec_cells() == seeded(4096),
    {
        let width: u32 = 64;
        let height: u32 = 64;
        let size: usize = (width * height) as usize;
        let mut cells = cleared_bits(size);
        let mut i: usize = 0;
        while i < size
            invariant
                size == 4096,
                i <= size,
                bits_of(cells).len() == size,
                forall|j: int| 0 <= j < i ==> #[trigger] bits_of(cells)[j] == seeded(4096)[j],
            decreases size - i,
        {
            put_bit(&mut cells, i, i % 2 == 0 || i % 7 == 0);
            i = i + 1;
        }
        let r = Universe { width, height, cells };
        assert(r.spec_cells() =~= seeded(4096));
        r
    }

    /// Advances the universe by one generation: every cell is computed from the current
    /// generation alone, and the new generation then replaces it.
    pub fn tick(&mut self)
        requires
            old(self).wf(),
        ensures
            final(self).wf(),
            final(self).spec_width() == old(self).spec_width(),
            final(self).spec_height() == old(self).spec_height(),
            final(self).spec_cells() == next_generation(
                old(self).spec_cells(),
                old(self).spec_height() as int,
                old(self).spec_width() as int,
            ),
    {
        let ghost cells = self.spec_cells();
        let ghost h = self.spec_height() as int;
        let ghost w = self.spec_width() as int;
        let mut next = copy_bits(&self.cells);
        let mut row: u32 = 0;
        while row < self.height
            invariant
                self.wf(),
                cells == self.spec_cells(),
                h == self.spec_height(),
                w == self.spec_width(),
                row <= h,
                bits_of(next).len() == cells.len(),
                forall|i: int| 0 <= i < w * row ==> #[trigger] bits_of(next)[i] == next_cell(cells, h, w, i),
            decreases h - row,
        {
            let mut col: u32 = 0;
            while col < self.width
                invariant
                    self.wf(),
                    cells == self.spec_cells(),
                    h == self.spec_height(),
                    w == self.spec_width(),
                    row < h,
                    col <= w,
                    bits_of(next).len() == cells.len(),
                    forall|i: int| 0 <= i < w * row + col ==> #[trigger] bits_of(next)[i] == next_cell(cells, h, w, i),
                decreases w - col,
            {
                let index = self.get_index(row, col);
                let cell = bit_at(&self.cells, index);
                let live_neighbors = self.live_neighbor_count(row, col);
                proof {
                    lemma_fundamental_div_mod_converse(index as int, w, row as int, col as int);
                    assert(w * row == row * w) by (nonlinear_arith);
                }
                put_bit(&mut next, index, Universe::get_next_tick_cell_state(cell, live_neighbors));
                col = col + 1;
            }
            assert(w * (row + 1) == w * row + w) by (nonlinear_arith);
            row = row + 1;
        }
        self.cells = next;
        assert(self.spec_cells() =~= next_generation(cells, h, w));
    }

    /// The flat index of the cell at `(row, column)`.
    pub fn get_index(&self, row: u32, column: u32) -> (r: usize)
        requires
            self.wf(),
            row < self.spec_height(),
            column < self.spec_width(),
        ensures
            r == index_of(self.spec_width() as int, row as int, column as int),
            r < self.spec_cells().len(),
    {
        proof {
            let w = self.width as int;
            let h = self.height as int;
            assert(w * row + column < w * h) by (nonlinear_arith)
                requires
                    0 <= row < h,
                    0 <= column < w,
            ;
        }
        (self.width * row + column) as usize
    }

    /// The number of live cells among the neighbours of `(row, column)`.
    pub fn live_neighbor_count(&self, row: u32, column: u32) -> (r: u8)
        requires
            self.wf(),
            row < self.spec_height(),
            column < self.spec_width(),
        ensures
            r == live_neighbors(
                self.spec_cells(),
                self.spec_height() as int,
                self.spec_width() as int,
                row as int,
                column as int,
            ),
    {
        let ghost cells = self.spec_cells();
        let ghost h = self.spec_height() as int;
        let ghost w = self.spec_width() as int;
        let row_deltas: [u32; 3] = [self.height - 1, 0, 1];
        let col_deltas: [u32; 3] = [self.width - 1, 0, 1];
        let mut count: u8 = 0;
        let mut i: usize = 0;
        while i < 3
            invariant
                self.wf(),
                cells == self.spec_cells(),
                h == self.spec_height(),
                w == self.spec_width(),
                row < h,
                column < w,
                i <= 3,
                row_deltas@ == seq![offset(h, 0) as u32, offset(h, 1) as u32, offset(h, 2) as u32],
                col_deltas@ == seq![offset(w, 0) as u32, offset(w, 1) as u32, offset(w, 2) as u32],
                count == window_count(cells, h, w, row as int, column as int, 3 * i),
            decreases 3 - i,
        {
            let delta_row = row_deltas[i];
            let mut j: usize = 0;
            while j < 3
                invariant
                    self.wf(),
                    cells == self.spec_cells(),
                    h == self.spec_height(),
                    w == self.spec_width(),
                    row < h,
                    column < w,
                    i < 3,
                    j <= 3,
                    delta_row == offset(h, i as int),
                    col_deltas@ == seq![offset(w, 0) as u32, offset(w, 1) as u32, offset(w, 2) as u32],
                    count == window_count(cells, h, w, row as int, column as int, 3 * i + j),
                decreases 3 - j,
            {
                let delta_col = col_deltas[j];
                let ghost k = 3 * i + j;
                assert(k / 3 == i && k % 3 == j);
                proof {
                    lemma_window_count_bound(cells, h, w, row as int, column as int, k);
                }
                if !(delta_row == 0 && delta_col == 0) {
                    let neighbor_row = ((row as u64 + delta_row as u64) % self.height as u64) as u32;
                    let neighbor_col = ((column as u64 + delta_col as u64) % self.width as u64) as u32;
                    assert((neighbor_row as int, neighbor_col as int) == neighbor(h, w, row as int, column as int, k));
                    let index = self.get_index(neighbor_row, neighbor_col);
                    if bit_at(&self.cells, index) {
                        count = count + 1;
                    }
                }
                j = j + 1;
            }
            i = i + 1;
        }
        count
    }
    /// The number of columns.
    pub fn width(&self) -> (r: u32)
        ensures
            r == self.spec_width(),
    {
        self.width
    }

    /// Sets the number of columns and resets every cell to dead.
    pub fn set_width(&mut self, width: u32)
        requires
            width * old(self).spec_height() <= u32::MAX,
        ensures
            final(self).wf(),
            final(self).spec_width() == width,
            final(self).spec_height() == old(self).spec_height(),
            final(self).spec_cells() == all_dead(width as nat * old(self).spec_height()),
    {
        self.width = width;
        self.reset_cells();
    }

    /// The number of rows.
    pub fn height(&self) -> (r: u32)
        ensures
            r == self.spec_height(),
    {
        self.height
    }

    /// Sets the number of rows and resets every cell to dead.
    pub fn set_height(&mut self, height: u32)
        requires
            old(self).spec_width() * height <= u32::MAX,
        ensures
            final(self).wf(),
            final(self).spec_width() == old(self).spec_width(),
            final(self).spec_height() == height,
            final(self).spec_cells() == all_dead(old(self).spec_width() * height as nat),
    {
        self.height = height;
        self.reset_cells();
    }

    /// The cells packed 32 to a block: cell `i` is bit `i % 32` of block `i / 32`, counted
    /// from the least significant bit. Bits past the last cell are not specified.
    pub fn cells(&self) -> (r: &[u32])
        ensures
            r@.len() == (self.spec_cells().len() + 31) / 32,
            forall|i: int| 0 <= i < self.spec_cells().len() ==> #[trigger] self.spec_cells()[i] == packed_bit(r@, i),
    {
        blocks_of(&self.cells)
    }

    /// The bit set that holds the cells, row by row.
    pub fn get_cells(&self) -> (r: &FixedBitSet)
        ensures
            bits_of(*r) == self.spec_cells(),
    {
        &self.cells
    }

    /// Makes alive the cell at each `(row, column)` given, and leaves the others as they are.
    pub fn set_cells(&mut self, cells: &[(u32, u32)])
        requires
            old(self).wf(),
            forall|k: int| 0 <= k < cells@.len() ==> #[trigger] cells@[k].0 < old(self).spec_height()
                && cells@[k].1 < old(self).spec_width(),
        ensures
            final(self).wf(),
            final(self).spec_width() == old(self).spec_width(),
            final(self).spec_height() == old(self).spec_height(),
            final(self).spec_cells() == with_alive(old(self).spec_cells(), old(self).spec_width() as int, cells@),
    {
        let ghost before = self.spec_cells();
        let ghost w = self.spec_width() as int;
        let ghost h = self.spec_height();
        let mut n: usize = 0;
        while n < cells.len()
            invariant
                self.wf(),
                w == self.spec_width(),
                h == self.spec_height(),
                n <= cells@.len(),
                forall|k: int| 0 <= k < cells@.len() ==> #[trigger] cells@[k].0 < self.spec_height()
                    && cells@[k].1 < self.spec_width(),
                self.spec_cells() == with_alive(before, w, cells@.take(n as int)),
            decreases cells@.len() - n,
        {
            let (row, col) = cells[n];
            let index = self.get_index(row, col);
            put_bit(&mut self.cells, index, true);
            proof {
                let prefix = cells@.take(n as int);
                let next = cells@.take(n + 1);
                assert(next =~= prefix.push(cells@[n as int]));
                assert forall|i: int| #[trigger] is_marked(w, next, i) <==> is_marked(w, prefix, i)
                    || i == index by {
                    if is_marked(w, prefix, i) {
                        let k = choose|k: int| 0 <= k < prefix.len() && index_of(w, prefix[k].0 as int, prefix[k].1 as int) == i;
                        assert(next[k] == prefix[k]);
                    }
                    if i == index {
                        assert(next[n as int] == cells@[n as int]);
                    }
                    if is_marked(w, next, i) {
                        let k = choose|k: int| 0 <= k < next.len() && index_of(w, next[k].0 as int, next[k].1 as int) == i;
                        if k < n {
                            assert(prefix[k] == next[k]);
                        }
                    }
                }
                assert(self.spec_cells() =~= with_alive(before, w, next));
            }
            n = n + 1;
        }
        assert(cells@.take(cells@.len() as int) =~= cells@);
    }

    /// Applies the rule to one cell.
    pub fn get_next_tick_cell_state(cell: bool, live_neighbors: u8) -> (r: bool)
        ensures
            r == next_state(cell, live_neighbors as int),
    {
        match (cell, live_neighbors) {
            (true, x) if x < 2 => false,
            (true, 2) | (true, 3) => true,
            (true, x) if x > 3 => false,
            (false, 3) => true,
            (otherwise, _) => otherwise,
        }
    }

    /// Resets every cell to dead, with one cell per position of the current dimensions.
    fn reset_cells(&mut self)
        requires
            old(self).spec_width() * old(self).spec_height() <= u32::MAX,
        ensures
            final(self).wf(),
            final(self).spec_width() == old(self).spec_width(),
            final(self).spec_height() == old(self).spec_height(),
            final(self).spec_cells() == all_dead(old(self).spec_width() * old(self).spec_height()),
    {
        self.cells = cleared_bits((self.width * self.height) as usize);
    }
}

} // verus!
