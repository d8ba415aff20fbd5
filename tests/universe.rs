use wasm_game_of_life::{Cell, Universe};

fn alive(u: &Universe) -> Vec<bool> {
    let bits = u.get_cells();
    (0..bits.len()).map(|i| bits.contains(i)).collect()
}

fn grid(width: u32, height: u32, live: &[(u32, u32)]) -> Universe {
    let mut u = Universe::new();
    u.set_width(width);
    u.set_height(height);
    u.set_cells(live);
    u
}

fn live_positions(u: &Universe) -> Vec<(u32, u32)> {
    let cells = alive(u);
    let mut out = Vec::new();
    for row in 0..u.height() {
        for col in 0..u.width() {
            if cells[u.get_index(row, col)] {
                out.push((row, col));
            }
        }
    }
    out
}

#[test]
fn new_is_seeded_by_multiples_of_two_and_seven() {
    let u = Universe::new();
    assert_eq!(u.width(), 64);
    assert_eq!(u.height(), 64);
    let cells = alive(&u);
    assert_eq!(cells.len(), 4096);
    for i in 0..4096usize {
        assert_eq!(cells[i], i % 2 == 0 || i % 7 == 0, "cell {}", i);
    }
}

#[test]
fn rule_table_is_exhaustive() {
    for n in 0u8..=8 {
        assert_eq!(Universe::get_next_tick_cell_state(true, n), n == 2 || n == 3, "alive, {}", n);
        assert_eq!(Universe::get_next_tick_cell_state(false, n), n == 3, "dead, {}", n);
    }
    assert!(!Universe::get_next_tick_cell_state(true, 1));
    assert!(Universe::get_next_tick_cell_state(true, 2));
    assert!(Universe::get_next_tick_cell_state(true, 3));
    assert!(!Universe::get_next_tick_cell_state(true, 4));
    assert!(Universe::get_next_tick_cell_state(false, 3));
    assert!(!Universe::get_next_tick_cell_state(false, 2));
}

#[test]
fn index_formula() {
    let mut u = Universe::new();
    u.set_width(5);
    assert_eq!(u.get_index(2, 3), 13);
    assert_eq!(u.get_index(0, 0), 0);
}

#[test]
fn corner_neighbors_wrap_around() {
    let w = 4;
    let h = 5;
    let wrapped = [(h - 1, w - 1), (h - 1, 0), (h - 1, 1), (0, w - 1), (0, 1), (1, w - 1), (1, 0), (1, 1)];
    for &p in wrapped.iter() {
        let u = grid(w, h, &[p]);
        assert_eq!(u.live_neighbor_count(0, 0), 1, "{:?}", p);
    }
    let u = grid(w, h, &wrapped);
    assert_eq!(u.live_neighbor_count(0, 0), 8);
    let u = grid(w, h, &[(0, 0), (2, 2)]);
    assert_eq!(u.live_neighbor_count(0, 0), 0);
}

#[test]
fn narrow_grid_counts_each_slot() {
    // Two columns: the cells west and east of a cell are the same position.
    let u = grid(2, 3, &[(0, 1)]);
    assert_eq!(u.live_neighbor_count(0, 0), 2);
    // One row: the offsets of a row are then 0, 0 and 1, and both pairs of zeros are skipped.
    let u = grid(3, 1, &[(0, 1), (0, 2)]);
    assert_eq!(u.live_neighbor_count(0, 0), 6);
}

#[test]
fn blinker_turns_vertical_and_back() {
    let mut u = grid(5, 5, &[(2, 1), (2, 2), (2, 3)]);
    u.tick();
    assert_eq!(live_positions(&u), vec![(1, 2), (2, 2), (3, 2)]);
    assert_eq!(u.width(), 5);
    assert_eq!(u.height(), 5);
    u.tick();
    assert_eq!(live_positions(&u), vec![(2, 1), (2, 2), (2, 3)]);
}

#[test]
fn blinker_on_three_by_three_torus_fills_the_grid() {
    // On a 3 by 3 torus every other cell is a neighbour, so each dead cell sees three live
    // ones and each live cell two: the whole grid comes alive.
    let mut u = grid(3, 3, &[(1, 0), (1, 1), (1, 2)]);
    u.tick();
    assert_eq!(alive(&u), vec![true; 9]);
}

#[test]
fn block_is_still_life() {
    let mut u = grid(6, 6, &[(1, 1), (1, 2), (2, 1), (2, 2)]);
    u.tick();
    assert_eq!(live_positions(&u), vec![(1, 1), (1, 2), (2, 1), (2, 2)]);
}

#[test]
fn lone_cell_dies() {
    let mut u = grid(4, 4, &[(1, 1)]);
    u.tick();
    assert!(alive(&u).iter().all(|&c| !c));
}

#[test]
fn set_width_resets_every_cell() {
    let mut u = grid(8, 8, &[(0, 0), (3, 4), (7, 7)]);
    assert_eq!(live_positions(&u), vec![(0, 0), (3, 4), (7, 7)]);
    u.set_width(8);
    assert_eq!(u.width(), 8);
    assert_eq!(u.height(), 8);
    assert_eq!(alive(&u), vec![false; 64]);
    u.set_cells(&[(1, 1)]);
    u.set_width(3);
    assert_eq!(alive(&u), vec![false; 24]);
}

#[test]
fn set_height_resets_every_cell() {
    let mut u = Universe::new();
    u.set_height(10);
    assert_eq!(u.height(), 10);
    assert_eq!(u.width(), 64);
    assert_eq!(alive(&u), vec![false; 640]);
}

#[test]
fn zero_width_grid_is_empty() {
    let mut u = Universe::new();
    u.set_width(0);
    assert_eq!(alive(&u).len(), 0);
    u.tick();
    assert_eq!(alive(&u).len(), 0);
}

#[test]
fn set_cells_keeps_other_cells() {
    let mut u = grid(4, 4, &[(0, 0)]);
    u.set_cells(&[(3, 3), (0, 0), (1, 2)]);
    assert_eq!(live_positions(&u), vec![(0, 0), (1, 2), (3, 3)]);
    u.set_cells(&[]);
    assert_eq!(live_positions(&u), vec![(0, 0), (1, 2), (3, 3)]);
}

#[test]
fn packed_blocks_hold_the_cells() {
    let u = Universe::new();
    let blocks = u.cells();
    assert_eq!(blocks.len(), 128);
    let cells = alive(&u);
    for i in 0..4096usize {
        assert_eq!((blocks[i / 32] >> (i % 32)) & 1 == 1, cells[i], "cell {}", i);
    }
    // Cells 0, 2, 4, ..., 30 and 7, 21 are alive in the first block.
    assert_eq!(blocks[0], 0x5555_5555 | (1 << 7) | (1 << 21));
    let u = grid(5, 7, &[(0, 1), (6, 4)]);
    let blocks = u.cells();
    assert_eq!(blocks.len(), 2);
    assert_eq!(blocks[0], 1 << 1);
    assert_eq!(blocks[1], 1 << 2);
}

#[test]
fn cell_states_compare() {
    assert_eq!(Cell::Dead, Cell::Dead);
    assert_ne!(Cell::Dead, Cell::Alive);
    let c = Cell::Alive;
    let d = c;
    assert_eq!(c, d);
}
