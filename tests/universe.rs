use game_of_life::{next_cell, Cell, Universe, HEIGHT, WIDTH};

const A: Cell = Cell::Alive;
const D: Cell = Cell::Dead;

fn grid(width: u32, height: u32, alive: &[(u32, u32)]) -> Universe {
    let mut cells = vec![D; (width * height) as usize];
    for &(row, col) in alive {
        cells[(row * width + col) as usize] = A;
    }
    Universe::from_cells(width, height, cells).unwrap()
}

fn live_cells(u: &Universe) -> Vec<(u32, u32)> {
    let mut out = Vec::new();
    for (i, c) in u.cells().iter().enumerate() {
        if *c == A {
            out.push((i as u32 / u.width(), i as u32 % u.width()));
        }
    }
    out
}

#[test]
fn render_two_by_two() {
    let u = Universe::from_cells(2, 2, vec![A, D, D, A]).unwrap();
    assert_eq!(u.render(), "\u{25FC}\u{25FB}\n\u{25FB}\u{25FC}\n");
}

#[test]
fn render_ends_every_row_with_a_break() {
    let u = grid(3, 2, &[(1, 2)]);
    assert_eq!(u.render(), "◻◻◻\n◻◻◼\n");
    assert_eq!(u.cells(), &[D, D, D, D, D, A][..]);
}

#[test]
fn rule_table() {
    for n in 0u8..=8 {
        let alive_next = if n == 2 || n == 3 { A } else { D };
        assert_eq!(next_cell(A, n), alive_next, "alive with {}", n);
        let dead_next = if n == 3 { A } else { D };
        assert_eq!(next_cell(D, n), dead_next, "dead with {}", n);
    }
}

#[test]
fn cell_values_sum_to_counts() {
    assert_eq!(A.value(), 1);
    assert_eq!(D.value(), 0);
}

#[test]
fn neighbors_wrap_at_corners_and_edges() {
    let u = grid(4, 4, &[(0, 0)]);
    assert_eq!(u.live_neighbor_count(3, 3), 1);
    assert_eq!(u.live_neighbor_count(0, 3), 1);
    assert_eq!(u.live_neighbor_count(3, 0), 1);
    assert_eq!(u.live_neighbor_count(1, 1), 1);
    assert_eq!(u.live_neighbor_count(0, 1), 1);
    assert_eq!(u.live_neighbor_count(2, 2), 0);
    assert_eq!(u.live_neighbor_count(0, 2), 0);
}

#[test]
fn neighbors_exclude_the_cell_itself() {
    let u = grid(4, 4, &[(2, 1)]);
    assert_eq!(u.live_neighbor_count(2, 1), 0);
    let full = Universe::from_cells(3, 3, vec![A; 9]).unwrap();
    assert_eq!(full.live_neighbor_count(1, 1), 8);
    assert_eq!(full.live_neighbor_count(0, 0), 8);
}

#[test]
fn degenerate_grids_count_wrapped_duplicates() {
    let one = Universe::from_cells(1, 1, vec![A]).unwrap();
    assert_eq!(one.live_neighbor_count(0, 0), 5);
    let row = Universe::from_cells(3, 1, vec![A, D, D]).unwrap();
    assert_eq!(row.live_neighbor_count(0, 1), 3);
    assert_eq!(row.live_neighbor_count(0, 0), 1);
}

#[test]
fn get_index_is_row_major() {
    let u = grid(5, 3, &[]);
    assert_eq!(u.get_index(0, 0), 0);
    assert_eq!(u.get_index(1, 0), 5);
    assert_eq!(u.get_index(2, 4), 14);
}

#[test]
fn from_cells_rejects_bad_shapes() {
    assert!(Universe::from_cells(0, 2, vec![]).is_none());
    assert!(Universe::from_cells(2, 0, vec![]).is_none());
    assert!(Universe::from_cells(2, 2, vec![D; 3]).is_none());
    assert!(Universe::from_cells(2, 2, vec![D; 5]).is_none());
    let u = Universe::from_cells(3, 2, vec![D; 6]).unwrap();
    assert_eq!((u.width(), u.height(), u.cells().len()), (3, 2, 6));
}

#[test]
fn new_uses_the_given_bits() {
    let bits: Vec<bool> = (0..(WIDTH * HEIGHT)).map(|i| i % 3 == 0).collect();
    let u = Universe::new(&bits);
    assert_eq!((u.width(), u.height()), (64, 64));
    assert_eq!(u.cells().len(), 64 * 64);
    for (i, c) in u.cells().iter().enumerate() {
        assert_eq!(*c == A, i % 3 == 0);
    }
}

#[test]
fn dimensions_kept_by_ticks() {
    let bits: Vec<bool> = (0..(WIDTH * HEIGHT)).map(|i| i % 7 == 0 || i % 2 == 0).collect();
    let mut u = Universe::new(&bits);
    for _ in 0..5 {
        u.tick();
        assert_eq!((u.width(), u.height(), u.cells().len()), (64, 64, 4096));
    }
}

#[test]
fn dead_grid_stays_dead() {
    let mut u = grid(5, 4, &[]);
    for _ in 0..4 {
        u.tick();
        assert!(u.cells().iter().all(|c| *c == D));
    }
}

#[test]
fn block_is_still() {
    let block = [(2, 2), (2, 3), (3, 2), (3, 3)];
    let mut u = grid(6, 6, &block);
    let before = u.cells().to_vec();
    u.tick();
    assert_eq!(u.cells(), &before[..]);
    u.tick();
    assert_eq!(live_cells(&u), block.to_vec());
}

#[test]
fn blinker_oscillates() {
    let horizontal = vec![(2, 1), (2, 2), (2, 3)];
    let vertical = vec![(1, 2), (2, 2), (3, 2)];
    let mut u = grid(5, 5, &horizontal);
    u.tick();
    assert_eq!(live_cells(&u), vertical);
    u.tick();
    assert_eq!(live_cells(&u), horizontal);
}

#[test]
fn tick_updates_all_cells_at_once() {
    // Updated in place, row by row, the centre of this line would already be
    // dead when its right-hand neighbour is computed.
    let mut u = grid(5, 5, &[(2, 1), (2, 2), (2, 3)]);
    u.tick();
    assert_eq!(u.live_neighbor_count(2, 2), 2);
    assert_eq!(live_cells(&u), vec![(1, 2), (2, 2), (3, 2)]);
}

#[test]
fn tick_wraps_across_edges() {
    let mut u = grid(5, 5, &[(0, 4), (0, 0), (0, 1)]);
    u.tick();
    assert_eq!(live_cells(&u), vec![(0, 0), (1, 0), (4, 0)]);
}
