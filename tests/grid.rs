use life::rules::{next_state, seeded_cell, Cell};
use life::universe::{Universe, GRID_SIDE};

fn grid(width: i32, height: i32, alive: &[(i32, i32)]) -> Universe {
    let mut cells = vec![Cell::Dead; (width * height) as usize];
    for &(row, col) in alive {
        cells[(row * width + col) as usize] = Cell::Alive;
    }
    Universe::from_cells(width, height, 100, 100, cells).unwrap()
}

fn alive_positions(u: &Universe) -> Vec<(i32, i32)> {
    let w = u.width();
    u.cells()
        .iter()
        .enumerate()
        .filter(|(_, c)| **c == Cell::Alive)
        .map(|(i, _)| (i as i32 / w, i as i32 % w))
        .collect()
}

#[test]
fn seeded_pattern_on_default_grid() {
    let u = Universe::new(640, 480);
    assert_eq!(u.width(), 64);
    assert_eq!(u.height(), 64);
    assert_eq!(GRID_SIDE, 64);
    assert_eq!(u.pixel_width(), 640);
    assert_eq!(u.pixel_height(), 480);
    let cells = u.cells();
    assert_eq!(cells.len(), 64 * 64);
    assert_eq!(cells[0], Cell::Alive);
    assert_eq!(cells[1], Cell::Dead);
    assert_eq!(cells[7], Cell::Alive);
    assert_eq!(cells[14], Cell::Alive);
    assert_eq!(cells[63], Cell::Alive);
    assert_eq!(cells[9], Cell::Dead);
    for i in 0..cells.len() {
        let expected = if i % 2 == 0 || i % 7 == 0 { Cell::Alive } else { Cell::Dead };
        assert_eq!(cells[i], expected);
        assert_eq!(seeded_cell(i), expected);
    }
}

#[test]
fn with_size_seeds_any_dimensions() {
    let u = Universe::with_size(3, 5, 10, 10);
    assert_eq!(u.width(), 3);
    assert_eq!(u.height(), 5);
    assert_eq!(u.cells().len(), 15);
    assert_eq!(u.cells()[14], Cell::Alive);
    assert_eq!(u.cells()[13], Cell::Dead);
}

#[test]
fn tick_keeps_length() {
    let mut u = Universe::new(640, 480);
    for _ in 0..5 {
        u.tick();
        assert_eq!(u.cells().len(), 64 * 64);
        assert_eq!(u.width(), 64);
        assert_eq!(u.height(), 64);
    }
    let mut small = Universe::with_size(3, 7, 50, 50);
    small.tick();
    assert_eq!(small.cells().len(), 21);
}

#[test]
fn neighbor_count_wraps_at_corner() {
    let u = grid(3, 3, &[(2, 2)]);
    assert_eq!(u.live_neighbor_count(0, 0), 1);
    assert_eq!(u.live_neighbor_count(1, 1), 1);
    assert_eq!(u.live_neighbor_count(2, 2), 0);
}

#[test]
fn neighbor_count_wraps_at_edges() {
    let u = grid(5, 5, &[(0, 2), (2, 0)]);
    assert_eq!(u.live_neighbor_count(4, 2), 1);
    assert_eq!(u.live_neighbor_count(2, 4), 1);
    assert_eq!(u.live_neighbor_count(4, 4), 0);
    assert_eq!(u.live_neighbor_count(1, 1), 2);
}

#[test]
fn neighbor_count_at_most_eight() {
    let all: Vec<(i32, i32)> = (0..4).flat_map(|r| (0..4).map(move |c| (r, c))).collect();
    let u = grid(4, 4, &all);
    for row in 0..4 {
        for col in 0..4 {
            assert_eq!(u.live_neighbor_count(row, col), 8);
        }
    }
    let seeded = Universe::new(64, 64);
    for row in 0..64 {
        for col in 0..64 {
            assert!(seeded.live_neighbor_count(row, col) <= 8);
        }
    }
}

#[test]
fn lonely_cell_dies() {
    let mut u = grid(5, 5, &[(2, 2)]);
    u.tick();
    assert!(alive_positions(&u).is_empty());
}

#[test]
fn dead_cell_with_three_neighbors_is_born() {
    let mut u = grid(5, 5, &[(1, 1), (1, 3), (3, 1)]);
    assert_eq!(u.live_neighbor_count(2, 2), 3);
    u.tick();
    assert_eq!(u.cells()[2 * 5 + 2], Cell::Alive);
}

#[test]
fn block_is_still() {
    for side in [4, 6] {
        let mut u = grid(side, side, &[(1, 1), (1, 2), (2, 1), (2, 2)]);
        let before = u.cells().to_vec();
        u.tick();
        assert_eq!(u.cells(), &before[..]);
        u.tick();
        assert_eq!(u.cells(), &before[..]);
    }
}

#[test]
fn blinker_has_period_two() {
    let mut u = grid(5, 5, &[(2, 1), (2, 2), (2, 3)]);
    let start = u.cells().to_vec();
    u.tick();
    assert_eq!(alive_positions(&u), vec![(1, 2), (2, 2), (3, 2)]);
    assert_ne!(u.cells(), &start[..]);
    u.tick();
    assert_eq!(alive_positions(&u), vec![(2, 1), (2, 2), (2, 3)]);
    assert_eq!(u.cells(), &start[..]);
}

#[test]
fn transition_table() {
    assert_eq!(next_state(Cell::Alive, 0), Cell::Dead);
    assert_eq!(next_state(Cell::Alive, 1), Cell::Dead);
    assert_eq!(next_state(Cell::Alive, 2), Cell::Alive);
    assert_eq!(next_state(Cell::Alive, 3), Cell::Alive);
    assert_eq!(next_state(Cell::Alive, 4), Cell::Dead);
    assert_eq!(next_state(Cell::Alive, 8), Cell::Dead);
    assert_eq!(next_state(Cell::Dead, 2), Cell::Dead);
    assert_eq!(next_state(Cell::Dead, 3), Cell::Alive);
    assert_eq!(next_state(Cell::Dead, 4), Cell::Dead);
    assert_eq!(next_state(Cell::Dead, 0), Cell::Dead);
}

#[test]
fn from_cells_rejects_bad_shapes() {
    assert!(Universe::from_cells(0, 3, 10, 10, vec![]).is_none());
    assert!(Universe::from_cells(3, 0, 10, 10, vec![]).is_none());
    assert!(Universe::from_cells(-1, -1, 10, 10, vec![Cell::Dead]).is_none());
    assert!(Universe::from_cells(2, 2, 10, 10, vec![Cell::Dead; 3]).is_none());
    assert!(Universe::from_cells(2, 2, 10, 10, vec![Cell::Dead; 5]).is_none());
    let u = Universe::from_cells(2, 2, 10, 10, vec![Cell::Alive; 4]).unwrap();
    assert_eq!(u.cells(), &[Cell::Alive; 4][..]);
}

#[test]
fn cell_and_pixel_indices() {
    let u = Universe::new(640, 480);
    assert_eq!(u.get_cell_index(0, 0), 0);
    assert_eq!(u.get_cell_index(1, 0), 64);
    assert_eq!(u.get_cell_index(2, 5), 133);
    assert_eq!(u.get_cell_index(63, 63), 4095);
    assert_eq!(u.get_pixel_index(2, 5), 532);
    assert_eq!(u.get_pixel_index(63, 63), 16380);
}
