use wasm_game_of_life::{Cell, Universe};

#[test]
fn centre_cell_is_seen_by_every_other_cell_of_a_3x3_grid() {
    let mut u = Universe::new(3, 3);
    u.set_cell(1, 1);
    for (row, col) in [(0, 0), (0, 2), (2, 0), (2, 2)] {
        assert_eq!(u.live_neighbours(row, col), 1);
    }
    for (row, col) in [(0, 1), (1, 0), (1, 2), (2, 1)] {
        assert_eq!(u.live_neighbours(row, col), 1);
    }
    assert_eq!(u.live_neighbours(1, 1), 0);
}

#[test]
fn corner_neighbours_wrap_to_the_far_edges() {
    let u = Universe::new(3, 3);
    assert_eq!(
        u.neighbours(0, 0),
        vec![(2, 2), (2, 0), (2, 1), (0, 2), (0, 1), (1, 2), (1, 0), (1, 1)]
    );
    assert_eq!(
        u.neighbours(2, 2),
        vec![(1, 1), (1, 2), (1, 0), (2, 1), (2, 0), (0, 1), (0, 2), (0, 0)]
    );
}

#[test]
fn lone_cell_adds_to_exactly_eight_counts() {
    let mut u = Universe::new(5, 4);
    u.set_cell(0, 0);
    let mut ones = Vec::new();
    for row in 0..4 {
        for col in 0..5 {
            let n = u.live_neighbours(row, col);
            assert!(n <= 1);
            if n == 1 {
                ones.push((row, col));
            }
        }
    }
    assert_eq!(
        ones,
        vec![(0, 1), (0, 4), (1, 0), (1, 1), (1, 4), (3, 0), (3, 1), (3, 4)]
    );
    assert_eq!(u.live_neighbours(0, 0), 0);
    assert_eq!(u.live_neighbours(2, 2), 0);
}

#[test]
fn full_grid_counts_eight() {
    let mut u = Universe::new(4, 4);
    for row in 0..4 {
        for col in 0..4 {
            u.set_cell(row, col);
        }
    }
    assert_eq!(u.live_neighbours(0, 0), 8);
    assert_eq!(u.live_neighbours(3, 2), 8);
}

#[test]
fn narrow_grid_counts_wrapped_duplicates() {
    let mut u = Universe::new(1, 1);
    u.set_cell(0, 0);
    assert_eq!(u.live_neighbours(0, 0), 8);
    u.tick();
    assert_eq!(u.get_cells()[0], Cell::Dead);
}

#[test]
fn blinker_oscillates() {
    let mut u = Universe::new(5, 5);
    u.set_cells(&[(2, 1), (2, 2), (2, 3)]);
    let start = u.get_cells().clone();
    u.tick();
    let mut vertical = Universe::new(5, 5);
    vertical.set_cells(&[(1, 2), (2, 2), (3, 2)]);
    assert_eq!(*u.get_cells(), *vertical.get_cells());
    u.tick();
    assert_eq!(*u.get_cells(), start);
}

#[test]
fn block_is_still() {
    let mut u = Universe::new(4, 4);
    u.set_cells(&[(1, 1), (1, 2), (2, 1), (2, 2)]);
    let start = u.get_cells().clone();
    u.tick();
    assert_eq!(*u.get_cells(), start);
}
