use wasm_game_of_life::{Cell, Universe};

fn input_spaceship() -> Universe {
    let mut universe = Universe::new(6, 6);
    universe.set_cells(&[(1, 2), (2, 3), (3, 1), (3, 2), (3, 3)]);
    universe
}

fn expected_spaceship() -> Universe {
    let mut universe = Universe::new(6, 6);
    universe.set_cells(&[(2, 1), (2, 3), (3, 2), (3, 3), (4, 2)]);
    universe
}

fn alive_set(u: &Universe) -> Vec<(i32, i32)> {
    let mut out = Vec::new();
    for row in 0..u.height() {
        for col in 0..u.width() {
            if u.get_cells()[u.index_of(row, col)] == Cell::Alive {
                out.push((row, col));
            }
        }
    }
    out
}

#[test]
fn test_tick() {
    let mut input_universe = input_spaceship();
    let expected_universe = expected_spaceship();
    assert_ne!(*input_universe.get_cells(), *expected_universe.get_cells());
    input_universe.tick();
    assert_eq!(*input_universe.get_cells(), *expected_universe.get_cells());
}

#[test]
fn glider_alive_set_after_one_tick() {
    let mut u = input_spaceship();
    u.tick();
    assert_eq!(alive_set(&u), vec![(2, 1), (2, 3), (3, 2), (3, 3), (4, 2)]);
    assert_eq!(u.num_live_cells(), 5);
}

#[test]
fn glider_returns_shifted_after_four_ticks() {
    let mut u = input_spaceship();
    for _ in 0..4 {
        u.tick();
    }
    assert_eq!(alive_set(&u), vec![(2, 3), (3, 4), (4, 2), (4, 3), (4, 4)]);
}

#[test]
fn glider_wraps_around_the_edges() {
    let mut u = input_spaceship();
    for _ in 0..24 {
        u.tick();
    }
    assert_eq!(alive_set(&u), vec![(1, 2), (2, 3), (3, 1), (3, 2), (3, 3)]);
}

#[test]
fn new_is_all_dead_with_given_size() {
    let u = Universe::new(4, 3);
    assert_eq!(u.width(), 4);
    assert_eq!(u.height(), 3);
    assert_eq!(u.get_cells().len(), 12);
    assert!(u.get_cells().iter().all(|c| *c == Cell::Dead));
    assert_eq!(u.num_live_cells(), 0);
    assert_eq!(u.num_active_cells(), 12);
}

#[test]
fn new_fancy_follows_the_index_pattern() {
    let u = Universe::new_fancy(5, 3);
    let expected: Vec<Cell> = (0..15)
        .map(|i| if i % 2 == 0 || i % 7 == 0 { Cell::Alive } else { Cell::Dead })
        .collect();
    assert_eq!(*u.get_cells(), expected);
    assert_eq!(u.get_cells()[7], Cell::Alive);
    assert_eq!(u.get_cells()[9], Cell::Dead);
    assert_eq!(u.num_live_cells(), 9);
    assert_eq!(u.num_active_cells(), 15);
}

#[test]
fn index_of_and_coord_of_are_inverse() {
    let u = Universe::new(4, 3);
    assert_eq!(u.index_of(2, 1), 9);
    assert_eq!(u.coord_of(9), (2, 1));
    assert_eq!(u.coord_of(3), (0, 3));
    for row in 0..3 {
        for col in 0..4 {
            assert_eq!(u.coord_of(u.index_of(row, col)), (row, col));
        }
    }
}

#[test]
fn set_cell_twice_equals_once() {
    let mut once = Universe::new(4, 4);
    once.set_cell(1, 2);
    let mut twice = Universe::new(4, 4);
    twice.set_cell(1, 2);
    twice.set_cell(1, 2);
    assert_eq!(*once.get_cells(), *twice.get_cells());
    assert_eq!(alive_set(&twice), vec![(1, 2)]);
}

#[test]
fn toggle_cell_twice_restores() {
    let mut u = Universe::new_fancy(5, 4);
    let before = u.get_cells().clone();
    u.toggle_cell(2, 3);
    assert_ne!(*u.get_cells(), before);
    assert_eq!(u.get_cells()[u.index_of(2, 3)], Cell::toggle(before[13]));
    u.toggle_cell(2, 3);
    assert_eq!(*u.get_cells(), before);
}

#[test]
fn unset_cell_kills_only_that_cell() {
    let mut u = Universe::new(3, 3);
    u.set_cells(&[(0, 0), (1, 1), (2, 2)]);
    u.unset_cell(1, 1);
    assert_eq!(alive_set(&u), vec![(0, 0), (2, 2)]);
    u.unset_cell(1, 1);
    assert_eq!(alive_set(&u), vec![(0, 0), (2, 2)]);
}

#[test]
fn set_cells_ignores_duplicates_and_order() {
    let mut a = Universe::new(5, 5);
    a.set_cells(&[(4, 4), (0, 1), (4, 4), (2, 3), (0, 1)]);
    let mut b = Universe::new(5, 5);
    b.set_cells(&[(2, 3), (0, 1), (4, 4)]);
    assert_eq!(*a.get_cells(), *b.get_cells());
    assert_eq!(a.num_live_cells(), 3);
}

#[test]
fn set_cells_with_empty_list_changes_nothing() {
    let mut u = Universe::new_fancy(3, 3);
    let before = u.get_cells().clone();
    u.set_cells(&[]);
    assert_eq!(*u.get_cells(), before);
}

#[test]
fn clear_kills_every_cell() {
    let mut u = Universe::new_fancy(6, 2);
    u.clear();
    assert_eq!(u.num_live_cells(), 0);
    assert_eq!(u.num_active_cells(), 12);
    assert_eq!(*u.get_cells(), Universe::new(6, 2).get_cells().clone());
}

#[test]
fn cells_to_paint_lists_live_cells_row_major() {
    let mut u = Universe::new(4, 3);
    u.set_cells(&[(2, 0), (0, 3), (1, 1)]);
    assert_eq!(u.cells_to_paint(), vec![0, 3, 1, 1, 2, 0]);
    assert_eq!(Universe::new(2, 2).cells_to_paint(), Vec::<i32>::new());
}

#[test]
fn dimensions_hold_after_every_operation() {
    let mut u = Universe::new_fancy(7, 5);
    u.set_cell(4, 6);
    u.unset_cell(0, 0);
    u.toggle_cell(3, 3);
    u.set_cells(&[(1, 1), (2, 2)]);
    u.tick();
    assert_eq!(u.get_cells().len(), 35);
    u.clear();
    assert_eq!(u.get_cells().len(), 35);
    assert_eq!((u.width(), u.height()), (7, 5));
}

#[test]
fn render_text_draws_one_glyph_per_cell_and_breaks_rows() {
    let mut u = Universe::new(3, 2);
    u.set_cells(&[(0, 1), (1, 2)]);
    assert_eq!(u.render_text(), "\u{25fb}\u{25fc}\u{25fb}\n\u{25fb}\u{25fb}\u{25fc}\n");
}
