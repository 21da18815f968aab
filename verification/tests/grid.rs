use thrustr::components::grid::{grid_step, GridDir};

// 7 items, 3 columns:
// 0 1 2
// 3 4 5
// 6
const COUNT: usize = 7;
const COLS: usize = 3;

fn step(selected: usize, dir: GridDir) -> usize {
    grid_step(Some(selected), dir, COUNT, COLS).unwrap()
}

#[test]
fn empty_grid_has_no_selection() {
    assert_eq!(grid_step(None, GridDir::Right, 0, COLS), None);
    assert_eq!(grid_step(Some(0), GridDir::Down, 0, COLS), None);
}

#[test]
fn first_step_selects_first_item() {
    assert_eq!(grid_step(None, GridDir::Right, COUNT, COLS), Some(0));
    assert_eq!(grid_step(None, GridDir::Up, COUNT, COLS), Some(0));
}

#[test]
fn horizontal_crosses_rows_and_clamps() {
    assert_eq!(step(2, GridDir::Right), 3); // end of row -> next row start
    assert_eq!(step(3, GridDir::Left), 2); // start of row -> prev row end
    assert_eq!(step(6, GridDir::Right), 6); // last item -> stays
    assert_eq!(step(0, GridDir::Left), 0); // first item -> stays
}

#[test]
fn vertical_clamps_within_bounds() {
    assert_eq!(step(0, GridDir::Down), 3);
    assert_eq!(step(3, GridDir::Down), 6);
    assert_eq!(step(4, GridDir::Down), 6); // partial last row -> last item
    assert_eq!(step(6, GridDir::Down), 6); // already last -> stays
    assert_eq!(step(3, GridDir::Up), 0);
    assert_eq!(step(0, GridDir::Up), 0); // first row -> stays
}

#[test]
fn stale_selection_is_clamped() {
    assert_eq!(grid_step(Some(99), GridDir::Right, COUNT, COLS), Some(6));
}

#[test]
fn zero_columns_count_as_one() {
    assert_eq!(grid_step(Some(2), GridDir::Down, COUNT, 0), Some(3));
    assert_eq!(grid_step(Some(2), GridDir::Up, COUNT, 0), Some(1));
}

#[test]
fn right_then_left_returns_to_start() {
    for s in 0..COUNT - 1 {
        assert_eq!(step(step(s, GridDir::Right), GridDir::Left), s);
    }
}

#[test]
fn down_then_up_returns_to_start() {
    for s in 0..COUNT - COLS {
        assert_eq!(step(step(s, GridDir::Down), GridDir::Up), s);
    }
}

#[test]
fn every_step_lands_on_an_item() {
    for s in 0..COUNT + 3 {
        for dir in [GridDir::Left, GridDir::Right, GridDir::Up, GridDir::Down] {
            let next = grid_step(Some(s), dir, COUNT, COLS).unwrap();
            assert!(next < COUNT);
        }
    }
}
