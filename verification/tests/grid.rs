//! Construction, accessors and the single-cell operations.

use game_of_life::pattern::{DEFAULT_PATTERN, DEFAULT_SIZE};
use game_of_life::{GridError, Universe};

fn alive(universe: &Universe, row: u32, col: u32) -> bool {
    universe.get_cells().contains(universe.get_index(row, col))
}

fn snapshot(universe: &Universe) -> Vec<bool> {
    let total: usize = universe.get_cells().len();
    (0..total).map(|i| universe.get_cells().contains(i)).collect()
}

#[test]
fn from_dimensions_makes_an_all_dead_grid() {
    let universe = Universe::from_dimensions(7, 5).unwrap();
    assert_eq!(universe.width(), 7);
    assert_eq!(universe.height(), 5);
    assert_eq!(universe.get_cells().len(), 35);
    assert_eq!(universe.get_cells().count_ones(..), 0);
    assert_eq!(snapshot(&universe), vec![false; 35]);
}

#[test]
fn from_dimensions_refuses_zero_width() {
    assert_eq!(Universe::from_dimensions(0, 5).err(), Some(GridError::ZeroDimension));
}

#[test]
fn from_dimensions_refuses_zero_height() {
    assert_eq!(Universe::from_dimensions(5, 0).err(), Some(GridError::ZeroDimension));
}

#[test]
fn from_dimensions_refuses_zero_by_zero() {
    assert_eq!(Universe::from_dimensions(0, 0).err(), Some(GridError::ZeroDimension));
}

#[test]
fn from_dimensions_refuses_zero_before_size() {
    assert_eq!(Universe::from_dimensions(0, u32::MAX).err(), Some(GridError::ZeroDimension));
}

#[test]
fn from_dimensions_refuses_more_cells_than_a_u32_counts() {
    assert_eq!(Universe::from_dimensions(u32::MAX, 2).err(), Some(GridError::TooLarge));
    assert_eq!(Universe::from_dimensions(65536, 65536).err(), Some(GridError::TooLarge));
}

#[test]
fn from_dimensions_takes_a_single_cell() {
    let universe = Universe::from_dimensions(1, 1).unwrap();
    assert_eq!(universe.get_cells().len(), 1);
    assert!(!alive(&universe, 0, 0));
}

#[test]
fn get_index_is_row_major() {
    let universe = Universe::from_dimensions(4, 3).unwrap();
    assert_eq!(universe.get_index(0, 0), 0);
    assert_eq!(universe.get_index(0, 3), 3);
    assert_eq!(universe.get_index(1, 0), 4);
    assert_eq!(universe.get_index(2, 3), 11);
}

#[test]
fn default_grid_holds_the_pattern() {
    let universe = Universe::new();
    assert_eq!(DEFAULT_SIZE, 64);
    assert_eq!(universe.width(), 64);
    assert_eq!(universe.height(), 64);
    assert_eq!(universe.get_cells().len(), 64 * 64);
    assert_eq!(DEFAULT_PATTERN.len(), 118);
    assert_eq!(universe.get_cells().count_ones(..), 118);
    for (row, col) in DEFAULT_PATTERN.iter().cloned() {
        assert!(alive(&universe, row, col));
    }
    assert!(alive(&universe, 2, 3));
    assert!(alive(&universe, 5, 5));
    assert!(alive(&universe, 17, 19));
    assert!(!alive(&universe, 0, 0));
    assert!(!alive(&universe, 2, 4));
    assert!(!alive(&universe, 63, 63));
}

#[test]
fn default_grid_is_the_same_every_time() {
    assert_eq!(snapshot(&Universe::new()), snapshot(&Universe::new()));
}

#[test]
fn set_cells_marks_one_cell_and_leaves_the_others() {
    let mut universe = Universe::from_dimensions(6, 4).unwrap();
    universe.set_cells(&[(0, 5), (3, 0)]).unwrap();
    let before: Vec<bool> = snapshot(&universe);
    assert_eq!(universe.set_cells(&[(2, 1)]), Ok(()));
    let after: Vec<bool> = snapshot(&universe);
    assert!(alive(&universe, 2, 1));
    for i in 0..24usize {
        if i == 13 {
            assert!(after[i]);
        } else {
            assert_eq!(after[i], before[i]);
        }
    }
    assert_eq!(universe.get_cells().count_ones(..), 3);
}

#[test]
fn set_cells_keeps_a_live_cell_alive() {
    let mut universe = Universe::from_dimensions(3, 3).unwrap();
    universe.set_cells(&[(1, 1)]).unwrap();
    universe.set_cells(&[(1, 1), (1, 1)]).unwrap();
    assert!(alive(&universe, 1, 1));
    assert_eq!(universe.get_cells().count_ones(..), 1);
}

#[test]
fn set_cells_with_nothing_changes_nothing() {
    let mut universe = Universe::from_dimensions(3, 3).unwrap();
    universe.set_cells(&[(0, 2)]).unwrap();
    let before: Vec<bool> = snapshot(&universe);
    assert_eq!(universe.set_cells(&[]), Ok(()));
    assert_eq!(snapshot(&universe), before);
}

#[test]
fn set_cells_refuses_a_row_outside() {
    let mut universe = Universe::from_dimensions(6, 4).unwrap();
    universe.set_cells(&[(1, 1)]).unwrap();
    let before: Vec<bool> = snapshot(&universe);
    assert_eq!(universe.set_cells(&[(0, 0), (4, 0)]), Err(GridError::OutOfBounds));
    assert_eq!(snapshot(&universe), before);
    assert!(!alive(&universe, 0, 0));
}

#[test]
fn set_cells_refuses_a_column_outside() {
    let mut universe = Universe::from_dimensions(6, 4).unwrap();
    let before: Vec<bool> = snapshot(&universe);
    assert_eq!(universe.set_cells(&[(3, 5), (0, 6), (1, 1)]), Err(GridError::OutOfBounds));
    assert_eq!(snapshot(&universe), before);
}

#[test]
fn set_cells_does_not_wrap_a_column_into_the_next_row() {
    let mut universe = Universe::from_dimensions(4, 4).unwrap();
    assert_eq!(universe.set_cells(&[(0, 4)]), Err(GridError::OutOfBounds));
    assert!(!alive(&universe, 1, 0));
}

#[test]
fn toggle_cell_inverts_one_cell() {
    let mut universe = Universe::from_dimensions(5, 5).unwrap();
    universe.set_cells(&[(0, 0), (4, 4)]).unwrap();
    assert_eq!(universe.toggle_cell(2, 3), Ok(()));
    assert!(alive(&universe, 2, 3));
    assert!(alive(&universe, 0, 0));
    assert!(alive(&universe, 4, 4));
    assert_eq!(universe.get_cells().count_ones(..), 3);
    assert_eq!(universe.toggle_cell(0, 0), Ok(()));
    assert!(!alive(&universe, 0, 0));
    assert_eq!(universe.get_cells().count_ones(..), 2);
}

#[test]
fn toggle_cell_twice_gives_the_grid_back() {
    let mut universe = Universe::from_dimensions(5, 4).unwrap();
    universe.set_cells(&[(1, 1), (2, 2), (3, 4)]).unwrap();
    let before: Vec<bool> = snapshot(&universe);
    for (row, col) in [(1u32, 1u32), (0, 0), (3, 4), (2, 3)] {
        universe.toggle_cell(row, col).unwrap();
        assert_ne!(snapshot(&universe), before);
        universe.toggle_cell(row, col).unwrap();
        assert_eq!(snapshot(&universe), before);
    }
}

#[test]
fn toggle_cell_refuses_coordinates_outside() {
    let mut universe = Universe::from_dimensions(5, 4).unwrap();
    universe.set_cells(&[(1, 1)]).unwrap();
    let before: Vec<bool> = snapshot(&universe);
    assert_eq!(universe.toggle_cell(4, 0), Err(GridError::OutOfBounds));
    assert_eq!(universe.toggle_cell(0, 5), Err(GridError::OutOfBounds));
    assert_eq!(universe.toggle_cell(u32::MAX, u32::MAX), Err(GridError::OutOfBounds));
    assert_eq!(snapshot(&universe), before);
}

#[test]
fn clear_kills_every_cell_and_keeps_the_dimensions() {
    let mut universe = Universe::new();
    universe.set_cells(&[(63, 63), (0, 0)]).unwrap();
    universe.clear();
    assert_eq!(universe.width(), 64);
    assert_eq!(universe.height(), 64);
    assert_eq!(universe.get_cells().len(), 64 * 64);
    assert_eq!(snapshot(&universe), vec![false; 64 * 64]);
}

#[test]
fn clear_of_an_empty_grid_is_empty() {
    let mut universe = Universe::from_dimensions(3, 9).unwrap();
    universe.clear();
    assert_eq!(universe.width(), 3);
    assert_eq!(universe.height(), 9);
    assert_eq!(snapshot(&universe), vec![false; 27]);
}

#[test]
fn get_cells_shows_what_was_set() {
    let mut universe = Universe::from_dimensions(10, 10).unwrap();
    universe.set_cells(&[(3, 5), (9, 9)]).unwrap();
    let ones: Vec<usize> = universe.get_cells().ones().collect();
    assert_eq!(ones, vec![35, 99]);
}

#[test]
fn cells_are_packed_from_the_low_bit_of_each_block() {
    let mut universe = Universe::from_dimensions(10, 10).unwrap();
    assert_eq!(universe.cells(), &[0u32, 0, 0, 0]);
    universe.set_cells(&[(0, 0), (3, 5), (9, 9)]).unwrap();
    assert_eq!(universe.cells(), &[1u32, 1 << 3, 0, 1 << 3]);
    let exact = Universe::from_dimensions(8, 8).unwrap();
    assert_eq!(exact.cells().len(), 2);
    let one_more = Universe::from_dimensions(13, 5).unwrap();
    assert_eq!(one_more.cells().len(), 3);
}
