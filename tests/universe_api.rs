use wasm_game_of_life::cell::Cell;
use wasm_game_of_life::universe::{Universe, UniverseOption};

#[test]
/// Asserts that every property of the `Universe` struct was assigned.
fn can_create_universe() {
    let universe = Universe::new(UniverseOption::TwoSeven);
    assert!(
        universe.height() > 0
            && universe.width() > 0
            && universe.struct_cells().len()
                == universe.height() as usize * universe.width() as usize
    );
}

#[test]
/// Calls every getter function of the `Universe`.
fn can_call_universe_getters() {
    let universe = Universe::new(UniverseOption::TwoSeven);
    assert!(
        universe.height() == universe.height()
            && universe.width() == universe.width()
            && universe.struct_cells().as_ptr() == universe.cells().as_ptr()
    );
}

#[test]
/// The `Dead` option does not create a living cell.
fn no_living_cells() {
    let universe = Universe::new(UniverseOption::Dead);
    let count = universe.live_neighbor_count(1, 1);
    assert_eq!(count, 0);
}

#[test]
/// Checks the pattern created by the `TwoSeven` option.
fn two_seven_cells() {
    let universe = Universe::new(UniverseOption::TwoSeven);
    let count = universe.live_neighbor_count(1, 1);
    assert_eq!(count, 6);
}

#[test]
fn can_toggle_cell() {
    let mut universe = Universe::new(UniverseOption::Dead);
    universe.toggle_cell(1, 1);
    assert_eq!(universe.struct_cells()[universe.get_index(1, 1)], Cell::Alive);
}

#[test]
fn can_toggle_glider() {
    let mut universe = Universe::new(UniverseOption::Dead);
    let center_of_universe = (universe.height() / 2, universe.width() / 2);

    universe.toggle_glider(center_of_universe.0, center_of_universe.1);

    let left = universe.get_index(center_of_universe.0, center_of_universe.1 - 1);
    let right = universe.get_index(center_of_universe.0, center_of_universe.1 + 1);
    let bottom = universe.get_index(center_of_universe.0 + 1, center_of_universe.1);
    let bottom_right = universe.get_index(center_of_universe.0 + 1, center_of_universe.1 + 1);
    let top_right = universe.get_index(center_of_universe.0 - 1, center_of_universe.1 + 1);

    assert_eq!(universe.struct_cells()[left], Cell::Alive);
    assert_eq!(universe.struct_cells()[right], Cell::Alive);
    assert_eq!(universe.struct_cells()[bottom], Cell::Alive);
    assert_eq!(universe.struct_cells()[bottom_right], Cell::Alive);
    assert_eq!(universe.struct_cells()[top_right], Cell::Alive);

    assert_eq!(
        universe.struct_cells()[universe.get_index(center_of_universe.0, center_of_universe.1)],
        Cell::Dead
    );
}
