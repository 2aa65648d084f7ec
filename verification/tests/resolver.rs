use rogue_core::direction::{resolve_direction, Direction, InputDirections};

fn inputs(north: bool, south: bool, east: bool, west: bool) -> InputDirections {
    InputDirections { north, south, east, west }
}

#[test]
fn no_input_gives_no_direction() {
    assert_eq!(resolve_direction(inputs(false, false, false, false)), None);
    assert_eq!(resolve_direction(InputDirections::none()), None);
}

#[test]
fn single_cardinals() {
    assert_eq!(resolve_direction(inputs(true, false, false, false)), Some(Direction::North));
    assert_eq!(resolve_direction(inputs(false, true, false, false)), Some(Direction::South));
    assert_eq!(resolve_direction(inputs(false, false, true, false)), Some(Direction::East));
    assert_eq!(resolve_direction(inputs(false, false, false, true)), Some(Direction::West));
}

#[test]
fn opposing_pairs_cancel() {
    assert_eq!(resolve_direction(inputs(true, true, false, false)), None);
    assert_eq!(resolve_direction(inputs(false, false, true, true)), None);
    assert_eq!(resolve_direction(inputs(true, true, true, true)), None);
}

#[test]
fn diagonals() {
    assert_eq!(resolve_direction(inputs(true, false, true, false)), Some(Direction::NorthEast));
    assert_eq!(resolve_direction(inputs(true, false, false, true)), Some(Direction::NorthWest));
    assert_eq!(resolve_direction(inputs(false, true, true, false)), Some(Direction::SouthEast));
    assert_eq!(resolve_direction(inputs(false, true, false, true)), Some(Direction::SouthWest));
}

#[test]
fn three_inputs_leave_the_uncancelled_cardinal() {
    assert_eq!(resolve_direction(inputs(true, true, true, false)), Some(Direction::East));
    assert_eq!(resolve_direction(inputs(true, true, false, true)), Some(Direction::West));
    assert_eq!(resolve_direction(inputs(true, false, true, true)), Some(Direction::North));
    assert_eq!(resolve_direction(inputs(false, true, true, true)), Some(Direction::South));
}

#[test]
fn unit_vectors_are_unit_steps() {
    assert_eq!(Direction::North.unit_vector(), (0, 1));
    assert_eq!(Direction::South.unit_vector(), (0, -1));
    assert_eq!(Direction::East.unit_vector(), (1, 0));
    assert_eq!(Direction::West.unit_vector(), (-1, 0));
    assert_eq!(Direction::NorthEast.unit_vector(), (1, 1));
    assert_eq!(Direction::NorthWest.unit_vector(), (-1, 1));
    assert_eq!(Direction::SouthEast.unit_vector(), (1, -1));
    assert_eq!(Direction::SouthWest.unit_vector(), (-1, -1));
}
