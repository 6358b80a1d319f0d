use hexgrid::pos::{Orientation, Position};

#[test]
fn get_z() {
    assert_eq!(Position::new(1, 0).get_z(), -1);
    assert_eq!(Position::new(0, 0).get_z(), 0);
    assert_eq!(Position::new(5, -2).get_z(), -3);
}

#[test]
fn eq_position() {
    assert_eq!(Position::new(5, 2), Position::new(5, 2));
}

#[test]
fn sub_position() {
    let position: Position = Position::new(5, 2);
    assert_eq!(position.sub(Position::new(1, -1)), Position::new(4, 3));
}

#[test]
fn sub_tuple() {
    let position: Position = Position::new(5, 2);
    assert_eq!(position.sub_pair((5i32, -2i32)), Position::new(0, 4));
}

#[test]
fn add_position() {
    let position: Position = Position::new(5, 2);
    assert_eq!(position.add(Position::new(1, -1)), Position::new(6, 1));
}

#[test]
fn add_tuple() {
    let position: Position = Position::new(5, 2);
    let tuple: (i32, i32) = (1, -1);
    assert_eq!(Position::from(tuple).add(position), Position::new(6, 1));
    assert_eq!(position.add_pair(tuple), Position::new(6, 1));
}

#[test]
fn neg_position() {
    assert_eq!(Position::new(3, -4).neg(), Position::new(-3, 4));
    assert_eq!(Position::new(0, 0).neg(), Position::new(0, 0));
}

#[test]
fn default_position_is_origin() {
    assert_eq!(Position::default(), Position::new(0, 0));
}

#[test]
fn from_orientation_axes() {
    assert_eq!(Position::from_orientation(Orientation::NE, 3), Position::new(0, 3));
    assert_eq!(Position::from_orientation(Orientation::E, 3), Position::new(3, 0));
    assert_eq!(Position::from_orientation(Orientation::SE, 3), Position::new(3, -3));
    assert_eq!(Position::from_orientation(Orientation::SW, 3), Position::new(0, 0));
    assert_eq!(Position::from_orientation(Orientation::W, 3), Position::new(0, 0));
    assert_eq!(Position::from_orientation(Orientation::NW, 3), Position::new(0, 0));
}
