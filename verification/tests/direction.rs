use hexgrid::direction::{BaseVec, MainDirection, Rotation, SubDirection};
use hexgrid::pos::Position;

#[test]
fn main_rotation_cycles() {
    let mut d = MainDirection::NNE;
    for _ in 0..6 {
        d = d.rotate(Rotation::Clockwise);
    }
    assert_eq!(d, MainDirection::NNE);
    assert_eq!(MainDirection::E.rotate(Rotation::Clockwise), MainDirection::SSE);
    assert_eq!(
        MainDirection::E.rotate(Rotation::Clockwise).rotate(Rotation::CounterClockwise),
        MainDirection::E
    );
}

#[test]
fn sub_rotation_cycles() {
    let mut d = SubDirection::N;
    for _ in 0..6 {
        d = d.rotate(Rotation::CounterClockwise);
    }
    assert_eq!(d, SubDirection::N);
    assert_eq!(SubDirection::N.rotate(Rotation::Clockwise), SubDirection::ENE);
}

#[test]
fn main_direction_displacements() {
    assert_eq!(MainDirection::NNE.to_pos(), Position::new(0, 1));
    assert_eq!(MainDirection::E.to_pos(), Position::new(1, 0));
    assert_eq!(MainDirection::SSE.to_pos(), Position::new(1, -1));
    assert_eq!(MainDirection::SSW.to_pos(), Position::new(0, -1));
    assert_eq!(MainDirection::W.to_pos(), Position::new(-1, 0));
    assert_eq!(MainDirection::NNW.to_pos(), Position::new(-1, 1));
}

#[test]
fn opposite_directions_cancel() {
    assert_eq!(MainDirection::E.neg(), MainDirection::W);
    assert_eq!(MainDirection::NNE.neg().to_pos().add(MainDirection::NNE.to_pos()), Position::new(0, 0));
}

#[test]
fn sides_flank_the_vertex() {
    assert_eq!(SubDirection::N.sides(), (MainDirection::NNW, MainDirection::NNE));
    assert_eq!(SubDirection::S.sides(), (MainDirection::SSE, MainDirection::SSW));
}

#[test]
fn normalize_flips_negative_steps() {
    assert_eq!(BaseVec(MainDirection::E, -3).normalize().raw(), (MainDirection::W, 3));
    assert_eq!(BaseVec(MainDirection::W, 2).normalize().raw(), (MainDirection::W, 2));
}
