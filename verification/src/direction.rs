//! The six-way hex direction algebra: edge directions, vertex directions,
//! clockwise and counter-clockwise rotation, and the unit displacement of
//! each edge direction. A small, closed state machine with no storage
//! coupling; the grid store does not depend on it.

use vstd::prelude::*;
use crate::pos::Position;

verus! {

/// A sense of rotation around a hex cell.
#[derive(Copy, Clone, Debug, PartialEq, Eq, Structural)]
pub enum Rotation {
    Clockwise,
    CounterClockwise,
}

/// Either kind of direction on a hex grid.
#[derive(Copy, Clone, Debug, PartialEq, Eq, Structural)]
pub enum Direction {
    MainDirection(MainDirection),
    SubDirection(SubDirection),
}

/// A direction through an edge of a hex cell (towards a neighbouring cell).
#[derive(Copy, Clone, Debug, PartialEq, Eq, Structural)]
pub enum MainDirection {
    NNE,
    E,
    SSE,
    SSW,
    W,
    NNW,
}

/// A direction through a vertex of a hex cell (between two neighbours).
#[derive(Copy, Clone, Debug, PartialEq, Eq, Structural)]
pub enum SubDirection {
    N,
    ENE,
    ESE,
    S,
    WSW,
    WNW,
}

impl MainDirection {
    /// The next edge direction one step clockwise or counter-clockwise.
    pub open spec fn spec_rotate(self, rotation: Rotation) -> MainDirection {
        match (self, rotation) {
            (MainDirection::NNE, Rotation::Clockwise) => MainDirection::E,
            (MainDirection::E, Rotation::Clockwise) => MainDirection::SSE,
            (MainDirection::SSE, Rotation::Clockwise) => MainDirection::SSW,
            (MainDirection::SSW, Rotation::Clockwise) => MainDirection::W,
            (MainDirection::W, Rotation::Clockwise) => MainDirection::NNW,
            (MainDirection::NNW, Rotation::Clockwise) => MainDirection::NNE,
            (MainDirection::NNE, Rotation::CounterClockwise) => MainDirection::NNW,
            (MainDirection::E, Rotation::CounterClockwise) => MainDirection::NNE,
            (MainDirection::SSE, Rotation::CounterClockwise) => MainDirection::E,
            (MainDirection::SSW, Rotation::CounterClockwise) => MainDirection::SSE,
            (MainDirection::W, Rotation::CounterClockwise) => MainDirection::SSW,
            (MainDirection::NNW, Rotation::CounterClockwise) => MainDirection::W,
        }
    }

    /// The opposite edge direction.
    pub open spec fn spec_neg(self) -> MainDirection {
        match self {
            MainDirection::NNE => MainDirection::SSW,
            MainDirection::E => MainDirection::W,
            MainDirection::SSE => MainDirection::NNW,
            MainDirection::SSW => MainDirection::NNE,
            MainDirection::W => MainDirection::E,
            MainDirection::NNW => MainDirection::SSE,
        }
    }

    /// The unit displacement of this edge direction, in the axial convention
    /// of [`crate::pos`]: `+y` is north-east and `+x` is east.
    pub open spec fn spec_to_pos(self) -> Position {
        match self {
            MainDirection::NNE => Position { x: 0, y: 1 },
            MainDirection::E => Position { x: 1, y: 0 },
            MainDirection::SSE => Position { x: 1, y: -1i32 },
            MainDirection::SSW => Position { x: 0, y: -1i32 },
            MainDirection::W => Position { x: -1i32, y: 0 },
            MainDirection::NNW => Position { x: -1i32, y: 1 },
        }
    }

    pub fn rotate(self, rotation: Rotation) -> (r: MainDirection)
        ensures
            r == self.spec_rotate(rotation),
    {
        match (self, rotation) {
            (MainDirection::NNE, Rotation::Clockwise) => MainDirection::E,
            (MainDirection::E, Rotation::Clockwise) => MainDirection::SSE,
            (MainDirection::SSE, Rotation::Clockwise) => MainDirection::SSW,
            (MainDirection::SSW, Rotation::Clockwise) => MainDirection::W,
            (MainDirection::W, Rotation::Clockwise) => MainDirection::NNW,
            (MainDirection::NNW, Rotation::Clockwise) => MainDirection::NNE,
            (MainDirection::NNE, Rotation::CounterClockwise) => MainDirection::NNW,
            (MainDirection::E, Rotation::CounterClockwise) => MainDirection::NNE,
            (MainDirection::SSE, Rotation::CounterClockwise) => MainDirection::E,
            (MainDirection::SSW, Rotation::CounterClockwise) => MainDirection::SSE,
            (MainDirection::W, Rotation::CounterClockwise) => MainDirection::SSW,
            (MainDirection::NNW, Rotation::CounterClockwise) => MainDirection::W,
        }
    }

    /// The opposite edge direction.
    pub fn neg(self) -> (r: MainDirection)
        ensures
            r == self.spec_neg(),
    {
        match self {
            MainDirection::NNE => MainDirection::SSW,
            MainDirection::E => MainDirection::W,
            MainDirection::SSE => MainDirection::NNW,
            MainDirection::SSW => MainDirection::NNE,
            MainDirection::W => MainDirection::E,
            MainDirection::NNW => MainDirection::SSE,
        }
    }

    /// The unit displacement of this edge direction.
    pub fn to_pos(self) -> (r: Position)
        ensures
            r == self.spec_to_pos(),
    {
        match self {
            MainDirection::NNE => Position { x: 0, y: 1 },
            MainDirection::E => Position { x: 1, y: 0 },
            MainDirection::SSE => Position { x: 1, y: -1 },
            MainDirection::SSW => Position { x: 0, y: -1 },
            MainDirection::W => Position { x: -1, y: 0 },
            MainDirection::NNW => Position { x: -1, y: 1 },
        }
    }
}

impl SubDirection {
    /// The next vertex direction one step clockwise or counter-clockwise.
    pub open spec fn spec_rotate(self, rotation: Rotation) -> SubDirection {
        match (self, rotation) {
            (SubDirection::WNW, Rotation::Clockwise) => SubDirection::N,
            (SubDirection::N, Rotation::Clockwise) => SubDirection::ENE,
            (SubDirection::ENE, Rotation::Clockwise) => SubDirection::ESE,
            (SubDirection::ESE, Rotation::Clockwise) => SubDirection::S,
            (SubDirection::S, Rotation::Clockwise) => SubDirection::WSW,
            (SubDirection::WSW, Rotation::Clockwise) => SubDirection::WNW,
            (SubDirection::ENE, Rotation::CounterClockwise) => SubDirection::N,
            (SubDirection::ESE, Rotation::CounterClockwise) => SubDirection::ENE,
            (SubDirection::S, Rotation::CounterClockwise) => SubDirection::ESE,
            (SubDirection::WSW, Rotation::CounterClockwise) => SubDirection::S,
            (SubDirection::WNW, Rotation::CounterClockwise) => SubDirection::WSW,
            (SubDirection::N, Rotation::CounterClockwise) => SubDirection::WNW,
        }
    }

    /// The two edge directions flanking this vertex direction, in
    /// counter-clockwise-then-clockwise order.
    pub open spec fn spec_sides(self) -> (MainDirection, MainDirection) {
        match self {
            SubDirection::N => (MainDirection::NNW, MainDirection::NNE),
            SubDirection::ENE => (MainDirection::NNE, MainDirection::E),
            SubDirection::ESE => (MainDirection::E, MainDirection::SSE),
            SubDirection::S => (MainDirection::SSE, MainDirection::SSW),
            SubDirection::WSW => (MainDirection::SSW, MainDirection::W),
            SubDirection::WNW => (MainDirection::W, MainDirection::NNW),
        }
    }

    pub fn rotate(self, rotation: Rotation) -> (r: SubDirection)
        ensures
            r == self.spec_rotate(rotation),
    {
        match (self, rotation) {
            (SubDirection::WNW, Rotation::Clockwise) => SubDirection::N,
            (SubDirection::N, Rotation::Clockwise) => SubDirection::ENE,
            (SubDirection::ENE, Rotation::Clockwise) => SubDirection::ESE,
            (SubDirection::ESE, Rotation::Clockwise) => SubDirection::S,
            (SubDirection::S, Rotation::Clockwise) => SubDirection::WSW,
            (SubDirection::WSW, Rotation::Clockwise) => SubDirection::WNW,
            (SubDirection::ENE, Rotation::CounterClockwise) => SubDirection::N,
            (SubDirection::ESE, Rotation::CounterClockwise) => SubDirection::ENE,
            (SubDirection::S, Rotation::CounterClockwise) => SubDirection::ESE,
            (SubDirection::WSW, Rotation::CounterClockwise) => SubDirection::S,
            (SubDirection::WNW, Rotation::CounterClockwise) => SubDirection::WSW,
            (SubDirection::N, Rotation::CounterClockwise) => SubDirection::WNW,
        }
    }

    /// The two edge directions flanking this vertex direction.
    pub fn sides(self) -> (r: (MainDirection, MainDirection))
        ensures
            r == self.spec_sides(),
    {
        match self {
            SubDirection::N => (MainDirection::NNW, MainDirection::NNE),
            SubDirection::ENE => (MainDirection::NNE, MainDirection::E),
            SubDirection::ESE => (MainDirection::E, MainDirection::SSE),
            SubDirection::S => (MainDirection::SSE, MainDirection::SSW),
            SubDirection::WSW => (MainDirection::SSW, MainDirection::W),
            SubDirection::WNW => (MainDirection::W, MainDirection::NNW),
        }
    }
}

/// A displacement along an edge direction: a direction and a signed number of
/// steps.
#[derive(Copy, Clone, Debug, PartialEq, Eq, Structural)]
pub struct BaseVec(pub MainDirection, pub i32);

impl BaseVec {
    /// `self` rewritten with a non-negative step count, flipping the
    /// direction when the count was negative.
    pub open spec fn spec_normalize(self) -> BaseVec {
        if self.1 < 0 {
            BaseVec(self.0.spec_neg(), (-self.1) as i32)
        } else {
            self
        }
    }

    /// Rewrite the displacement so the step count is non-negative.
    pub fn normalize(self) -> (r: BaseVec)
        requires
            self.1 != i32::MIN,
        ensures
            r == self.spec_normalize(),
            r.1 >= 0,
    {
        if self.1 < 0 {
            BaseVec(self.0.neg(), -self.1)
        } else {
            BaseVec(self.0, self.1)
        }
    }

    /// The direction and step count as a raw pair.
    pub fn raw(self) -> (r: (MainDirection, i32))
        ensures
            r == (self.0, self.1),
    {
        (self.0, self.1)
    }
}

} // verus!
