//! Signed two-dimensional grid coordinates and their translation algebra.
//!
//! The axes follow the hex convention the rest of the crate uses: `+y` points
//! north-east, `+x` points east, and a derived third axis `z = -x - y` exists
//! for three-axis (cube) hex arithmetic. The third axis is informational: it
//! is not stored and not enforced by the grid store.

use vstd::prelude::*;

verus! {

/// The six compass orientations of a hex grid, used to build displacement
/// coordinates with [`Position::from_orientation`].
#[derive(Copy, Clone, Debug, PartialEq, Eq, Structural)]
pub enum Orientation {
    NE,
    E,
    SE,
    SW,
    W,
    NW,
}

/// A two-dimensional signed grid coordinate with value semantics.
#[derive(Copy, Clone, Debug, PartialEq, Eq, Structural)]
pub struct Position {
    pub x: i32,
    pub y: i32,
}

/// Does a mathematical integer fit into `i32`?
pub open spec fn fits_i32(v: int) -> bool {
    i32::MIN <= v <= i32::MAX
}

/// The displacement of `length` steps along `orientation`, in the axial hex
/// convention. Orientations whose displacement the algebra does not define a
/// primitive step for (`SW`, `W`, `NW`) give the zero coordinate; their
/// displacements are the negations of `NE`, `E` and `SE`.
pub open spec fn spec_from_orientation(orientation: Orientation, length: i32) -> Position {
    match orientation {
        Orientation::NE => Position { x: 0, y: length },
        Orientation::E => Position { x: length, y: 0 },
        Orientation::SE => Position { x: length, y: (-length) as i32 },
        _ => Position { x: 0, y: 0 },
    }
}

impl Position {
    /// The derived third (cube) axis value, `z = -x - y`.
    pub open spec fn spec_z(&self) -> int {
        -self.y - self.x
    }

    pub fn new(x: i32, y: i32) -> (r: Position)
        ensures
            r == (Position { x, y }),
    {
        Position { x, y }
    }

    pub fn from_orientation(orientation: Orientation, length: i32) -> (r: Position)
        requires
            orientation is SE ==> length != i32::MIN,
        ensures
            r == spec_from_orientation(orientation, length),
    {
        match orientation {
            Orientation::NE => Position { x: 0, y: length },
            Orientation::E => Position { x: length, y: 0 },
            Orientation::SE => Position { x: length, y: -length },
            _ => Position { x: 0, y: 0 },
        }
    }

    pub fn get_z(&self) -> (r: i32)
        requires
            fits_i32(self.spec_z()),
        ensures
            r as int == self.spec_z(),
    {
        let z: i64 = -(self.y as i64) - (self.x as i64);
        z as i32
    }

    /// Componentwise addition with another coordinate.
    pub fn add(self, rhs: Position) -> (r: Position)
        requires
            fits_i32(self.x + rhs.x),
            fits_i32(self.y + rhs.y),
        ensures
            r.x == self.x + rhs.x,
            r.y == self.y + rhs.y,
    {
        Position { x: self.x + rhs.x, y: self.y + rhs.y }
    }

    /// Componentwise subtraction of another coordinate.
    pub fn sub(self, rhs: Position) -> (r: Position)
        requires
            fits_i32(self.x - rhs.x),
            fits_i32(self.y - rhs.y),
        ensures
            r.x == self.x - rhs.x,
            r.y == self.y - rhs.y,
    {
        Position { x: self.x - rhs.x, y: self.y - rhs.y }
    }

    /// Componentwise negation.
    pub fn neg(self) -> (r: Position)
        requires
            self.x != i32::MIN,
            self.y != i32::MIN,
        ensures
            r.x == -self.x,
            r.y == -self.y,
    {
        Position { x: -self.x, y: -self.y }
    }

    /// Addition with a raw coordinate pair.
    pub fn add_pair(self, rhs: (i32, i32)) -> (r: Position)
        requires
            fits_i32(self.x + rhs.0),
            fits_i32(self.y + rhs.1),
        ensures
            r.x == self.x + rhs.0,
            r.y == self.y + rhs.1,
    {
        Position { x: self.x + rhs.0, y: self.y + rhs.1 }
    }

    /// Subtraction of a raw coordinate pair.
    pub fn sub_pair(self, rhs: (i32, i32)) -> (r: Position)
        requires
            fits_i32(self.x - rhs.0),
            fits_i32(self.y - rhs.1),
        ensures
            r.x == self.x - rhs.0,
            r.y == self.y - rhs.1,
    {
        Position { x: self.x - rhs.0, y: self.y - rhs.1 }
    }
}

impl From<(i32, i32)> for Position {
    fn from(pair: (i32, i32)) -> (r: Position) {
        Position { x: pair.0, y: pair.1 }
    }
}

impl vstd::std_specs::convert::FromSpecImpl<(i32, i32)> for Position {
    open spec fn obeys_from_spec() -> bool {
        true
    }

    open spec fn from_spec(pair: (i32, i32)) -> Position {
        Position { x: pair.0, y: pair.1 }
    }
}

impl Default for Position {
    /// The origin coordinate.
    fn default() -> (r: Position)
        ensures
            r == (Position { x: 0, y: 0 }),
    {
        Position { x: 0, y: 0 }
    }
}

} // verus!
