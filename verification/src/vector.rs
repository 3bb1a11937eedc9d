use vstd::prelude::*;

verus! {

/// Sub-units to one screen unit. It is a multiple of 100 and of every number
/// from 1 to 10, so percentages of a whole box and every share of the jump
/// impulse are whole numbers of sub-units.
pub const UNIT: i64 = 25200;

/// The largest distance from the origin, on either axis, that a well-formed
/// shape reaches.
pub const BOUND: i64 = 0x1000_0000_0000_0000;

/// The largest distance from the origin, on either axis and in screen units,
/// that the playing field reaches.
pub const FIELD: i64 = 0x100_0000;

/// [`FIELD`] in sub-units.
pub const REACH: i64 = FIELD * UNIT;

/// The height of the screen, in screen units. Tile rows count upwards from it.
pub const SCREEN_HEIGHT: i64 = 720;

/// A point or a displacement of the plane, as mathematical integers.
pub struct Vector {
    pub x: int,
    pub y: int,
}

impl Vector {
    /// No displacement at all.
    pub open spec fn zero() -> Vector {
        Vector { x: 0, y: 0 }
    }

    /// The sum of two displacements.
    pub open spec fn plus(self, other: Vector) -> Vector {
        Vector { x: self.x + other.x, y: self.y + other.y }
    }

    /// The displacement that leads from `other` to `self`.
    pub open spec fn minus(self, other: Vector) -> Vector {
        Vector { x: self.x - other.x, y: self.y - other.y }
    }

    /// The opposite displacement.
    pub open spec fn negated(self) -> Vector {
        Vector { x: -self.x, y: -self.y }
    }

    /// Both components lie within `limit` of zero.
    pub open spec fn within(self, limit: int) -> bool {
        -limit <= self.x <= limit && -limit <= self.y <= limit
    }

    /// The square of the Euclidean length.
    pub open spec fn norm2(self) -> int {
        self.x * self.x + self.y * self.y
    }
}

/// A position in whole screen units.
#[derive(Clone, Copy, Debug, PartialEq, Eq, Structural)]
pub struct Point {
    pub x: i32,
    pub y: i32,
}

/// A rectangle in whole screen units: what something is drawn in.
#[derive(Clone, Copy, Debug, PartialEq, Eq, Structural)]
pub struct Frame {
    pub x: i32,
    pub y: i32,
    pub w: i32,
    pub h: i32,
}

/// A point or a displacement of the plane, in sub-units.
#[derive(Clone, Copy, Debug, PartialEq, Eq, Structural)]
pub struct Vec2 {
    pub x: i64,
    pub y: i64,
}

impl View for Vec2 {
    type V = Vector;

    open spec fn view(&self) -> Vector {
        Vector { x: self.x as int, y: self.y as int }
    }
}

impl DeepView for Vec2 {
    type V = Vector;

    open spec fn deep_view(&self) -> Vector {
        self@
    }
}

impl Vec2 {
    /// The vector with the given components.
    pub fn new(x: i64, y: i64) -> (r: Vec2)
        ensures
            r@ == (Vector { x: x as int, y: y as int }),
    {
        Vec2 { x, y }
    }

    /// No displacement at all.
    pub fn zero() -> (r: Vec2)
        ensures
            r@ == Vector::zero(),
    {
        Vec2 { x: 0, y: 0 }
    }

    /// The sum of two displacements.
    pub fn plus(self, other: Vec2) -> (r: Vec2)
        requires
            i64::MIN <= self.x + other.x <= i64::MAX,
            i64::MIN <= self.y + other.y <= i64::MAX,
        ensures
            r@ == self@.plus(other@),
    {
        Vec2 { x: self.x + other.x, y: self.y + other.y }
    }

    /// The opposite displacement.
    pub fn negated(self) -> (r: Vec2)
        requires
            self.x > i64::MIN,
            self.y > i64::MIN,
        ensures
            r@ == self@.negated(),
    {
        Vec2 { x: -self.x, y: -self.y }
    }
}

} // verus!
