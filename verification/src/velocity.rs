//! Velocity intent: a cardinal heading plus a non-negative magnitude.
//!
//! Movement is restricted to the four cardinal directions, so a velocity
//! can never describe a diagonal step; the movement-vector algorithm in
//! `position` relies on this shape.

use vstd::prelude::*;

verus! {

/// One of the four cardinal directions.
#[derive(Debug, Clone, Copy, PartialEq, Eq, Structural)]
pub enum Heading {
    North,
    East,
    South,
    West,
}

impl Default for Heading {
    fn default() -> (r: Heading)
        ensures
            r == Heading::North,
    {
        Heading::North
    }
}

/// The move an actor is attempting this resolution pass; transient, and
/// zeroed once consumed.
#[derive(Debug, Clone, Copy, PartialEq, Eq, Structural)]
pub struct Velocity {
    pub heading: Heading,
    pub magnitude: u8,
}

/// The (x, y) grid displacement a velocity describes. The y axis grows
/// southward, so North is negative y.
pub open spec fn displacement(v: Velocity) -> (int, int) {
    match v.heading {
        Heading::North => (0int, -(v.magnitude as int)),
        Heading::East => (v.magnitude as int, 0int),
        Heading::South => (0int, v.magnitude as int),
        Heading::West => (-(v.magnitude as int), 0int),
    }
}

impl Default for Velocity {
    fn default() -> (r: Velocity)
        ensures
            r == (Velocity { heading: Heading::North, magnitude: 0 }),
    {
        Velocity { heading: Heading::North, magnitude: 0 }
    }
}

impl Velocity {
    /// A motionless velocity.
    pub fn new() -> (r: Velocity)
        ensures
            r == (Velocity { heading: Heading::North, magnitude: 0 }),
    {
        Velocity { heading: Heading::North, magnitude: 0 }
    }

    /// A single step in the given heading.
    pub fn unit(heading: Heading) -> (r: Velocity)
        ensures
            r == (Velocity { heading, magnitude: 1 }),
    {
        Velocity { heading, magnitude: 1 }
    }

    /// The same magnitude, turned toward `heading`.
    pub fn with_heading(&self, heading: Heading) -> (r: Velocity)
        ensures
            r == (Velocity { heading, magnitude: self.magnitude }),
    {
        Velocity { heading, magnitude: self.magnitude }
    }

    /// The same heading, stretched to `magnitude`.
    pub fn with_magnitude(&self, magnitude: u8) -> (r: Velocity)
        ensures
            r == (Velocity { heading: self.heading, magnitude }),
    {
        Velocity { heading: self.heading, magnitude }
    }

    /// Build a velocity from axis deltas. Diagonal deltas have no cardinal
    /// representation and are excluded; a zero delta is a motionless
    /// velocity headed North.
    pub fn from_deltas(x: i32, y: i32) -> (r: Velocity)
        requires
            x == 0 || y == 0,
            -255 <= x <= 255,
            -255 <= y <= 255,
        ensures
            displacement(r) == (x as int, y as int),
            x == 0 && y == 0 ==> r == (Velocity { heading: Heading::North, magnitude: 0 }),
    {
        if x < 0 {
            Velocity { heading: Heading::West, magnitude: (-x) as u8 }
        } else if x > 0 {
            Velocity { heading: Heading::East, magnitude: x as u8 }
        } else if y < 0 {
            Velocity { heading: Heading::North, magnitude: (-y) as u8 }
        } else if y > 0 {
            Velocity { heading: Heading::South, magnitude: y as u8 }
        } else {
            Velocity { heading: Heading::North, magnitude: 0 }
        }
    }

    /// The heading at `index` in the fixed North, East, South, West order;
    /// confusion draws the index uniformly to pick a random heading.
    pub fn heading_from_index(index: i32) -> (r: Heading)
        requires
            0 <= index < 4,
        ensures
            index == 0 ==> r == Heading::North,
            index == 1 ==> r == Heading::East,
            index == 2 ==> r == Heading::South,
            index == 3 ==> r == Heading::West,
    {
        if index == 0 {
            Heading::North
        } else if index == 1 {
            Heading::East
        } else if index == 2 {
            Heading::South
        } else {
            Heading::West
        }
    }
}

impl From<Heading> for Velocity {
    fn from(heading: Heading) -> (r: Velocity) {
        Velocity { heading, magnitude: 1 }
    }
}

impl vstd::std_specs::convert::FromSpecImpl<Heading> for Velocity {
    open spec fn obeys_from_spec() -> bool {
        true
    }

    open spec fn from_spec(heading: Heading) -> Velocity {
        Velocity { heading, magnitude: 1 }
    }
}

} // verus!
