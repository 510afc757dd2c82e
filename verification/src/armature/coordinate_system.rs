//! Coordinate systems: which axis points up and which hand the axes follow.
use vstd::prelude::*;

verus! {

/// A coordinate system is used to make sense of coordinates.
///
/// Without knowing the coordinate system you wouldn't know if a value is meant for the Y axis,
/// or Z axis.
#[derive(Debug, PartialEq, Eq, Structural, Copy, Clone)]
pub struct CoordinateSystem {
    /// The axis that points up.
    pub up: Axis,
    /// The hand whose rule the axes follow.
    pub hand: Hand,
}

/// An axis of a coordinate system.
#[derive(Debug, PartialEq, Eq, Structural, Copy, Clone)]
pub enum Axis {
    /// The X axis.
    X,
    /// The Y axis.
    Y,
    /// The Z axis.
    Z,
}

/// Represents the orientation of the coordinate system using the right hand rule.
#[derive(Debug, PartialEq, Eq, Structural, Copy, Clone)]
pub enum Hand {
    /// A right handed coordinate system.
    Right,
    /// A left handed coordinate system.
    Left,
}

impl CoordinateSystem {
    /// A coordinate system with `up` pointing up, following `hand`'s rule.
    pub fn new(up: Axis, hand: Hand) -> (r: Self)
        ensures
            r.up == up,
            r.hand == hand,
    {
        CoordinateSystem { up, hand }
    }
}

/// Blender's coordinate system is Z up right handed.
impl Default for CoordinateSystem {
    fn default() -> (r: Self)
        ensures
            r == (CoordinateSystem { up: Axis::Z, hand: Hand::Right }),
    {
        CoordinateSystem { up: Axis::Z, hand: Hand::Right }
    }
}

} // verus!
