//! The deltas a control can receive, and the direction a moving axis
//! follows.

use vstd::prelude::*;

verus! {

/// The delta a button receives: the new pressed level.
#[derive(Clone, Copy, PartialEq, Eq, Structural, Debug)]
pub struct ButtonChange(pub bool);

/// The delta an axis receives: an absolute position, a direction to
/// move in, or a request to ease back toward zero.
#[derive(Clone, Copy, PartialEq, Eq, Structural, Debug)]
pub enum AxisChange {
    /// Overrides the position outright, in raw position ticks.
    Position(i64),
    /// Starts velocity-driven motion in the given direction.
    Velocity(Direction),
    /// Requests the falling phase; honoured only while the axis is
    /// already moving in the same direction.
    Falling(Direction),
}

/// The direction of velocity-driven axis motion.
#[derive(Clone, Copy, PartialEq, Eq, Structural, Debug)]
pub enum Direction {
    Up,
    Down,
}

impl Direction {
    /// The unit step this direction contributes per elapsed millisecond.
    pub open spec fn unit(self) -> int {
        match self {
            Direction::Up => 1,
            Direction::Down => -1,
        }
    }
}

impl From<Direction> for i64 {
    /// The executable counterpart of `Direction::unit`.
    fn from(d: Direction) -> (r: i64)
        ensures
            r == d.unit(),
    {
        match d {
            Direction::Up => 1,
            Direction::Down => -1,
        }
    }
}

impl vstd::std_specs::convert::FromSpecImpl<Direction> for i64 {
    open spec fn obeys_from_spec() -> bool {
        true
    }

    open spec fn from_spec(d: Direction) -> i64 {
        d.unit() as i64
    }
}

} // verus!
