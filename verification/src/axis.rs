//! The continuous control: a position driven by velocity, with a
//! falling phase that eases it back toward zero.
//!
//! Positions are kept in integer ticks: a deflection of `scale` ticks is
//! full deflection, so a velocity-driven axis travels from rest to full
//! deflection in `scale` milliseconds. Each tick of `ms` milliseconds
//! moves the position by `ms` ticks in the current direction and then
//! clamps it to `[-scale, scale]`; a falling axis instead settles at
//! exactly zero once it reaches or would cross it.

use vstd::prelude::*;
use crate::change::AxisChange;
use crate::change::Direction;

verus! {

/// The number of position ticks per unit deflection when nothing else
/// is asked for: full deflection is reached in half a second.
pub const DEFAULT_SCALE: u32 = 500;

/// A continuous logical control.
#[derive(Debug, PartialEq, Eq, Structural, Clone, Copy)]
pub struct Axis {
    /// Current deflection in ticks; `-scale ..= scale` is the nominal
    /// range, full deflection at either end.
    pub position: i64,
    /// The direction of ongoing velocity-driven motion, if any.
    pub velocity: Option<Direction>,
    /// Whether the axis is easing back toward zero.
    pub falling: bool,
    /// How many ticks make one unit of deflection.
    pub scale: u32,
}

/// What an axis does: absorb deltas between frames, advance once per
/// frame.
pub trait IAxis {
    fn apply(&mut self, change: AxisChange);

    fn tick(&mut self, ms: u64);
}

impl Axis {
    /// An axis at rest in the middle of its range.
    pub open spec fn spec_default() -> Axis {
        Axis { position: 0, velocity: None, falling: false, scale: DEFAULT_SCALE }
    }

    /// The instantaneous direction of motion: toward zero while
    /// falling, else the unit value of the velocity.
    pub open spec fn dx(self) -> int {
        if self.falling {
            if self.position > 0 {
                -1
            } else {
                1
            }
        } else {
            match self.velocity {
                Some(d) => d.unit(),
                None => 0,
            }
        }
    }

    /// The position after moving for `ms` milliseconds, before any
    /// clamping or settling.
    pub open spec fn moved(self, ms: u64) -> int {
        self.position + self.dx() * ms
    }

    /// `x` forced into `[-bound, bound]`.
    pub open spec fn clamped(x: int, bound: int) -> int {
        if x > bound {
            bound
        } else if x < -bound {
            -bound
        } else {
            x
        }
    }

    /// The axis after one delta. A fall request is honoured only while
    /// the axis is already moving in the requested direction; every
    /// delta ends any ongoing falling phase.
    pub open spec fn applied(self, change: AxisChange) -> Axis {
        match change {
            AxisChange::Position(p) => Axis { position: p, falling: false, ..self },
            AxisChange::Velocity(d) => Axis { velocity: Some(d), falling: false, ..self },
            AxisChange::Falling(d) => if self.velocity == Some(d) {
                Axis { velocity: None, falling: true, ..self }
            } else {
                Axis { falling: false, ..self }
            },
        }
    }

    /// The axis after one frame of `ms` milliseconds: move by `ms`
    /// ticks in the direction `dx`; a falling axis settles at zero when
    /// it reaches or crosses zero, and otherwise keeps falling, while a
    /// non-falling axis is clamped to its nominal range.
    pub open spec fn ticked(self, ms: u64) -> Axis {
        let m = self.moved(ms);
        if self.falling {
            if self.dx() * m >= 0 {
                Axis { position: 0, falling: false, ..self }
            } else {
                Axis { position: m as i64, ..self }
            }
        } else {
            Axis { position: Axis::clamped(m, self.scale as int) as i64, ..self }
        }
    }
}

impl IAxis for Axis {
    /// Absorbs one delta, as `Axis::applied` describes.
    fn apply(&mut self, change: AxisChange)
        ensures
            *final(self) == old(self).applied(change),
    {
        self.falling = false;
        match change {
            AxisChange::Position(pos) => self.position = pos,
            AxisChange::Velocity(vel) => self.velocity = Some(vel),
            AxisChange::Falling(dir) => {
                match (dir, self.velocity) {
                    (Direction::Down, Some(Direction::Down)) | (
                        Direction::Up,
                        Some(Direction::Up),
                    ) => {
                        self.falling = true;
                        self.velocity = None;
                    },
                    _ => {},
                }
            },
        }
    }

    /// Advances the axis by one frame, as `Axis::ticked` describes.
    fn tick(&mut self, ms: u64)
        ensures
            *final(self) == old(self).ticked(ms),
    {
        let dx: i64 = if self.falling {
            if self.position > 0 {
                -1
            } else {
                1
            }
        } else {
            match self.velocity {
                Some(d) => i64::from(d),
                None => 0,
            }
        };
        proof {
            assert(dx == self.dx());
        }
        let m: i128 = self.position as i128 + (dx as i128) * (ms as i128);
        proof {
            assert(m == self.moved(ms));
        }
        if self.falling {
            if (dx as i128) * m >= 0 {
                self.position = 0;
                self.falling = false;
            } else {
                proof {
                    if dx == 1 {
                        assert(self.position <= m <= 0);
                    } else {
                        assert(0 <= m <= self.position);
                    }
                }
                self.position = m as i64;
            }
        } else {
            let bound: i128 = self.scale as i128;
            let clamped: i128 = if m > bound {
                bound
            } else if m < -bound {
                -bound
            } else {
                m
            };
            proof {
                assert(clamped == Axis::clamped(self.moved(ms), self.scale as int));
            }
            self.position = clamped as i64;
        }
    }
}

impl Default for Axis {
    /// The axis every fresh binding starts from.
    fn default() -> (a: Axis)
        ensures
            a == Axis::spec_default(),
    {
        Axis { position: 0, velocity: None, falling: false, scale: DEFAULT_SCALE }
    }
}

/// A tick without velocity and without a falling phase keeps the
/// position of an axis that sits in its nominal range.
pub proof fn lemma_idle_tick_keeps_position(a: Axis, ms: u64)
    requires
        a.velocity is None,
        !a.falling,
        -(a.scale as int) <= a.position <= a.scale as int,
    ensures
        a.ticked(ms) == a,
{
}

/// A frame never drives an axis out of its nominal range: a
/// non-falling tick clamps into it, and a falling tick moves toward
/// zero or settles there.
pub proof fn lemma_tick_keeps_nominal_range(a: Axis, ms: u64)
    requires
        -(a.scale as int) <= a.position <= a.scale as int,
    ensures
        -(a.scale as int) <= a.ticked(ms).position <= a.scale as int,
{
    if a.falling {
        let m = a.moved(ms);
        if a.position > 0 {
            assert(a.dx() == -1);
            assert(m == a.position - ms);
            if !(a.dx() * m >= 0) {
                assert(0 <= m <= a.position);
            }
        } else {
            assert(a.dx() == 1);
            assert(m == a.position + ms);
            if !(a.dx() * m >= 0) {
                assert(a.position <= m <= 0);
            }
        }
    }
}

/// A fall request in the direction the axis is already moving starts
/// the falling phase and ends velocity-driven motion; any other fall
/// request leaves both untouched.
pub proof fn lemma_fall_trigger_gating(a: Axis, d: Direction)
    ensures
        a.velocity == Some(d) ==> a.applied(AxisChange::Falling(d)) == (Axis {
            velocity: None,
            falling: true,
            ..a
        }),
        a.velocity != Some(d) ==> a.applied(AxisChange::Falling(d)) == (Axis {
            falling: false,
            ..a
        }),
{
}

} // verus!
