//! Orientations, placements and the rotation of one cubie about an axis.
//!
//! An orientation is held as the images of the cubie's three local axes.
//! Turning a cubie turns each of the three images, which is the product of
//! the turn with the orientation.

use vstd::prelude::*;
use crate::geometry::{
    Axis, Direction, Point, lemma_four_turns, lemma_turn_keeps_cross, lemma_turn_keeps_dot,
    lemma_turn_of_direction, lemma_turn_round_trip,
};
use crate::position::Position;

verus! {

/// The facing of a cubie: where its local X, Y and Z axes point.
#[derive(Clone, Copy, Debug, PartialEq, Eq, Structural)]
pub struct Orientation {
    pub x_axis: Direction,
    pub y_axis: Direction,
    pub z_axis: Direction,
}

/// Where a cubie is and how it faces.
#[derive(Clone, Copy, Debug, PartialEq, Eq)]
pub struct Placement {
    pub position: Position,
    pub orientation: Orientation,
}

/// The mathematical model of a placement.
pub struct Pose {
    pub position: Point,
    pub orientation: Orientation,
}

impl View for Placement {
    type V = Pose;

    open spec fn view(&self) -> Pose {
        Pose { position: self.position@, orientation: self.orientation }
    }
}

impl Orientation {
    /// The facing of a cubie that has not been turned.
    pub open spec fn upright() -> Orientation {
        Orientation {
            x_axis: Direction { axis: Axis::X, positive: true },
            y_axis: Direction { axis: Axis::Y, positive: true },
            z_axis: Direction { axis: Axis::Z, positive: true },
        }
    }

    /// The orientation after the quarter turn about `about`: each local axis
    /// is turned.
    pub open spec fn turn(self, about: Direction) -> Orientation {
        Orientation {
            x_axis: self.x_axis.turn(about),
            y_axis: self.y_axis.turn(about),
            z_axis: self.z_axis.turn(about),
        }
    }

    /// Whether the three images form a right-handed orthonormal frame, that
    /// is whether the orientation is a rotation of the upright one.
    #[verifier::opaque]
    pub open spec fn is_rotation(self) -> bool {
        &&& self.x_axis.unit().dot(self.y_axis.unit()) == 0
        &&& self.x_axis.unit().cross(self.y_axis.unit()) == self.z_axis.unit()
    }

    /// Gives the facing of a cubie that has not been turned.
    pub fn identity() -> (r: Orientation)
        ensures
            r == Orientation::upright(),
            r.is_rotation(),
    {
        proof {
            reveal(Orientation::is_rotation);
        }
        Orientation {
            x_axis: Direction { axis: Axis::X, positive: true },
            y_axis: Direction { axis: Axis::Y, positive: true },
            z_axis: Direction { axis: Axis::Z, positive: true },
        }
    }

    /// Computes the orientation after the quarter turn about `about`.
    pub fn turned(&self, about: Direction) -> (r: Orientation)
        ensures
            r == self.turn(about),
    {
        Orientation {
            x_axis: self.x_axis.turned(about),
            y_axis: self.y_axis.turned(about),
            z_axis: self.z_axis.turned(about),
        }
    }
}

impl Pose {
    /// The pose after the quarter turn about `about` through the origin:
    /// the position is turned about the origin and the turn is applied to
    /// the orientation.
    pub open spec fn quarter_turn(self, about: Direction) -> Pose {
        Pose {
            position: self.position.quarter_turn(about),
            orientation: self.orientation.turn(about),
        }
    }
}

impl Placement {
    /// Computes the placement after the quarter turn about `about` through
    /// the origin.
    pub fn rotated(&self, about: Direction) -> (r: Placement)
        ensures
            r@ == self@.quarter_turn(about),
    {
        Placement {
            position: self.position.rotated(about),
            orientation: self.orientation.turned(about),
        }
    }
}

/// The rotation of one cubie by a quarter turn about `axis` through the
/// origin, from the placement `org` that it had before the move.
///
/// The angle runs from zero to a right angle in the positive sense about
/// `axis`. Every instant of the rotation is derived from `org`, never from
/// the instant before, so that nothing accumulates.
#[derive(Clone, Copy, Debug, PartialEq, Eq)]
pub struct RotatePlane {
    /// The signed axis of rotation.
    pub axis: Direction,
    /// The placement before the move.
    pub org: Placement,
}

impl RotatePlane {
    /// The pose at the end of the rotation.
    pub open spec fn target(self) -> Pose {
        self.org@.quarter_turn(self.axis)
    }

    /// The placement at the start of the rotation, at angle zero.
    pub fn start(&self) -> (r: Placement)
        ensures
            r == self.org,
    {
        self.org
    }

    /// The placement at the end of the rotation, at a right angle.
    pub fn end(&self) -> (r: Placement)
        ensures
            r@ == self.target(),
    {
        self.org.rotated(self.axis)
    }
}

/// Turning a direction and then turning it back about the same axis
/// restores it.
pub proof fn lemma_direction_round_trip(d: Direction, about: Direction)
    ensures
        d.turn(about).turn(about.opposite()) == d,
        d.turn(about.opposite()).turn(about) == d,
{
}

/// Four turns of a direction in the same sense restore it.
pub proof fn lemma_direction_four_turns(d: Direction, about: Direction)
    ensures
        d.turn(about).turn(about).turn(about).turn(about) == d,
{
}

/// A quarter turn followed by the quarter turn in the opposite sense about
/// the same axis restores position and orientation.
pub proof fn lemma_pose_round_trip(p: Pose, about: Direction)
    ensures
        p.quarter_turn(about).quarter_turn(about.opposite()) == p,
        p.quarter_turn(about.opposite()).quarter_turn(about) == p,
{
    lemma_turn_round_trip(p.position, about);
    lemma_direction_round_trip(p.orientation.x_axis, about);
    lemma_direction_round_trip(p.orientation.y_axis, about);
    lemma_direction_round_trip(p.orientation.z_axis, about);
}

/// Four quarter turns in the same sense about the same axis restore
/// position and orientation.
pub proof fn lemma_pose_four_turns(p: Pose, about: Direction)
    ensures
        p.quarter_turn(about).quarter_turn(about).quarter_turn(about).quarter_turn(about) == p,
{
    lemma_four_turns(p.position, about);
    lemma_direction_four_turns(p.orientation.x_axis, about);
    lemma_direction_four_turns(p.orientation.y_axis, about);
    lemma_direction_four_turns(p.orientation.z_axis, about);
}

/// A quarter turn of a rotation is a rotation: a cubie that faces one of
/// the twenty-four ways of a cube still does after any move.
pub proof fn lemma_turn_keeps_rotation(o: Orientation, about: Direction)
    requires
        o.is_rotation(),
    ensures
        o.turn(about).is_rotation(),
{
    reveal(Orientation::is_rotation);
    lemma_turn_of_direction(o.x_axis, about);
    lemma_turn_of_direction(o.y_axis, about);
    lemma_turn_of_direction(o.z_axis, about);
    lemma_turn_keeps_dot(o.x_axis.unit(), o.y_axis.unit(), about);
    lemma_turn_keeps_cross(o.x_axis.unit(), o.y_axis.unit(), about);
}

} // verus!
