//! Fixed-point positions and the rounding that assigns them to layers.
//!
//! A coordinate is a whole number of thousandths of a lattice unit: the
//! cubie at rest two units along an axis has the coordinate `2 * UNIT`. The
//! layer of a coordinate is the nearest whole number of units, and a
//! coordinate exactly halfway between two of them belongs to the one farther
//! from zero.

use vstd::prelude::*;
use crate::geometry::{Axis, Direction, Point, lemma_quarter_turn_components};

verus! {

/// The number of fixed-point steps in one lattice unit.
pub const UNIT: i32 = 1000;

/// Half a lattice unit, in fixed-point steps.
pub const HALF_UNIT: i32 = 500;

/// Whether `k` is the whole number of units nearest to the fixed-point
/// coordinate `c`, with a tie resolved away from zero.
pub open spec fn is_nearest_unit(c: int, k: int) -> bool {
    if c >= 0 {
        -HALF_UNIT <= c - k * UNIT < HALF_UNIT
    } else {
        -HALF_UNIT < c - k * UNIT <= HALF_UNIT
    }
}

/// The whole number of units nearest to the fixed-point coordinate `c`,
/// with a tie resolved away from zero.
pub open spec fn nearest_unit(c: int) -> int {
    if c >= 0 {
        (c + HALF_UNIT) / (UNIT as int)
    } else {
        -((HALF_UNIT - c) / (UNIT as int))
    }
}

/// `nearest_unit` is the one number that `is_nearest_unit` accepts.
pub proof fn lemma_nearest_unit_is_nearest(c: int, k: int)
    ensures
        is_nearest_unit(c, k) <==> k == nearest_unit(c),
{
    let n = nearest_unit(c);
    assert(is_nearest_unit(c, n));
    if is_nearest_unit(c, k) {
        assert(k == n) by (nonlinear_arith)
            requires
                is_nearest_unit(c, k),
                is_nearest_unit(c, n),
                UNIT == 1000,
                HALF_UNIT == 500,
        ;
    }
}

/// A whole number of units is its own nearest unit: a coordinate that lies
/// on the lattice is classified without residue.
pub proof fn lemma_nearest_unit_of_whole(k: int)
    ensures
        nearest_unit(k * UNIT) == k,
{
    lemma_nearest_unit_is_nearest(k * UNIT, k);
}

/// A position in fixed point. Every coordinate is greater than `i32::MIN`,
/// so that a position can be turned without overflow.
#[derive(Clone, Copy, Debug, PartialEq, Eq)]
pub struct Position {
    x: i32,
    y: i32,
    z: i32,
}

impl View for Position {
    type V = Point;

    closed spec fn view(&self) -> Point {
        Point { x: self.x as int, y: self.y as int, z: self.z as int }
    }
}

/// Whether a coordinate can be held by a `Position`.
pub open spec fn coordinate_in_range(c: int) -> bool {
    i32::MIN < c <= i32::MAX
}

impl Position {
    /// No coordinate is `i32::MIN`.
    #[verifier::type_invariant]
    spec fn in_range(self) -> bool {
        &&& coordinate_in_range(self.x as int)
        &&& coordinate_in_range(self.y as int)
        &&& coordinate_in_range(self.z as int)
    }

    /// The position with the given fixed-point coordinates, or `None` where
    /// one of them is `i32::MIN`.
    pub fn new(x: i32, y: i32, z: i32) -> (r: Option<Position>)
        ensures
            r is Some <==> x > i32::MIN && y > i32::MIN && z > i32::MIN,
            r is Some ==> r->0@ == (Point { x: x as int, y: y as int, z: z as int }),
    {
        if x > i32::MIN && y > i32::MIN && z > i32::MIN {
            Some(Position { x, y, z })
        } else {
            None
        }
    }

    /// The position at a whole number of lattice units along each axis.
    pub fn at_lattice(x: i8, y: i8, z: i8) -> (r: Position)
        ensures
            r@ == (Point { x: x * UNIT, y: y * UNIT, z: z * UNIT }),
    {
        Position { x: x as i32 * UNIT, y: y as i32 * UNIT, z: z as i32 * UNIT }
    }

    /// The fixed-point coordinate along `axis`.
    pub fn coordinate(&self, axis: Axis) -> (c: i32)
        ensures
            c == self@.coordinate(axis),
            coordinate_in_range(c as int),
    {
        proof {
            use_type_invariant(self);
        }
        match axis {
            Axis::X => self.x,
            Axis::Y => self.y,
            Axis::Z => self.z,
        }
    }

    /// The layer of the position along `axis`: its coordinate rounded to
    /// the nearest whole unit, a tie going away from zero.
    pub fn layer_key(&self, axis: Axis) -> (k: i32)
        ensures
            k == nearest_unit(self@.coordinate(axis)),
    {
        let c: i32 = self.coordinate(axis);
        if c >= 0 {
            let whole: i32 = c / UNIT;
            let rest: i32 = c % UNIT;
            if rest >= HALF_UNIT {
                whole + 1
            } else {
                whole
            }
        } else {
            let m: i32 = -c;
            let whole: i32 = m / UNIT;
            let rest: i32 = m % UNIT;
            if rest >= HALF_UNIT {
                -(whole + 1)
            } else {
                -whole
            }
        }
    }

    /// The position after the quarter turn about `about` through the origin.
    pub fn rotated(&self, about: Direction) -> (r: Position)
        ensures
            r@ == self@.quarter_turn(about),
    {
        proof {
            use_type_invariant(self);
            lemma_quarter_turn_components(self@, about);
        }
        match (about.axis, about.positive) {
            (Axis::X, true) => Position { x: self.x, y: -self.z, z: self.y },
            (Axis::X, false) => Position { x: self.x, y: self.z, z: -self.y },
            (Axis::Y, true) => Position { x: self.z, y: self.y, z: -self.x },
            (Axis::Y, false) => Position { x: -self.z, y: self.y, z: self.x },
            (Axis::Z, true) => Position { x: -self.y, y: self.x, z: self.z },
            (Axis::Z, false) => Position { x: self.y, y: -self.x, z: self.z },
        }
    }
}

} // verus!
