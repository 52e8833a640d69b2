//! Axes, signed directions, integer points and exact quarter turns.
//!
//! A quarter turn about a signed axis `u` sends a point `v` to
//! `u (u . v) + u x v`, the rotation by a right angle in the positive sense
//! about `u` through the origin. On integer points this is exact, so a
//! sequence of moves never accumulates rounding error.

use vstd::prelude::*;

verus! {

/// One of the three coordinate axes.
#[derive(Clone, Copy, Debug, PartialEq, Eq, Structural)]
pub enum Axis {
    X,
    Y,
    Z,
}

/// A signed coordinate axis: one of the six axis-aligned unit vectors.
///
/// The sign carries the sense of a rotation about the axis: a positive angle
/// about `-Z` is a negative angle about `+Z`.
#[derive(Clone, Copy, Debug, PartialEq, Eq, Structural)]
pub struct Direction {
    pub axis: Axis,
    pub positive: bool,
}

/// A point of integer space: the mathematical model of a position or of a
/// unit vector.
pub struct Point {
    pub x: int,
    pub y: int,
    pub z: int,
}

impl Axis {
    /// The axis that follows `self` in the cyclic order X, Y, Z, X.
    pub open spec fn next(self) -> Axis {
        match self {
            Axis::X => Axis::Y,
            Axis::Y => Axis::Z,
            Axis::Z => Axis::X,
        }
    }

    /// The unit vector along the axis.
    pub open spec fn unit(self) -> Point {
        match self {
            Axis::X => Point { x: 1, y: 0, z: 0 },
            Axis::Y => Point { x: 0, y: 1, z: 0 },
            Axis::Z => Point { x: 0, y: 0, z: 1 },
        }
    }

    /// Computes the axis that follows `self` in the cyclic order X, Y, Z, X.
    pub fn successor(self) -> (r: Axis)
        ensures
            r == self.next(),
    {
        match self {
            Axis::X => Axis::Y,
            Axis::Y => Axis::Z,
            Axis::Z => Axis::X,
        }
    }
}

impl Point {
    /// The component along `axis`.
    pub open spec fn coordinate(self, axis: Axis) -> int {
        match axis {
            Axis::X => self.x,
            Axis::Y => self.y,
            Axis::Z => self.z,
        }
    }

    /// The scalar product.
    pub open spec fn dot(self, other: Point) -> int {
        self.x * other.x + self.y * other.y + self.z * other.z
    }

    /// The vector product, right-handed.
    pub open spec fn cross(self, other: Point) -> Point {
        Point {
            x: self.y * other.z - self.z * other.y,
            y: self.z * other.x - self.x * other.z,
            z: self.x * other.y - self.y * other.x,
        }
    }

    /// The componentwise sum.
    pub open spec fn plus(self, other: Point) -> Point {
        Point { x: self.x + other.x, y: self.y + other.y, z: self.z + other.z }
    }

    /// The multiple of the vector by `k`.
    pub open spec fn scaled(self, k: int) -> Point {
        Point { x: k * self.x, y: k * self.y, z: k * self.z }
    }

    /// The image of the point under the quarter turn about `about` through
    /// the origin: with `u` the unit vector of `about`, `u (u . v) + u x v`.
    pub open spec fn quarter_turn(self, about: Direction) -> Point {
        let u = about.unit();
        u.scaled(u.dot(self)).plus(u.cross(self))
    }
}

impl Direction {
    /// The unit vector that the direction stands for.
    pub open spec fn unit(self) -> Point {
        if self.positive {
            self.axis.unit()
        } else {
            self.axis.unit().scaled(-1)
        }
    }

    /// The same axis with the other sign.
    pub open spec fn opposite(self) -> Direction {
        Direction { axis: self.axis, positive: !self.positive }
    }

    /// The image of the direction under the quarter turn about `about`.
    ///
    /// A direction along the axis of rotation stays. The axis that follows
    /// the axis of rotation goes to the one after it and keeps its sign under
    /// a positive turn; the remaining axis goes to the one before it and
    /// changes its sign under a positive turn.
    pub open spec fn turn(self, about: Direction) -> Direction {
        if self.axis == about.axis {
            self
        } else if self.axis == about.axis.next() {
            Direction { axis: self.axis.next(), positive: self.positive == about.positive }
        } else {
            Direction { axis: about.axis.next(), positive: self.positive != about.positive }
        }
    }

    /// Computes the same axis with the other sign.
    pub fn reversed(self) -> (r: Direction)
        ensures
            r == self.opposite(),
    {
        Direction { axis: self.axis, positive: !self.positive }
    }

    /// Computes the image of the direction under the quarter turn about
    /// `about`.
    pub fn turned(self, about: Direction) -> (r: Direction)
        ensures
            r == self.turn(about),
            r.unit() == self.unit().quarter_turn(about),
    {
        proof {
            lemma_turn_of_direction(self, about);
        }
        if self.axis == about.axis {
            self
        } else if self.axis == about.axis.successor() {
            Direction { axis: self.axis.successor(), positive: self.positive == about.positive }
        } else {
            Direction { axis: about.axis.successor(), positive: self.positive != about.positive }
        }
    }
}

/// The quarter turn written out by components, for each of the six
/// directions.
pub proof fn lemma_quarter_turn_components(p: Point, about: Direction)
    ensures
        p.quarter_turn(about) == match (about.axis, about.positive) {
            (Axis::X, true) => Point { x: p.x, y: -p.z, z: p.y },
            (Axis::X, false) => Point { x: p.x, y: p.z, z: -p.y },
            (Axis::Y, true) => Point { x: p.z, y: p.y, z: -p.x },
            (Axis::Y, false) => Point { x: -p.z, y: p.y, z: p.x },
            (Axis::Z, true) => Point { x: -p.y, y: p.x, z: p.z },
            (Axis::Z, false) => Point { x: p.y, y: -p.x, z: p.z },
        },
{
    let u = about.unit();
    let k = u.dot(p);
    lemma_unit_product(u.x, p.x);
    lemma_unit_product(u.x, p.y);
    lemma_unit_product(u.x, p.z);
    lemma_unit_product(u.y, p.x);
    lemma_unit_product(u.y, p.y);
    lemma_unit_product(u.y, p.z);
    lemma_unit_product(u.z, p.x);
    lemma_unit_product(u.z, p.y);
    lemma_unit_product(u.z, p.z);
    lemma_unit_product(u.x, k);
    lemma_unit_product(u.y, k);
    lemma_unit_product(u.z, k);
}

/// Products with a factor of -1, 0 or 1.
proof fn lemma_unit_product(a: int, b: int)
    requires
        -1 <= a <= 1,
    ensures
        a * b == (if a == 0 {
            0
        } else if a == 1 {
            b
        } else {
            -b
        }),
        b * a == a * b,
{
    assert(a * b == (if a == 0 {
        0
    } else if a == 1 {
        b
    } else {
        -b
    })) by (nonlinear_arith)
        requires
            -1 <= a <= 1,
    ;
    assert(b * a == a * b) by (nonlinear_arith);
}

/// A quarter turn leaves the coordinate along its own axis as it is.
pub proof fn lemma_turn_keeps_axis_coordinate(p: Point, about: Direction)
    ensures
        p.quarter_turn(about).coordinate(about.axis) == p.coordinate(about.axis),
{
    lemma_quarter_turn_components(p, about);
}

/// A quarter turn followed by the quarter turn in the opposite sense about
/// the same axis restores every point.
pub proof fn lemma_turn_round_trip(p: Point, about: Direction)
    ensures
        p.quarter_turn(about).quarter_turn(about.opposite()) == p,
        p.quarter_turn(about.opposite()).quarter_turn(about) == p,
{
    lemma_quarter_turn_components(p, about);
    lemma_quarter_turn_components(p, about.opposite());
    lemma_quarter_turn_components(p.quarter_turn(about), about.opposite());
    lemma_quarter_turn_components(p.quarter_turn(about.opposite()), about);
}

/// Four quarter turns in the same sense about the same axis restore every
/// point.
pub proof fn lemma_four_turns(p: Point, about: Direction)
    ensures
        p.quarter_turn(about).quarter_turn(about).quarter_turn(about).quarter_turn(about) == p,
{
    let once = p.quarter_turn(about);
    let twice = once.quarter_turn(about);
    let thrice = twice.quarter_turn(about);
    lemma_quarter_turn_components(p, about);
    lemma_quarter_turn_components(once, about);
    lemma_quarter_turn_components(twice, about);
    lemma_quarter_turn_components(thrice, about);
}

/// A quarter turn keeps scalar products, and with them lengths and angles.
pub proof fn lemma_turn_keeps_dot(p: Point, q: Point, about: Direction)
    ensures
        p.quarter_turn(about).dot(q.quarter_turn(about)) == p.dot(q),
{
    lemma_quarter_turn_components(p, about);
    lemma_quarter_turn_components(q, about);
    lemma_signed_products(p.x, q.x);
    lemma_signed_products(p.y, q.y);
    lemma_signed_products(p.z, q.z);
}

/// A quarter turn carries vector products along: the turn of a product is
/// the product of the turns.
pub proof fn lemma_turn_keeps_cross(p: Point, q: Point, about: Direction)
    ensures
        p.quarter_turn(about).cross(q.quarter_turn(about)) == p.cross(q).quarter_turn(about),
{
    lemma_quarter_turn_components(p, about);
    lemma_quarter_turn_components(q, about);
    lemma_quarter_turn_components(p.cross(q), about);
    lemma_signed_products(p.x, q.y);
    lemma_signed_products(p.x, q.z);
    lemma_signed_products(p.y, q.x);
    lemma_signed_products(p.y, q.z);
    lemma_signed_products(p.z, q.x);
    lemma_signed_products(p.z, q.y);
}

/// How a product follows the signs of its factors.
proof fn lemma_signed_products(a: int, b: int)
    ensures
        (-a) * b == -(a * b),
        a * (-b) == -(a * b),
        (-a) * (-b) == a * b,
{
    assert((-a) * b == -(a * b)) by (nonlinear_arith);
    assert(a * (-b) == -(a * b)) by (nonlinear_arith);
    assert((-a) * (-b) == a * b) by (nonlinear_arith);
}

/// The turn of a direction is the quarter turn of its unit vector.
pub proof fn lemma_turn_of_direction(d: Direction, about: Direction)
    ensures
        d.turn(about).unit() == d.unit().quarter_turn(about),
{
    lemma_quarter_turn_components(d.unit(), about);
}

} // verus!
