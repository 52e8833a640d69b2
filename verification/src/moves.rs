//! The move table: which layer an input symbol turns, and which way.
//!
//! Twelve symbols are assigned: the three layers of the Z axis and the three
//! layers of the Y axis, each in both senses. The sense is the sign of the
//! axis, so every move is a quarter turn in the positive sense about its
//! direction. No symbol turns a layer of the X axis.

use vstd::prelude::*;
use crate::geometry::{Axis, Direction};

verus! {

/// An input symbol. `Other` stands for every symbol outside the alphabet of
/// the move table.
#[derive(Clone, Copy, Debug, PartialEq, Eq, Structural)]
pub enum Symbol {
    U,
    I,
    O,
    J,
    K,
    L,
    W,
    S,
    X,
    R,
    F,
    V,
    Other,
}

/// A quarter turn of one layer: the layer of cubies whose coordinate along
/// the axis of `direction` rounds to `layer`, turned in the positive sense
/// about `direction`.
#[derive(Clone, Copy, Debug, PartialEq, Eq, Structural)]
pub struct Move {
    pub direction: Direction,
    pub layer: i32,
}

/// The layer at the negative end of an axis.
pub const LOW_LAYER: i32 = -2;

/// The layer through the origin.
pub const MIDDLE_LAYER: i32 = 0;

/// The layer at the positive end of an axis.
pub const HIGH_LAYER: i32 = 2;

/// Whether `layer` is one of the three layers of the puzzle.
pub open spec fn is_lattice_layer(layer: int) -> bool {
    layer == LOW_LAYER || layer == MIDDLE_LAYER || layer == HIGH_LAYER
}

impl Move {
    /// The move that undoes `self`: the same layer about the opposite
    /// direction.
    pub open spec fn inverse(self) -> Move {
        Move { direction: self.direction.opposite(), layer: self.layer }
    }

    /// Computes the move that undoes `self`.
    pub fn inverted(self) -> (r: Move)
        ensures
            r == self.inverse(),
    {
        Move { direction: self.direction.reversed(), layer: self.layer }
    }
}

/// The move table.
pub open spec fn move_table(symbol: Symbol) -> Option<Move> {
    match symbol {
        Symbol::U => Some(Move { direction: Direction { axis: Axis::Z, positive: true }, layer: LOW_LAYER }),
        Symbol::I => Some(Move { direction: Direction { axis: Axis::Z, positive: true }, layer: MIDDLE_LAYER }),
        Symbol::O => Some(Move { direction: Direction { axis: Axis::Z, positive: true }, layer: HIGH_LAYER }),
        Symbol::J => Some(Move { direction: Direction { axis: Axis::Z, positive: false }, layer: LOW_LAYER }),
        Symbol::K => Some(Move { direction: Direction { axis: Axis::Z, positive: false }, layer: MIDDLE_LAYER }),
        Symbol::L => Some(Move { direction: Direction { axis: Axis::Z, positive: false }, layer: HIGH_LAYER }),
        Symbol::W => Some(Move { direction: Direction { axis: Axis::Y, positive: true }, layer: HIGH_LAYER }),
        Symbol::S => Some(Move { direction: Direction { axis: Axis::Y, positive: true }, layer: MIDDLE_LAYER }),
        Symbol::X => Some(Move { direction: Direction { axis: Axis::Y, positive: true }, layer: LOW_LAYER }),
        Symbol::R => Some(Move { direction: Direction { axis: Axis::Y, positive: false }, layer: HIGH_LAYER }),
        Symbol::F => Some(Move { direction: Direction { axis: Axis::Y, positive: false }, layer: MIDDLE_LAYER }),
        Symbol::V => Some(Move { direction: Direction { axis: Axis::Y, positive: false }, layer: LOW_LAYER }),
        Symbol::Other => None,
    }
}

/// Looks a symbol up in the move table. A symbol that the table does not
/// hold resolves to nothing.
pub fn resolve(symbol: Symbol) -> (m: Option<Move>)
    ensures
        m == move_table(symbol),
{
    let up_z = Direction { axis: Axis::Z, positive: true };
    let down_z = Direction { axis: Axis::Z, positive: false };
    let up_y = Direction { axis: Axis::Y, positive: true };
    let down_y = Direction { axis: Axis::Y, positive: false };
    match symbol {
        Symbol::U => Some(Move { direction: up_z, layer: LOW_LAYER }),
        Symbol::I => Some(Move { direction: up_z, layer: MIDDLE_LAYER }),
        Symbol::O => Some(Move { direction: up_z, layer: HIGH_LAYER }),
        Symbol::J => Some(Move { direction: down_z, layer: LOW_LAYER }),
        Symbol::K => Some(Move { direction: down_z, layer: MIDDLE_LAYER }),
        Symbol::L => Some(Move { direction: down_z, layer: HIGH_LAYER }),
        Symbol::W => Some(Move { direction: up_y, layer: HIGH_LAYER }),
        Symbol::S => Some(Move { direction: up_y, layer: MIDDLE_LAYER }),
        Symbol::X => Some(Move { direction: up_y, layer: LOW_LAYER }),
        Symbol::R => Some(Move { direction: down_y, layer: HIGH_LAYER }),
        Symbol::F => Some(Move { direction: down_y, layer: MIDDLE_LAYER }),
        Symbol::V => Some(Move { direction: down_y, layer: LOW_LAYER }),
        Symbol::Other => None,
    }
}

/// Every symbol but `Other` resolves, and every move of the table turns one
/// of the three layers of the Y or of the Z axis.
pub proof fn lemma_table_moves(symbol: Symbol)
    ensures
        move_table(symbol) is Some <==> symbol != Symbol::Other,
        move_table(symbol) matches Some(m) ==> m.direction.axis != Axis::X && is_lattice_layer(
            m.layer as int,
        ),
{
}

/// The table holds every layer of the Y and of the Z axis in both senses.
pub proof fn lemma_table_is_complete(m: Move)
    requires
        m.direction.axis != Axis::X,
        is_lattice_layer(m.layer as int),
    ensures
        exists|symbol: Symbol| move_table(symbol) == Some(m),
{
    let symbol = match (m.direction.axis, m.direction.positive) {
        (Axis::Z, true) => if m.layer == LOW_LAYER {
            Symbol::U
        } else if m.layer == MIDDLE_LAYER {
            Symbol::I
        } else {
            Symbol::O
        },
        (Axis::Z, false) => if m.layer == LOW_LAYER {
            Symbol::J
        } else if m.layer == MIDDLE_LAYER {
            Symbol::K
        } else {
            Symbol::L
        },
        (_, true) => if m.layer == HIGH_LAYER {
            Symbol::W
        } else if m.layer == MIDDLE_LAYER {
            Symbol::S
        } else {
            Symbol::X
        },
        (_, false) => if m.layer == HIGH_LAYER {
            Symbol::R
        } else if m.layer == MIDDLE_LAYER {
            Symbol::F
        } else {
            Symbol::V
        },
    };
    assert(move_table(symbol) == Some(m));
}

/// No two symbols resolve to the same move.
pub proof fn lemma_table_is_injective(a: Symbol, b: Symbol)
    requires
        move_table(a) is Some,
        move_table(a) == move_table(b),
    ensures
        a == b,
{
}

/// The table holds the inverse of each of its moves.
pub proof fn lemma_table_holds_inverses(symbol: Symbol)
    requires
        move_table(symbol) is Some,
    ensures
        exists|back: Symbol| move_table(back) == Some(move_table(symbol)->0.inverse()),
{
    let m = move_table(symbol)->0;
    lemma_table_moves(symbol);
    lemma_table_is_complete(m.inverse());
}

} // verus!
