//! What a completed move does to the cubies, and what it leaves as it was.

use vstd::prelude::*;
use crate::classifier::Cubie;
use crate::geometry::{
    Axis, Direction, Point, lemma_quarter_turn_components, lemma_turn_keeps_axis_coordinate,
};
use crate::moves::Move;
use crate::placement::{lemma_pose_four_turns, lemma_pose_round_trip, lemma_turn_keeps_rotation};
use crate::position::{UNIT, lemma_nearest_unit_of_whole, nearest_unit};
use crate::rest::{is_lattice_point, rest_configuration};

verus! {

/// The cubies after a move has completed: each cubie of the layer has been
/// turned by a quarter turn about the direction of the move, through the
/// origin; the others are as they were.
pub open spec fn apply_move(cubies: Seq<Cubie>, mv: Move) -> Seq<Cubie> {
    Seq::new(
        cubies.len(),
        |i: int|
            if cubies[i].layer_key(mv.direction.axis) == mv.layer {
                Cubie { node: cubies[i].node, pose: cubies[i].pose.quarter_turn(mv.direction) }
            } else {
                cubies[i]
            },
    )
}

/// Whether every coordinate of the point is a whole number of units.
pub open spec fn is_aligned(p: Point) -> bool {
    p.x % (UNIT as int) == 0 && p.y % (UNIT as int) == 0 && p.z % (UNIT as int) == 0
}

/// A move changes no cubie's layer along the axis of the move: the cubies
/// that it turns are the cubies of the same layer afterwards.
pub proof fn lemma_move_keeps_layer(cubies: Seq<Cubie>, mv: Move, i: int)
    requires
        0 <= i < cubies.len(),
    ensures
        apply_move(cubies, mv)[i].layer_key(mv.direction.axis) == cubies[i].layer_key(
            mv.direction.axis,
        ),
        apply_move(cubies, mv)[i].node == cubies[i].node,
{
    lemma_turn_keeps_axis_coordinate(cubies[i].pose.position, mv.direction);
}

/// Round trip: a move followed by its inverse restores the position and the
/// orientation of every cubie.
pub proof fn lemma_move_round_trip(cubies: Seq<Cubie>, mv: Move)
    ensures
        apply_move(apply_move(cubies, mv), mv.inverse()) == cubies,
        apply_move(apply_move(cubies, mv.inverse()), mv) == cubies,
{
    let there = apply_move(cubies, mv);
    let back = apply_move(cubies, mv.inverse());
    assert forall|i: int| 0 <= i < cubies.len() implies apply_move(there, mv.inverse())[i]
        == cubies[i] && apply_move(back, mv)[i] == cubies[i] by {
        lemma_move_keeps_layer(cubies, mv, i);
        lemma_move_keeps_layer(cubies, mv.inverse(), i);
        lemma_pose_round_trip(cubies[i].pose, mv.direction);
    }
    assert(apply_move(there, mv.inverse()) =~= cubies);
    assert(apply_move(back, mv) =~= cubies);
}

/// Closure: the same move four times restores the position and the
/// orientation of every cubie.
pub proof fn lemma_move_four_times(cubies: Seq<Cubie>, mv: Move)
    ensures
        apply_move(apply_move(apply_move(apply_move(cubies, mv), mv), mv), mv) == cubies,
{
    let once = apply_move(cubies, mv);
    let twice = apply_move(once, mv);
    let thrice = apply_move(twice, mv);
    assert forall|i: int| 0 <= i < cubies.len() implies apply_move(thrice, mv)[i]
        == cubies[i] by {
        lemma_move_keeps_layer(cubies, mv, i);
        lemma_move_keeps_layer(once, mv, i);
        lemma_move_keeps_layer(twice, mv, i);
        lemma_pose_four_turns(cubies[i].pose, mv.direction);
    }
    assert(apply_move(thrice, mv) =~= cubies);
}

/// Whether every cubie lies on whole units.
pub open spec fn all_aligned(cubies: Seq<Cubie>) -> bool {
    forall|i: int| 0 <= i < cubies.len() ==> is_aligned(#[trigger] cubies[i].pose.position)
}

/// Settling: where every cubie lies on whole units before a move, every
/// cubie lies on whole units after it, and classifying it again gives each
/// coordinate exactly, with nothing left over.
pub proof fn lemma_move_keeps_alignment(cubies: Seq<Cubie>, mv: Move)
    requires
        all_aligned(cubies),
    ensures
        all_aligned(apply_move(cubies, mv)),
        forall|i: int, axis: Axis|
            0 <= i < cubies.len() ==> #[trigger] apply_move(cubies, mv)[i].layer_key(axis) * UNIT
                == apply_move(cubies, mv)[i].pose.position.coordinate(axis),
{
    let after = apply_move(cubies, mv);
    assert forall|i: int| 0 <= i < after.len() implies is_aligned(
        #[trigger] after[i].pose.position,
    ) by {
        let p = cubies[i].pose.position;
        assert(is_aligned(p));
        lemma_turn_keeps_alignment(p, mv.direction);
    }
    assert forall|i: int, axis: Axis| 0 <= i < cubies.len() implies #[trigger] after[i].layer_key(
        axis,
    ) * UNIT == after[i].pose.position.coordinate(axis) by {
        assert(is_aligned(after[i].pose.position));
        lemma_aligned_coordinate(after[i].pose.position.coordinate(axis));
    }
}

/// A quarter turn takes a point on whole units to a point on whole units.
pub proof fn lemma_turn_keeps_alignment(p: Point, about: Direction)
    requires
        is_aligned(p),
    ensures
        is_aligned(p.quarter_turn(about)),
{
    lemma_quarter_turn_components(p, about);
    lemma_aligned_negation(p.x);
    lemma_aligned_negation(p.y);
    lemma_aligned_negation(p.z);
}

/// The negative of a whole number of units is a whole number of units.
proof fn lemma_aligned_negation(c: int)
    requires
        c % (UNIT as int) == 0,
    ensures
        (-c) % (UNIT as int) == 0,
{
}

/// A whole number of units rounds to itself.
proof fn lemma_aligned_coordinate(c: int)
    requires
        c % (UNIT as int) == 0,
    ensures
        nearest_unit(c) * UNIT == c,
{
    let k = c / (UNIT as int);
    assert(c == k * UNIT);
    lemma_nearest_unit_of_whole(k);
}

/// A move keeps every cubie that faces one of the twenty-four ways of a
/// cube facing one of them.
pub proof fn lemma_move_keeps_rotations(cubies: Seq<Cubie>, mv: Move, i: int)
    requires
        0 <= i < cubies.len(),
        cubies[i].pose.orientation.is_rotation(),
    ensures
        apply_move(cubies, mv)[i].pose.orientation.is_rotation(),
{
    lemma_turn_keeps_rotation(cubies[i].pose.orientation, mv.direction);
}

/// A move takes the puzzle at rest to the puzzle at rest: afterwards the
/// twenty-seven cubies again lie one on each point of the lattice.
pub proof fn lemma_move_keeps_rest(cubies: Seq<Cubie>, mv: Move)
    requires
        rest_configuration(cubies),
    ensures
        rest_configuration(apply_move(cubies, mv)),
{
    let after = apply_move(cubies, mv);
    assert forall|i: int| 0 <= i < after.len() implies is_lattice_point(
        #[trigger] after[i].pose.position,
    ) by {
        assert(is_lattice_point(cubies[i].pose.position));
        lemma_quarter_turn_components(cubies[i].pose.position, mv.direction);
    }
    assert forall|i: int, j: int| 0 <= i < j < after.len() implies after[i].pose.position
        != after[j].pose.position by {
        assert(cubies[i].pose.position != cubies[j].pose.position);
        lemma_quarter_turn_components(cubies[i].pose.position, mv.direction);
        lemma_quarter_turn_components(cubies[j].pose.position, mv.direction);
        lemma_move_keeps_layer(cubies, mv, i);
        lemma_move_keeps_layer(cubies, mv, j);
        if after[i].pose.position == after[j].pose.position {
            assert(after[i].layer_key(mv.direction.axis) == after[j].layer_key(mv.direction.axis));
        }
    }
}

} // verus!
