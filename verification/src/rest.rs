//! The puzzle at rest: twenty-seven cubies, one on each point of the lattice.
//!
//! At rest every layer of every axis holds nine cubies, and the three layers
//! of an axis share the twenty-seven among them.

use vstd::prelude::*;
use vstd::relations::injective_on;
use vstd::set_lib::*;
use crate::classifier::{
    Cubie, classifies, has_bucket, in_layer, is_layer, lemma_buckets_are_disjoint,
};
use crate::geometry::{Axis, Point};
use crate::moves::{HIGH_LAYER, LOW_LAYER, MIDDLE_LAYER, is_lattice_layer};
use crate::position::{UNIT, lemma_nearest_unit_of_whole};

verus! {

/// The number of cubies of the puzzle.
pub const CUBIES: usize = 27;

/// The number of cubies in one layer of the puzzle at rest.
pub const LAYER_SIZE: usize = 9;

/// Whether a fixed-point coordinate is that of one of the three layers.
pub open spec fn on_lattice(c: int) -> bool {
    c == LOW_LAYER * UNIT || c == MIDDLE_LAYER * UNIT || c == HIGH_LAYER * UNIT
}

/// Whether a point is one of the twenty-seven points of the lattice.
pub open spec fn is_lattice_point(p: Point) -> bool {
    on_lattice(p.x) && on_lattice(p.y) && on_lattice(p.z)
}

/// Whether the cubies are at rest: there are twenty-seven of them, each on a
/// point of the lattice and no two on the same.
pub open spec fn rest_configuration(cubies: Seq<Cubie>) -> bool {
    &&& cubies.len() == CUBIES
    &&& forall|i: int| 0 <= i < cubies.len() ==> is_lattice_point(#[trigger] cubies[i].pose.position)
    &&& forall|i: int, j: int|
        0 <= i < j < cubies.len() ==> cubies[i].pose.position != cubies[j].pose.position
}

/// The place of a lattice coordinate among the three layers: 0, 1 or 2.
spec fn digit(c: int) -> int {
    if c == LOW_LAYER * UNIT {
        0
    } else if c == MIDDLE_LAYER * UNIT {
        1
    } else {
        2
    }
}

/// The lattice coordinate at place `d` among the three layers.
spec fn level(d: int) -> int {
    (2 * d - 2) * UNIT
}

/// The number of a lattice point among the twenty-seven, counted so that
/// the points of one layer of `axis` are nine numbers in a row.
spec fn code(p: Point, axis: Axis) -> int {
    9 * digit(p.coordinate(axis)) + 3 * digit(p.coordinate(axis.next())) + digit(
        p.coordinate(axis.next().next()),
    )
}

/// The lattice point with the number `c`.
spec fn decode(c: int, axis: Axis) -> Point {
    let a = level(c / 9);
    let b = level((c / 3) % 3);
    let d = level(c % 3);
    match axis {
        Axis::X => Point { x: a, y: b, z: d },
        Axis::Y => Point { y: a, z: b, x: d },
        Axis::Z => Point { z: a, x: b, y: d },
    }
}

/// A lattice point has a number below twenty-seven, in the nine of its
/// layer, and is the point with that number.
proof fn lemma_code_of_lattice_point(p: Point, axis: Axis)
    requires
        is_lattice_point(p),
    ensures
        0 <= code(p, axis) < 27,
        9 * digit(p.coordinate(axis)) <= code(p, axis) < 9 * digit(p.coordinate(axis)) + 9,
        decode(code(p, axis), axis) == p,
{
}

/// Each number below twenty-seven is the number of a lattice point, whose
/// layer is given by the nine that the number lies in.
proof fn lemma_decode_is_lattice_point(c: int, axis: Axis)
    requires
        0 <= c < 27,
    ensures
        is_lattice_point(decode(c, axis)),
        code(decode(c, axis), axis) == c,
        decode(c, axis).coordinate(axis) == level(c / 9),
{
}

/// At rest every point of the lattice holds a cubie.
pub proof fn lemma_rest_fills_lattice(cubies: Seq<Cubie>, p: Point)
    requires
        rest_configuration(cubies),
        is_lattice_point(p),
    ensures
        exists|i: int| 0 <= i < cubies.len() && cubies[i].pose.position == p,
{
    let axis = Axis::X;
    let indices = set_int_range(0, 27);
    let numbers = set_int_range(0, 27);
    let number_of = |i: int| code(cubies[i].pose.position, axis);
    lemma_int_range(0, 27);
    assert forall|i: int, j: int|
        indices.contains(i) && indices.contains(j) && #[trigger] number_of(i) == #[trigger] number_of(
            j,
        ) implies i == j by {
        lemma_code_of_lattice_point(cubies[i].pose.position, axis);
        lemma_code_of_lattice_point(cubies[j].pose.position, axis);
    }
    assert(injective_on(number_of, indices));
    let image = indices.map(number_of);
    lemma_map_size(indices, image, number_of);
    assert forall|c: int| image.contains(c) implies numbers.contains(c) by {
        let i = choose|i: int| indices.contains(i) && c == number_of(i);
        lemma_code_of_lattice_point(cubies[i].pose.position, axis);
    }
    lemma_subset_equality(image, numbers);
    lemma_code_of_lattice_point(p, axis);
    assert(image.contains(code(p, axis)));
    let i = choose|i: int| indices.contains(i) && code(p, axis) == number_of(i);
    lemma_code_of_lattice_point(cubies[i].pose.position, axis);
    assert(cubies[i].pose.position == p);
}

/// At rest each cubie lies in one of the three layers of each axis, and in
/// that one only.
pub proof fn lemma_rest_layers_cover(cubies: Seq<Cubie>, axis: Axis, i: int)
    requires
        rest_configuration(cubies),
        0 <= i < cubies.len(),
    ensures
        is_lattice_layer(cubies[i].layer_key(axis)),
        cubies[i].layer_key(axis) * UNIT == cubies[i].pose.position.coordinate(axis),
        forall|key: int| in_layer(cubies, i, axis, key) <==> key == cubies[i].layer_key(axis),
{
    assert(is_lattice_point(cubies[i].pose.position));
    lemma_nearest_unit_of_whole(LOW_LAYER as int);
    lemma_nearest_unit_of_whole(MIDDLE_LAYER as int);
    lemma_nearest_unit_of_whole(HIGH_LAYER as int);
}

/// At rest each of the three layers of an axis holds nine cubies.
pub proof fn lemma_rest_layer_holds_nine(
    cubies: Seq<Cubie>,
    axis: Axis,
    key: int,
    members: Seq<usize>,
)
    requires
        rest_configuration(cubies),
        is_lattice_layer(key),
        is_layer(members, cubies, axis, key),
    ensures
        members.len() == LAYER_SIZE,
{
    let first = 9 * digit(key * UNIT);
    let places = set_int_range(0, members.len() as int);
    let numbers = set_int_range(first, first + 9);
    let number_of = |j: int| code(cubies[members[j] as int].pose.position, axis);
    lemma_int_range(0, members.len() as int);
    lemma_int_range(first, first + 9);
    lemma_nearest_unit_of_whole(key);
    assert forall|j: int| places.contains(j) implies is_lattice_point(
        cubies[#[trigger] members[j] as int].pose.position,
    ) && cubies[members[j] as int].pose.position.coordinate(axis) == key * UNIT by {
        assert(in_layer(cubies, members[j] as int, axis, key));
        lemma_rest_layers_cover(cubies, axis, members[j] as int);
    }
    assert forall|a: int, b: int|
        places.contains(a) && places.contains(b) && #[trigger] number_of(a) == #[trigger] number_of(
            b,
        ) implies a == b by {
        lemma_code_of_lattice_point(cubies[members[a] as int].pose.position, axis);
        lemma_code_of_lattice_point(cubies[members[b] as int].pose.position, axis);
        assert(members[a] == members[b]);
        if a < b {
            assert(members[a] < members[b]);
        }
        if b < a {
            assert(members[b] < members[a]);
        }
    }
    assert(injective_on(number_of, places));
    let image = places.map(number_of);
    lemma_map_size(places, image, number_of);
    assert forall|c: int| image.contains(c) <==> numbers.contains(c) by {
        if image.contains(c) {
            let j = choose|j: int| places.contains(j) && c == number_of(j);
            lemma_code_of_lattice_point(cubies[members[j] as int].pose.position, axis);
        }
        if numbers.contains(c) {
            let p = decode(c, axis);
            lemma_decode_is_lattice_point(c, axis);
            lemma_rest_fills_lattice(cubies, p);
            let i = choose|i: int| 0 <= i < cubies.len() && cubies[i].pose.position == p;
            assert(p.coordinate(axis) == key * UNIT);
            assert(in_layer(cubies, i, axis, key));
            let j = choose|j: int| 0 <= j < members.len() && members[j] == i;
            assert(places.contains(j) && c == number_of(j));
        }
    }
    assert(image =~= numbers);
}

/// Partition of the puzzle at rest: the layer map of an axis has exactly the
/// three layers of the lattice, each of them holds nine cubies, and every
/// cubie is in one of them and in no other.
pub proof fn lemma_rest_partition(layers: Map<i32, Seq<usize>>, cubies: Seq<Cubie>, axis: Axis)
    requires
        rest_configuration(cubies),
        classifies(layers, cubies, axis),
    ensures
        forall|k: i32| layers.contains_key(k) <==> is_lattice_layer(k as int),
        forall|k: i32| layers.contains_key(k) ==> (#[trigger] layers[k]).len() == LAYER_SIZE,
        forall|i: int| 0 <= i < cubies.len() ==> #[trigger] has_bucket(layers, i),
        forall|k: i32, l: i32, a: int, b: int|
            layers.contains_key(k) && layers.contains_key(l) && 0 <= a < layers[k].len() && 0 <= b
                < layers[l].len() && #[trigger] layers[k][a] == #[trigger] layers[l][b] ==> k == l
                && a == b,
{
    assert forall|k: i32| layers.contains_key(k) <==> is_lattice_layer(k as int) by {
        if layers.contains_key(k) {
            let i = choose|i: int| in_layer(cubies, i, axis, k as int);
            lemma_rest_layers_cover(cubies, axis, i);
        }
        if is_lattice_layer(k as int) {
            let p = decode(9 * digit(k * UNIT), axis);
            lemma_decode_is_lattice_point(9 * digit(k * UNIT), axis);
            lemma_rest_fills_lattice(cubies, p);
            let i = choose|i: int| 0 <= i < cubies.len() && cubies[i].pose.position == p;
            lemma_nearest_unit_of_whole(k as int);
            assert(in_layer(cubies, i, axis, k as int));
        }
    }
    assert forall|k: i32| layers.contains_key(k) implies (#[trigger] layers[k]).len()
        == LAYER_SIZE by {
        lemma_rest_layer_holds_nine(cubies, axis, k as int, layers[k]);
    }
    assert forall|k: i32, l: i32, a: int, b: int|
        layers.contains_key(k) && layers.contains_key(l) && 0 <= a < layers[k].len() && 0 <= b
            < layers[l].len() && #[trigger] layers[k][a] == #[trigger] layers[l][b] implies k == l
        && a == b by {
        lemma_buckets_are_disjoint(layers, cubies, axis, k, l, a, b);
    }
}

} // verus!
