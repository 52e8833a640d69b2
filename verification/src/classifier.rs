//! The lattice classifier: which cubies lie in which layer.
//!
//! For each axis the cubies are sorted into buckets by the rounded coordinate
//! of their position along that axis. A cubie is named by its index in the
//! list that was classified; the list never changes its order, so the index
//! stays with the cubie whatever its position becomes.

use std::collections::HashMap;
use vstd::prelude::*;
use vstd::std_specs::hash::*;
use crate::geometry::Axis;
use crate::placement::{Placement, Pose};
use crate::position::nearest_unit;

verus! {

broadcast use vstd::std_specs::hash::group_hash_axioms;

/// One of the movable pieces of the puzzle.
#[derive(Clone, Copy, Debug, PartialEq, Eq)]
pub struct RubikCube {
    /// The scene node that the cubie was made from.
    pub node: u64,
    /// Where the cubie is and how it faces.
    pub placement: Placement,
}

/// The mathematical model of a cubie.
pub struct Cubie {
    pub node: u64,
    pub pose: Pose,
}

impl View for RubikCube {
    type V = Cubie;

    open spec fn view(&self) -> Cubie {
        Cubie { node: self.node, pose: self.placement@ }
    }
}

/// The models of a list of cubies, in the same order.
pub open spec fn cubie_views(cubes: Seq<RubikCube>) -> Seq<Cubie> {
    Seq::new(cubes.len(), |i: int| cubes[i]@)
}

impl Cubie {
    /// The layer of the cubie along `axis`: the coordinate of its position
    /// rounded to the nearest whole unit, a tie going away from zero.
    pub open spec fn layer_key(self, axis: Axis) -> int {
        nearest_unit(self.pose.position.coordinate(axis))
    }
}

/// Whether `i` is the index of a cubie that lies in layer `key` of `axis`.
pub open spec fn in_layer(cubies: Seq<Cubie>, i: int, axis: Axis, key: int) -> bool {
    0 <= i < cubies.len() && cubies[i].layer_key(axis) == key
}

/// Whether `members` lists, in ascending order and each once, the indices of
/// exactly the cubies that lie in layer `key` of `axis`.
pub open spec fn is_layer(members: Seq<usize>, cubies: Seq<Cubie>, axis: Axis, key: int) -> bool {
    &&& forall|a: int, b: int| 0 <= a < b < members.len() ==> members[a] < members[b]
    &&& forall|j: int| 0 <= j < members.len() ==> in_layer(cubies, #[trigger] members[j] as int, axis, key)
    &&& forall|i: int| #[trigger]
        in_layer(cubies, i, axis, key) ==> exists|j: int| 0 <= j < members.len() && members[j] == i
}

/// Whether `layers` is the layer map of `cubies` along `axis`: it has a
/// bucket for each layer that holds a cubie and for no other, each bucket
/// lists the cubies of its layer, and no cubie is left out.
pub open spec fn classifies(layers: Map<i32, Seq<usize>>, cubies: Seq<Cubie>, axis: Axis) -> bool {
    &&& forall|k: i32| #[trigger]
        layers.contains_key(k) <==> exists|i: int| in_layer(cubies, i, axis, k as int)
    &&& forall|k: i32| #[trigger]
        layers.contains_key(k) ==> is_layer(layers[k], cubies, axis, k as int)
    &&& forall|i: int| 0 <= i < cubies.len() ==> #[trigger] has_bucket(layers, i)
}

/// Whether some bucket of `layers` lists the cubie with index `i`.
pub open spec fn has_bucket(layers: Map<i32, Seq<usize>>, i: int) -> bool {
    exists|k: i32, j: int|
        layers.contains_key(k) && 0 <= j < layers[k].len() && #[trigger] layers[k][j] == i
}

/// The buckets of a layer map share the cubies among them: no cubie is
/// listed in two buckets, nor twice in one.
pub proof fn lemma_buckets_are_disjoint(
    layers: Map<i32, Seq<usize>>,
    cubies: Seq<Cubie>,
    axis: Axis,
    k: i32,
    l: i32,
    a: int,
    b: int,
)
    requires
        classifies(layers, cubies, axis),
        layers.contains_key(k),
        layers.contains_key(l),
        0 <= a < layers[k].len(),
        0 <= b < layers[l].len(),
        layers[k][a] == layers[l][b],
    ensures
        k == l,
        a == b,
{
    assert(is_layer(layers[k], cubies, axis, k as int));
    assert(is_layer(layers[l], cubies, axis, l as int));
    assert(in_layer(cubies, layers[k][a] as int, axis, k as int));
    assert(in_layer(cubies, layers[l][b] as int, axis, l as int));
    if a < b {
        assert(layers[k][a] < layers[k][b]);
    }
    if b < a {
        assert(layers[k][b] < layers[k][a]);
    }
}

/// The buckets as a map from layer to the list of its cubies.
spec fn bucket_views(buckets: HashMap<i32, Vec<usize>>) -> Map<i32, Seq<usize>> {
    buckets@.map_values(|members: Vec<usize>| members@)
}

/// The layers of one axis.
pub struct LayerMap {
    buckets: HashMap<i32, Vec<usize>>,
}

impl View for LayerMap {
    type V = Map<i32, Seq<usize>>;

    closed spec fn view(&self) -> Map<i32, Seq<usize>> {
        bucket_views(self.buckets)
    }
}

impl LayerMap {
    /// The cubies of layer `key`, or `None` where the layer holds none.
    pub fn members(&self, key: i32) -> (r: Option<&Vec<usize>>)
        ensures
            r is Some <==> self@.contains_key(key),
            r is Some ==> r->0@ == self@[key],
    {
        self.buckets.get(&key)
    }
}

/// The layer maps of the three axes.
pub struct LayerMaps {
    pub x: LayerMap,
    pub y: LayerMap,
    pub z: LayerMap,
}

impl LayerMaps {
    /// The layer map of `axis`.
    pub open spec fn of(self, axis: Axis) -> LayerMap {
        match axis {
            Axis::X => self.x,
            Axis::Y => self.y,
            Axis::Z => self.z,
        }
    }

    /// Gives the layer map of `axis`.
    pub fn along(&self, axis: Axis) -> (r: &LayerMap)
        ensures
            *r == self.of(axis),
    {
        match axis {
            Axis::X => &self.x,
            Axis::Y => &self.y,
            Axis::Z => &self.z,
        }
    }
}

/// Appends `index` to the bucket of `key`, which is made where it is missing.
fn add_member(buckets: &mut HashMap<i32, Vec<usize>>, key: i32, index: usize)
    ensures
        bucket_views(*final(buckets)) == bucket_views(*old(buckets)).insert(
            key,
            (if bucket_views(*old(buckets)).contains_key(key) {
                bucket_views(*old(buckets))[key]
            } else {
                Seq::empty()
            }).push(index),
        ),
{
    let bucket = buckets.entry(key).or_insert(Vec::new());
    bucket.push(index);
    assert(bucket_views(*final(buckets)) =~= bucket_views(*old(buckets)).insert(
        key,
        (if bucket_views(*old(buckets)).contains_key(key) {
            bucket_views(*old(buckets))[key]
        } else {
            Seq::empty()
        }).push(index),
    ));
}

/// Adding the cubie that follows the classified ones to the bucket of its
/// layer classifies one cubie more.
proof fn lemma_classify_next(
    before: Map<i32, Seq<usize>>,
    after: Map<i32, Seq<usize>>,
    cubies: Seq<Cubie>,
    axis: Axis,
    n: int,
    key: i32,
)
    requires
        0 <= n < cubies.len(),
        n <= usize::MAX,
        classifies(before, cubies.take(n), axis),
        cubies[n].layer_key(axis) == key,
        after == before.insert(
            key,
            (if before.contains_key(key) {
                before[key]
            } else {
                Seq::empty()
            }).push(n as usize),
        ),
    ensures
        classifies(after, cubies.take(n + 1), axis),
{
    let old_cubies = cubies.take(n);
    let new_cubies = cubies.take(n + 1);
    assert forall|i: int, k: int| in_layer(new_cubies, i, axis, k) <==> (in_layer(
        old_cubies,
        i,
        axis,
        k,
    ) || (i == n && k == key)) by {}
    assert forall|k: i32| #[trigger] after.contains_key(k) implies is_layer(
        after[k],
        new_cubies,
        axis,
        k as int,
    ) by {
        if k == key {
            let grown = after[k];
            if before.contains_key(k) {
                let members = before[k];
                assert(is_layer(members, old_cubies, axis, k as int));
                assert forall|j: int| 0 <= j < members.len() implies members[j] < n by {
                    assert(in_layer(old_cubies, members[j] as int, axis, k as int));
                }
                assert forall|i: int| #[trigger]
                    in_layer(new_cubies, i, axis, k as int) implies exists|j: int|
                    0 <= j < grown.len() && grown[j] == i by {
                    if i == n {
                        assert(grown[grown.len() - 1] == n);
                    } else {
                        assert(in_layer(old_cubies, i, axis, k as int));
                        let j = choose|j: int| 0 <= j < members.len() && members[j] == i;
                        assert(grown[j] == i);
                    }
                }
                assert(is_layer(grown, new_cubies, axis, k as int));
            } else {
                assert forall|i: int| #[trigger]
                    in_layer(new_cubies, i, axis, k as int) implies exists|j: int|
                    0 <= j < grown.len() && grown[j] == i by {
                    if i != n {
                        assert(in_layer(old_cubies, i, axis, k as int));
                    }
                    assert(grown[0] == n);
                }
                assert(is_layer(grown, new_cubies, axis, k as int));
            }
        } else {
            let members = before[k];
            assert(after[k] == members);
            assert(is_layer(members, old_cubies, axis, k as int));
            assert forall|j: int| 0 <= j < members.len() implies in_layer(
                new_cubies,
                #[trigger] members[j] as int,
                axis,
                k as int,
            ) by {
                assert(in_layer(old_cubies, members[j] as int, axis, k as int));
            }
            assert forall|i: int| #[trigger]
                in_layer(new_cubies, i, axis, k as int) implies exists|j: int|
                0 <= j < members.len() && members[j] == i by {
                assert(in_layer(old_cubies, i, axis, k as int));
            }
        }
    }
    assert forall|k: i32| #[trigger]
        after.contains_key(k) <==> exists|i: int| in_layer(new_cubies, i, axis, k as int) by {
        if after.contains_key(k) {
            if k == key {
                assert(in_layer(new_cubies, n, axis, k as int));
            } else {
                assert(before.contains_key(k));
                let i = choose|i: int| in_layer(old_cubies, i, axis, k as int);
                assert(in_layer(new_cubies, i, axis, k as int));
            }
        }
        if exists|i: int| in_layer(new_cubies, i, axis, k as int) {
            let i = choose|i: int| in_layer(new_cubies, i, axis, k as int);
            if k != key {
                assert(in_layer(old_cubies, i, axis, k as int));
            }
        }
    }
    assert forall|i: int| 0 <= i < new_cubies.len() implies #[trigger] has_bucket(after, i) by {
        if i == n {
            let grown = after[key];
            assert(after.contains_key(key) && grown[grown.len() - 1] == i);
        } else {
            assert(has_bucket(before, i));
            let (k, j) = choose|k: i32, j: int|
                before.contains_key(k) && 0 <= j < before[k].len() && #[trigger] before[k][j] == i;
            assert(after.contains_key(k) && after[k][j] == i);
        }
    }
}

/// Sorts the cubies into the layers of each axis by the rounded coordinates
/// of their positions.
pub fn classify(cubes: &Vec<RubikCube>) -> (maps: LayerMaps)
    ensures
        classifies(maps.x@, cubie_views(cubes@), Axis::X),
        classifies(maps.y@, cubie_views(cubes@), Axis::Y),
        classifies(maps.z@, cubie_views(cubes@), Axis::Z),
{
    let mut x_planes: HashMap<i32, Vec<usize>> = HashMap::new();
    let mut y_planes: HashMap<i32, Vec<usize>> = HashMap::new();
    let mut z_planes: HashMap<i32, Vec<usize>> = HashMap::new();
    let ghost cubies = cubie_views(cubes@);
    let mut i: usize = 0;
    assert(bucket_views(x_planes) =~= Map::empty());
    assert(bucket_views(y_planes) =~= Map::empty());
    assert(bucket_views(z_planes) =~= Map::empty());
    while i < cubes.len()
        invariant
            i <= cubes.len(),
            cubies == cubie_views(cubes@),
            classifies(bucket_views(x_planes), cubies.take(i as int), Axis::X),
            classifies(bucket_views(y_planes), cubies.take(i as int), Axis::Y),
            classifies(bucket_views(z_planes), cubies.take(i as int), Axis::Z),
        decreases cubes.len() - i,
    {
        let position = &cubes[i].placement.position;
        let x_key: i32 = position.layer_key(Axis::X);
        let y_key: i32 = position.layer_key(Axis::Y);
        let z_key: i32 = position.layer_key(Axis::Z);
        let ghost x_before = bucket_views(x_planes);
        let ghost y_before = bucket_views(y_planes);
        let ghost z_before = bucket_views(z_planes);
        add_member(&mut x_planes, x_key, i);
        add_member(&mut y_planes, y_key, i);
        add_member(&mut z_planes, z_key, i);
        proof {
            lemma_classify_next(x_before, bucket_views(x_planes), cubies, Axis::X, i as int, x_key);
            lemma_classify_next(y_before, bucket_views(y_planes), cubies, Axis::Y, i as int, y_key);
            lemma_classify_next(z_before, bucket_views(z_planes), cubies, Axis::Z, i as int, z_key);
        }
        i = i + 1;
    }
    assert(cubies.take(i as int) =~= cubies);
    LayerMaps {
        x: LayerMap { buckets: x_planes },
        y: LayerMap { buckets: y_planes },
        z: LayerMap { buckets: z_planes },
    }
}

} // verus!
