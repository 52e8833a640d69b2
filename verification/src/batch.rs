//! Move batches: the cubies of one layer, each with its rotation.
//!
//! A batch is made from the cubies as they lie when the move is resolved and
//! holds, for each cubie of the layer, the placement it had at that moment.
//! When the move completes each of them takes the placement at the end of
//! its rotation; the others stay as they are.

use vstd::prelude::*;
use crate::classifier::{Cubie, RubikCube, classify, cubie_views, in_layer, is_layer};
use crate::moves::Move;
use crate::placement::RotatePlane;
use crate::settling::apply_move;

verus! {

/// Whether some cubie lies in the layer of `mv`.
pub open spec fn layer_occupied(cubies: Seq<Cubie>, mv: Move) -> bool {
    exists|i: int| in_layer(cubies, i, mv.direction.axis, mv.layer as int)
}

/// One cubie of a batch: its index in the list of cubies, and its rotation.
#[derive(Clone, Copy, Debug, PartialEq, Eq)]
pub struct BatchEntry {
    pub cubie: usize,
    pub lens: RotatePlane,
}

/// The cubies that one move turns, each with its rotation.
#[derive(Clone, Debug, PartialEq, Eq)]
pub struct MoveBatch {
    pub mv: Move,
    pub entries: Vec<BatchEntry>,
}

impl MoveBatch {
    /// The indices of the cubies of the batch, in the order of its entries.
    pub open spec fn members(self) -> Seq<usize> {
        Seq::new(self.entries@.len(), |j: int| self.entries@[j].cubie)
    }

    /// Whether the batch is that of `mv` on `cubies`: it lists the cubies of
    /// the layer of `mv`, each with the rotation about the direction of `mv`
    /// from the placement that the cubie has in `cubies`.
    pub open spec fn is_batch_of(self, cubies: Seq<Cubie>, mv: Move) -> bool {
        &&& self.mv == mv
        &&& is_layer(self.members(), cubies, mv.direction.axis, mv.layer as int)
        &&& forall|j: int|
            0 <= j < self.entries@.len() ==> (#[trigger] self.entries@[j]).lens.axis == mv.direction
                && self.entries@[j].lens.org@ == cubies[self.entries@[j].cubie as int].pose
    }

    /// Resolves a move against the cubies as they lie: classifies them and
    /// makes the batch of the layer of `mv`. Gives `None` where the layer
    /// holds no cubie.
    pub fn of(cubes: &Vec<RubikCube>, mv: Move) -> (batch: Option<MoveBatch>)
        ensures
            batch is Some <==> layer_occupied(cubie_views(cubes@), mv),
            batch is Some ==> batch->0.is_batch_of(cubie_views(cubes@), mv),
    {
        let maps = classify(cubes);
        let ghost cubies = cubie_views(cubes@);
        let axis = mv.direction.axis;
        match maps.along(axis).members(mv.layer) {
            None => None,
            Some(members) => {
                assert(is_layer(members@, cubies, axis, mv.layer as int));
                let mut entries: Vec<BatchEntry> = Vec::new();
                let mut j: usize = 0;
                while j < members.len()
                    invariant
                        j <= members.len(),
                        entries.len() == j,
                        cubies == cubie_views(cubes@),
                        is_layer(members@, cubies, axis, mv.layer as int),
                        axis == mv.direction.axis,
                        forall|a: int|
                            0 <= a < j ==> (#[trigger] entries@[a]).cubie == members@[a]
                                && entries@[a].lens.axis == mv.direction && entries@[a].lens.org@
                                == cubies[members@[a] as int].pose,
                    decreases members.len() - j,
                {
                    let index: usize = members[j];
                    assert(in_layer(cubies, members@[j as int] as int, axis, mv.layer as int));
                    let lens = RotatePlane { axis: mv.direction, org: cubes[index].placement };
                    entries.push(BatchEntry { cubie: index, lens });
                    j = j + 1;
                }
                let batch = MoveBatch { mv, entries };
                assert(batch.members() =~= members@);
                Some(batch)
            },
        }
    }
}

/// Completes the move of a batch: gives each cubie of the batch the
/// placement at the end of its rotation.
pub(crate) fn settle(cubes: &mut Vec<RubikCube>, batch: &MoveBatch)
    requires
        batch.is_batch_of(cubie_views(old(cubes)@), batch.mv),
    ensures
        cubie_views(final(cubes)@) == apply_move(cubie_views(old(cubes)@), batch.mv),
{
    let ghost before = cubie_views(cubes@);
    let ghost axis = batch.mv.direction.axis;
    let ghost key = batch.mv.layer as int;
    let ghost members = batch.members();
    let mut j: usize = 0;
    while j < batch.entries.len()
        invariant
            j <= batch.entries.len(),
            before == cubie_views(old(cubes)@),
            axis == batch.mv.direction.axis,
            key == batch.mv.layer as int,
            members == batch.members(),
            batch.is_batch_of(before, batch.mv),
            cubes.len() == before.len(),
            forall|i: int|
                0 <= i < cubes.len() ==> (#[trigger] cubes@[i])@ == (if in_layer(
                    before,
                    i,
                    axis,
                    key,
                ) && (j < members.len() ==> i < members[j as int]) {
                    apply_move(before, batch.mv)[i]
                } else {
                    before[i]
                }),
        decreases batch.entries.len() - j,
    {
        let entry = batch.entries[j];
        let index: usize = entry.cubie;
        assert(members[j as int] == index);
        assert(in_layer(before, members[j as int] as int, axis, key));
        let cube = cubes[index];
        let ghost earlier = cubes@;
        cubes.set(index, RubikCube { node: cube.node, placement: entry.lens.end() });
        proof {
            assert forall|i: int| 0 <= i < cubes.len() implies (#[trigger] cubes@[i])@ == (if in_layer(
                before,
                i,
                axis,
                key,
            ) && (j + 1 < members.len() ==> i < members[j + 1]) {
                apply_move(before, batch.mv)[i]
            } else {
                before[i]
            }) by {
                if i != index {
                    assert(cubes@[i] == earlier[i]);
                    if in_layer(before, i, axis, key) {
                        let a = choose|a: int| 0 <= a < members.len() && members[a] == i;
                        if a < j {
                            assert(members[a] < members[j as int]);
                        }
                        if a > j {
                            assert(members[j as int] < members[a]);
                            if a > j + 1 {
                                assert(members[j + 1] < members[a]);
                            }
                        }
                    }
                } else {
                    if j + 1 < members.len() {
                        assert(members[j as int] < members[j + 1]);
                    }
                }
            }
        }
        j = j + 1;
    }
    assert(cubie_views(cubes@) =~= apply_move(before, batch.mv));
}

} // verus!
