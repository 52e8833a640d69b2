//! Bootstrap: which of the loaded scene nodes are cubies.
//!
//! A node is a cubie exactly when its name is `Cube.` followed by a suffix,
//! which may be empty, that holds no further `.`: `Cube.007` is one, its
//! part `Cube.007.Material` is not.

use vstd::prelude::*;
use crate::classifier::{Cubie, RubikCube, cubie_views};
use crate::placement::Placement;

verus! {

broadcast use vstd::string::group_string_axioms;

/// The two phases of the engine. `Loading` turns into `Active` once, when
/// the geometry has arrived and the cubies are tagged; nothing leads back.
#[derive(Clone, Copy, Debug, PartialEq, Eq, Structural)]
pub enum Phase {
    Loading,
    Active,
}

/// A node of the loaded scene.
#[derive(Clone, Debug, PartialEq, Eq)]
pub struct Node {
    pub id: u64,
    pub name: String,
    pub placement: Placement,
}

/// The length of the prefix `Cube.`.
pub const PREFIX_LEN: usize = 5;

/// The prefix `Cube.` that the name of every cubie starts with.
pub open spec fn cube_prefix() -> Seq<char> {
    seq!['C', 'u', 'b', 'e', '.']
}

/// Whether `name` is the name of a cubie: `Cube.` and a suffix without `.`.
pub open spec fn cubie_name(name: Seq<char>) -> bool {
    &&& cube_prefix().is_prefix_of(name)
    &&& forall|i: int| PREFIX_LEN <= i < name.len() ==> name[i] != '.'
}

/// The character at place `i` of the prefix.
fn prefix_char(i: usize) -> (c: char)
    requires
        i < PREFIX_LEN,
    ensures
        c == cube_prefix()[i as int],
{
    if i == 0 {
        'C'
    } else if i == 1 {
        'u'
    } else if i == 2 {
        'b'
    } else if i == 3 {
        'e'
    } else {
        '.'
    }
}

/// Tells whether `name` is the name of a cubie.
pub fn is_cubie_name(name: &str) -> (b: bool)
    ensures
        b == cubie_name(name@),
{
    let mut matched: usize = 0;
    for c in it: name.chars()
        invariant
            it.seq() == name@,
            matched == if it.index() < PREFIX_LEN {
                it.index()
            } else {
                PREFIX_LEN as int
            },
            forall|i: int| 0 <= i < matched ==> name@[i] == cube_prefix()[i],
            forall|i: int| PREFIX_LEN <= i < it.index() ==> name@[i] != '.',
    {
        if matched < PREFIX_LEN {
            if c != prefix_char(matched) {
                return false;
            }
            matched = matched + 1;
        } else if c == '.' {
            return false;
        }
    }
    assert(matched == PREFIX_LEN ==> name@.subrange(0, PREFIX_LEN as int) =~= cube_prefix());
    matched == PREFIX_LEN
}

/// The cubies that a scene gives: one for each node with a cubie's name, in
/// the order of the nodes, with the node's id and placement.
pub open spec fn tagged(nodes: Seq<Node>) -> Seq<Cubie> {
    nodes.filter(names_cubie()).map_values(as_cubie())
}

/// The test that tagging applies to a node: whether its name is a cubie's.
pub open spec fn names_cubie() -> spec_fn(Node) -> bool {
    |n: Node| cubie_name(n.name@)
}

/// The cubie that tagging makes of a node.
pub open spec fn as_cubie() -> spec_fn(Node) -> Cubie {
    |n: Node| Cubie { node: n.id, pose: n.placement@ }
}

/// Scans the nodes of a scene and makes a cubie of each node that has a
/// cubie's name. The other nodes are passed over.
pub fn tag_cubies(nodes: &Vec<Node>) -> (cubes: Vec<RubikCube>)
    ensures
        cubie_views(cubes@) == tagged(nodes@),
{
    let mut cubes: Vec<RubikCube> = Vec::new();
    let mut i: usize = 0;
    proof {
        reveal(Seq::filter);
        assert(cubie_views(cubes@) =~= tagged(nodes@.take(0)));
    }
    while i < nodes.len()
        invariant
            i <= nodes.len(),
            cubie_views(cubes@) == tagged(nodes@.take(i as int)),
        decreases nodes.len() - i,
    {
        let node = &nodes[i];
        let ghost before = cubie_views(cubes@);
        if is_cubie_name(node.name.as_str()) {
            cubes.push(RubikCube { node: node.id, placement: node.placement });
        }
        proof {
            reveal(Seq::filter);
            let is_cubie = names_cubie();
            let earlier = nodes@.take(i as int);
            let grown = nodes@.take(i + 1);
            assert(grown.drop_last() =~= earlier);
            assert(grown.last() == nodes@[i as int]);
            assert(grown.filter(is_cubie) == if is_cubie(grown.last()) {
                earlier.filter(is_cubie).push(grown.last())
            } else {
                earlier.filter(is_cubie)
            });
            assert(before == tagged(earlier));
            let kept = earlier.filter(is_cubie);
            if is_cubie(grown.last()) {
                assert(cubie_views(cubes@) =~= before.push(as_cubie()(grown.last())));
                assert(kept.push(grown.last()).map_values(as_cubie()) =~= kept.map_values(
                    as_cubie(),
                ).push(as_cubie()(grown.last())));
            } else {
                assert(cubie_views(cubes@) =~= before);
            }
            assert(cubie_views(cubes@) =~= tagged(grown));
        }
        i = i + 1;
    }
    assert(nodes@.take(i as int) =~= nodes@);
    cubes
}

} // verus!
