use rubik_engine::bootstrap::{is_cubie_name, tag_cubies, Node, Phase, PREFIX_LEN};
use rubik_engine::classifier::RubikCube;
use rubik_engine::placement::{Orientation, Placement};
use rubik_engine::position::Position;

fn node(id: u64, name: &str, x: i8) -> Node {
    Node {
        id,
        name: name.to_string(),
        placement: Placement { position: Position::at_lattice(x, 0, 0), orientation: Orientation::identity() },
    }
}

#[test]
fn cube_with_number_is_a_cubie() {
    assert!(is_cubie_name("Cube.007"));
}

#[test]
fn part_of_a_cube_is_not_a_cubie() {
    assert!(!is_cubie_name("Cube.007.Material"));
}

#[test]
fn lamp_is_not_a_cubie() {
    assert!(!is_cubie_name("Lamp"));
}

#[test]
fn prefix_must_be_whole_and_exact() {
    assert_eq!(PREFIX_LEN, 5);
    assert!(!is_cubie_name(""));
    assert!(!is_cubie_name("Cube"));
    assert!(!is_cubie_name("Cube007"));
    assert!(!is_cubie_name("cube.007"));
    assert!(!is_cubie_name("Cubes.07"));
    assert!(!is_cubie_name(" Cube.007"));
    assert!(!is_cubie_name("My.Cube.007"));
}

#[test]
fn suffix_may_be_empty_or_anything_without_a_dot() {
    assert!(is_cubie_name("Cube."));
    assert!(is_cubie_name("Cube.0"));
    assert!(is_cubie_name("Cube.left top"));
    assert!(is_cubie_name("Cube.Cube"));
    assert!(is_cubie_name("Cube.\u{e9}t\u{e9}"));
}

#[test]
fn any_further_dot_disqualifies() {
    assert!(!is_cubie_name("Cube.."));
    assert!(!is_cubie_name("Cube.007."));
    assert!(!is_cubie_name("Cube.Cube.1"));
    assert!(!is_cubie_name("Cube.\u{e9}.1"));
}

#[test]
fn tagging_keeps_cubies_in_order_and_passes_over_the_rest() {
    let nodes = vec![
        node(10, "Camera", 0),
        node(11, "Cube.001", 2),
        node(12, "Cube.001.Material", 2),
        node(13, "Lamp", 0),
        node(14, "Cube.002", -2),
    ];
    let cubes = tag_cubies(&nodes);
    assert_eq!(
        cubes,
        vec![
            RubikCube { node: 11, placement: nodes[1].placement },
            RubikCube { node: 14, placement: nodes[4].placement },
        ]
    );
}

#[test]
fn tagging_nothing_gives_nothing() {
    assert_eq!(tag_cubies(&Vec::new()), Vec::new());
    assert_eq!(tag_cubies(&vec![node(1, "Lamp", 0)]), Vec::new());
}

#[test]
fn phases_differ() {
    assert_ne!(Phase::Loading, Phase::Active);
}
