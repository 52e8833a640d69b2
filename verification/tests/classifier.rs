use rubik_engine::batch::MoveBatch;
use rubik_engine::classifier::{classify, RubikCube};
use rubik_engine::geometry::{Axis, Direction};
use rubik_engine::moves::Move;
use rubik_engine::placement::{Orientation, Placement, RotatePlane};
use rubik_engine::position::Position;
use rubik_engine::rest::{CUBIES, LAYER_SIZE};

fn cube(node: u64, position: Position) -> RubikCube {
    RubikCube { node, placement: Placement { position, orientation: Orientation::identity() } }
}

fn rest_cubes() -> Vec<RubikCube> {
    let mut cubes = Vec::new();
    let mut node = 100;
    for x in [-2i8, 0, 2] {
        for y in [-2i8, 0, 2] {
            for z in [-2i8, 0, 2] {
                cubes.push(cube(node, Position::at_lattice(x, y, z)));
                node += 1;
            }
        }
    }
    cubes
}

#[test]
fn rest_has_twenty_seven_cubies_in_layers_of_nine() {
    assert_eq!(CUBIES, 27);
    assert_eq!(LAYER_SIZE, 9);
    assert_eq!(rest_cubes().len(), CUBIES);
}

#[test]
fn classify_empty_list_has_no_layers() {
    let maps = classify(&Vec::new());
    for axis in [Axis::X, Axis::Y, Axis::Z] {
        for key in [-2, 0, 2] {
            assert!(maps.along(axis).members(key).is_none());
        }
    }
}

#[test]
fn classify_single_cubie() {
    let cubes = vec![cube(1, Position::at_lattice(2, 0, -2))];
    let maps = classify(&cubes);
    assert_eq!(maps.x.members(2), Some(&vec![0]));
    assert_eq!(maps.y.members(0), Some(&vec![0]));
    assert_eq!(maps.z.members(-2), Some(&vec![0]));
    assert_eq!(maps.x.members(0), None);
    assert_eq!(maps.x.members(-2), None);
    assert_eq!(maps.y.members(2), None);
    assert_eq!(maps.z.members(2), None);
}

#[test]
fn classify_lists_members_in_ascending_order() {
    let cubes = vec![
        cube(1, Position::at_lattice(2, 0, 0)),
        cube(2, Position::at_lattice(0, 0, 0)),
        cube(3, Position::at_lattice(2, 2, 0)),
        cube(4, Position::at_lattice(2, -2, 2)),
    ];
    let maps = classify(&cubes);
    assert_eq!(maps.x.members(2), Some(&vec![0, 2, 3]));
    assert_eq!(maps.x.members(0), Some(&vec![1]));
    assert_eq!(maps.y.members(0), Some(&vec![0, 1]));
    assert_eq!(maps.y.members(2), Some(&vec![2]));
    assert_eq!(maps.y.members(-2), Some(&vec![3]));
    assert_eq!(maps.z.members(0), Some(&vec![0, 1, 2]));
    assert_eq!(maps.z.members(2), Some(&vec![3]));
}

#[test]
fn classify_rounds_positions_that_have_drifted() {
    let cubes = vec![
        cube(1, Position::new(1980, -2020, 30).unwrap()),
        cube(2, Position::new(2499, -1500, -499).unwrap()),
        cube(3, Position::new(2500, -1499, -500).unwrap()),
    ];
    let maps = classify(&cubes);
    assert_eq!(maps.x.members(2), Some(&vec![0, 1]));
    assert_eq!(maps.x.members(3), Some(&vec![2]));
    assert_eq!(maps.y.members(-2), Some(&vec![0, 1]));
    assert_eq!(maps.y.members(-1), Some(&vec![2]));
    assert_eq!(maps.z.members(0), Some(&vec![0, 1]));
    assert_eq!(maps.z.members(-1), Some(&vec![2]));
}

#[test]
fn along_picks_the_map_of_the_axis() {
    let cubes = vec![cube(1, Position::at_lattice(2, 0, -2))];
    let maps = classify(&cubes);
    assert_eq!(maps.along(Axis::X).members(2), Some(&vec![0]));
    assert_eq!(maps.along(Axis::Y).members(0), Some(&vec![0]));
    assert_eq!(maps.along(Axis::Z).members(-2), Some(&vec![0]));
    assert_eq!(maps.along(Axis::Z).members(2), None);
}

#[test]
fn rest_layers_hold_nine_each_and_partition_the_cubies() {
    let cubes = rest_cubes();
    let maps = classify(&cubes);
    for axis in [Axis::X, Axis::Y, Axis::Z] {
        let mut seen = vec![0usize; cubes.len()];
        for key in [-2, 0, 2] {
            let members = maps.along(axis).members(key).unwrap();
            assert_eq!(members.len(), LAYER_SIZE);
            for index in members {
                assert_eq!(cubes[*index].placement.position.layer_key(axis), key);
                seen[*index] += 1;
            }
        }
        assert!(seen.iter().all(|count| *count == 1));
        for key in [-3, -1, 1, 3] {
            assert!(maps.along(axis).members(key).is_none());
        }
    }
}

#[test]
fn batch_of_the_middle_z_layer_holds_the_cubie_on_the_x_axis() {
    let cubes = vec![cube(7, Position::at_lattice(2, 0, 0))];
    let mv = Move { direction: Direction { axis: Axis::Z, positive: true }, layer: 0 };
    let batch = MoveBatch::of(&cubes, mv).unwrap();
    assert_eq!(batch.mv, mv);
    assert_eq!(batch.entries.len(), 1);
    assert_eq!(batch.entries[0].cubie, 0);
    assert_eq!(batch.entries[0].lens, RotatePlane { axis: mv.direction, org: cubes[0].placement });
    let end = batch.entries[0].lens.end();
    assert_eq!(end.position, Position::at_lattice(0, 2, 0));
    assert_eq!(end.orientation, Orientation::identity().turned(mv.direction));
    assert_eq!(end.orientation.x_axis, Direction { axis: Axis::Y, positive: true });
}

#[test]
fn batch_of_an_empty_layer_is_none() {
    let cubes = vec![cube(7, Position::at_lattice(2, 0, 0))];
    let mv = Move { direction: Direction { axis: Axis::Z, positive: true }, layer: 2 };
    assert_eq!(MoveBatch::of(&cubes, mv), None);
    assert_eq!(MoveBatch::of(&Vec::new(), mv), None);
}

#[test]
fn batch_of_a_rest_layer_holds_its_nine_cubies() {
    let cubes = rest_cubes();
    let mv = Move { direction: Direction { axis: Axis::Y, positive: false }, layer: 2 };
    let batch = MoveBatch::of(&cubes, mv).unwrap();
    assert_eq!(batch.entries.len(), 9);
    let mut last = None;
    for entry in &batch.entries {
        assert!(last < Some(entry.cubie));
        last = Some(entry.cubie);
        let cube = cubes[entry.cubie];
        assert_eq!(cube.placement.position.coordinate(Axis::Y), 2000);
        assert_eq!(entry.lens.axis, mv.direction);
        assert_eq!(entry.lens.org, cube.placement);
    }
}
