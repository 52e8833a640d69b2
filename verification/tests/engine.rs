use rubik_engine::bootstrap::{Node, Phase};
use rubik_engine::classifier::{classify, RubikCube};
use rubik_engine::engine::{Engine, Progress, Step, MOVE_DURATION, RIGHT_ANGLE};
use rubik_engine::geometry::{Axis, Direction};
use rubik_engine::moves::{resolve, Move, Symbol};
use rubik_engine::placement::{Orientation, Placement};
use rubik_engine::position::Position;

fn node(id: u64, name: &str, position: Position) -> Node {
    Node { id, name: name.to_string(), placement: Placement { position, orientation: Orientation::identity() } }
}

fn rest_nodes() -> Vec<Node> {
    let mut nodes = vec![node(1, "Scene", Position::at_lattice(0, 0, 0))];
    let mut id = 100;
    for x in [-2i8, 0, 2] {
        for y in [-2i8, 0, 2] {
            for z in [-2i8, 0, 2] {
                nodes.push(node(id, &format!("Cube.{:03}", id), Position::at_lattice(x, y, z)));
                nodes.push(node(id + 1000, &format!("Cube.{:03}.Mesh", id), Position::at_lattice(x, y, z)));
                id += 1;
            }
        }
    }
    nodes.push(node(2, "Lamp", Position::at_lattice(4, 4, 4)));
    nodes
}

fn active_engine() -> Engine {
    let mut engine = Engine::new();
    engine.geometry_ready(&rest_nodes());
    engine
}

fn run_move(engine: &mut Engine, symbol: Symbol) {
    engine.submit(symbol);
    assert!(matches!(engine.tick(0), Step::Started));
    assert!(matches!(engine.tick(MOVE_DURATION), Step::Settled(_)));
}

fn expected_after(cubes: &[RubikCube], mv: Move) -> Vec<RubikCube> {
    cubes
        .iter()
        .map(|cube| {
            if cube.placement.position.layer_key(mv.direction.axis) == mv.layer {
                RubikCube { node: cube.node, placement: cube.placement.rotated(mv.direction) }
            } else {
                *cube
            }
        })
        .collect()
}

#[test]
fn move_takes_two_hundred_milliseconds() {
    assert_eq!(MOVE_DURATION, 200_000);
    assert_eq!(RIGHT_ANGLE, 90_000);
}

#[test]
fn new_engine_is_loading_and_empty() {
    let engine = Engine::new();
    assert_eq!(engine.phase(), Phase::Loading);
    assert!(engine.cubies().is_empty());
    assert_eq!(engine.queued(), 0);
    assert!(!engine.is_animating());
    assert!(engine.batch().is_none());
    assert_eq!(engine.progress(), None);
}

#[test]
fn loading_engine_ignores_requests_and_time() {
    let mut engine = Engine::new();
    engine.submit(Symbol::U);
    assert_eq!(engine.queued(), 0);
    assert!(matches!(engine.tick(MOVE_DURATION), Step::Idle));
    assert_eq!(engine.phase(), Phase::Loading);
    engine.geometry_ready(&rest_nodes());
    assert_eq!(engine.queued(), 0);
    assert!(matches!(engine.tick(0), Step::Idle));
}

#[test]
fn geometry_ready_tags_the_cubies_and_activates() {
    let engine = active_engine();
    assert_eq!(engine.phase(), Phase::Active);
    assert_eq!(engine.cubies().len(), 27);
    assert_eq!(engine.cubies()[0].node, 100);
    assert_eq!(engine.cubies()[0].placement.position, Position::at_lattice(-2, -2, -2));
    assert_eq!(engine.cubies()[26].node, 126);
    assert_eq!(engine.cubies()[26].placement.position, Position::at_lattice(2, 2, 2));
}

#[test]
fn geometry_ready_runs_once() {
    let mut engine = active_engine();
    let before = engine.cubies().clone();
    engine.geometry_ready(&vec![node(9, "Cube.9", Position::at_lattice(0, 0, 0))]);
    assert_eq!(engine.phase(), Phase::Active);
    assert_eq!(engine.cubies(), &before);
    engine.geometry_ready(&Vec::new());
    assert_eq!(engine.cubies(), &before);
}

#[test]
fn geometry_without_cubies_still_activates() {
    let mut engine = Engine::new();
    engine.geometry_ready(&vec![node(2, "Lamp", Position::at_lattice(0, 0, 0))]);
    assert_eq!(engine.phase(), Phase::Active);
    assert!(engine.cubies().is_empty());
}

#[test]
fn idle_engine_without_requests_does_nothing() {
    let mut engine = active_engine();
    let before = engine.cubies().clone();
    assert!(matches!(engine.tick(5_000), Step::Idle));
    assert_eq!(engine.cubies(), &before);
    assert!(!engine.is_animating());
}

#[test]
fn unresolved_symbol_is_dropped() {
    let mut engine = active_engine();
    let before = engine.cubies().clone();
    engine.submit(Symbol::Other);
    assert_eq!(engine.queued(), 1);
    assert!(matches!(engine.tick(1_000), Step::Unresolved(Symbol::Other)));
    assert_eq!(engine.queued(), 0);
    assert!(!engine.is_animating());
    assert_eq!(engine.cubies(), &before);
}

#[test]
fn move_of_an_empty_layer_is_dropped() {
    let mut engine = Engine::new();
    engine.geometry_ready(&vec![node(7, "Cube.007", Position::at_lattice(2, 0, 0))]);
    engine.submit(Symbol::O);
    let step = engine.tick(1_000);
    assert!(matches!(step, Step::EmptyLayer(mv) if Some(mv) == resolve(Symbol::O)));
    assert_eq!(engine.queued(), 0);
    assert!(!engine.is_animating());
    assert_eq!(engine.cubies()[0].placement.position, Position::at_lattice(2, 0, 0));
}

#[test]
fn cubie_on_the_x_axis_turns_onto_the_y_axis() {
    let mut engine = Engine::new();
    engine.geometry_ready(&vec![node(7, "Cube.007", Position::at_lattice(2, 0, 0))]);
    engine.submit(Symbol::I);
    assert!(matches!(engine.tick(0), Step::Started));
    let batch = engine.batch().unwrap().clone();
    assert_eq!(Some(batch.mv), resolve(Symbol::I));
    assert_eq!(batch.mv, Move { direction: Direction { axis: Axis::Z, positive: true }, layer: 0 });
    assert_eq!(batch.entries.len(), 1);
    assert_eq!(batch.entries[0].cubie, 0);
    assert_eq!(batch.entries[0].lens.start().position, Position::at_lattice(2, 0, 0));
    match engine.tick(MOVE_DURATION) {
        Step::Settled(settled) => assert_eq!(settled, batch),
        other => panic!("the move did not settle: {:?}", other),
    }
    let cube = engine.cubies()[0];
    assert_eq!(cube.node, 7);
    assert_eq!(cube.placement.position, Position::at_lattice(0, 2, 0));
    assert_eq!(cube.placement.orientation, Orientation::identity().turned(batch.mv.direction));
    assert_eq!(cube.placement, batch.entries[0].lens.end());
}

#[test]
fn start_builds_the_batch_of_the_layer() {
    let mut engine = active_engine();
    engine.submit(Symbol::W);
    assert!(matches!(engine.tick(50_000), Step::Started));
    assert!(engine.is_animating());
    assert_eq!(engine.queued(), 0);
    assert_eq!(engine.progress(), Some(Progress { elapsed: 0, duration: MOVE_DURATION }));
    let batch = engine.batch().unwrap();
    assert_eq!(Some(batch.mv), resolve(Symbol::W));
    assert_eq!(batch.entries.len(), 9);
    for entry in &batch.entries {
        let cube = engine.cubies()[entry.cubie];
        assert_eq!(cube.placement.position.layer_key(Axis::Y), 2);
        assert_eq!(entry.lens.org, cube.placement);
        assert_eq!(entry.lens.axis, batch.mv.direction);
    }
}

#[test]
fn move_runs_for_its_full_time_and_then_settles() {
    let mut engine = active_engine();
    let before = engine.cubies().clone();
    engine.submit(Symbol::U);
    assert!(matches!(engine.tick(16_000), Step::Started));
    assert!(matches!(engine.tick(120_000), Step::Advanced));
    assert_eq!(engine.progress(), Some(Progress { elapsed: 120_000, duration: 200_000 }));
    assert_eq!(engine.cubies(), &before);
    assert!(matches!(engine.tick(0), Step::Advanced));
    assert_eq!(engine.progress().unwrap().elapsed, 120_000);
    assert!(matches!(engine.tick(79_999), Step::Advanced));
    assert_eq!(engine.progress().unwrap().elapsed, 199_999);
    assert_eq!(engine.cubies(), &before);
    assert!(matches!(engine.tick(1), Step::Settled(_)));
    assert!(!engine.is_animating());
    assert_eq!(engine.progress(), None);
    assert!(engine.batch().is_none());
    assert_eq!(engine.cubies(), &expected_after(&before, resolve(Symbol::U).unwrap()));
    assert_ne!(engine.cubies(), &before);
}

#[test]
fn a_long_tick_settles_at_once_without_overflow() {
    let mut engine = active_engine();
    engine.submit(Symbol::K);
    assert!(matches!(engine.tick(u64::MAX), Step::Started));
    assert!(matches!(engine.tick(199_999), Step::Advanced));
    assert!(matches!(engine.tick(u64::MAX), Step::Settled(_)));
    assert!(!engine.is_animating());
}

#[test]
fn settled_move_turns_the_layer_and_nothing_else() {
    for symbol in [Symbol::U, Symbol::I, Symbol::O, Symbol::J, Symbol::K, Symbol::L, Symbol::W, Symbol::S, Symbol::X, Symbol::R, Symbol::F, Symbol::V] {
        let mut engine = active_engine();
        let before = engine.cubies().clone();
        let mv = resolve(symbol).unwrap();
        run_move(&mut engine, symbol);
        let after = engine.cubies();
        assert_eq!(after, &expected_after(&before, mv));
        let mut turned = 0;
        for i in 0..before.len() {
            if before[i].placement.position.layer_key(mv.direction.axis) == mv.layer {
                turned += 1;
            } else {
                assert_eq!(after[i], before[i]);
            }
        }
        assert_eq!(turned, 9);
    }
}

#[test]
fn second_request_waits_until_the_first_move_has_settled() {
    let mut engine = active_engine();
    let before = engine.cubies().clone();
    engine.submit(Symbol::U);
    engine.submit(Symbol::W);
    assert_eq!(engine.queued(), 2);
    assert!(matches!(engine.tick(0), Step::Started));
    assert_eq!(engine.queued(), 1);
    assert_eq!(Some(engine.batch().unwrap().mv), resolve(Symbol::U));
    for _ in 0..19 {
        assert!(matches!(engine.tick(10_000), Step::Advanced));
        assert_eq!(engine.queued(), 1);
        assert_eq!(Some(engine.batch().unwrap().mv), resolve(Symbol::U));
        assert_eq!(engine.cubies(), &before);
    }
    assert!(matches!(engine.tick(10_000), Step::Settled(_)));
    assert_eq!(engine.queued(), 1);
    assert!(!engine.is_animating());
    let settled = engine.cubies().clone();
    assert_eq!(settled, expected_after(&before, resolve(Symbol::U).unwrap()));
    assert!(matches!(engine.tick(10_000), Step::Started));
    assert_eq!(engine.queued(), 0);
    let batch = engine.batch().unwrap();
    assert_eq!(Some(batch.mv), resolve(Symbol::W));
    for entry in &batch.entries {
        assert_eq!(entry.lens.org, settled[entry.cubie].placement);
    }
}

#[test]
fn requests_submitted_in_flight_are_queued_in_order() {
    let mut engine = active_engine();
    engine.submit(Symbol::U);
    assert!(matches!(engine.tick(0), Step::Started));
    engine.submit(Symbol::Other);
    engine.submit(Symbol::W);
    engine.submit(Symbol::K);
    assert_eq!(engine.queued(), 3);
    assert!(matches!(engine.tick(MOVE_DURATION), Step::Settled(_)));
    assert_eq!(engine.queued(), 3);
    assert!(matches!(engine.tick(0), Step::Unresolved(Symbol::Other)));
    assert!(matches!(engine.tick(0), Step::Started));
    assert_eq!(Some(engine.batch().unwrap().mv), resolve(Symbol::W));
    assert!(matches!(engine.tick(MOVE_DURATION), Step::Settled(_)));
    assert!(matches!(engine.tick(0), Step::Started));
    assert_eq!(Some(engine.batch().unwrap().mv), resolve(Symbol::K));
    assert_eq!(engine.queued(), 0);
}

#[test]
fn move_and_inverse_restore_every_cubie() {
    let pairs = [
        (Symbol::U, Symbol::J),
        (Symbol::I, Symbol::K),
        (Symbol::O, Symbol::L),
        (Symbol::W, Symbol::R),
        (Symbol::S, Symbol::F),
        (Symbol::X, Symbol::V),
    ];
    for (there, back) in pairs {
        let mut engine = active_engine();
        run_move(&mut engine, Symbol::O);
        run_move(&mut engine, Symbol::X);
        let before = engine.cubies().clone();
        run_move(&mut engine, there);
        assert_ne!(engine.cubies(), &before);
        run_move(&mut engine, back);
        assert_eq!(engine.cubies(), &before);
        run_move(&mut engine, back);
        run_move(&mut engine, there);
        assert_eq!(engine.cubies(), &before);
    }
}

#[test]
fn same_move_four_times_restores_every_cubie() {
    for symbol in [Symbol::U, Symbol::K, Symbol::O, Symbol::W, Symbol::F, Symbol::X] {
        let mut engine = active_engine();
        run_move(&mut engine, Symbol::S);
        let before = engine.cubies().clone();
        for turn in 0..4 {
            if turn > 0 {
                assert_ne!(engine.cubies(), &before);
            }
            run_move(&mut engine, symbol);
        }
        assert_eq!(engine.cubies(), &before);
    }
}

#[test]
fn settled_cubies_lie_on_the_lattice_and_keep_layers_of_nine() {
    let mut engine = active_engine();
    for symbol in [Symbol::U, Symbol::W, Symbol::K, Symbol::V, Symbol::O, Symbol::S, Symbol::U, Symbol::R] {
        run_move(&mut engine, symbol);
        let cubes = engine.cubies();
        let maps = classify(cubes);
        for axis in [Axis::X, Axis::Y, Axis::Z] {
            for cube in cubes {
                let coordinate = cube.placement.position.coordinate(axis);
                let key = cube.placement.position.layer_key(axis);
                assert_eq!(key * 1000, coordinate);
                assert!(key == -2 || key == 0 || key == 2);
            }
            for key in [-2, 0, 2] {
                assert_eq!(maps.along(axis).members(key).unwrap().len(), 9);
            }
        }
        for a in 0..cubes.len() {
            for b in 0..a {
                assert_ne!(cubes[a].placement.position, cubes[b].placement.position);
            }
        }
    }
}

#[test]
fn identity_of_a_cubie_stays_with_its_index() {
    let mut engine = active_engine();
    let nodes: Vec<u64> = engine.cubies().iter().map(|cube| cube.node).collect();
    for symbol in [Symbol::U, Symbol::W, Symbol::L, Symbol::F] {
        run_move(&mut engine, symbol);
        let now: Vec<u64> = engine.cubies().iter().map(|cube| cube.node).collect();
        assert_eq!(now, nodes);
    }
}

#[test]
fn angle_grows_linearly_to_a_right_angle() {
    assert_eq!(Progress { elapsed: 0, duration: 200_000 }.angle(), 0);
    assert_eq!(Progress { elapsed: 100_000, duration: 200_000 }.angle(), 45_000);
    assert_eq!(Progress { elapsed: 50_000, duration: 200_000 }.angle(), 22_500);
    assert_eq!(Progress { elapsed: 199_999, duration: 200_000 }.angle(), 89_999);
    assert_eq!(Progress { elapsed: 1, duration: 200_000 }.angle(), 0);
    assert_eq!(Progress { elapsed: 1, duration: 3 }.angle(), 30_000);
    assert_eq!(Progress { elapsed: 2, duration: 3 }.angle(), 60_000);
}

#[test]
fn angle_stays_a_right_angle_once_the_time_has_run() {
    assert_eq!(Progress { elapsed: 200_000, duration: 200_000 }.angle(), 90_000);
    assert_eq!(Progress { elapsed: 300_000, duration: 200_000 }.angle(), 90_000);
    assert_eq!(Progress { elapsed: 0, duration: 0 }.angle(), 90_000);
    assert_eq!(Progress { elapsed: u64::MAX, duration: u64::MAX }.angle(), 90_000);
}

#[test]
fn angle_of_a_very_long_move_does_not_overflow() {
    assert_eq!(Progress { elapsed: u64::MAX - 1, duration: u64::MAX }.angle(), 89_999);
    assert_eq!(Progress { elapsed: u64::MAX / 2, duration: u64::MAX }.angle(), 44_999);
}
