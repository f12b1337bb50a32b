use rollback_engine::input::{GameInput, INPUT_LEFT, INPUT_RIGHT, INPUT_UP};
use rollback_engine::number::Number;
use rollback_engine::physics::{BodyKind, PhysicsCollider, PhysicsWorld};
use rollback_engine::rollback::{RollbackError, RollbackStore};
use rollback_engine::sim::{Player, Simulation};
use rollback_engine::transform::Transform2;
use rollback_engine::vector2::Vector2;

fn collider() -> PhysicsCollider {
    PhysicsCollider { size: Vector2::new(7, 14).unwrap(), layer: 1, layer_mask: 1 }
}

fn at(x: i32, y: i32) -> Transform2 {
    Transform2::from_pos(Vector2::new(x, y).unwrap())
}

/// Two players with boxes of half size (7, 14) at x = 0 and x = 40.
fn two_players() -> Simulation {
    let mut sim = Simulation::new();
    for handle in 0..2usize {
        sim.spawn(Some(Player { handle }), BodyKind::Kinematic, collider(), at(40 * handle as i32, 0))
            .unwrap();
    }
    sim
}

fn inputs(p0: u8, p1: u8) -> Vec<GameInput> {
    vec![GameInput { mask: p0 }, GameInput { mask: p1 }]
}

fn x_of(sim: &Simulation, k: usize) -> i32 {
    sim.entities[k].transform.pos.x.bits
}

#[test]
fn register_and_resolve() {
    let mut w = PhysicsWorld::new();
    let h = w.register(9, collider(), BodyKind::Static, at(3, 4)).unwrap();
    let (pos, rot) = w.resolved_transform(h).unwrap();
    assert_eq!(pos, Vector2::new(3, 4).unwrap());
    assert_eq!(rot, Number::zero());
    assert_eq!(w.bodies[0].half, Vector2::new(7, 14).unwrap());
    // Registering again keeps the body and its handle.
    assert_eq!(w.register(9, collider(), BodyKind::Kinematic, at(0, 0)), Some(h));
    assert_eq!(w.bodies.len(), 1);
}

#[test]
fn negative_collider_size_gives_positive_extent() {
    let mut w = PhysicsWorld::new();
    let c = PhysicsCollider { size: Vector2::new(-3, 2).unwrap(), layer: 1, layer_mask: 1 };
    w.register(1, c, BodyKind::Static, at(0, 0)).unwrap();
    assert_eq!(w.bodies[0].half, Vector2::new(3, 2).unwrap());
}

#[test]
fn remove_twice_is_a_no_op() {
    let mut w = PhysicsWorld::new();
    w.register(1, collider(), BodyKind::Kinematic, at(0, 0)).unwrap();
    let h2 = w.register(2, collider(), BodyKind::Kinematic, at(40, 0)).unwrap();
    w.remove(1);
    assert_eq!(w.bodies.len(), 1);
    let after_first = w.copy();
    w.remove(1);
    assert_eq!(w, after_first);
    w.remove(77);
    assert_eq!(w, after_first);
    assert!(w.resolved_transform(h2).is_some());
}

#[test]
fn step_moves_kinematic_not_static() {
    let mut w = PhysicsWorld::new();
    w.register(1, collider(), BodyKind::Kinematic, at(0, 0)).unwrap();
    w.register(2, collider(), BodyKind::Static, at(0, 100)).unwrap();
    w.set_velocity(1, Vector2::new(3, -1).unwrap());
    w.set_velocity(2, Vector2::new(3, -1).unwrap());
    w.step();
    assert_eq!(w.bodies[0].pos, Vector2::new(3, -1).unwrap());
    assert_eq!(w.bodies[1].pos, Vector2::new(0, 100).unwrap());
}

#[test]
fn step_stops_at_surface() {
    let mut w = PhysicsWorld::new();
    w.register(1, collider(), BodyKind::Kinematic, at(0, 0)).unwrap();
    w.register(2, collider(), BodyKind::Static, at(20, 0)).unwrap();
    w.set_velocity(1, Vector2::new(10, 0).unwrap());
    w.step();
    assert_eq!(w.bodies[0].pos.x, Number::from_int(6).unwrap());
    assert!(w.bodies[0].is_on_wall);
    w.step();
    assert_eq!(w.bodies[0].pos.x, Number::from_int(6).unwrap());
}

#[test]
fn step_ignores_other_layers() {
    let mut w = PhysicsWorld::new();
    let other = PhysicsCollider { size: Vector2::new(7, 14).unwrap(), layer: 2, layer_mask: 2 };
    w.register(1, collider(), BodyKind::Kinematic, at(0, 0)).unwrap();
    w.register(2, other, BodyKind::Static, at(20, 0)).unwrap();
    w.set_velocity(1, Vector2::new(10, 0).unwrap());
    w.step();
    w.step();
    assert_eq!(w.bodies[0].pos.x, Number::from_int(20).unwrap());
    assert!(!w.bodies[0].is_on_wall);
}

#[test]
fn floor_contact() {
    let mut w = PhysicsWorld::new();
    w.register(1, collider(), BodyKind::Kinematic, at(0, 30)).unwrap();
    w.register(2, collider(), BodyKind::Static, at(0, 0)).unwrap();
    w.set_velocity(1, Vector2::new(0, -5).unwrap());
    w.step();
    assert_eq!(w.bodies[0].pos.y, Number::from_int(28).unwrap());
    assert!(w.bodies[0].is_on_floor);
    assert!(!w.bodies[0].is_on_ceiling);
}

#[test]
fn player_moves_right_until_collision() {
    let mut sim = two_players();
    let mut last = x_of(&sim, 0);
    for _ in 0..10 {
        let frame = sim.advance(&inputs(INPUT_RIGHT, 0));
        let x = x_of(&sim, 0);
        assert!(x > last);
        assert_eq!(frame[0].x.bits, x);
        last = x;
    }
    assert_eq!(last, Number::from_int(20).unwrap().bits);
    for _ in 0..10 {
        sim.advance(&inputs(INPUT_RIGHT, 0));
        assert!(x_of(&sim, 0) >= last);
        last = x_of(&sim, 0);
    }
    // Right edge 26 + 7 meets left edge 40 - 7; it goes no further.
    assert_eq!(last, Number::from_int(26).unwrap().bits);
    assert_eq!(x_of(&sim, 1), Number::from_int(40).unwrap().bits);
    assert!(sim.entities[0].body.is_on_wall);
}

#[test]
fn bodies_register_lazily() {
    let mut sim = two_players();
    assert!(sim.entities[0].handle.is_none());
    assert_eq!(sim.world.bodies.len(), 0);
    sim.physics_stage();
    assert!(sim.entities[0].handle.is_some());
    assert_eq!(sim.world.bodies.len(), 2);
}

#[test]
fn despawn_releases_body_next_physics_stage() {
    let mut sim = two_players();
    sim.advance(&inputs(0, 0));
    let id = sim.entities[1].id;
    sim.despawn(id);
    assert_eq!(sim.entities.len(), 1);
    assert_eq!(sim.world.bodies.len(), 2);
    assert_eq!(sim.removed, vec![id]);
    sim.despawn(id);
    assert_eq!(sim.removed, vec![id]);
    sim.advance(&inputs(0, 0));
    assert_eq!(sim.world.bodies.len(), 1);
    assert!(sim.removed.is_empty());
}

fn history(n: usize) -> Vec<Vec<GameInput>> {
    (0..n)
        .map(|t| match t % 3 {
            0 => inputs(INPUT_RIGHT, INPUT_LEFT),
            1 => inputs(INPUT_UP, 0),
            _ => inputs(INPUT_RIGHT | INPUT_UP, INPUT_LEFT),
        })
        .collect()
}

#[test]
fn forward_runs_are_identical() {
    let h = history(25);
    let mut a = two_players();
    let mut b = two_players();
    a.run_ticks(&h);
    b.run_ticks(&h);
    assert_eq!(a, b);
    assert_eq!(a.tick, 25);
}

#[test]
fn advance_and_run_ticks_agree() {
    let h = history(7);
    let mut a = two_players();
    let mut b = two_players();
    a.run_ticks(&h);
    for i in &h {
        b.advance(i);
    }
    assert_eq!(a, b);
}

/// Runs `h` from the start, saving a snapshot before every tick.
fn play(store: &mut RollbackStore, h: &[Vec<GameInput>]) -> Simulation {
    let mut sim = two_players();
    for i in h {
        store.save(&sim, i);
        sim.advance(i);
    }
    sim
}

#[test]
fn resimulate_with_same_inputs_reproduces_state() {
    let h = history(8);
    let mut store = RollbackStore::new(8);
    let mut sim = play(&mut store, &h);
    let first_run = sim.copy();
    let reached = sim.entities[0].transform;
    store.resimulate(&mut sim, 5, 8, &vec![]).unwrap();
    assert_eq!(sim.tick, 8);
    assert_eq!(sim.entities[0].transform, reached);
    assert_eq!(sim, first_run);
}

#[test]
fn resimulate_with_corrections_matches_fresh_run() {
    let predicted = history(12);
    let mut corrected = predicted.clone();
    corrected[6] = inputs(INPUT_LEFT, INPUT_RIGHT);
    corrected[8] = inputs(0, INPUT_UP);
    let mut store = RollbackStore::new(8);
    let mut sim = play(&mut store, &predicted);
    let fixes: Vec<Option<Vec<GameInput>>> =
        (4..12).map(|t| if t == 6 || t == 8 { Some(corrected[t].clone()) } else { None }).collect();
    store.resimulate(&mut sim, 4, 12, &fixes).unwrap();
    let mut fresh = two_players();
    fresh.run_ticks(&corrected);
    assert_eq!(sim, fresh);
    // The corrections are now what the store holds for those ticks.
    let mut again = store.restore(6).unwrap();
    again.run_ticks(&corrected[6..].to_vec());
    assert_eq!(again, fresh);
}

#[test]
fn restore_outside_window_fails() {
    let h = history(10);
    let mut store = RollbackStore::new(4);
    let sim = play(&mut store, &h);
    assert_eq!(store.snapshots.len(), 4);
    assert_eq!(store.restore(0).unwrap_err(), RollbackError::OutOfWindow);
    assert_eq!(store.restore(5).unwrap_err(), RollbackError::OutOfWindow);
    assert_eq!(store.restore(6).unwrap().tick, 6);
    assert_eq!(store.restore(10).unwrap_err(), RollbackError::OutOfWindow);
    let mut s2 = sim.copy();
    assert_eq!(store.resimulate(&mut s2, 2, 10, &vec![]), Err(RollbackError::OutOfWindow));
    assert_eq!(s2, sim);
}

#[test]
fn resimulate_needs_every_tick() {
    let h = history(6);
    let mut store = RollbackStore::new(8);
    let mut sim = play(&mut store, &h);
    // Tick 6 was never saved; without a correction it cannot be re-run.
    assert_eq!(store.resimulate(&mut sim, 4, 7, &vec![]), Err(RollbackError::OutOfWindow));
    let fix = vec![None, None, Some(inputs(0, 0))];
    assert_eq!(store.resimulate(&mut sim, 4, 7, &fix), Ok(()));
    assert_eq!(sim.tick, 7);
}

#[test]
fn saving_an_earlier_tick_drops_later_snapshots() {
    let h = history(6);
    let mut store = RollbackStore::new(8);
    play(&mut store, &h);
    let s3 = store.restore(3).unwrap();
    store.save(&s3, &h[3]);
    assert_eq!(store.snapshots.len(), 4);
    assert_eq!(store.snapshots[3].tick, 3);
}

#[test]
fn zero_window_holds_nothing() {
    let mut store = RollbackStore::new(0);
    let sim = two_players();
    store.save(&sim, &inputs(0, 0));
    assert!(store.snapshots.is_empty());
}
