//! End-to-end collision scenarios against the split engine.

use splitball::balls::InitialVelocity;
use splitball::geom::Vec2;
use splitball::split::CollisionStarted;
use splitball::world::World;

fn vec2(x: i64, y: i64) -> Vec2 {
    Vec2 { x, y }
}

/// A projectile at the origin moving right hits a static ball at
/// (100, 0) with a previous speed of 200: the factor is one, so both
/// children fly off at the base speed, straight up and down, offset by
/// half the ball radius plus the gap.
#[test]
fn scenario_base_speed() {
    let mut w = World::new();
    let ammo = w.spawn_ammo_ball(vec2(0, 0), InitialVelocity(vec2(200, 0)));
    let target = w.spawn_level_ball(vec2(100, 0), true);
    w.update_previous_velocity();

    let applied = w.process_collision_batch(&vec![CollisionStarted(ammo, target)]);
    assert_eq!(applied.len(), 1);
    assert!(!w.is_alive(ammo));
    assert!(!w.is_alive(target));
    assert_eq!(w.num_entities(), 4);

    let a = w.get_state(2).unwrap();
    let b = w.get_state(3).unwrap();
    assert!(a.alive && b.alive);
    assert_eq!(a.level_ball.unwrap().static_body, false);
    assert_eq!(b.level_ball.unwrap().static_body, false);
    assert_eq!(a.position.unwrap(), vec2(100, 18));
    assert_eq!(b.position.unwrap(), vec2(100, -18));
    assert_eq!(a.velocity.unwrap(), vec2(0, 500));
    assert_eq!(b.velocity.unwrap(), vec2(0, -500));
}

/// The same collision with a previous speed of 1000: the factor
/// clamps at five, so the children fly at five times the base speed.
#[test]
fn scenario_clamped_speed() {
    let mut w = World::new();
    let ammo = w.spawn_ammo_ball(vec2(0, 0), InitialVelocity(vec2(1000, 0)));
    let target = w.spawn_level_ball(vec2(100, 0), true);
    w.update_previous_velocity();

    let applied = w.process_collision_batch(&vec![CollisionStarted(ammo, target)]);
    assert_eq!(applied.len(), 1);
    let a = w.get_state(2).unwrap();
    let b = w.get_state(3).unwrap();
    assert_eq!(a.velocity.unwrap(), vec2(0, 2500));
    assert_eq!(b.velocity.unwrap(), vec2(0, -2500));
}

/// Two events of one batch name the same static ball. The first
/// destroys it; the second finds it gone and is skipped without
/// error and without a duplicate spawn.
#[test]
fn scenario_same_target_twice() {
    let mut w = World::new();
    let ammo1 = w.spawn_ammo_ball(vec2(0, 0), InitialVelocity(vec2(200, 0)));
    let ammo2 = w.spawn_ammo_ball(vec2(200, 0), InitialVelocity(vec2(-200, 0)));
    let target = w.spawn_level_ball(vec2(100, 0), true);
    w.update_previous_velocity();

    let applied = w.process_collision_batch(&vec![
        CollisionStarted(ammo1, target),
        CollisionStarted(ammo2, target),
    ]);
    assert_eq!(applied.len(), 1);
    assert_eq!(applied[0].impactor, ammo1);
    assert!(!w.is_alive(ammo1));
    assert!(!w.is_alive(target));
    assert!(w.is_alive(ammo2));
    assert_eq!(w.num_entities(), 5);
}

/// A collision between two dynamic field balls is a no-op: both stay
/// alive and nothing spawns.
#[test]
fn scenario_dynamic_pair() {
    let mut w = World::new();
    let one = w.spawn_level_ball(vec2(0, 0), false);
    let two = w.spawn_level_ball(vec2(40, 0), false);
    w.update_previous_velocity();

    let applied = w.process_collision_batch(&vec![CollisionStarted(one, two)]);
    assert!(applied.is_empty());
    assert!(w.is_alive(one));
    assert!(w.is_alive(two));
    assert_eq!(w.num_entities(), 2);
}

/// A projectile carrying chain seven splits a static ball: both
/// children carry chain seven, and the live census for that chain is
/// two immediately afterward.
#[test]
fn scenario_chain_inheritance() {
    let mut w = World::new();
    let mut last: usize = 0;
    for _ in 0..7 {
        last = w.spawn_ammo_ball(vec2(0, 0), InitialVelocity(vec2(200, 0)));
    }
    let ammo = last;
    assert_eq!(w.get_state(ammo).unwrap().chain.unwrap().ammo_id, 7);
    let target = w.spawn_level_ball(vec2(100, 0), true);
    w.update_previous_velocity();

    let applied = w.process_collision_batch(&vec![CollisionStarted(ammo, target)]);
    assert_eq!(applied.len(), 1);
    let a = w.get_state(8).unwrap();
    let b = w.get_state(9).unwrap();
    assert_eq!(a.chain.unwrap().ammo_id, 7);
    assert_eq!(b.chain.unwrap().ammo_id, 7);
    assert_eq!(w.chain_live_count(7), 2);
    assert_eq!(w.chain_live_count(1), 0);
}

/// A diagonal impact: direction (30, 40) has length 50, and both the
/// offsets and the velocities follow the perpendiculars scaled by the
/// integer formula, rounding toward zero.
#[test]
fn scenario_diagonal() {
    let mut w = World::new();
    let impactor = w.spawn_level_ball(vec2(0, 0), false);
    let target = w.spawn_level_ball(vec2(30, 40), true);
    w.update_previous_velocity();

    let applied = w.process_collision_batch(&vec![CollisionStarted(impactor, target)]);
    assert_eq!(applied.len(), 1);
    let a = w.get_state(2).unwrap();
    let b = w.get_state(3).unwrap();
    // perpendiculars of (30, 40): (-40, 30) and (40, -30); offset 18/50,
    // previous speed 0 clamps to a factor of one half, speed 250.
    assert_eq!(a.position.unwrap(), vec2(30 - 14, 40 + 10));
    assert_eq!(b.position.unwrap(), vec2(30 + 14, 40 - 10));
    assert_eq!(a.velocity.unwrap(), vec2(-200, 150));
    assert_eq!(b.velocity.unwrap(), vec2(200, -150));
    // both children took no chain from an untagged impactor
    assert!(a.chain.is_none());
    assert!(b.chain.is_none());
}
