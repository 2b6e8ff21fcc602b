//! Unit tests of the split engine's pieces: eligibility, destruction,
//! history, census, and the speed formula.

use splitball::balls::InitialVelocity;
use splitball::geom::Vec2;
use splitball::split::split_speed_i64;
use splitball::split::CollisionStarted;
use splitball::world::NextAmmoId;
use splitball::world::World;

fn vec2(x: i64, y: i64) -> Vec2 {
    Vec2 { x, y }
}

/// No static participant at all: the event is ignored.
#[test]
fn eligibility_needs_static() {
    let mut w = World::new();
    let ammo = w.spawn_ammo_ball(vec2(0, 0), InitialVelocity(vec2(200, 0)));
    let wall = w.spawn_other(Some(vec2(500, 0)));
    w.update_previous_velocity();
    assert!(w.resolve_collision(CollisionStarted(ammo, wall)).is_none());
    assert!(w.resolve_collision(CollisionStarted(wall, ammo)).is_none());
    let applied = w.process_collision_batch(&vec![CollisionStarted(ammo, wall)]);
    assert!(applied.is_empty());
    assert!(w.is_alive(ammo) && w.is_alive(wall));
}

/// Two static balls: the second participant is no valid impactor, so
/// the event is ignored.
#[test]
fn eligibility_both_static() {
    let mut w = World::new();
    let one = w.spawn_level_ball(vec2(0, 0), true);
    let two = w.spawn_level_ball(vec2(60, 0), true);
    assert!(w.resolve_collision(CollisionStarted(one, two)).is_none());
    assert!(w.is_alive(one) && w.is_alive(two));
}

/// A wall cannot be the impactor, whichever side of the event the
/// static ball stands on.
#[test]
fn eligibility_invalid_impactor() {
    let mut w = World::new();
    let target = w.spawn_level_ball(vec2(100, 0), true);
    let wall = w.spawn_other(Some(vec2(0, 0)));
    assert!(w.resolve_collision(CollisionStarted(wall, target)).is_none());
    assert!(w.resolve_collision(CollisionStarted(target, wall)).is_none());
}

/// Coincident positions leave the impact direction undefined: the
/// event is skipped rather than resolved.
#[test]
fn degenerate_direction_skipped() {
    let mut w = World::new();
    let ammo = w.spawn_ammo_ball(vec2(100, 0), InitialVelocity(vec2(200, 0)));
    let target = w.spawn_level_ball(vec2(100, 0), true);
    w.update_previous_velocity();
    assert!(w.resolve_collision(CollisionStarted(ammo, target)).is_none());
    let applied = w.process_collision_batch(&vec![CollisionStarted(ammo, target)]);
    assert!(applied.is_empty());
    assert!(w.is_alive(ammo) && w.is_alive(target));
}

/// Events naming slots that never existed are skipped.
#[test]
fn unknown_slots_skipped() {
    let mut w = World::new();
    let target = w.spawn_level_ball(vec2(100, 0), true);
    assert!(w.resolve_collision(CollisionStarted(target, 99)).is_none());
    assert!(w.resolve_collision(CollisionStarted(99, 98)).is_none());
    assert!(w.is_alive(target));
}

/// Destroying the same entity twice is a silent no-op, and destroying
/// an unknown slot neither panics nor changes anything.
#[test]
fn despawn_idempotent() {
    let mut w = World::new();
    let ball = w.spawn_level_ball(vec2(0, 0), true);
    w.despawn(ball);
    assert!(!w.is_alive(ball));
    w.despawn(ball);
    assert!(!w.is_alive(ball));
    w.despawn(42);
    assert_eq!(w.num_entities(), 1);
}

/// The history tracker copies the current velocity into the
/// previous-step slot, once per call.
#[test]
fn previous_velocity_snapshot() {
    let mut w = World::new();
    let ball = w.spawn_level_ball(vec2(0, 0), false);
    w.set_velocity(ball, vec2(70, -30));
    assert_eq!(
        w.get_state(ball).unwrap().prev_velocity.unwrap().0,
        vec2(0, 0)
    );
    w.update_previous_velocity();
    assert_eq!(
        w.get_state(ball).unwrap().prev_velocity.unwrap().0,
        vec2(70, -30)
    );
    w.set_velocity(ball, vec2(1, 1));
    assert_eq!(
        w.get_state(ball).unwrap().prev_velocity.unwrap().0,
        vec2(70, -30)
    );
}

/// The census counts live dynamic field balls of the chain, and
/// nothing else: not static balls, not projectiles, not the dead.
#[test]
fn chain_census() {
    let mut w = World::new();
    let ammo = w.spawn_ammo_ball(vec2(0, 0), InitialVelocity(vec2(200, 0)));
    assert_eq!(w.get_state(ammo).unwrap().chain.unwrap().ammo_id, 1);
    // the projectile itself is no field ball, so it does not count
    assert_eq!(w.chain_live_count(1), 0);
    let target = w.spawn_level_ball(vec2(100, 0), true);
    w.update_previous_velocity();
    w.process_collision_batch(&vec![CollisionStarted(ammo, target)]);
    assert_eq!(w.chain_live_count(1), 2);
    w.despawn(2);
    assert_eq!(w.chain_live_count(1), 1);
    assert_eq!(w.chain_live_count(2), 0);
}

/// Identifiers are handed out in order, starting at one; zero stays
/// reserved for "no chain".
#[test]
fn ammo_id_allocation() {
    let mut next = NextAmmoId::default();
    assert_eq!(next.allocate(), 1);
    assert_eq!(next.allocate(), 2);
    assert_eq!(next.allocate(), 3);
    assert_eq!(next.0, 4);
}

/// Exact values of the speed formula, including both clamp
/// boundaries.
#[test]
fn split_speed_values() {
    assert_eq!(split_speed_i64(0), 250);
    assert_eq!(split_speed_i64(40), 250);
    assert_eq!(split_speed_i64(99), 250);
    assert_eq!(split_speed_i64(100), 250);
    assert_eq!(split_speed_i64(101), 252);
    assert_eq!(split_speed_i64(200), 500);
    assert_eq!(split_speed_i64(400), 1000);
    assert_eq!(split_speed_i64(1000), 2500);
    assert_eq!(split_speed_i64(1001), 2500);
    assert_eq!(split_speed_i64(1_000_000), 2500);
}

/// The speed never decreases as the previous-step speed grows.
#[test]
fn split_speed_monotone() {
    let mut previous: i64 = 0;
    let mut m: i64 = 0;
    while m <= 1200 {
        let s = split_speed_i64(m);
        assert!(s >= previous);
        previous = s;
        m += 1;
    }
}

/// A faster previous step yields a strictly faster split between the
/// clamp boundaries.
#[test]
fn split_speed_strict_between_clamps() {
    assert!(split_speed_i64(150) < split_speed_i64(151));
    assert!(split_speed_i64(500) < split_speed_i64(501));
    // and equal at the boundaries
    assert_eq!(split_speed_i64(50), split_speed_i64(99));
    assert_eq!(split_speed_i64(1001), split_speed_i64(2000));
}

/// The split speed comes from the previous-step snapshot, not from
/// whatever the current velocity happens to be at resolution time.
#[test]
fn history_drives_speed() {
    let mut w = World::new();
    let ammo = w.spawn_ammo_ball(vec2(0, 0), InitialVelocity(vec2(200, 0)));
    let target = w.spawn_level_ball(vec2(100, 0), true);
    w.update_previous_velocity();
    // the solver may already have altered the velocity by the time
    // the collision is resolved; the snapshot must win
    w.set_velocity(ammo, vec2(1000, 0));
    w.process_collision_batch(&vec![CollisionStarted(ammo, target)]);
    let a = w.get_state(2).unwrap();
    assert_eq!(a.velocity.unwrap(), vec2(0, 500));
}

/// The physics sync setters ignore dead and unknown slots.
#[test]
fn setters_ignore_missing() {
    let mut w = World::new();
    let ball = w.spawn_level_ball(vec2(0, 0), false);
    w.despawn(ball);
    w.set_transform(ball, vec2(5, 5));
    w.set_velocity(ball, vec2(5, 5));
    assert_eq!(w.get_state(ball).unwrap().position.unwrap(), vec2(0, 0));
    w.set_transform(9, vec2(5, 5));
    assert_eq!(w.num_entities(), 1);
}
