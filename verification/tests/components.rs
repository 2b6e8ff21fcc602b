//! Tests of ball setup, geometry, numeric helpers, audio pitch,
//! shooting force, and level bounds.

use splitball::audio::CollisionSoundConfig;
use splitball::balls::ammo_ball_setup;
use splitball::balls::level_ball_setup;
use splitball::balls::BodyKind;
use splitball::balls::LevelBall;
use splitball::geom::Vec2;
use splitball::level::LevelBounds;
use splitball::level::Placement;
use splitball::level::spawn_placements;
use splitball::num::clamp_i64;
use splitball::num::isqrt_u64;
use splitball::num::mul_div_i64;
use splitball::player::shot_spawn;
use splitball::player::ShootingForce;
use splitball::world::World;

fn vec2(x: i64, y: i64) -> Vec2 {
    Vec2 { x, y }
}

/// A field ball gets a half-radius collider, the target mass, full
/// restitution and collision events; static only while untouched.
#[test]
fn level_ball_body() {
    let s = level_ball_setup(&LevelBall { static_body: true });
    assert_eq!(s.body, BodyKind::Static);
    assert_eq!(s.collider_radius, 15);
    assert_eq!(s.visual_radius, 30);
    assert_eq!(s.mass, 6);
    assert_eq!(s.restitution_milli, 1000);
    assert!(s.collision_events);
    let d = level_ball_setup(&LevelBall { static_body: false });
    assert_eq!(d.body, BodyKind::Dynamic);
}

/// A projectile is dynamic, heavy, and collides at full radius.
#[test]
fn ammo_ball_body() {
    let s = ammo_ball_setup();
    assert_eq!(s.body, BodyKind::Dynamic);
    assert_eq!(s.collider_radius, 30);
    assert_eq!(s.mass, 32);
    assert!(s.collision_events);
}

/// The two perpendiculars of an impact direction are orthogonal to it
/// and antiparallel to each other.
#[test]
fn perpendicular_directions() {
    let samples = [
        vec2(100, 0),
        vec2(0, -7),
        vec2(30, 40),
        vec2(-13, 29),
        vec2(-5, -12),
    ];
    for d in samples {
        let p1 = d.perp_ccw();
        let p2 = d.perp_cw();
        assert_eq!(p1.x * d.x + p1.y * d.y, 0);
        assert_eq!(p2.x * d.x + p2.y * d.y, 0);
        assert_eq!(p2, vec2(-p1.x, -p1.y));
    }
}

/// Floor square roots at and around squares, and at machine-word
/// scale.
#[test]
fn isqrt_values() {
    assert_eq!(isqrt_u64(0), 0);
    assert_eq!(isqrt_u64(1), 1);
    assert_eq!(isqrt_u64(3), 1);
    assert_eq!(isqrt_u64(4), 2);
    assert_eq!(isqrt_u64(2500), 50);
    assert_eq!(isqrt_u64(2599), 50);
    assert_eq!(isqrt_u64(8_000_000_000_000_000_000), 2_828_427_124);
    assert_eq!(isqrt_u64(u64::MAX), 4_294_967_295);
}

/// Multiply-divide rounds toward zero on either sign.
#[test]
fn mul_div_rounds_toward_zero() {
    assert_eq!(mul_div_i64(7, 3, 2), 10);
    assert_eq!(mul_div_i64(-7, 3, 2), -10);
    assert_eq!(mul_div_i64(7, -3, 2), -10);
    assert_eq!(mul_div_i64(-7, -3, 2), 10);
    assert_eq!(mul_div_i64(0, 5, 3), 0);
    assert_eq!(clamp_i64(7, 0, 5), 5);
    assert_eq!(clamp_i64(-7, 0, 5), 0);
    assert_eq!(clamp_i64(3, 0, 5), 3);
}

/// The magnitude of a vector is the floor of its true length.
#[test]
fn magnitudes() {
    assert_eq!(vec2(3, 4).magnitude_i64(), 5);
    assert_eq!(vec2(-3, 4).magnitude_i64(), 5);
    assert_eq!(vec2(1, 1).magnitude_i64(), 1);
    assert_eq!(vec2(0, 0).magnitude_i64(), 0);
    assert_eq!(vec2(200, 0).magnitude_i64(), 200);
}

/// Pitch rises per ball of the cascade and caps; playback gating
/// follows the configured limit.
#[test]
fn collision_pitch() {
    let c = CollisionSoundConfig::default();
    assert_eq!(c.collision_pitch_milli(0), 1000);
    assert_eq!(c.collision_pitch_milli(1), 1060);
    assert_eq!(c.collision_pitch_milli(5), 1300);
    assert_eq!(c.collision_pitch_milli(25), 2500);
    assert_eq!(c.collision_pitch_milli(26), 2500);
    assert!(c.may_play(7));
    assert!(!c.may_play(8));
}

/// The shooting force steps between its bounds and stops at them.
#[test]
fn shooting_force_steps() {
    let mut f = ShootingForce::default();
    assert_eq!(f.value, 13_000);
    f.increase();
    assert_eq!(f.value, 14_000);
    for _ in 0..200 {
        f.increase();
    }
    assert_eq!(f.value, 100_000);
    for _ in 0..200 {
        f.decrease();
    }
    assert_eq!(f.value, 5_000);
}

/// A shot leaves one gun length along the aim and flies at the aim
/// scaled by the force.
#[test]
fn shot_placement() {
    let (muzzle, iv) = shot_spawn(vec2(0, 750), vec2(0, -1000), 13_000);
    assert_eq!(muzzle, vec2(0, 650));
    assert_eq!(iv.0, vec2(0, -13_000));
    // a diagonal aim scales both components
    let (m2, iv2) = shot_spawn(vec2(10, 10), vec2(707, -707), 10_000);
    assert_eq!(m2, vec2(10 + 70, 10 - 70));
    assert_eq!(iv2.0, vec2(7070, -7070));
}

/// Bounds swallow points and center on their middle, halves rounded
/// toward zero.
#[test]
fn level_bounds_center() {
    let mut b = LevelBounds::new();
    b.update(10, -40);
    b.update(-30, 20);
    b.update(5, 5);
    assert_eq!(b.min_x, -30);
    assert_eq!(b.max_x, 10);
    assert_eq!(b.min_y, -40);
    assert_eq!(b.max_y, 20);
    let c = b.center();
    assert_eq!(c, vec2(-10, -10));

    let mut all = LevelBounds::new();
    all.update_all(&vec![vec2(0, 0), vec2(101, 7)]);
    let c2 = all.center();
    assert_eq!(c2, vec2(50, 3));
}

/// Placements land in the registry as static field balls shifted by
/// the centering offset.
#[test]
fn placements_spawn_centered() {
    let mut w = World::new();
    let placements = vec![
        Placement { position: vec2(100, 200), static_body: true },
        Placement { position: vec2(300, 200), static_body: true },
        Placement { position: vec2(200, 0), static_body: false },
    ];
    spawn_placements(&mut w, &placements, vec2(200, 100));
    assert_eq!(w.num_entities(), 3);
    let first = w.get_state(0).unwrap();
    assert_eq!(first.position.unwrap(), vec2(-100, 100));
    assert!(first.level_ball.unwrap().static_body);
    let third = w.get_state(2).unwrap();
    assert_eq!(third.position.unwrap(), vec2(0, -100));
    assert!(!third.level_ball.unwrap().static_body);
}
