//! The collision resolution and split engine.
//!
//! Per collision-started event: exactly one participant must be a
//! still-static field ball (the target); the other (the impactor) must
//! be a projectile or an already-moving field ball. The target and the
//! impactor are destroyed, and two dynamic field balls appear beside
//! the target, thrown out perpendicular to the line of impact. Their
//! speed scales with the impactor's previous-step velocity through a
//! clamped factor, and they inherit the impactor's chain tag.
//!
//! Speed policy: this engine scales split speed by velocity history,
//! not by contact penetration or impulse, so the outcome depends only
//! on registry state and is reproducible.

use vstd::prelude::*;
use vstd::arithmetic::div_mod::lemma_div_is_ordered;
use vstd::arithmetic::div_mod::lemma_div_pos_is_pos;
use vstd::arithmetic::div_mod::lemma_div_multiples_vanish;
use vstd::arithmetic::div_mod::lemma_div_plus_one;
use crate::geom::Vec2;
use crate::num::clamp_spec;
use crate::num::clamp_i64;
use crate::num::is_isqrt;
use crate::num::lemma_mul_div_tz_bound;
use crate::balls::LevelBall;
use crate::balls::SplitChain;
use crate::balls::InitialVelocity;
use crate::balls::PreviousVelocity;
use crate::world::EntityState;
use crate::world::World;
use crate::world::despawn_spec;
use crate::world::is_static_ball;
use crate::world::is_dynamic_ball;
use crate::world::is_ammo;
use crate::BALL_RADIUS;
use crate::SPLIT_GAP;
use crate::POS_LIMIT;
use crate::VEL_LIMIT;

verus! {

/// Split speed before scaling, in world units per second.
pub const BASE_SPEED: i64 = 500;

/// The previous-step speed that maps to a scale factor of one.
pub const SPEED_FACTOR_DIVISOR: i64 = 200;

/// Lower clamp of the speed factor, in thousandths.
pub const FACTOR_MIN_MILLI: i64 = 500;

/// Upper clamp of the speed factor, in thousandths.
pub const FACTOR_MAX_MILLI: i64 = 5000;

/// One whole, in thousandths.
pub const MILLI: i64 = 1000;

/// A collision-started event between two entity slots, in the order
/// the physics engine reported them.
#[derive(Clone, Copy, PartialEq, Eq, Structural, Debug)]
pub struct CollisionStarted(pub usize, pub usize);

/// One ball the split engine asks to create.
#[derive(Clone, Copy, Debug)]
pub struct SpawnBall {
    pub position: Vec2,
    pub initial_velocity: InitialVelocity,
    pub chain: Option<SplitChain>,
}

/// Everything one destructive collision asks for: two destructions
/// and two spawns, issued together.
#[derive(Clone, Copy, Debug)]
pub struct SplitCommands {
    pub target: usize,
    pub impactor: usize,
    pub spawn_a: SpawnBall,
    pub spawn_b: SpawnBall,
}

/// The static participant of an event, the first slot checked first;
/// none when neither participant is a static field ball.
pub open spec fn static_target(s: Seq<EntityState>, a: int, b: int) -> Option<int> {
    if is_static_ball(s, a) {
        Some(a)
    } else if is_static_ball(s, b) {
        Some(b)
    } else {
        None
    }
}

/// The impactor must be a projectile or a field ball in motion; in
/// particular a second static ball never qualifies.
pub open spec fn impactor_valid(s: Seq<EntityState>, i: int) -> bool {
    is_ammo(s, i) || is_dynamic_ball(s, i)
}

/// The speed factor in thousandths: the previous-step speed measured
/// against the divisor, clamped.
pub open spec fn split_factor_milli(m: int) -> int {
    clamp_spec(
        m * (MILLI as int) / (SPEED_FACTOR_DIVISOR as int),
        FACTOR_MIN_MILLI as int,
        FACTOR_MAX_MILLI as int,
    )
}

/// Split speed for a previous-step speed of `m`: the base speed scaled
/// by the clamped factor.
pub open spec fn split_speed(m: int) -> int {
    (BASE_SPEED as int) * split_factor_milli(m) / (MILLI as int)
}

/// The speed used for an impactor: from its previous-step velocity,
/// or the base speed when it has no history.
pub open spec fn speed_for(s: Seq<EntityState>, imp: int) -> int {
    match s[imp].prev_velocity {
        Some(pv) => split_speed(pv.0.magnitude()),
        None => BASE_SPEED as int,
    }
}

/// How far from the destroyed target each split product appears.
pub open spec fn spawn_offset() -> int {
    BALL_RADIUS as int / 2 + SPLIT_GAP as int
}

/// One spawned ball: at the target's position pushed out along the
/// perpendicular `perp` (of length `dist`), moving the same way at
/// `speed`, carrying the impactor's chain tag.
pub open spec fn spawn_for(tp: Vec2, perp: Vec2, dist: int, speed: int, chain: Option<
    SplitChain,
>) -> SpawnBall {
    SpawnBall {
        position: tp.add_spec(perp.scale_div_spec(spawn_offset(), dist)),
        initial_velocity: InitialVelocity(perp.scale_div_spec(speed, dist)),
        chain,
    }
}

/// What one collision-started event resolves to: `None` for every
/// ignored event (no static participant, an invalid impactor, missing
/// positions, or coincident positions), otherwise the two despawns and
/// two spawns.
pub open spec fn resolve_spec(s: Seq<EntityState>, a: int, b: int) -> Option<SplitCommands> {
    match static_target(s, a, b) {
        None => None,
        Some(t) => {
            let imp = if t == a {
                b
            } else {
                a
            };
            if !impactor_valid(s, imp) {
                None
            } else {
                match (s[imp].position, s[t].position) {
                    (Some(ip), Some(tp)) => {
                        let d = tp.sub_spec(ip);
                        if d.is_zero() {
                            None
                        } else {
                            let dist = d.magnitude();
                            let speed = speed_for(s, imp);
                            Some(
                                SplitCommands {
                                    target: t as usize,
                                    impactor: imp as usize,
                                    spawn_a: spawn_for(
                                        tp,
                                        d.perp_ccw_spec(),
                                        dist,
                                        speed,
                                        s[imp].chain,
                                    ),
                                    spawn_b: spawn_for(
                                        tp,
                                        d.perp_cw_spec(),
                                        dist,
                                        speed,
                                        s[imp].chain,
                                    ),
                                },
                            )
                        }
                    },
                    _ => None,
                }
            }
        },
    }
}

/// No component of a vector exceeds the vector's rounded-down length.
pub proof fn lemma_component_le_magnitude(d: Vec2, dist: int)
    requires
        is_isqrt(d.norm_sq(), dist),
    ensures
        -dist <= d.x <= dist,
        -dist <= d.y <= dist,
{
    let xi = d.x as int;
    let yi = d.y as int;
    assert(-dist <= xi <= dist && -dist <= yi <= dist) by (nonlinear_arith)
        requires
            0 <= dist,
            dist * dist <= xi * xi + yi * yi < (dist + 1) * (dist + 1),
    {
    }
}

/// Compute the split speed for a previous-step speed of `m`.
pub fn split_speed_i64(m: i64) -> (r: i64)
    requires
        0 <= m <= 3_000_000_000,
    ensures
        r == split_speed(m as int),
        250 <= r <= 2500,
{
    let mu: u64 = m as u64;
    proof {
        assert((mu as int) * 1000 <= 3_000_000_000_000) by (nonlinear_arith)
            requires
                0 <= mu <= 3_000_000_000u64,
        {
        }
        lemma_div_pos_is_pos((mu as int) * 1000, 200);
        lemma_div_is_ordered((mu as int) * 1000, 3_000_000_000_000, 200);
    }
    let raw: u64 = mu * 1000 / 200;
    let factor: i64 = clamp_i64(raw as i64, FACTOR_MIN_MILLI, FACTOR_MAX_MILLI);
    proof {
        assert(factor as int == split_factor_milli(m as int));
        assert(250_000 <= 500 * (factor as int) <= 2_500_000) by (nonlinear_arith)
            requires
                500 <= factor <= 5000i64,
        {
        }
        lemma_div_is_ordered(250_000, 500 * (factor as int), 1000);
        lemma_div_is_ordered(500 * (factor as int), 2_500_000, 1000);
    }
    let speed: u64 = 500 * (factor as u64) / 1000;
    speed as i64
}

/// Bounds that every command of a resolved event satisfies in a well
/// formed world: spawn positions stay near the target and spawn
/// speeds stay small, so the world stays well formed.
pub proof fn lemma_resolve_bounds(s: Seq<EntityState>, a: int, b: int)
    requires
        forall|i: int| 0 <= i < s.len() ==> (#[trigger] s[i]).wf(),
        resolve_spec(s, a, b) is Some,
    ensures
        ({
            let c = resolve_spec(s, a, b).unwrap();
            &&& c.spawn_a.position.in_range(POS_LIMIT as int)
            &&& c.spawn_b.position.in_range(POS_LIMIT as int)
            &&& c.spawn_a.initial_velocity.0.in_range(VEL_LIMIT as int)
            &&& c.spawn_b.initial_velocity.0.in_range(VEL_LIMIT as int)
            &&& 0 <= c.target < s.len()
            &&& 0 <= c.impactor < s.len()
        }),
{
    let t = static_target(s, a, b).unwrap();
    let imp = if t == a {
        b
    } else {
        a
    };
    let ip = s[imp].position.unwrap();
    let tp = s[t].position.unwrap();
    let d = tp.sub_spec(ip);
    let dist = d.magnitude();
    let speed = speed_for(s, imp);
    crate::geom::lemma_norm_sq_nonneg(d);
    crate::num::lemma_isqrt_spec(d.norm_sq());
    lemma_component_le_magnitude(d, dist);
    assert(dist >= 1) by {
        let xi = d.x as int;
        let yi = d.y as int;
        assert(xi * xi + yi * yi >= 1) by (nonlinear_arith)
            requires
                !(xi == 0 && yi == 0),
        {
        }
        if dist == 0 {
            assert(d.norm_sq() < (0 + 1) * (0 + 1));
        }
    }
    assert(250 <= speed <= 2500) by {
        match s[imp].prev_velocity {
            Some(pv) => {
                crate::geom::lemma_norm_sq_nonneg(pv.0);
                crate::num::lemma_isqrt_spec(pv.0.norm_sq());
                assert(pv.0.magnitude() >= 0);
                lemma_split_speed_bounds(pv.0.magnitude());
            },
            None => {},
        }
    }
    let p1 = d.perp_ccw_spec();
    let p2 = d.perp_cw_spec();
    lemma_mul_div_tz_bound(p1.x as int, spawn_offset(), dist);
    lemma_mul_div_tz_bound(p1.y as int, spawn_offset(), dist);
    lemma_mul_div_tz_bound(p2.x as int, spawn_offset(), dist);
    lemma_mul_div_tz_bound(p2.y as int, spawn_offset(), dist);
    lemma_mul_div_tz_bound(p1.x as int, speed, dist);
    lemma_mul_div_tz_bound(p1.y as int, speed, dist);
    lemma_mul_div_tz_bound(p2.x as int, speed, dist);
    lemma_mul_div_tz_bound(p2.y as int, speed, dist);
}

/// The split speed lies between a half and five times the base speed.
pub proof fn lemma_split_speed_bounds(m: int)
    requires
        m >= 0,
    ensures
        250 <= split_speed(m) <= 2500,
{
    let f = split_factor_milli(m);
    lemma_div_pos_is_pos(m * (MILLI as int), SPEED_FACTOR_DIVISOR as int);
    assert(500 <= f <= 5000);
    lemma_div_is_ordered(250_000, (BASE_SPEED as int) * f, MILLI as int);
    lemma_div_is_ordered((BASE_SPEED as int) * f, 2_500_000, MILLI as int);
}

/// The state a split product starts in: a dynamic field ball at the
/// commanded position, already moving at its one-shot initial
/// velocity, tagged with the inherited chain.
pub open spec fn spawn_state(b: SpawnBall) -> EntityState {
    EntityState {
        alive: true,
        level_ball: Some(LevelBall { static_body: false }),
        ammo: false,
        chain: b.chain,
        position: Some(b.position),
        velocity: Some(b.initial_velocity.0),
        prev_velocity: Some(PreviousVelocity(Vec2 { x: 0, y: 0 })),
    }
}

/// Batch processing from event `i` on: each event is resolved against
/// the entities with all earlier destructions applied, destructions
/// take effect at once, and spawns are buffered. Yields the surviving
/// entities, the buffered spawns in order, and the applied commands.
pub open spec fn batch_step(s: Seq<EntityState>, evs: Seq<CollisionStarted>, i: int) -> (
    Seq<EntityState>,
    Seq<SpawnBall>,
    Seq<SplitCommands>,
)
    decreases evs.len() - i,
{
    if i < 0 || i >= evs.len() {
        (s, Seq::<SpawnBall>::empty(), Seq::<SplitCommands>::empty())
    } else {
        match resolve_spec(s, evs[i].0 as int, evs[i].1 as int) {
            None => batch_step(s, evs, i + 1),
            Some(c) => {
                let s1 = despawn_spec(despawn_spec(s, c.target as int), c.impactor as int);
                let rest = batch_step(s1, evs, i + 1);
                (rest.0, seq![c.spawn_a, c.spawn_b] + rest.1, seq![c] + rest.2)
            },
        }
    }
}

/// One whole batch: the spawn buffer is appended after the last event,
/// so the engine never observes its own spawns within the batch.
pub open spec fn batch_spec(s: Seq<EntityState>, evs: Seq<CollisionStarted>) -> (
    Seq<EntityState>,
    Seq<SplitCommands>,
) {
    let r = batch_step(s, evs, 0);
    (r.0 + r.1.map_values(|b: SpawnBall| spawn_state(b)), r.2)
}

/// Eligibility invariant: an event in which neither participant is a
/// static field ball resolves to nothing, so it despawns and spawns
/// nothing.
pub proof fn lemma_eligibility(s: Seq<EntityState>, a: int, b: int)
    requires
        !is_static_ball(s, a),
        !is_static_ball(s, b),
    ensures
        resolve_spec(s, a, b) is None,
{
}

/// Eligibility invariant over a whole batch: when no event of the
/// batch touches a static field ball, the batch leaves the world
/// unchanged and applies no split.
pub proof fn lemma_eligibility_batch(s: Seq<EntityState>, evs: Seq<CollisionStarted>)
    requires
        forall|i: int|
            0 <= i < evs.len() ==> !is_static_ball(s, (#[trigger] evs[i]).0 as int)
                && !is_static_ball(s, evs[i].1 as int),
    ensures
        batch_spec(s, evs).0 == s,
        batch_spec(s, evs).1 == Seq::<SplitCommands>::empty(),
{
    lemma_eligibility_batch_from(s, evs, 0);
    let r = batch_step(s, evs, 0);
    assert(r.0 + r.1.map_values(|b: SpawnBall| spawn_state(b)) =~= s);
}

/// Helper for the batch-level eligibility invariant: from any start
/// index on, nothing changes.
proof fn lemma_eligibility_batch_from(s: Seq<EntityState>, evs: Seq<CollisionStarted>, i: int)
    requires
        forall|k: int|
            0 <= k < evs.len() ==> !is_static_ball(s, (#[trigger] evs[k]).0 as int)
                && !is_static_ball(s, evs[k].1 as int),
    ensures
        batch_step(s, evs, i) == (s, Seq::<SpawnBall>::empty(), Seq::<SplitCommands>::empty()),
    decreases evs.len() - i,
{
    if 0 <= i < evs.len() {
        lemma_eligibility(s, evs[i].0 as int, evs[i].1 as int);
        lemma_eligibility_batch_from(s, evs, i + 1);
    }
}

/// Conservation of chain identity: both balls born of a split carry
/// exactly the impactor's chain tag; an untagged impactor begets
/// untagged children.
pub proof fn lemma_chain_conservation(s: Seq<EntityState>, a: int, b: int)
    requires
        s.len() <= usize::MAX,
        resolve_spec(s, a, b) is Some,
    ensures
        ({
            let c = resolve_spec(s, a, b).unwrap();
            &&& c.spawn_a.chain == s[c.impactor as int].chain
            &&& c.spawn_b.chain == s[c.impactor as int].chain
        }),
{
    let t = static_target(s, a, b).unwrap();
    let imp = if t == a {
        b
    } else {
        a
    };
    assert(impactor_valid(s, imp));
    assert(0 <= imp < s.len());
    let c = resolve_spec(s, a, b).unwrap();
    match (s[imp].position, s[t].position) {
        (Some(ip), Some(tp)) => {
            let d = tp.sub_spec(ip);
            assert(!d.is_zero());
            assert(c.impactor as int == imp);
        },
        _ => {
            assert(false);
        },
    }
}

/// No duplicate split: once a resolved event's two destructions have
/// taken effect, the same event resolves to nothing, so a second copy
/// of it in the batch cannot spawn a second pair.
pub proof fn lemma_no_duplicate_split(s: Seq<EntityState>, a: int, b: int)
    requires
        s.len() <= usize::MAX,
        resolve_spec(s, a, b) is Some,
    ensures
        ({
            let c = resolve_spec(s, a, b).unwrap();
            resolve_spec(
                despawn_spec(despawn_spec(s, c.target as int), c.impactor as int),
                a,
                b,
            ) is None
        }),
{
    let t = static_target(s, a, b).unwrap();
    let imp = if t == a {
        b
    } else {
        a
    };
    assert(impactor_valid(s, imp));
    let c = resolve_spec(s, a, b).unwrap();
    match (s[imp].position, s[t].position) {
        (Some(ip), Some(tp)) => {
            let d = tp.sub_spec(ip);
            assert(!d.is_zero());
            assert(c.target as int == t && c.impactor as int == imp);
        },
        _ => {
            assert(false);
        },
    }
    let s2 = despawn_spec(despawn_spec(s, t), imp);
    assert(!s2[a].alive && !s2[b].alive);
    assert(!is_static_ball(s2, a) && !is_static_ball(s2, b));
}

/// Speed monotonicity: a harder previous-step impact never yields a
/// slower split.
pub proof fn lemma_split_speed_monotone(m1: int, m2: int)
    requires
        0 <= m1 <= m2,
    ensures
        split_speed(m1) <= split_speed(m2),
{
    assert(m1 * 1000 <= m2 * 1000) by (nonlinear_arith)
        requires
            m1 <= m2,
    {
    }
    lemma_div_is_ordered(m1 * 1000, m2 * 1000, 200);
    let f1 = split_factor_milli(m1);
    let f2 = split_factor_milli(m2);
    assert(f1 <= f2);
    assert(500 * f1 <= 500 * f2) by (nonlinear_arith)
        requires
            f1 <= f2,
    {
    }
    lemma_div_is_ordered(500 * f1, 500 * f2, 1000);
}

/// Strictly between the clamp boundaries, a strictly harder impact
/// yields a strictly faster split; at the boundaries the clamp makes
/// the speeds equal.
pub proof fn lemma_split_speed_strict(m1: int, m2: int)
    requires
        100 <= m1 < m2 <= 1000,
    ensures
        split_speed(m1) < split_speed(m2),
{
    assert(m1 * 1000 == 200 * (5 * m1));
    assert(m2 * 1000 == 200 * (5 * m2));
    lemma_div_multiples_vanish(5 * m1, 200);
    lemma_div_multiples_vanish(5 * m2, 200);
    let f1 = split_factor_milli(m1);
    let f2 = split_factor_milli(m2);
    assert(f1 == 5 * m1 && f2 == 5 * m2);
    assert(500 * f2 >= 500 * f1 + 2500) by (nonlinear_arith)
        requires
            f2 >= f1 + 5,
    {
    }
    lemma_div_is_ordered(500 * f1 + 2000, 500 * f2, 1000);
    lemma_div_plus_one(500 * f1, 1000);
    lemma_div_plus_one(1000 + 500 * f1, 1000);
    assert((500 * f1 + 2000) / 1000 == 2 + (500 * f1) / 1000);
}

impl World {
    /// Resolve one collision-started event to the commands it asks
    /// for, or to nothing for every event the engine ignores.
    pub fn resolve_collision(&self, ev: CollisionStarted) -> (r: Option<SplitCommands>)
        requires
            self.wf(),
        ensures
            r == resolve_spec(self.entities@, ev.0 as int, ev.1 as int),
    {
        let a = ev.0;
        let b = ev.1;
        let t: usize = if self.is_static_at(a) {
            a
        } else if self.is_static_at(b) {
            b
        } else {
            return None;
        };
        let imp: usize = if t == a {
            b
        } else {
            a
        };
        if !(self.is_ammo_at(imp) || self.is_dynamic_at(imp)) {
            return None;
        }
        let imp_state = self.entities[imp];
        let t_state = self.entities[t];
        let ip = match imp_state.position {
            Some(p) => p,
            None => {
                return None;
            },
        };
        let tp = match t_state.position {
            Some(p) => p,
            None => {
                return None;
            },
        };
        let d = tp.sub(ip);
        if d.x == 0 && d.y == 0 {
            return None;
        }
        let dist = d.magnitude_i64();
        let speed = match imp_state.prev_velocity {
            Some(pv) => split_speed_i64(pv.0.magnitude_i64()),
            None => BASE_SPEED,
        };
        let half: u64 = (BALL_RADIUS as u64) / 2;
        let offset_len: i64 = (half as i64) + SPLIT_GAP;
        assert(offset_len == spawn_offset());
        let p1 = d.perp_ccw();
        let p2 = d.perp_cw();
        proof {
            lemma_component_le_magnitude(d, dist as int);
            lemma_mul_div_tz_bound(p1.x as int, offset_len as int, dist as int);
            lemma_mul_div_tz_bound(p1.y as int, offset_len as int, dist as int);
            lemma_mul_div_tz_bound(p2.x as int, offset_len as int, dist as int);
            lemma_mul_div_tz_bound(p2.y as int, offset_len as int, dist as int);
        }
        let spawn_a = SpawnBall {
            position: tp.add(p1.scale_div(offset_len, dist)),
            initial_velocity: InitialVelocity(p1.scale_div(speed, dist)),
            chain: imp_state.chain,
        };
        let spawn_b = SpawnBall {
            position: tp.add(p2.scale_div(offset_len, dist)),
            initial_velocity: InitialVelocity(p2.scale_div(speed, dist)),
            chain: imp_state.chain,
        };
        Some(SplitCommands { target: t, impactor: imp, spawn_a, spawn_b })
    }

    /// Create one split product.
    fn spawn_split_ball(&mut self, b: SpawnBall)
        requires
            old(self).wf(),
            b.position.in_range(POS_LIMIT as int),
            b.initial_velocity.0.in_range(VEL_LIMIT as int),
        ensures
            final(self).wf(),
            final(self).entities@ == old(self).entities@.push(spawn_state(b)),
            final(self).next_ammo_id == old(self).next_ammo_id,
    {
        self.entities.push(EntityState {
            alive: true,
            level_ball: Some(LevelBall { static_body: false }),
            ammo: false,
            chain: b.chain,
            position: Some(b.position),
            velocity: Some(b.initial_velocity.0),
            prev_velocity: Some(PreviousVelocity(Vec2 { x: 0, y: 0 })),
        });
    }

    /// Consume one tick's batch of collision-started events.
    /// Destructions take effect at once, and are idempotent, so a
    /// later event naming an already-destroyed entity is skipped;
    /// spawns are buffered and appended after the whole batch. The
    /// applied commands are returned for external feedback.
    pub fn process_collision_batch(&mut self, events: &Vec<CollisionStarted>) -> (applied: Vec<
        SplitCommands,
    >)
        requires
            old(self).wf(),
        ensures
            final(self).wf(),
            final(self).entities@ == batch_spec(old(self).entities@, events@).0,
            applied@ == batch_spec(old(self).entities@, events@).1,
            final(self).next_ammo_id == old(self).next_ammo_id,
    {
        let ghost s0 = self.entities@;
        let n = events.len();
        let mut i: usize = 0;
        let mut pending: Vec<SpawnBall> = Vec::new();
        let mut applied: Vec<SplitCommands> = Vec::new();
        while i < n
            invariant
                self.wf(),
                n == events@.len(),
                i <= n,
                batch_step(s0, events@, 0).0 == batch_step(self.entities@, events@, i as int).0,
                batch_step(s0, events@, 0).1 == pending@ + batch_step(
                    self.entities@,
                    events@,
                    i as int,
                ).1,
                batch_step(s0, events@, 0).2 == applied@ + batch_step(
                    self.entities@,
                    events@,
                    i as int,
                ).2,
                forall|j: int|
                    0 <= j < pending@.len() ==> (#[trigger] pending@[j]).position.in_range(
                        POS_LIMIT as int,
                    ) && pending@[j].initial_velocity.0.in_range(VEL_LIMIT as int),
                self.next_ammo_id == old(self).next_ammo_id,
            decreases n - i,
        {
            let ev = events[i];
            let ghost s_prev = self.entities@;
            match self.resolve_collision(ev) {
                None => {
                    assert(batch_step(s_prev, events@, i as int) == batch_step(
                        s_prev,
                        events@,
                        i as int + 1,
                    ));
                },
                Some(c) => {
                    proof {
                        lemma_resolve_bounds(s_prev, ev.0 as int, ev.1 as int);
                    }
                    let ghost pending0 = pending@;
                    let ghost applied0 = applied@;
                    self.despawn(c.target);
                    self.despawn(c.impactor);
                    pending.push(c.spawn_a);
                    pending.push(c.spawn_b);
                    applied.push(c);
                    proof {
                        let rest = batch_step(self.entities@, events@, i as int + 1);
                        assert(batch_step(s_prev, events@, i as int).1 == seq![
                            c.spawn_a,
                            c.spawn_b,
                        ] + rest.1);
                        assert(pending@ =~= pending0 + seq![c.spawn_a, c.spawn_b]);
                        assert(pending0 + (seq![c.spawn_a, c.spawn_b] + rest.1) =~= (pending0
                            + seq![c.spawn_a, c.spawn_b]) + rest.1);
                        assert(applied@ =~= applied0 + seq![c]);
                        assert(applied0 + (seq![c] + rest.2) =~= (applied0 + seq![c]) + rest.2);
                    }
                },
            }
            i = i + 1;
        }
        proof {
            assert(batch_step(s0, events@, 0).1 =~= pending@);
            assert(batch_step(s0, events@, 0).2 =~= applied@);
        }
        let ghost base = self.entities@;
        let m = pending.len();
        let mut j: usize = 0;
        while j < m
            invariant
                self.wf(),
                j <= m,
                m == pending@.len(),
                self.entities@ == base + pending@.take(j as int).map_values(
                    |b: SpawnBall| spawn_state(b),
                ),
                forall|k: int|
                    0 <= k < pending@.len() ==> (#[trigger] pending@[k]).position.in_range(
                        POS_LIMIT as int,
                    ) && pending@[k].initial_velocity.0.in_range(VEL_LIMIT as int),
                self.next_ammo_id == old(self).next_ammo_id,
            decreases m - j,
        {
            let b = pending[j];
            self.spawn_split_ball(b);
            proof {
                assert(pending@.take(j as int + 1) =~= pending@.take(j as int).push(b));
                assert(pending@.take(j as int + 1).map_values(|b: SpawnBall| spawn_state(b))
                    =~= pending@.take(j as int).map_values(|b: SpawnBall| spawn_state(b)).push(
                    spawn_state(b),
                ));
            }
            j = j + 1;
        }
        proof {
            assert(pending@.take(m as int) =~= pending@);
            assert(self.entities@ == base + pending@.map_values(|b: SpawnBall| spawn_state(b)));
        }
        applied
    }
}

} // verus!
