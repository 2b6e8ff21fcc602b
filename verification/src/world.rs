//! The registry of game entities the core mutates.
//!
//! Entities are identified by their slot index; destruction marks the
//! slot dead and is idempotent, so several collision events of one
//! batch may ask to destroy the same entity without error. The caller
//! feeds positions and velocities in from the physics engine between
//! steps, and reads spawn requests back out.

use vstd::prelude::*;
use crate::geom::Vec2;
use crate::balls::LevelBall;
use crate::balls::SplitChain;
use crate::balls::InitialVelocity;
use crate::balls::PreviousVelocity;
use crate::COORD_LIMIT;
use crate::POS_LIMIT;
use crate::VEL_LIMIT;

verus! {

/// Everything the core tracks about one entity. A component that an
/// entity does not carry is `None`.
#[derive(Clone, Copy, Debug)]
pub struct EntityState {
    /// False once the entity has been destroyed; the slot stays.
    pub alive: bool,
    pub level_ball: Option<LevelBall>,
    /// True for a player-fired projectile.
    pub ammo: bool,
    pub chain: Option<SplitChain>,
    pub position: Option<Vec2>,
    pub velocity: Option<Vec2>,
    pub prev_velocity: Option<PreviousVelocity>,
}

impl EntityState {
    /// Every stored vector is within the world's coordinate bounds.
    pub open spec fn wf(self) -> bool {
        &&& (match self.position {
            Some(p) => p.in_range(POS_LIMIT as int),
            None => true,
        })
        &&& (match (self.level_ball, self.position) {
            (Some(lb), Some(p)) => lb.static_body ==> p.in_range(COORD_LIMIT as int),
            _ => true,
        })
        &&& (match self.velocity {
            Some(v) => v.in_range(VEL_LIMIT as int),
            None => true,
        })
        &&& (match self.prev_velocity {
            Some(pv) => pv.0.in_range(VEL_LIMIT as int),
            None => true,
        })
    }
}

/// Slot `i` exists and has not been destroyed.
pub open spec fn ent_alive(s: Seq<EntityState>, i: int) -> bool {
    0 <= i < s.len() && s[i].alive
}

/// Slot `i` is a live, still-static field ball.
pub open spec fn is_static_ball(s: Seq<EntityState>, i: int) -> bool {
    ent_alive(s, i) && (match s[i].level_ball {
        Some(lb) => lb.static_body,
        None => false,
    })
}

/// Slot `i` is a live field ball already set in motion by a split.
pub open spec fn is_dynamic_ball(s: Seq<EntityState>, i: int) -> bool {
    ent_alive(s, i) && (match s[i].level_ball {
        Some(lb) => !lb.static_body,
        None => false,
    })
}

/// Slot `i` is a live projectile.
pub open spec fn is_ammo(s: Seq<EntityState>, i: int) -> bool {
    ent_alive(s, i) && s[i].ammo
}

/// The state a freshly placed field ball starts in.
pub open spec fn level_ball_state(position: Vec2, static_body: bool) -> EntityState {
    EntityState {
        alive: true,
        level_ball: Some(LevelBall { static_body }),
        ammo: false,
        chain: None,
        position: Some(position),
        velocity: Some(Vec2 { x: 0, y: 0 }),
        prev_velocity: Some(PreviousVelocity(Vec2 { x: 0, y: 0 })),
    }
}

/// The state a freshly fired projectile starts in: its one-shot
/// initial velocity is consumed here, and it carries a fresh chain tag.
pub open spec fn ammo_ball_state(position: Vec2, iv: InitialVelocity, chain_id: u32) -> EntityState {
    EntityState {
        alive: true,
        level_ball: None,
        ammo: true,
        chain: Some(SplitChain { ammo_id: chain_id }),
        position: Some(position),
        velocity: Some(iv.0),
        prev_velocity: Some(PreviousVelocity(Vec2 { x: 0, y: 0 })),
    }
}

/// The state of an entity the core does not manage (a wall, the
/// player): it can appear in collision events but is never split.
pub open spec fn other_state(position: Option<Vec2>) -> EntityState {
    EntityState {
        alive: true,
        level_ball: None,
        ammo: false,
        chain: None,
        position,
        velocity: None,
        prev_velocity: None,
    }
}

/// Destruction marks the slot dead and keeps everything else; out of
/// range requests change nothing.
pub open spec fn despawn_spec(s: Seq<EntityState>, i: int) -> Seq<EntityState> {
    if 0 <= i < s.len() {
        s.update(i, EntityState { alive: false, ..s[i] })
    } else {
        s
    }
}

/// One velocity-history snapshot: the current velocity overwrites the
/// previous-step slot of every live body that has both.
pub open spec fn snap_state(e: EntityState) -> EntityState {
    match (e.velocity, e.prev_velocity) {
        (Some(v), Some(_)) => if e.alive {
            EntityState { prev_velocity: Some(PreviousVelocity(v)), ..e }
        } else {
            e
        },
        _ => e,
    }
}

/// Whether `e` counts toward the live census of cascade `k`: a live,
/// dynamic field ball tagged with that chain.
pub open spec fn counts_for_chain(e: EntityState, k: u32) -> bool {
    &&& e.alive
    &&& (match e.level_ball {
        Some(lb) => !lb.static_body,
        None => false,
    })
    &&& (match e.chain {
        Some(c) => c.ammo_id == k,
        None => false,
    })
}

/// Number of entities counting toward cascade `k` from slot `i` on.
pub open spec fn chain_count_from(s: Seq<EntityState>, k: u32, i: int) -> int
    decreases s.len() - i,
{
    if i < 0 || i >= s.len() {
        0
    } else {
        (if counts_for_chain(s[i], k) {
            1int
        } else {
            0int
        }) + chain_count_from(s, k, i + 1)
    }
}

/// Hands out cascade identifiers; zero is reserved for "no chain".
#[derive(Clone, Copy, Debug)]
pub struct NextAmmoId(pub u32);

impl Default for NextAmmoId {
    /// The first identifier handed out is one.
    fn default() -> (r: Self)
        ensures
            r.0 == 1,
    {
        NextAmmoId(1)
    }
}

impl NextAmmoId {
    /// Hand out the next identifier.
    pub fn allocate(&mut self) -> (id: u32)
        requires
            old(self).0 < u32::MAX,
        ensures
            id == old(self).0,
            final(self).0 == old(self).0 + 1,
    {
        let id = self.0;
        self.0 = self.0 + 1;
        id
    }
}

/// The registry of entities, together with the chain-id counter.
pub struct World {
    pub entities: Vec<EntityState>,
    pub next_ammo_id: NextAmmoId,
}

impl World {
    /// Every entity is well formed.
    pub open spec fn wf(self) -> bool {
        forall|i: int| 0 <= i < self.entities@.len() ==> (#[trigger] self.entities@[i]).wf()
    }

    /// An empty world.
    pub fn new() -> (w: World)
        ensures
            w.entities@.len() == 0,
            w.next_ammo_id.0 == 1,
            w.wf(),
    {
        World { entities: Vec::new(), next_ammo_id: NextAmmoId(1) }
    }

    /// How many slots exist, dead ones included.
    pub fn num_entities(&self) -> (n: usize)
        ensures
            n == self.entities@.len(),
    {
        self.entities.len()
    }

    /// A copy of slot `id`, if it exists.
    pub fn get_state(&self, id: usize) -> (r: Option<EntityState>)
        ensures
            r == (if id < self.entities@.len() {
                Some(self.entities@[id as int])
            } else {
                None::<EntityState>
            }),
    {
        if id < self.entities.len() {
            Some(self.entities[id])
        } else {
            None
        }
    }

    /// Whether slot `id` is a live entity.
    pub fn is_alive(&self, id: usize) -> (r: bool)
        ensures
            r == ent_alive(self.entities@, id as int),
    {
        id < self.entities.len() && self.entities[id].alive
    }

    /// Whether slot `id` is a live, still-static field ball.
    pub fn is_static_at(&self, id: usize) -> (r: bool)
        ensures
            r == is_static_ball(self.entities@, id as int),
    {
        id < self.entities.len() && self.entities[id].alive && (match self.entities[id].level_ball {
            Some(lb) => lb.static_body,
            None => false,
        })
    }

    /// Whether slot `id` is a live field ball in motion.
    pub fn is_dynamic_at(&self, id: usize) -> (r: bool)
        ensures
            r == is_dynamic_ball(self.entities@, id as int),
    {
        id < self.entities.len() && self.entities[id].alive && (match self.entities[id].level_ball {
            Some(lb) => !lb.static_body,
            None => false,
        })
    }

    /// Whether slot `id` is a live projectile.
    pub fn is_ammo_at(&self, id: usize) -> (r: bool)
        ensures
            r == is_ammo(self.entities@, id as int),
    {
        id < self.entities.len() && self.entities[id].alive && self.entities[id].ammo
    }

    /// Place a field ball, static for untouched original placements.
    pub fn spawn_level_ball(&mut self, position: Vec2, static_body: bool) -> (id: usize)
        requires
            old(self).wf(),
            position.in_range(COORD_LIMIT as int),
        ensures
            final(self).wf(),
            id == old(self).entities@.len(),
            final(self).entities@ == old(self).entities@.push(
                level_ball_state(position, static_body),
            ),
            final(self).next_ammo_id == old(self).next_ammo_id,
    {
        let id = self.entities.len();
        self.entities.push(EntityState {
            alive: true,
            level_ball: Some(LevelBall { static_body }),
            ammo: false,
            chain: None,
            position: Some(position),
            velocity: Some(Vec2 { x: 0, y: 0 }),
            prev_velocity: Some(PreviousVelocity(Vec2 { x: 0, y: 0 })),
        });
        id
    }

    /// Fire a projectile: it consumes its initial velocity and takes
    /// the next chain identifier.
    pub fn spawn_ammo_ball(&mut self, position: Vec2, initial_velocity: InitialVelocity) -> (id:
        usize)
        requires
            old(self).wf(),
            position.in_range(COORD_LIMIT as int),
            initial_velocity.0.in_range(VEL_LIMIT as int),
            old(self).next_ammo_id.0 < u32::MAX,
        ensures
            final(self).wf(),
            id == old(self).entities@.len(),
            final(self).entities@ == old(self).entities@.push(
                ammo_ball_state(position, initial_velocity, old(self).next_ammo_id.0),
            ),
            final(self).next_ammo_id.0 == old(self).next_ammo_id.0 + 1,
    {
        let id = self.entities.len();
        let chain_id = self.next_ammo_id.allocate();
        self.entities.push(EntityState {
            alive: true,
            level_ball: None,
            ammo: true,
            chain: Some(SplitChain { ammo_id: chain_id }),
            position: Some(position),
            velocity: Some(initial_velocity.0),
            prev_velocity: Some(PreviousVelocity(Vec2 { x: 0, y: 0 })),
        });
        id
    }

    /// Register an entity the core does not manage, so collision
    /// events may mention it.
    pub fn spawn_other(&mut self, position: Option<Vec2>) -> (id: usize)
        requires
            old(self).wf(),
            (match position {
                Some(p) => p.in_range(COORD_LIMIT as int),
                None => true,
            }),
        ensures
            final(self).wf(),
            id == old(self).entities@.len(),
            final(self).entities@ == old(self).entities@.push(other_state(position)),
            final(self).next_ammo_id == old(self).next_ammo_id,
    {
        let id = self.entities.len();
        self.entities.push(EntityState {
            alive: true,
            level_ball: None,
            ammo: false,
            chain: None,
            position,
            velocity: None,
            prev_velocity: None,
        });
        id
    }

    /// Destroy slot `id`. Destroying a dead or unknown slot is a
    /// silent no-op, never an error.
    pub fn despawn(&mut self, id: usize)
        requires
            old(self).wf(),
        ensures
            final(self).wf(),
            final(self).entities@ == despawn_spec(old(self).entities@, id as int),
            final(self).next_ammo_id == old(self).next_ammo_id,
    {
        if id < self.entities.len() {
            let mut e = self.entities[id];
            e.alive = false;
            self.entities.set(id, e);
        }
    }

    /// Overwrite slot `id`'s position from the physics engine; dead or
    /// unknown slots are left alone.
    pub fn set_transform(&mut self, id: usize, position: Vec2)
        requires
            old(self).wf(),
            position.in_range(COORD_LIMIT as int),
        ensures
            final(self).wf(),
            final(self).entities@ == (if ent_alive(old(self).entities@, id as int) {
                old(self).entities@.update(
                    id as int,
                    EntityState { position: Some(position), ..old(self).entities@[id as int] },
                )
            } else {
                old(self).entities@
            }),
            final(self).next_ammo_id == old(self).next_ammo_id,
    {
        if id < self.entities.len() {
            if self.entities[id].alive {
                let mut e = self.entities[id];
                e.position = Some(position);
                self.entities.set(id, e);
            }
        }
    }

    /// Overwrite slot `id`'s current velocity from the physics engine;
    /// dead or unknown slots, and bodies without a velocity, are left
    /// alone.
    pub fn set_velocity(&mut self, id: usize, velocity: Vec2)
        requires
            old(self).wf(),
            velocity.in_range(VEL_LIMIT as int),
        ensures
            final(self).wf(),
            final(self).entities@ == (if ent_alive(old(self).entities@, id as int) && old(
                self,
            ).entities@[id as int].velocity is Some {
                old(self).entities@.update(
                    id as int,
                    EntityState { velocity: Some(velocity), ..old(self).entities@[id as int] },
                )
            } else {
                old(self).entities@
            }),
            final(self).next_ammo_id == old(self).next_ammo_id,
    {
        if id < self.entities.len() {
            if self.entities[id].alive && self.entities[id].velocity.is_some() {
                let mut e = self.entities[id];
                e.velocity = Some(velocity);
                self.entities.set(id, e);
            }
        }
    }

    /// Snapshot every live body's velocity into its previous-step
    /// slot. Runs once per fixed physics step, after integration and
    /// before collision resolution.
    pub fn update_previous_velocity(&mut self)
        requires
            old(self).wf(),
        ensures
            final(self).wf(),
            final(self).entities@.len() == old(self).entities@.len(),
            forall|i: int|
                0 <= i < old(self).entities@.len() ==> final(self).entities@[i] == snap_state(
                    #[trigger] old(self).entities@[i],
                ),
            final(self).next_ammo_id == old(self).next_ammo_id,
    {
        let n = self.entities.len();
        let mut idx: usize = 0;
        while idx < n
            invariant
                self.wf(),
                n == self.entities@.len(),
                idx <= n,
                self.entities@.len() == old(self).entities@.len(),
                forall|i: int|
                    0 <= i < idx ==> self.entities@[i] == snap_state(
                        #[trigger] old(self).entities@[i],
                    ),
                forall|i: int|
                    idx <= i < n ==> self.entities@[i] == #[trigger] old(self).entities@[i],
                self.next_ammo_id == old(self).next_ammo_id,
            decreases n - idx,
        {
            let e = self.entities[idx];
            if e.alive && e.velocity.is_some() && e.prev_velocity.is_some() {
                let mut e2 = e;
                let v = e.velocity.unwrap();
                e2.prev_velocity = Some(PreviousVelocity(v));
                self.entities.set(idx, e2);
            }
            idx = idx + 1;
        }
    }

    /// How many live dynamic field balls currently carry chain `k`.
    /// External feedback scales audio pitch by this census.
    pub fn chain_live_count(&self, k: u32) -> (n: usize)
        ensures
            n == chain_count_from(self.entities@, k, 0),
            n <= self.entities@.len(),
    {
        let len = self.entities.len();
        let mut idx: usize = 0;
        let mut count: usize = 0;
        proof {
            lemma_chain_count_bounds(self.entities@, k, 0);
        }
        while idx < len
            invariant
                idx <= len,
                len == self.entities@.len(),
                count <= idx,
                chain_count_from(self.entities@, k, 0) == count + chain_count_from(
                    self.entities@,
                    k,
                    idx as int,
                ),
                0 <= chain_count_from(self.entities@, k, idx as int) <= len - idx,
            decreases len - idx,
        {
            let e = self.entities[idx];
            let mut hit = false;
            if e.alive {
                if let Some(lb) = e.level_ball {
                    if !lb.static_body {
                        if let Some(c) = e.chain {
                            if c.ammo_id == k {
                                hit = true;
                            }
                        }
                    }
                }
            }
            proof {
                lemma_chain_count_bounds(self.entities@, k, idx as int + 1);
            }
            if hit {
                count = count + 1;
            }
            idx = idx + 1;
        }
        count
    }
}

/// Idempotent destruction: destroying an entity a second time in the
/// same batch changes nothing beyond the first destruction.
pub proof fn lemma_despawn_idempotent(s: Seq<EntityState>, i: int)
    ensures
        despawn_spec(despawn_spec(s, i), i) == despawn_spec(s, i),
{
    assert(despawn_spec(despawn_spec(s, i), i) =~= despawn_spec(s, i));
}

/// The census over a suffix is between zero and the suffix length.
pub proof fn lemma_chain_count_bounds(s: Seq<EntityState>, k: u32, i: int)
    ensures
        0 <= chain_count_from(s, k, i),
        0 <= i <= s.len() ==> chain_count_from(s, k, i) <= s.len() - i,
        i < 0 || i >= s.len() ==> chain_count_from(s, k, i) == 0,
    decreases s.len() - i,
{
    if 0 <= i < s.len() {
        lemma_chain_count_bounds(s, k, i + 1);
    }
}

} // verus!
