//! Level placement data, the level's coordinate bounds, and initial
//! spawning.
//!
//! Reading and parsing the level file happens outside the core; the
//! core receives plain placement records once per level change,
//! computes the bounds used to center the level, and fills the
//! registry with the field balls.

use vstd::prelude::*;
use vstd::arithmetic::div_mod::lemma_div_is_ordered;
use vstd::arithmetic::div_mod::lemma_div_pos_is_pos;
use crate::geom::Vec2;
use crate::num::div_tz;
use crate::num::mul_div_i64;
use crate::world::World;
use crate::world::level_ball_state;
use crate::COORD_LIMIT;

verus! {

/// One placement record produced by the level loader.
#[derive(Clone, Copy, Debug)]
pub struct Placement {
    pub position: Vec2,
    pub static_body: bool,
}

/// Running bounds over the coordinates seen so far. Fresh bounds are
/// empty, with the extremes poised so any point replaces them.
#[derive(Clone, Copy, Debug)]
pub struct LevelBounds {
    pub min_x: i64,
    pub max_x: i64,
    pub min_y: i64,
    pub max_y: i64,
}

/// The bounds after taking one more point in.
pub open spec fn bounds_update_spec(b: LevelBounds, x: int, y: int) -> LevelBounds {
    LevelBounds {
        min_x: if x < b.min_x {
            x as i64
        } else {
            b.min_x
        },
        max_x: if x > b.max_x {
            x as i64
        } else {
            b.max_x
        },
        min_y: if y < b.min_y {
            y as i64
        } else {
            b.min_y
        },
        max_y: if y > b.max_y {
            y as i64
        } else {
            b.max_y
        },
    }
}

/// The bounds after taking in every point from index `i` on.
pub open spec fn bounds_fold(b: LevelBounds, pts: Seq<Vec2>, i: int) -> LevelBounds
    decreases pts.len() - i,
{
    if i < 0 || i >= pts.len() {
        b
    } else {
        bounds_fold(bounds_update_spec(b, pts[i].x as int, pts[i].y as int), pts, i + 1)
    }
}

impl LevelBounds {
    /// Empty bounds.
    pub fn new() -> (r: LevelBounds)
        ensures
            r.min_x == i64::MAX,
            r.max_x == i64::MIN,
            r.min_y == i64::MAX,
            r.max_y == i64::MIN,
    {
        LevelBounds { min_x: i64::MAX, max_x: i64::MIN, min_y: i64::MAX, max_y: i64::MIN }
    }

    /// Take one point in.
    pub fn update(&mut self, x: i64, y: i64)
        ensures
            *final(self) == bounds_update_spec(*old(self), x as int, y as int),
    {
        if x < self.min_x {
            self.min_x = x;
        }
        if x > self.max_x {
            self.max_x = x;
        }
        if y < self.min_y {
            self.min_y = y;
        }
        if y > self.max_y {
            self.max_y = y;
        }
    }

    /// Take every point of a list in, in order.
    pub fn update_all(&mut self, points: &Vec<Vec2>)
        ensures
            *final(self) == bounds_fold(*old(self), points@, 0),
    {
        let n = points.len();
        let mut i: usize = 0;
        while i < n
            invariant
                i <= n,
                n == points@.len(),
                bounds_fold(*old(self), points@, 0) == bounds_fold(*self, points@, i as int),
            decreases n - i,
        {
            let p = points[i];
            self.update(p.x, p.y);
            i = i + 1;
        }
    }

    /// The center of the bounds, halves rounded toward zero. Asks for
    /// extremes that are real, in-world coordinates, which excludes
    /// bounds that never took a point in.
    pub fn center(&self) -> (c: Vec2)
        requires
            -(COORD_LIMIT as int) <= self.min_x <= self.max_x <= COORD_LIMIT as int,
            -(COORD_LIMIT as int) <= self.min_y <= self.max_y <= COORD_LIMIT as int,
        ensures
            c.x == div_tz(self.min_x + self.max_x, 2),
            c.y == div_tz(self.min_y + self.max_y, 2),
            c.in_range(COORD_LIMIT as int),
    {
        let sx = self.min_x + self.max_x;
        let sy = self.min_y + self.max_y;
        let cx = mul_div_i64(sx, 1, 2);
        let cy = mul_div_i64(sy, 1, 2);
        proof {
            lemma_center_half_bound(sx as int);
            lemma_center_half_bound(sy as int);
        }
        Vec2 { x: cx, y: cy }
    }
}

/// Half of a doubled world coordinate is a world coordinate.
proof fn lemma_center_half_bound(s: int)
    requires
        -2_000_000 <= s <= 2_000_000,
    ensures
        -1_000_000 <= div_tz(s, 2) <= 1_000_000,
{
    if s >= 0 {
        lemma_div_pos_is_pos(s, 2);
        lemma_div_is_ordered(s, 2_000_000, 2);
    } else {
        lemma_div_pos_is_pos(-s, 2);
        lemma_div_is_ordered(-s, 2_000_000, 2);
    }
}

/// Fill the registry with one field ball per placement, each offset
/// so the level sits centered. Placements and offset stay in half the
/// world so the difference is a world coordinate.
pub fn spawn_placements(world: &mut World, placements: &Vec<Placement>, offset: Vec2)
    requires
        old(world).wf(),
        offset.in_range(500_000),
        forall|i: int|
            0 <= i < placements@.len() ==> (#[trigger] placements@[i]).position.in_range(500_000),
    ensures
        final(world).wf(),
        final(world).entities@ == old(world).entities@ + placements@.map_values(
            |p: Placement| level_ball_state(p.position.sub_spec(offset), p.static_body),
        ),
        final(world).next_ammo_id == old(world).next_ammo_id,
{
    let n = placements.len();
    let mut i: usize = 0;
    while i < n
        invariant
            world.wf(),
            i <= n,
            n == placements@.len(),
            offset.in_range(500_000),
            forall|k: int|
                0 <= k < placements@.len() ==> (#[trigger] placements@[k]).position.in_range(
                    500_000,
                ),
            world.entities@ == old(world).entities@ + placements@.take(i as int).map_values(
                |p: Placement| level_ball_state(p.position.sub_spec(offset), p.static_body),
            ),
            world.next_ammo_id == old(world).next_ammo_id,
        decreases n - i,
    {
        let p = placements[i];
        let pos = p.position.sub(offset);
        world.spawn_level_ball(pos, p.static_body);
        proof {
            let f = |q: Placement| level_ball_state(q.position.sub_spec(offset), q.static_body);
            assert(placements@.take(i as int + 1) =~= placements@.take(i as int).push(p));
            assert(placements@.take(i as int + 1).map_values(f) =~= placements@.take(
                i as int,
            ).map_values(f).push(f(p)));
            assert(world.entities@ =~= old(world).entities@ + placements@.take(
                i as int + 1,
            ).map_values(f));
        }
        i = i + 1;
    }
    proof {
        let f = |q: Placement| level_ball_state(q.position.sub_spec(offset), q.static_body);
        assert(placements@.take(n as int) =~= placements@);
        assert(old(world).entities@ + placements@.take(n as int).map_values(f) =~= old(
            world,
        ).entities@ + placements@.map_values(f));
    }
}

} // verus!
