use vstd::prelude::*;
use crate::geometry::{Vec3, clip, clip_to, SPEED_LIMIT, WORLD_LIMIT};
use crate::world::{Entity, World, entity_wf, unique_ids};

verus! {

/// One axis of an integration step: the new velocity, then the new position.
pub open spec fn step_axis(p: int, v: int, a: int, dt: int) -> (int, int) {
    let v2 = clip(v + a * dt, SPEED_LIMIT as int);
    (clip(p + v2 * dt, WORLD_LIMIT as int), v2)
}

/// `e` after `dt` milliseconds: `velocity += acceleration * dt`, then
/// `position += velocity * dt`, each held within the world's limits.
pub open spec fn moved(e: Entity, dt: u32) -> Entity {
    let x = step_axis(e.position.x as int, e.velocity.x as int, e.acceleration.x as int, dt as int);
    let y = step_axis(e.position.y as int, e.velocity.y as int, e.acceleration.y as int, dt as int);
    let z = step_axis(e.position.z as int, e.velocity.z as int, e.acceleration.z as int, dt as int);
    Entity {
        position: Vec3 { x: x.0 as i64, y: y.0 as i64, z: z.0 as i64 },
        velocity: Vec3 { x: x.1 as i64, y: y.1 as i64, z: z.1 as i64 },
        ..e
    }
}

/// Every entity of `s` after `dt` milliseconds.
pub open spec fn advanced(s: Seq<Entity>, dt: u32) -> Seq<Entity> {
    Seq::new(s.len(), |k: int| moved(s[k], dt))
}

fn integrate_axis(p: i64, v: i64, a: i64, dt: u32) -> (r: (i64, i64))
    requires
        -WORLD_LIMIT <= p <= WORLD_LIMIT,
        -SPEED_LIMIT <= v <= SPEED_LIMIT,
        -SPEED_LIMIT <= a <= SPEED_LIMIT,
    ensures
        r.0 as int == step_axis(p as int, v as int, a as int, dt as int).0,
        r.1 as int == step_axis(p as int, v as int, a as int, dt as int).1,
        -WORLD_LIMIT <= r.0 <= WORLD_LIMIT,
        -SPEED_LIMIT <= r.1 <= SPEED_LIMIT,
{
    let t: i128 = dt as i128;
    assert(-0x100_0000_0000 * 0x1_0000_0000 <= a * t <= 0x100_0000_0000 * 0x1_0000_0000)
        by (nonlinear_arith)
        requires
            -0x100_0000_0000 <= a <= 0x100_0000_0000,
            0 <= t < 0x1_0000_0000,
    ;
    let v2 = clip_to(v as i128 + a as i128 * t, SPEED_LIMIT);
    assert(-0x100_0000_0000 * 0x1_0000_0000 <= v2 * t <= 0x100_0000_0000 * 0x1_0000_0000)
        by (nonlinear_arith)
        requires
            -0x100_0000_0000 <= v2 <= 0x100_0000_0000,
            0 <= t < 0x1_0000_0000,
    ;
    let p2 = clip_to(p as i128 + v2 as i128 * t, WORLD_LIMIT);
    (p2, v2)
}

/// Advances one entity by `dt` milliseconds.
pub fn move_entity(e: Entity, dt: u32) -> (r: Entity)
    requires
        entity_wf(e),
    ensures
        r == moved(e, dt),
        entity_wf(r),
{
    let x = integrate_axis(e.position.x, e.velocity.x, e.acceleration.x, dt);
    let y = integrate_axis(e.position.y, e.velocity.y, e.acceleration.y, dt);
    let z = integrate_axis(e.position.z, e.velocity.z, e.acceleration.z, dt);
    Entity {
        position: Vec3 { x: x.0, y: y.0, z: z.0 },
        velocity: Vec3 { x: x.1, y: y.1, z: z.1 },
        ..e
    }
}

impl World {
    /// Integrates the motion of every entity over `dt` milliseconds.
    pub fn advance(&mut self, dt: u32)
        requires
            old(self).wf(),
        ensures
            final(self).wf(),
            final(self).entities@ == advanced(old(self).entities@, dt),
            forall|i: int|
                0 <= i < old(self).entities@.len() ==> #[trigger] final(self).entities@[i] == moved(
                    old(self).entities@[i],
                    dt,
                ),
            final(self).contacts@ == old(self).contacts@,
            final(self).next_id == old(self).next_id,
            final(self).state == old(self).state,
            final(self).next_state == old(self).next_state,
            final(self).spawn_timer == old(self).spawn_timer,
    {
        let ghost s = self.entities@;
        let mut i: usize = 0;
        while i < self.entities.len()
            invariant
                self.entities@.len() == s.len(),
                i <= s.len(),
                forall|k: int| 0 <= k < i ==> #[trigger] self.entities@[k] == moved(s[k], dt),
                forall|k: int| i <= k < s.len() ==> #[trigger] self.entities@[k] == s[k],
                forall|k: int| 0 <= k < s.len() ==> #[trigger] self.entities@[k].id == s[k].id,
                forall|k: int| 0 <= k < s.len() ==> entity_wf(#[trigger] self.entities@[k]),
                forall|k: int| 0 <= k < s.len() ==> (#[trigger] s[k]).id < self.next_id,
                unique_ids(s),
                self.spawn_timer.timer.wf(),
                self.contacts@ == old(self).contacts@,
                self.next_id == old(self).next_id,
                self.state == old(self).state,
                self.next_state == old(self).next_state,
                self.spawn_timer == old(self).spawn_timer,
            decreases s.len() - i,
        {
            let e = self.entities[i];
            let m = move_entity(e, dt);
            self.entities.set(i, m);
            i = i + 1;
        }
        proof {
            let t = self.entities@;
            assert forall|a: int, b: int|
                0 <= a < t.len() && 0 <= b < t.len() && a != b implies #[trigger] t[a].id
                != #[trigger] t[b].id by {
                assert(t[a].id == s[a].id && t[b].id == s[b].id);
            }
            assert forall|k: int| 0 <= k < t.len() implies (#[trigger] t[k]).id < self.next_id by {
                assert(t[k].id == s[k].id);
            }
            assert(t =~= advanced(s, dt));
        }
    }
}

/// With no acceleration, an entity moves by exactly `velocity * dt` while it
/// stays inside the world; and advancing by zero time changes nothing.
pub proof fn lemma_constant_velocity(e: Entity, dt: u32)
    requires
        entity_wf(e),
        e.acceleration == (Vec3 { x: 0, y: 0, z: 0 }),
        -WORLD_LIMIT <= e.position.x + e.velocity.x * dt <= WORLD_LIMIT,
        -WORLD_LIMIT <= e.position.y + e.velocity.y * dt <= WORLD_LIMIT,
        -WORLD_LIMIT <= e.position.z + e.velocity.z * dt <= WORLD_LIMIT,
    ensures
        moved(e, dt).position.x == e.position.x + e.velocity.x * dt,
        moved(e, dt).position.y == e.position.y + e.velocity.y * dt,
        moved(e, dt).position.z == e.position.z + e.velocity.z * dt,
        moved(e, dt).velocity == e.velocity,
{
}

/// Advancing by zero time leaves an entity as it was.
pub proof fn lemma_zero_step(e: Entity)
    requires
        entity_wf(e),
    ensures
        moved(e, 0) == e,
{
}

} // verus!
