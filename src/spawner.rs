use vstd::prelude::*;
use crate::despawn::{PLAY_HALF_SIZE, play_rect};
use crate::geometry::{Vec3, dist_sq, distance_squared, in_world, sq};
use crate::rng::random_between;
use crate::world::{Collider, Entity, Role, SpawnTimer, World, count_role, entity_wf, lemma_count_push};

verus! {

pub const ASTEROID_RADIUS: u64 = 1_000_000;

/// A new asteroid keeps at least this many asteroid radii of clearance
/// beyond the ship's own radius.
pub const CLEARANCE_FACTOR: u64 = 3;

/// Largest velocity component of a new asteroid, in micro-units per millisecond.
pub const ASTEROID_SPEED: i64 = 5000;

/// Candidates drawn for one asteroid before the spawn is given up.
pub const MAX_SPAWN_ATTEMPTS: u32 = 1000;

/// Asteroids created when a game starts.
pub const INITIAL_ASTEROIDS: u32 = 5;

/// The asteroid created at `p` with velocity `v` (its id is assigned on spawn).
pub open spec fn asteroid_at(p: Vec3, v: Vec3) -> Entity {
    Entity {
        id: 0,
        role: Role::Asteroid,
        position: p,
        velocity: v,
        acceleration: Vec3 { x: 0, y: 0, z: 0 },
        facing: Vec3 { x: 0, y: 0, z: 0 },
        collider: Some(Collider { radius: ASTEROID_RADIUS }),
        health: None,
        shield: None,
        cooldown: None,
        despawn_at_endgame: true,
    }
}

/// Required distance between a ship with radius `r` and a new asteroid.
pub open spec fn clearance(r: u64) -> int {
    r + ASTEROID_RADIUS * CLEARANCE_FACTOR
}

/// `p` is at least `clearance` away from every ship of `s` with a collider.
pub open spec fn clear_of_ships(s: Seq<Entity>, p: Vec3) -> bool {
    forall|i: int|
        0 <= i < s.len() && (#[trigger] s[i]).role == Role::Spaceship && s[i].collider is Some
            ==> dist_sq(s[i].position, p) >= sq(clearance(s[i].collider.unwrap().radius))
}

/// A velocity that a new asteroid may have.
pub open spec fn drift_ok(v: Vec3) -> bool {
    &&& -ASTEROID_SPEED <= v.x <= ASTEROID_SPEED
    &&& v.y == 0
    &&& -ASTEROID_SPEED <= v.z <= ASTEROID_SPEED
}

/// Where asteroids are placed: the play area on the plane `y == 0`, its
/// upper edges left out.
pub open spec fn in_spawn_region(p: Vec3) -> bool {
    &&& -PLAY_HALF_SIZE <= p.x < PLAY_HALF_SIZE
    &&& p.y == 0
    &&& -PLAY_HALF_SIZE <= p.z < PLAY_HALF_SIZE
}

/// No ship of `s` carries a collider, so no candidate point is rejected.
pub open spec fn no_ship_blocks(s: Seq<Entity>) -> bool {
    forall|k: int|
        0 <= k < s.len() ==> (#[trigger] s[k]).role != Role::Spaceship || s[k].collider is None
}

/// `e` is an asteroid that may have been spawned into `s`.
pub open spec fn fresh_asteroid(s: Seq<Entity>, e: Entity) -> bool {
    &&& e == (Entity { id: e.id, ..asteroid_at(e.position, e.velocity) })
    &&& in_spawn_region(e.position)
    &&& play_rect().holds(e.position)
    &&& clear_of_ships(s, e.position)
    &&& drift_ok(e.velocity)
}

/// `s1` is `s` with one fresh asteroid appended.
pub open spec fn grown_by_asteroid(s: Seq<Entity>, s1: Seq<Entity>) -> bool {
    s1.len() == s.len() + 1 && s1.drop_last() == s && fresh_asteroid(s, s1.last())
}

/// `s1` is `s` after the spawn timer's tick, with `next_id` the next free
/// id: unchanged unless the timer `elapsed`; then grown by one fresh
/// asteroid, or unchanged where a ship may have turned every candidate down
/// or the ids are exhausted.
pub open spec fn interval_spawn(s: Seq<Entity>, s1: Seq<Entity>, elapsed: bool, next_id: u64) -> bool {
    if !elapsed {
        s1 == s
    } else {
        grown_by_asteroid(s, s1) || (s1 == s && !(no_ship_blocks(s) && next_id < u64::MAX))
    }
}

proof fn lemma_grown_counts(s: Seq<Entity>, s1: Seq<Entity>)
    requires
        grown_by_asteroid(s, s1),
    ensures
        count_role(s1, Role::Asteroid) == count_role(s, Role::Asteroid) + 1,
        count_role(s1, Role::Spaceship) == count_role(s, Role::Spaceship),
        no_ship_blocks(s) ==> no_ship_blocks(s1),
{
    assert(s1 == s.push(s1.last()));
    lemma_count_push(s, s1.last(), Role::Asteroid);
    lemma_count_push(s, s1.last(), Role::Spaceship);
    if no_ship_blocks(s) {
        assert forall|k: int| 0 <= k < s1.len() implies (#[trigger] s1[k]).role != Role::Spaceship
            || s1[k].collider is None by {
            if k < s.len() {
                assert(s1[k] == s[k]);
            }
        }
    }
}

impl World {
    /// Whether `p` keeps its clearance from every ship.
    pub fn is_clear_of_ships(&self, p: Vec3) -> (r: bool)
        requires
            self.wf(),
            in_world(p),
        ensures
            r == clear_of_ships(self.entities@, p),
    {
        let mut i: usize = 0;
        while i < self.entities.len()
            invariant
                self.wf(),
                in_world(p),
                i <= self.entities@.len(),
                forall|k: int|
                    0 <= k < i && (#[trigger] self.entities@[k]).role == Role::Spaceship
                        && self.entities@[k].collider is Some ==> dist_sq(self.entities@[k].position, p)
                        >= sq(clearance(self.entities@[k].collider.unwrap().radius)),
            decreases self.entities@.len() - i,
        {
            let e = self.entities[i];
            assert(entity_wf(e));
            if e.role == Role::Spaceship {
                if let Some(c) = e.collider {
                    let need: i128 = c.radius as i128 + ASTEROID_RADIUS as i128 * CLEARANCE_FACTOR as i128;
                    assert(0 <= need * need <= 0x2000_0000_0000_0000 * 0x2000_0000_0000_0000)
                        by (nonlinear_arith)
                        requires
                            0 <= need <= 0x2000_0000_0000_0000,
                    ;
                    if distance_squared(e.position, p) < need * need {
                        return false;
                    }
                }
            }
            i = i + 1;
        }
        true
    }

    /// Creates an asteroid at `p` with velocity `v` if `p` keeps its
    /// clearance from every ship; `None`, with nothing changed, otherwise
    /// or once the ids are exhausted.
    pub fn spawn_asteroid_at(&mut self, p: Vec3, v: Vec3) -> (r: Option<u64>)
        requires
            old(self).wf(),
            in_spawn_region(p),
            drift_ok(v),
        ensures
            final(self).wf(),
            clear_of_ships(old(self).entities@, p) && old(self).next_id < u64::MAX ==> r == Some(
                old(self).next_id,
            ) && final(self).entities@ == old(self).entities@.push(
                Entity { id: old(self).next_id, ..asteroid_at(p, v) },
            ),
            !(clear_of_ships(old(self).entities@, p) && old(self).next_id < u64::MAX) ==> r is None
                && final(self).entities@ == old(self).entities@,
            r is Some ==> grown_by_asteroid(old(self).entities@, final(self).entities@),
            final(self).next_id == if r is Some {
                old(self).next_id + 1
            } else {
                old(self).next_id as int
            },
            final(self).contacts@ == old(self).contacts@,
            final(self).state == old(self).state,
            final(self).next_state == old(self).next_state,
            final(self).spawn_timer == old(self).spawn_timer,
    {
        if !self.is_clear_of_ships(p) {
            return None;
        }
        let zero = Vec3::zero();
        let r = self.spawn(
            Entity {
                id: 0,
                role: Role::Asteroid,
                position: p,
                velocity: v,
                acceleration: zero,
                facing: zero,
                collider: Some(Collider::new(ASTEROID_RADIUS)),
                health: None,
                shield: None,
                cooldown: None,
                despawn_at_endgame: true,
            },
        );
        proof {
            if r is Some {
                assert(self.entities@.drop_last() =~= old(self).entities@);
            }
        }
        r
    }

    /// Creates one asteroid at a random point of the spawn region that
    /// keeps its clearance from every ship, drifting at a random velocity in
    /// the play plane. Candidates are drawn up to `MAX_SPAWN_ATTEMPTS` times;
    /// after that, or once the ids are exhausted, nothing is created. With
    /// ids left and no ship to keep clear of, the first candidate is taken.
    pub fn spawn_asteroid(&mut self) -> (r: Option<u64>)
        requires
            old(self).wf(),
        ensures
            final(self).wf(),
            r matches Some(id) ==> grown_by_asteroid(old(self).entities@, final(self).entities@)
                && final(self).entities@.last().id == id && count_role(
                final(self).entities@,
                Role::Asteroid,
            ) == count_role(old(self).entities@, Role::Asteroid) + 1,
            r is None ==> final(self).entities@ == old(self).entities@,
            no_ship_blocks(old(self).entities@) && old(self).next_id < u64::MAX ==> r is Some,
            final(self).next_id == if r is Some {
                old(self).next_id + 1
            } else {
                old(self).next_id as int
            },
            final(self).contacts@ == old(self).contacts@,
            final(self).state == old(self).state,
            final(self).next_state == old(self).next_state,
            final(self).spawn_timer == old(self).spawn_timer,
    {
        if self.next_id == u64::MAX {
            return None;
        }
        let mut attempts: u32 = 0;
        while attempts < MAX_SPAWN_ATTEMPTS
            invariant
                self == old(self),
                self.wf(),
                self.next_id < u64::MAX,
                no_ship_blocks(self.entities@) ==> attempts == 0,
            decreases MAX_SPAWN_ATTEMPTS - attempts,
        {
            let p = Vec3::new(
                random_between(-PLAY_HALF_SIZE, PLAY_HALF_SIZE - 1),
                0,
                random_between(-PLAY_HALF_SIZE, PLAY_HALF_SIZE - 1),
            );
            if self.is_clear_of_ships(p) {
                let v = Vec3::new(
                    random_between(-ASTEROID_SPEED, ASTEROID_SPEED),
                    0,
                    random_between(-ASTEROID_SPEED, ASTEROID_SPEED),
                );
                let r = self.spawn_asteroid_at(p, v);
                proof {
                    if r is Some {
                        lemma_grown_counts(old(self).entities@, self.entities@);
                    }
                }
                return r;
            }
            attempts = attempts + 1;
        }
        None
    }

    /// Creates the first batch of `INITIAL_ASTEROIDS` asteroids; each is
    /// placed as `spawn_asteroid` places it, and an attempt that gives up
    /// creates nothing.
    pub fn spawn_initial_asteroids(&mut self)
        requires
            old(self).wf(),
        ensures
            final(self).wf(),
            old(self).entities@.len() <= final(self).entities@.len() <= old(self).entities@.len()
                + INITIAL_ASTEROIDS,
            final(self).entities@.subrange(0, old(self).entities@.len() as int) == old(self).entities@,
            forall|k: int|
                old(self).entities@.len() <= k < final(self).entities@.len() ==> fresh_asteroid(
                    old(self).entities@,
                    #[trigger] final(self).entities@[k],
                ),
            count_role(final(self).entities@, Role::Asteroid) == count_role(
                old(self).entities@,
                Role::Asteroid,
            ) + (final(self).entities@.len() - old(self).entities@.len()),
            count_role(final(self).entities@, Role::Spaceship) == count_role(
                old(self).entities@,
                Role::Spaceship,
            ),
            no_ship_blocks(old(self).entities@) && old(self).next_id + INITIAL_ASTEROIDS
                <= u64::MAX ==> final(self).entities@.len() == old(self).entities@.len()
                + INITIAL_ASTEROIDS,
            final(self).next_id == old(self).next_id + (final(self).entities@.len()
                - old(self).entities@.len()),
            final(self).contacts@ == old(self).contacts@,
            final(self).state == old(self).state,
            final(self).next_state == old(self).next_state,
            final(self).spawn_timer == old(self).spawn_timer,
    {
        let ghost s = self.entities@;
        let mut n: u32 = 0;
        while n < INITIAL_ASTEROIDS
            invariant
                self.wf(),
                n <= INITIAL_ASTEROIDS,
                s.len() <= self.entities@.len() <= s.len() + n,
                self.entities@.subrange(0, s.len() as int) == s,
                forall|k: int|
                    s.len() <= k < self.entities@.len() ==> fresh_asteroid(
                        s,
                        #[trigger] self.entities@[k],
                    ),
                count_role(self.entities@, Role::Asteroid) == count_role(s, Role::Asteroid) + (
                self.entities@.len() - s.len()),
                count_role(self.entities@, Role::Spaceship) == count_role(s, Role::Spaceship),
                self.next_id == old(self).next_id + (self.entities@.len() - s.len()),
                no_ship_blocks(s) ==> no_ship_blocks(self.entities@),
                no_ship_blocks(s) && old(self).next_id + INITIAL_ASTEROIDS <= u64::MAX
                    ==> self.entities@.len() == s.len() + n,
                self.contacts@ == old(self).contacts@,
                self.state == old(self).state,
                self.next_state == old(self).next_state,
                self.spawn_timer == old(self).spawn_timer,
            decreases INITIAL_ASTEROIDS - n,
        {
            let ghost before = self.entities@;
            let r = self.spawn_asteroid();
            proof {
                if r is Some {
                    let cur = self.entities@;
                    lemma_grown_counts(before, cur);
                    assert(cur.drop_last() == before);
                    assert(cur.subrange(0, s.len() as int) =~= before.subrange(0, s.len() as int));
                    assert forall|k: int| s.len() <= k < cur.len() implies fresh_asteroid(
                        s,
                        #[trigger] cur[k],
                    ) by {
                        if k < cur.len() - 1 {
                            assert(cur[k] == before[k]);
                        } else {
                            let e = cur.last();
                            assert(cur[k] == e);
                            assert forall|i: int|
                                0 <= i < s.len() && (#[trigger] s[i]).role == Role::Spaceship
                                    && s[i].collider is Some implies dist_sq(s[i].position, e.position)
                                    >= sq(clearance(s[i].collider.unwrap().radius)) by {
                                assert(before[i] == s[i]);
                            }
                        }
                    }
                }
            }
            n = n + 1;
        }
    }

    /// Advances the spawn timer by `dt` milliseconds and, when it runs out,
    /// creates one asteroid as `spawn_asteroid` does.
    pub fn spawn_asteroid_on_interval(&mut self, dt: u32)
        requires
            old(self).wf(),
        ensures
            final(self).wf(),
            final(self).spawn_timer.timer == old(self).spawn_timer.timer.ticked(dt as u64),
            interval_spawn(
                old(self).entities@,
                final(self).entities@,
                final(self).spawn_timer.timer.just_finished,
                old(self).next_id,
            ),
            final(self).spawn_timer.timer.just_finished && no_ship_blocks(old(self).entities@)
                && old(self).next_id < u64::MAX ==> final(self).entities@.len() == old(
                self,
            ).entities@.len() + 1 && count_role(final(self).entities@, Role::Asteroid)
                == count_role(old(self).entities@, Role::Asteroid) + 1,
            final(self).next_id == old(self).next_id + (final(self).entities@.len()
                - old(self).entities@.len()),
            final(self).contacts@ == old(self).contacts@,
            final(self).state == old(self).state,
            final(self).next_state == old(self).next_state,
    {
        let mut timer = self.spawn_timer.timer;
        timer.tick(dt as u64);
        self.spawn_timer = SpawnTimer { timer };
        if timer.just_finished {
            self.spawn_asteroid();
        }
    }
}

} // verus!
