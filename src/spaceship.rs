use vstd::prelude::*;
use crate::geometry::{Vec3, clip, clip_to, SPEED_LIMIT, WORLD_LIMIT};
use crate::health::{Health, STARTING_HEALTH};
use crate::phase::Keys;
use crate::timer::{Timer, TimerMode};
use crate::world::{
    AlreadyFired, Collider, Entity, Role, SpaceshipShield, World, entity_wf, facing_ok,
    count_role, has_single, lemma_count_push, lemma_count_update, lemma_single_index,
    lemma_survivors_one, single_index,
};

verus! {

pub const SPACESHIP_RADIUS: u64 = 5_000_000;

/// Velocity change of one thrust, per thousandth of the facing.
pub const SPACESHIP_SPEED: i64 = 25;

pub const MISSILE_RADIUS: u64 = 1_000_000;

/// Missile velocity, per thousandth of the facing.
pub const MISSILE_SPEED: i64 = 10;

/// Distance ahead of the ship at which a missile appears, per thousandth of
/// the facing.
pub const MISSILE_FORWARD_OFFSET: i64 = 7500;

/// Milliseconds during which the weapon cannot fire again.
pub const WEAPON_COOLDOWN: u64 = 800;

/// Milliseconds a shield lasts.
pub const SHIELD_TIME: u64 = 1200;

pub open spec fn ship_template() -> Entity {
    Entity {
        id: 0,
        role: Role::Spaceship,
        position: Vec3 { x: 0, y: 0, z: 0 },
        velocity: Vec3 { x: 0, y: 0, z: 0 },
        acceleration: Vec3 { x: 0, y: 0, z: 0 },
        facing: Vec3 { x: 0, y: 0, z: 1000 },
        collider: Some(Collider { radius: SPACESHIP_RADIUS }),
        health: Some(Health(STARTING_HEALTH)),
        shield: None,
        cooldown: None,
        despawn_at_endgame: true,
    }
}

/// The missile that `ship` fires (its id is assigned on spawn).
pub open spec fn missile_from(ship: Entity) -> Entity {
    let p = ship.position;
    let f = ship.facing;
    Entity {
        id: 0,
        role: Role::Missile,
        position: Vec3 {
            x: clip(p.x + f.x * MISSILE_FORWARD_OFFSET, WORLD_LIMIT as int) as i64,
            y: clip(p.y + f.y * MISSILE_FORWARD_OFFSET, WORLD_LIMIT as int) as i64,
            z: clip(p.z + f.z * MISSILE_FORWARD_OFFSET, WORLD_LIMIT as int) as i64,
        },
        velocity: Vec3 {
            x: (f.x * MISSILE_SPEED) as i64,
            y: (f.y * MISSILE_SPEED) as i64,
            z: (f.z * MISSILE_SPEED) as i64,
        },
        acceleration: Vec3 { x: 0, y: 0, z: 0 },
        facing: f,
        collider: Some(Collider { radius: MISSILE_RADIUS }),
        health: None,
        shield: None,
        cooldown: None,
        despawn_at_endgame: true,
    }
}

/// The visual of the shield raised by `ship`.
pub open spec fn shield_display_for(ship: Entity) -> Entity {
    Entity {
        id: 0,
        role: Role::ShieldDisplay,
        position: ship.position,
        velocity: Vec3 { x: 0, y: 0, z: 0 },
        acceleration: Vec3 { x: 0, y: 0, z: 0 },
        facing: ship.facing,
        collider: None,
        health: None,
        shield: None,
        cooldown: None,
        despawn_at_endgame: true,
    }
}

/// Velocity change asked for by the keys, per thousandth of the facing:
/// backward wins over forward.
pub open spec fn thrust(keys: Keys) -> int {
    if keys.s {
        -SPACESHIP_SPEED
    } else if keys.w {
        SPACESHIP_SPEED as int
    } else {
        0
    }
}

/// `ship` turned to `heading` (if given), then pushed along its facing.
pub open spec fn steered(ship: Entity, keys: Keys, heading: Option<Vec3>) -> Entity {
    let f = match heading {
        Some(h) => h,
        None => ship.facing,
    };
    let v = ship.velocity;
    let t = thrust(keys);
    Entity {
        facing: f,
        velocity: Vec3 {
            x: clip(v.x + f.x * t, SPEED_LIMIT as int) as i64,
            y: clip(v.y + f.y * t, SPEED_LIMIT as int) as i64,
            z: clip(v.z + f.z * t, SPEED_LIMIT as int) as i64,
        },
        ..ship
    }
}

/// The ship with a fresh weapon cooldown.
pub open spec fn cooling(ship: Entity) -> Entity {
    Entity {
        cooldown: Some(AlreadyFired { timer: Timer::new_spec(WEAPON_COOLDOWN, TimerMode::Once) }),
        ..ship
    }
}

/// The ship with a fresh shield.
pub open spec fn shielded(ship: Entity) -> Entity {
    Entity {
        shield: Some(SpaceshipShield { timer: Timer::new_spec(SHIELD_TIME, TimerMode::Once) }),
        ..ship
    }
}

/// On `fire`, the only ship has its weapon ready and an id is left.
pub open spec fn can_fire(s: Seq<Entity>, next_id: u64, fire: bool) -> bool {
    fire && has_single(s, Role::Spaceship) && s[single_index(s, Role::Spaceship)].cooldown is None
        && next_id < u64::MAX
}

/// The entities after the fire key, with `next_id` the next free id.
pub open spec fn after_fire(s: Seq<Entity>, next_id: u64, fire: bool) -> Seq<Entity> {
    let i = single_index(s, Role::Spaceship);
    if can_fire(s, next_id, fire) {
        s.update(i, cooling(s[i])).push(Entity { id: next_id, ..missile_from(s[i]) })
    } else {
        s
    }
}

/// On `raise`, the only ship has no shield and an id is left.
pub open spec fn can_raise(s: Seq<Entity>, next_id: u64, raise: bool) -> bool {
    raise && has_single(s, Role::Spaceship) && s[single_index(s, Role::Spaceship)].shield is None
        && next_id < u64::MAX
}

/// The entities after the shield key, with `next_id` the next free id.
pub open spec fn after_raise(s: Seq<Entity>, next_id: u64, raise: bool) -> Seq<Entity> {
    let i = single_index(s, Role::Spaceship);
    if can_raise(s, next_id, raise) {
        s.update(i, shielded(s[i])).push(Entity { id: next_id, ..shield_display_for(s[i]) })
    } else {
        s
    }
}

/// The entities after the steering keys.
pub open spec fn after_steer(s: Seq<Entity>, keys: Keys, heading: Option<Vec3>) -> Seq<Entity> {
    let i = single_index(s, Role::Spaceship);
    if has_single(s, Role::Spaceship) {
        s.update(i, steered(s[i], keys, heading))
    } else {
        s
    }
}

/// The entities after the weapon cooldown has run for `dt` milliseconds.
pub open spec fn after_weapon_timer(s: Seq<Entity>, dt: u32) -> Seq<Entity> {
    let i = single_index(s, Role::Spaceship);
    if has_single(s, Role::Spaceship) && s[i].cooldown is Some {
        let t = s[i].cooldown.unwrap().timer.ticked(dt as u64);
        s.update(
            i,
            Entity {
                cooldown: if t.finished {
                    None
                } else {
                    Some(AlreadyFired { timer: t })
                },
                ..s[i]
            },
        )
    } else {
        s
    }
}

/// The entities after the shield has run for `dt` milliseconds.
pub open spec fn after_shield_timer(s: Seq<Entity>, dt: u32) -> Seq<Entity> {
    let i = single_index(s, Role::Spaceship);
    let d = single_index(s, Role::ShieldDisplay);
    if has_single(s, Role::Spaceship) && s[i].shield is Some {
        let t = s[i].shield.unwrap().timer.ticked(dt as u64);
        if t.finished && has_single(s, Role::ShieldDisplay) {
            s.update(i, Entity { shield: None, ..s[i] }).remove(d)
        } else {
            s.update(i, Entity { shield: Some(SpaceshipShield { timer: t }), ..s[i] })
        }
    } else {
        s
    }
}

fn ahead(p: i64, f: i64) -> (r: i64)
    requires
        -WORLD_LIMIT <= p <= WORLD_LIMIT,
        -1000 <= f <= 1000,
    ensures
        r == clip(p + f * MISSILE_FORWARD_OFFSET, WORLD_LIMIT as int),
{
    let k: i128 = MISSILE_FORWARD_OFFSET as i128;
    assert(-7_500_000 <= f * k <= 7_500_000) by (nonlinear_arith)
        requires
            -1000 <= f <= 1000,
            k == 7500,
    ;
    let d: i128 = f as i128 * k;
    clip_to(p as i128 + d, WORLD_LIMIT)
}

fn pushed(v: i64, f: i64, t: i64) -> (r: i64)
    requires
        -SPEED_LIMIT <= v <= SPEED_LIMIT,
        -1000 <= f <= 1000,
        -SPACESHIP_SPEED <= t <= SPACESHIP_SPEED,
    ensures
        r == clip(v + f * t, SPEED_LIMIT as int),
{
    assert(-25000 <= f * t <= 25000) by (nonlinear_arith)
        requires
            -1000 <= f <= 1000,
            -25 <= t <= 25,
    ;
    clip_to(v as i128 + f as i128 * t as i128, SPEED_LIMIT)
}

/// Steering without thrust keeps the ship's velocity and position.
pub proof fn lemma_no_thrust_keeps_motion(ship: Entity, keys: Keys, heading: Option<Vec3>)
    requires
        entity_wf(ship),
        !keys.w,
        !keys.s,
    ensures
        steered(ship, keys, heading).velocity == ship.velocity,
        steered(ship, keys, heading).position == ship.position,
{
}

impl World {
    /// Creates the ship at the origin, at rest, facing `+z`, with full health.
    pub fn spawn_spaceship(&mut self) -> (r: Option<u64>)
        requires
            old(self).wf(),
        ensures
            final(self).wf(),
            old(self).next_id < u64::MAX ==> r == Some(old(self).next_id) && final(self).entities@
                == old(self).entities@.push(Entity { id: old(self).next_id, ..ship_template() }),
            old(self).next_id == u64::MAX ==> r is None && final(self).entities@ == old(
                self,
            ).entities@,
            old(self).next_id < u64::MAX ==> count_role(final(self).entities@, Role::Spaceship)
                == count_role(old(self).entities@, Role::Spaceship) + 1,
            final(self).contacts@ == old(self).contacts@,
            final(self).state == old(self).state,
            final(self).next_state == old(self).next_state,
            final(self).spawn_timer == old(self).spawn_timer,
    {
        let zero = Vec3::zero();
        let ghost s = self.entities@;
        let r = self.spawn(
            Entity {
                id: 0,
                role: Role::Spaceship,
                position: zero,
                velocity: zero,
                acceleration: zero,
                facing: Vec3::new(0, 0, 1000),
                collider: Some(Collider::new(SPACESHIP_RADIUS)),
                health: Some(Health::default()),
                shield: None,
                cooldown: None,
                despawn_at_endgame: true,
            },
        );
        proof {
            if r is Some {
                lemma_count_push(s, self.entities@.last(), Role::Spaceship);
                assert(self.entities@ == s.push(self.entities@.last()));
            }
        }
        r
    }

    /// On `fire`, the only ship, if its weapon is not cooling down, fires a
    /// missile along its facing and starts its cooldown. Returns the
    /// missile's id.
    pub fn spaceship_weapon_controls(&mut self, fire: bool) -> (r: Option<u64>)
        requires
            old(self).wf(),
        ensures
            final(self).wf(),
            r == if can_fire(old(self).entities@, old(self).next_id, fire) {
                Some(old(self).next_id)
            } else {
                None
            },
            final(self).entities@ == after_fire(old(self).entities@, old(self).next_id, fire),
            count_role(final(self).entities@, Role::Missile) == count_role(
                old(self).entities@,
                Role::Missile,
            ) + if can_fire(old(self).entities@, old(self).next_id, fire) {
                1nat
            } else {
                0nat
            },
            final(self).next_id == if can_fire(old(self).entities@, old(self).next_id, fire) {
                old(self).next_id + 1
            } else {
                old(self).next_id as int
            },
            final(self).contacts@ == old(self).contacts@,
            final(self).state == old(self).state,
            final(self).next_state == old(self).next_state,
            final(self).spawn_timer == old(self).spawn_timer,
    {
        let ghost s = self.entities@;
        if !fire || self.next_id == u64::MAX {
            return None;
        }
        let i = match self.single(Role::Spaceship) {
            Some(i) => i,
            None => return None,
        };
        proof {
            lemma_single_index(s, Role::Spaceship, i as int);
        }
        let ship = self.entities[i];
        if ship.cooldown.is_some() {
            return None;
        }
        let cooldown = AlreadyFired { timer: Timer::new(WEAPON_COOLDOWN, TimerMode::Once) };
        self.replace(i, Entity { cooldown: Some(cooldown), ..ship });
        let ghost mid = self.entities@;
        proof {
            lemma_count_update(s, i as int, Entity { cooldown: Some(cooldown), ..ship }, Role::Missile);
        }
        let p = ship.position;
        let f = ship.facing;
        let zero = Vec3::zero();
        let r = self.spawn(
            Entity {
                id: 0,
                role: Role::Missile,
                position: Vec3::new(ahead(p.x, f.x), ahead(p.y, f.y), ahead(p.z, f.z)),
                velocity: Vec3::new(f.x * MISSILE_SPEED, f.y * MISSILE_SPEED, f.z * MISSILE_SPEED),
                acceleration: zero,
                facing: f,
                collider: Some(Collider::new(MISSILE_RADIUS)),
                health: None,
                shield: None,
                cooldown: None,
                despawn_at_endgame: true,
            },
        );
        proof {
            lemma_count_push(mid, self.entities@.last(), Role::Missile);
            assert(self.entities@ == mid.push(self.entities@.last()));
        }
        r
    }

    /// Turns the only ship to `heading`, if given, then applies the thrust
    /// that the keys ask for along its facing.
    pub fn spaceship_movement_controls(&mut self, keys: Keys, heading: Option<Vec3>)
        requires
            old(self).wf(),
            heading matches Some(h) ==> facing_ok(h),
        ensures
            final(self).wf(),
            final(self).entities@ == after_steer(old(self).entities@, keys, heading),
            final(self).contacts@ == old(self).contacts@,
            final(self).next_id == old(self).next_id,
            final(self).state == old(self).state,
            final(self).next_state == old(self).next_state,
            final(self).spawn_timer == old(self).spawn_timer,
    {
        let ghost s = self.entities@;
        let i = match self.single(Role::Spaceship) {
            Some(i) => i,
            None => return ,
        };
        proof {
            lemma_single_index(s, Role::Spaceship, i as int);
        }
        let ship = self.entities[i];
        let f = match heading {
            Some(h) => h,
            None => ship.facing,
        };
        let t: i64 = if keys.s {
            -SPACESHIP_SPEED
        } else if keys.w {
            SPACESHIP_SPEED
        } else {
            0
        };
        let v = ship.velocity;
        let moved = Entity {
            facing: f,
            velocity: Vec3::new(pushed(v.x, f.x, t), pushed(v.y, f.y, t), pushed(v.z, f.z, t)),
            ..ship
        };
        self.replace(i, moved);
    }

    /// On `raise`, the only ship, if it has no shield, gets one, and its
    /// visual is created.
    pub fn enable_shields(&mut self, raise: bool) -> (r: Option<u64>)
        requires
            old(self).wf(),
        ensures
            final(self).wf(),
            r == if can_raise(old(self).entities@, old(self).next_id, raise) {
                Some(old(self).next_id)
            } else {
                None
            },
            final(self).entities@ == after_raise(old(self).entities@, old(self).next_id, raise),
            final(self).next_id == if can_raise(old(self).entities@, old(self).next_id, raise) {
                old(self).next_id + 1
            } else {
                old(self).next_id as int
            },
            final(self).contacts@ == old(self).contacts@,
            final(self).state == old(self).state,
            final(self).next_state == old(self).next_state,
            final(self).spawn_timer == old(self).spawn_timer,
    {
        let ghost s = self.entities@;
        if !raise || self.next_id == u64::MAX {
            return None;
        }
        let i = match self.single(Role::Spaceship) {
            Some(i) => i,
            None => return None,
        };
        proof {
            lemma_single_index(s, Role::Spaceship, i as int);
        }
        let ship = self.entities[i];
        if ship.shield.is_some() {
            return None;
        }
        let shield = SpaceshipShield { timer: Timer::new(SHIELD_TIME, TimerMode::Once) };
        self.replace(i, Entity { shield: Some(shield), ..ship });
        let zero = Vec3::zero();
        self.spawn(
            Entity {
                id: 0,
                role: Role::ShieldDisplay,
                position: ship.position,
                velocity: zero,
                acceleration: zero,
                facing: ship.facing,
                collider: None,
                health: None,
                shield: None,
                cooldown: None,
                despawn_at_endgame: true,
            },
        )
    }

    /// Advances the ship's weapon cooldown by `dt` milliseconds and removes
    /// it once it has run out.
    pub fn weapon_timer(&mut self, dt: u32)
        requires
            old(self).wf(),
        ensures
            final(self).wf(),
            final(self).entities@ == after_weapon_timer(old(self).entities@, dt),
            final(self).contacts@ == old(self).contacts@,
            final(self).next_id == old(self).next_id,
            final(self).state == old(self).state,
            final(self).next_state == old(self).next_state,
            final(self).spawn_timer == old(self).spawn_timer,
    {
        let ghost s = self.entities@;
        let i = match self.single(Role::Spaceship) {
            Some(i) => i,
            None => return ,
        };
        proof {
            lemma_single_index(s, Role::Spaceship, i as int);
        }
        let ship = self.entities[i];
        let mut timer = match ship.cooldown {
            Some(c) => c.timer,
            None => return ,
        };
        timer.tick(dt as u64);
        if timer.finished {
            self.replace(i, Entity { cooldown: None, ..ship });
        } else {
            self.replace(i, Entity { cooldown: Some(AlreadyFired { timer }), ..ship });
        }
    }

    /// Advances the ship's shield by `dt` milliseconds; once it has run out,
    /// the shield and its visual go. Without exactly one visual the expired
    /// shield stays until a later tick.
    pub fn disable_shields(&mut self, dt: u32)
        requires
            old(self).wf(),
        ensures
            final(self).wf(),
            final(self).entities@ == after_shield_timer(old(self).entities@, dt),
            final(self).contacts@ == old(self).contacts@,
            final(self).next_id == old(self).next_id,
            final(self).state == old(self).state,
            final(self).next_state == old(self).next_state,
            final(self).spawn_timer == old(self).spawn_timer,
    {
        let ghost s = self.entities@;
        let i = match self.single(Role::Spaceship) {
            Some(i) => i,
            None => return ,
        };
        proof {
            lemma_single_index(s, Role::Spaceship, i as int);
        }
        let ship = self.entities[i];
        let mut timer = match ship.shield {
            Some(sh) => sh.timer,
            None => return ,
        };
        timer.tick(dt as u64);
        let display = if timer.finished {
            self.single(Role::ShieldDisplay)
        } else {
            None
        };
        match display {
            Some(d) => {
                proof {
                    lemma_single_index(s, Role::ShieldDisplay, d as int);
                }
                let id = self.entities[d].id;
                self.replace(i, Entity { shield: None, ..ship });
                let ghost mid = self.entities@;
                let mut ids: Vec<u64> = Vec::new();
                ids.push(id);
                self.despawn_ids(&ids);
                proof {
                    lemma_survivors_one(mid, id, d as int);
                }
            },
            None => {
                self.replace(i, Entity { shield: Some(SpaceshipShield { timer }), ..ship });
            },
        }
    }
}

} // verus!
