use vstd::prelude::*;
use crate::geometry::{Vec3, dist_sq, distance_squared, in_world, sq, UNIT};
use crate::resolve::cooldown_cleared;
use crate::world::{Entity, Role, World, count_tagged, survivors};

verus! {

/// Half the side of the square play area.
pub const PLAY_HALF_SIZE: i64 = 50 * UNIT;

/// Missiles farther than this from the origin are destroyed.
pub const DESPAWN_DISTANCE: i64 = 50 * UNIT;

/// An axis-aligned rectangle of the play plane (`x` and `z`), bounds included.
#[derive(Clone, Copy, Debug, PartialEq, Eq, Structural)]
pub struct Rect {
    pub min_x: i64,
    pub min_z: i64,
    pub max_x: i64,
    pub max_z: i64,
}

impl Rect {
    pub open spec fn holds(self, p: Vec3) -> bool {
        self.min_x <= p.x <= self.max_x && self.min_z <= p.z <= self.max_z
    }

    pub fn contains(&self, p: Vec3) -> (r: bool)
        ensures
            r == self.holds(p),
    {
        self.min_x <= p.x && p.x <= self.max_x && self.min_z <= p.z && p.z <= self.max_z
    }
}

/// The visible area, shared by the spawner and the out-of-bounds sweep.
#[derive(Clone, Copy, Debug, PartialEq, Eq, Structural)]
pub struct CameraBounds {
    pub window_bounds: Rect,
}

pub open spec fn play_rect() -> Rect {
    Rect {
        min_x: (-PLAY_HALF_SIZE) as i64,
        min_z: (-PLAY_HALF_SIZE) as i64,
        max_x: PLAY_HALF_SIZE,
        max_z: PLAY_HALF_SIZE,
    }
}

impl CameraBounds {
    pub fn play_area() -> (r: CameraBounds)
        ensures
            r.window_bounds == play_rect(),
    {
        CameraBounds {
            window_bounds: Rect {
                min_x: -PLAY_HALF_SIZE,
                min_z: -PLAY_HALF_SIZE,
                max_x: PLAY_HALF_SIZE,
                max_z: PLAY_HALF_SIZE,
            },
        }
    }
}

pub open spec fn stray_asteroid(e: Entity) -> bool {
    e.role == Role::Asteroid && !play_rect().holds(e.position)
}

pub open spec fn origin() -> Vec3 {
    Vec3 { x: 0, y: 0, z: 0 }
}

pub open spec fn stray_missile(e: Entity) -> bool {
    e.role == Role::Missile && dist_sq(e.position, origin()) > sq(DESPAWN_DISTANCE as int)
}

/// Some entity of `s` with id `id` satisfies `stray_asteroid`.
pub open spec fn has_stray_asteroid(s: Seq<Entity>, id: u64) -> bool {
    exists|i: int| 0 <= i < s.len() && #[trigger] s[i].id == id && stray_asteroid(s[i])
}

pub open spec fn has_stray_missile(s: Seq<Entity>, id: u64) -> bool {
    exists|i: int| 0 <= i < s.len() && #[trigger] s[i].id == id && stray_missile(s[i])
}

pub open spec fn any_stray_missile(s: Seq<Entity>) -> bool {
    exists|i: int| 0 <= i < s.len() && stray_missile(#[trigger] s[i])
}

/// The entities of `s` that are not tagged for mass despawn, in order.
pub open spec fn untagged(s: Seq<Entity>) -> Seq<Entity>
    decreases s.len(),
{
    if s.len() == 0 {
        s
    } else {
        let rest = untagged(s.drop_last());
        if s.last().despawn_at_endgame {
            rest
        } else {
            rest.push(s.last())
        }
    }
}

proof fn lemma_survivors_untagged(s: Seq<Entity>, ids: Seq<u64>)
    requires
        forall|i: int| 0 <= i < s.len() ==> (ids.contains(#[trigger] s[i].id) <==> s[i].despawn_at_endgame),
    ensures
        survivors(s, ids) == untagged(s),
    decreases s.len(),
{
    if s.len() > 0 {
        let t = s.drop_last();
        assert forall|i: int| 0 <= i < t.len() implies (ids.contains(#[trigger] t[i].id) <==> t[i].despawn_at_endgame) by {
            assert(t[i] == s[i]);
        }
        lemma_survivors_untagged(t, ids);
        assert(s.last() == s[s.len() - 1]);
    }
}

/// After the mass despawn no tagged entity is left, every untagged entity
/// is kept, and nothing else is.
pub proof fn lemma_mass_despawn(s: Seq<Entity>)
    ensures
        count_tagged(untagged(s)) == 0,
        forall|i: int|
            0 <= i < s.len() && !(#[trigger] s[i]).despawn_at_endgame ==> untagged(s).contains(s[i]),
        forall|k: int| 0 <= k < untagged(s).len() ==> s.contains(#[trigger] untagged(s)[k]),
    decreases s.len(),
{
    if s.len() > 0 {
        let t = s.drop_last();
        lemma_mass_despawn(t);
        let r = untagged(s);
        let rt = untagged(t);
        if !s.last().despawn_at_endgame {
            assert(r.drop_last() =~= rt);
        }
        assert forall|i: int| 0 <= i < s.len() && !(#[trigger] s[i]).despawn_at_endgame implies r.contains(s[i]) by {
            if i < s.len() - 1 {
                assert(t[i] == s[i]);
                let m = choose|m: int| 0 <= m < rt.len() && rt[m] == t[i];
                assert(r[m] == s[i]);
            } else {
                assert(r[r.len() - 1] == s[i]);
            }
        }
        assert forall|k: int| 0 <= k < r.len() implies s.contains(#[trigger] r[k]) by {
            if k < rt.len() {
                assert(r[k] == rt[k]);
                let m = choose|m: int| 0 <= m < t.len() && t[m] == rt[k];
                assert(s[m] == r[k]);
            } else {
                assert(s[s.len() - 1] == r[k]);
            }
        }
    }
}

impl World {
    /// Queues every asteroid outside the play area.
    pub fn despawn_far_away_asteroids(&self, doomed: &mut Vec<u64>)
        requires
            self.wf(),
        ensures
            forall|id: u64|
                #[trigger] final(doomed)@.contains(id) <==> old(doomed)@.contains(id)
                    || has_stray_asteroid(self.entities@, id),
    {
        let ghost s = self.entities@;
        let ghost start = doomed@;
        let bounds = CameraBounds::play_area();
        let mut i: usize = 0;
        while i < self.entities.len()
            invariant
                s == self.entities@,
                i <= s.len(),
                bounds.window_bounds == play_rect(),
                forall|id: u64|
                    #[trigger] doomed@.contains(id) <==> start.contains(id) || exists|k: int|
                        0 <= k < i && #[trigger] s[k].id == id && stray_asteroid(s[k]),
            decreases s.len() - i,
        {
            let e = self.entities[i];
            let ghost before = doomed@;
            let stray = e.role == Role::Asteroid && !bounds.window_bounds.contains(e.position);
            if stray {
                doomed.push(e.id);
            }
            proof {
                assert forall|id: u64|
                    #[trigger] doomed@.contains(id) <==> start.contains(id) || exists|k: int|
                        0 <= k < i + 1 && #[trigger] s[k].id == id && stray_asteroid(s[k]) by {
                    if stray && id == e.id {
                        assert(doomed@[before.len() as int] == id);
                        assert(s[i as int].id == id);
                    } else {
                        if doomed@.contains(id) {
                            let m = choose|m: int| 0 <= m < doomed@.len() && doomed@[m] == id;
                            assert(before[m] == id);
                        }
                        if before.contains(id) {
                            let m = choose|m: int| 0 <= m < before.len() && before[m] == id;
                            assert(doomed@[m] == id);
                        }
                    }
                }
            }
            i = i + 1;
        }
    }

    /// Queues every missile farther than `DESPAWN_DISTANCE` from the origin;
    /// if there was any, the ship may fire again at once.
    pub fn despawn_far_away_missiles(&mut self, doomed: &mut Vec<u64>)
        requires
            old(self).wf(),
        ensures
            final(self).wf(),
            forall|id: u64|
                #[trigger] final(doomed)@.contains(id) <==> old(doomed)@.contains(id)
                    || has_stray_missile(old(self).entities@, id),
            final(self).entities@ == if any_stray_missile(old(self).entities@) {
                cooldown_cleared(old(self).entities@)
            } else {
                old(self).entities@
            },
            final(self).contacts@ == old(self).contacts@,
            final(self).next_id == old(self).next_id,
            final(self).state == old(self).state,
            final(self).next_state == old(self).next_state,
            final(self).spawn_timer == old(self).spawn_timer,
    {
        let ghost s = self.entities@;
        let ghost start = doomed@;
        let zero = Vec3::zero();
        let limit: i128 = DESPAWN_DISTANCE as i128 * DESPAWN_DISTANCE as i128;
        let mut any = false;
        let mut i: usize = 0;
        while i < self.entities.len()
            invariant
                s == self.entities@,
                self.wf(),
                i <= s.len(),
                zero == origin(),
                limit == sq(DESPAWN_DISTANCE as int),
                any == exists|k: int| 0 <= k < i && stray_missile(#[trigger] s[k]),
                forall|id: u64|
                    #[trigger] doomed@.contains(id) <==> start.contains(id) || exists|k: int|
                        0 <= k < i && #[trigger] s[k].id == id && stray_missile(s[k]),
            decreases s.len() - i,
        {
            let e = self.entities[i];
            let ghost before = doomed@;
            assert(in_world(e.position));
            let stray = e.role == Role::Missile && distance_squared(e.position, zero) > limit;
            if stray {
                doomed.push(e.id);
                any = true;
            }
            proof {
                assert forall|id: u64|
                    #[trigger] doomed@.contains(id) <==> start.contains(id) || exists|k: int|
                        0 <= k < i + 1 && #[trigger] s[k].id == id && stray_missile(s[k]) by {
                    if stray && id == e.id {
                        assert(doomed@[before.len() as int] == id);
                        assert(s[i as int].id == id);
                    } else {
                        if doomed@.contains(id) {
                            let m = choose|m: int| 0 <= m < doomed@.len() && doomed@[m] == id;
                            assert(before[m] == id);
                        }
                        if before.contains(id) {
                            let m = choose|m: int| 0 <= m < before.len() && before[m] == id;
                            assert(doomed@[m] == id);
                        }
                    }
                }
                if stray {
                    assert(stray_missile(s[i as int]));
                }
            }
            i = i + 1;
        }
        if any {
            self.clear_cooldown();
        }
    }

    /// Destroys every entity tagged for mass despawn, whatever its state.
    pub fn despawn_everything(&mut self)
        requires
            old(self).wf(),
        ensures
            final(self).wf(),
            final(self).entities@ == untagged(old(self).entities@),
            count_tagged(final(self).entities@) == 0,
            final(self).contacts@ == old(self).contacts@,
            final(self).next_id == old(self).next_id,
            final(self).state == old(self).state,
            final(self).next_state == old(self).next_state,
            final(self).spawn_timer == old(self).spawn_timer,
    {
        let ghost s = self.entities@;
        let mut ids: Vec<u64> = Vec::new();
        let mut i: usize = 0;
        while i < self.entities.len()
            invariant
                s == self.entities@,
                self.wf(),
                i <= s.len(),
                forall|k: int|
                    0 <= k < i ==> (ids@.contains(#[trigger] s[k].id) <==> s[k].despawn_at_endgame),
                forall|m: int| #![trigger ids@[m]] 0 <= m < ids@.len() ==> exists|k: int| 0 <= k < i && #[trigger] s[k].id == ids@[m],
            decreases s.len() - i,
        {
            let e = self.entities[i];
            let ghost before = ids@;
            if e.despawn_at_endgame {
                ids.push(e.id);
            }
            proof {
                assert forall|k: int|
                    0 <= k < i + 1 implies (ids@.contains(#[trigger] s[k].id) <==> s[k].despawn_at_endgame) by {
                    if k == i {
                        if e.despawn_at_endgame {
                            assert(ids@[before.len() as int] == s[k].id);
                        } else if ids@.contains(s[k].id) {
                            let m = choose|m: int| 0 <= m < ids@.len() && ids@[m] == s[k].id;
                            assert(before[m] == ids@[m]);
                            let j = choose|j: int| 0 <= j < i && #[trigger] s[j].id == before[m];
                            assert(s[j].id == s[k].id);
                        }
                    } else {
                        if ids@.contains(s[k].id) && !before.contains(s[k].id) {
                            let m = choose|m: int| 0 <= m < ids@.len() && ids@[m] == s[k].id;
                            if m < before.len() {
                                assert(before[m] == ids@[m]);
                            } else {
                                assert(ids@[m] == e.id);
                            }
                        }
                        if before.contains(s[k].id) {
                            let m = choose|m: int| 0 <= m < before.len() && before[m] == s[k].id;
                            assert(ids@[m] == before[m]);
                        }
                    }
                }
                assert forall|m: int| #![trigger ids@[m]] 0 <= m < ids@.len() implies exists|k: int|
                    0 <= k < i + 1 && #[trigger] s[k].id == ids@[m] by {
                    if m < before.len() {
                        assert(before[m] == ids@[m]);
                        let j = choose|j: int| 0 <= j < i && #[trigger] s[j].id == before[m];
                    } else {
                        assert(s[i as int].id == ids@[m]);
                    }
                }
            }
            i = i + 1;
        }
        self.despawn_ids(&ids);
        proof {
            lemma_survivors_untagged(s, ids@);
            lemma_mass_despawn(s);
        }
    }
}

} // verus!
