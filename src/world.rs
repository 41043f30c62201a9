use vstd::prelude::*;
use crate::geometry::{Vec3, in_world, within_speed, RADIUS_LIMIT};
use crate::health::Health;
use crate::phase::AppState;
use crate::timer::{Timer, TimerMode};

verus! {

/// Milliseconds between two asteroid spawns.
pub const SPAWN_INTERVAL: u64 = 1000;

/// A facing is a unit vector whose components are given in thousandths.
pub const FACING_SCALE: i64 = 1000;

/// The role of an entity; each entity has exactly one.
#[derive(Clone, Copy, Debug, PartialEq, Eq, Structural)]
pub enum Role {
    Spaceship,
    Asteroid,
    Missile,
    ShieldDisplay,
}

/// A circular collision region.
#[derive(Clone, Copy, Debug, PartialEq, Eq, Structural)]
pub struct Collider {
    pub radius: u64,
}

impl Collider {
    pub fn new(radius: u64) -> (r: Collider)
        ensures
            r.radius == radius,
    {
        Collider { radius }
    }
}

/// An active shield: it absorbs one asteroid impact until its timer runs out.
#[derive(Clone, Copy, Debug, PartialEq, Eq, Structural)]
pub struct SpaceshipShield {
    pub timer: Timer,
}

/// Weapon cooldown: while present, the ship cannot fire.
#[derive(Clone, Copy, Debug, PartialEq, Eq, Structural)]
pub struct AlreadyFired {
    pub timer: Timer,
}

/// The repeating countdown between asteroid spawns.
#[derive(Clone, Copy, Debug, PartialEq, Eq, Structural)]
pub struct SpawnTimer {
    pub timer: Timer,
}

/// A simulation object and its components.
#[derive(Clone, Copy, Debug, PartialEq, Eq, Structural)]
pub struct Entity {
    pub id: u64,
    pub role: Role,
    pub position: Vec3,
    pub velocity: Vec3,
    pub acceleration: Vec3,
    /// Unit heading, in thousandths.
    pub facing: Vec3,
    pub collider: Option<Collider>,
    pub health: Option<Health>,
    pub shield: Option<SpaceshipShield>,
    pub cooldown: Option<AlreadyFired>,
    /// Destroyed unconditionally when the game ends.
    pub despawn_at_endgame: bool,
}

pub open spec fn facing_ok(f: Vec3) -> bool {
    &&& -FACING_SCALE <= f.x <= FACING_SCALE
    &&& -FACING_SCALE <= f.y <= FACING_SCALE
    &&& -FACING_SCALE <= f.z <= FACING_SCALE
}

pub open spec fn entity_wf(e: Entity) -> bool {
    &&& in_world(e.position)
    &&& within_speed(e.velocity)
    &&& within_speed(e.acceleration)
    &&& facing_ok(e.facing)
    &&& (e.collider matches Some(c) ==> c.radius <= RADIUS_LIMIT)
    &&& (e.shield matches Some(s) ==> s.timer.wf())
    &&& (e.cooldown matches Some(c) ==> c.timer.wf())
}

pub open spec fn unique_ids(s: Seq<Entity>) -> bool {
    forall|i: int, j: int|
        0 <= i < s.len() && 0 <= j < s.len() && i != j ==> #[trigger] s[i].id != #[trigger] s[j].id
}

/// Some entity of `s` has id `id` and role `role`.
pub open spec fn has_role(s: Seq<Entity>, id: u64, role: Role) -> bool {
    exists|i: int| 0 <= i < s.len() && #[trigger] s[i].id == id && s[i].role == role
}

/// `i` is the only index of `s` with role `role`.
pub open spec fn is_single(s: Seq<Entity>, role: Role, i: int) -> bool {
    &&& 0 <= i < s.len()
    &&& s[i].role == role
    &&& forall|j: int| 0 <= j < s.len() && j != i ==> (#[trigger] s[j]).role != role
}

pub open spec fn has_single(s: Seq<Entity>, role: Role) -> bool {
    exists|i: int| is_single(s, role, i)
}

/// The index of the only entity with role `role`, where there is one.
pub open spec fn single_index(s: Seq<Entity>, role: Role) -> int {
    choose|i: int| is_single(s, role, i)
}

pub proof fn lemma_single_index(s: Seq<Entity>, role: Role, i: int)
    requires
        is_single(s, role, i),
    ensures
        single_index(s, role) == i,
{
    let j = single_index(s, role);
    assert(is_single(s, role, j));
    if j != i {
        assert(s[i].role == role);
    }
}

/// Number of entities of `s` with role `role`.
pub open spec fn count_role(s: Seq<Entity>, role: Role) -> nat
    decreases s.len(),
{
    if s.len() == 0 {
        0
    } else {
        count_role(s.drop_last(), role) + if s.last().role == role {
            1nat
        } else {
            0nat
        }
    }
}

/// Number of entities of `s` tagged for mass despawn.
pub open spec fn count_tagged(s: Seq<Entity>) -> nat
    decreases s.len(),
{
    if s.len() == 0 {
        0
    } else {
        count_tagged(s.drop_last()) + if s.last().despawn_at_endgame {
            1nat
        } else {
            0nat
        }
    }
}

/// The entities of `s` whose id is not in `ids`, in order.
pub open spec fn survivors(s: Seq<Entity>, ids: Seq<u64>) -> Seq<Entity>
    decreases s.len(),
{
    if s.len() == 0 {
        s
    } else {
        let rest = survivors(s.drop_last(), ids);
        if ids.contains(s.last().id) {
            rest
        } else {
            rest.push(s.last())
        }
    }
}

/// The ids of the entities that collided with `id` at the last detection,
/// in the order in which they were found.
pub open spec fn contacts_of(pairs: Seq<(u64, u64)>, id: u64) -> Seq<u64>
    decreases pairs.len(),
{
    if pairs.len() == 0 {
        Seq::empty()
    } else {
        let rest = contacts_of(pairs.drop_last(), id);
        if pairs.last().0 == id {
            rest.push(pairs.last().1)
        } else {
            rest
        }
    }
}

/// Appending `e` adds one to the count of its role.
pub proof fn lemma_count_push(s: Seq<Entity>, e: Entity, role: Role)
    ensures
        count_role(s.push(e), role) == count_role(s, role) + if e.role == role {
            1nat
        } else {
            0nat
        },
{
    assert(s.push(e).drop_last() =~= s);
}

/// Replacing an entity by one of the same role keeps every count.
pub proof fn lemma_count_update(s: Seq<Entity>, i: int, e: Entity, role: Role)
    requires
        0 <= i < s.len(),
        e.role == s[i].role,
    ensures
        count_role(s.update(i, e), role) == count_role(s, role),
    decreases s.len(),
{
    if i == s.len() - 1 {
        assert(s.update(i, e).drop_last() =~= s.drop_last());
    } else {
        lemma_count_update(s.drop_last(), i, e, role);
        assert(s.update(i, e).drop_last() =~= s.drop_last().update(i, e));
    }
}

/// Every survivor is an entity of `s` whose id is not in `ids`, and every such
/// entity survives.
pub proof fn lemma_survivors(s: Seq<Entity>, ids: Seq<u64>)
    ensures
        forall|k: int|
            0 <= k < survivors(s, ids).len() ==> !ids.contains(
                (#[trigger] survivors(s, ids)[k]).id,
            ) && s.contains(survivors(s, ids)[k]),
        forall|i: int|
            0 <= i < s.len() && !ids.contains((#[trigger] s[i]).id) ==> survivors(
                s,
                ids,
            ).contains(s[i]),
        survivors(s, ids).len() <= s.len(),
    decreases s.len(),
{
    if s.len() > 0 {
        let t = s.drop_last();
        lemma_survivors(t, ids);
        let r = survivors(s, ids);
        let rt = survivors(t, ids);
        assert forall|k: int| 0 <= k < r.len() implies !ids.contains((#[trigger] r[k]).id)
            && s.contains(r[k]) by {
            if k < rt.len() {
                assert(rt[k] == r[k]);
                let m = choose|m: int| 0 <= m < t.len() && t[m] == rt[k];
                assert(s[m] == r[k]);
            } else {
                assert(r[k] == s.last());
                assert(s[s.len() - 1] == r[k]);
            }
        }
        assert forall|i: int| 0 <= i < s.len() && !ids.contains((#[trigger] s[i]).id) implies r.contains(
            s[i],
        ) by {
            if i < s.len() - 1 {
                assert(t[i] == s[i]);
                let m = choose|m: int| 0 <= m < rt.len() && rt[m] == t[i];
                assert(r[m] == s[i]);
            } else {
                assert(r[r.len() - 1] == s[i]);
            }
        }
    }
}

/// Removing one id, held by the entity at `d` alone, removes that entity.
pub proof fn lemma_survivors_one(s: Seq<Entity>, id: u64, d: int)
    requires
        unique_ids(s),
        0 <= d < s.len(),
        s[d].id == id,
    ensures
        survivors(s, seq![id]) == s.remove(d),
    decreases s.len(),
{
    let t = s.drop_last();
    if d == s.len() - 1 {
        lemma_survivors_none(t, id);
        assert(seq![id].contains(s.last().id)) by {
            assert(seq![id][0] == id);
        }
        assert(s.remove(d) =~= t);
    } else {
        lemma_survivors_one(t, id, d);
        assert(!seq![id].contains(s.last().id)) by {
            if seq![id].contains(s.last().id) {
                let m = choose|m: int| 0 <= m < 1 && seq![id][m] == s.last().id;
                assert(s[s.len() - 1].id == s[d].id);
            }
        }
        assert(s.remove(d) =~= t.remove(d).push(s.last()));
    }
}

/// Removing an id that no entity holds changes nothing.
pub proof fn lemma_survivors_none(s: Seq<Entity>, id: u64)
    requires
        forall|i: int| 0 <= i < s.len() ==> (#[trigger] s[i]).id != id,
    ensures
        survivors(s, seq![id]) == s,
    decreases s.len(),
{
    if s.len() > 0 {
        let t = s.drop_last();
        assert forall|i: int| 0 <= i < t.len() implies (#[trigger] t[i]).id != id by {
            assert(t[i] == s[i]);
        }
        lemma_survivors_none(t, id);
        assert(!seq![id].contains(s.last().id)) by {
            if seq![id].contains(s.last().id) {
                let m = choose|m: int| 0 <= m < 1 && seq![id][m] == s.last().id;
                assert(s[s.len() - 1].id != id);
            }
        }
        assert(t.push(s.last()) =~= s);
    }
}

/// The entity store, the phase machine and the process-wide spawn timer.
pub struct World {
    /// Live entities, in creation order.
    pub entities: Vec<Entity>,
    /// Ordered pairs `(a, b)` such that `a` overlapped `b` at the last detection.
    pub contacts: Vec<(u64, u64)>,
    /// Id of the next entity to be created.
    pub next_id: u64,
    pub state: AppState,
    /// Transition requested during the current tick; the last request wins.
    pub next_state: Option<AppState>,
    pub spawn_timer: SpawnTimer,
}

impl World {
    pub open spec fn wf(&self) -> bool {
        &&& unique_ids(self.entities@)
        &&& forall|i: int|
            0 <= i < self.entities@.len() ==> (#[trigger] self.entities@[i]).id < self.next_id
        &&& forall|i: int| 0 <= i < self.entities@.len() ==> entity_wf(#[trigger] self.entities@[i])
        &&& self.spawn_timer.timer.wf()
    }

    /// The entities that `id` overlapped at the last detection.
    pub open spec fn overlaps(&self, id: u64) -> Seq<u64> {
        contacts_of(self.contacts@, id)
    }

    /// An empty world in the loading phase.
    pub fn new() -> (r: World)
        ensures
            r.wf(),
            r.entities@.len() == 0,
            r.contacts@.len() == 0,
            r.next_id == 0,
            r.state == AppState::Loading,
            r.next_state.is_none(),
            r.spawn_timer.timer == Timer::new_spec(SPAWN_INTERVAL, TimerMode::Repeating),
    {
        World {
            entities: Vec::new(),
            contacts: Vec::new(),
            next_id: 0,
            state: AppState::Loading,
            next_state: None,
            spawn_timer: SpawnTimer { timer: Timer::new(SPAWN_INTERVAL, TimerMode::Repeating) },
        }
    }

    /// The entities that `id` overlapped at the last detection, in the order
    /// in which they were found.
    pub fn colliding_entities(&self, id: u64) -> (r: Vec<u64>)
        ensures
            r@ == self.overlaps(id),
    {
        let mut r: Vec<u64> = Vec::new();
        let mut k: usize = 0;
        while k < self.contacts.len()
            invariant
                k <= self.contacts@.len(),
                r@ == contacts_of(self.contacts@.subrange(0, k as int), id),
            decreases self.contacts@.len() - k,
        {
            proof {
                assert(self.contacts@.subrange(0, k + 1).drop_last() =~= self.contacts@.subrange(0, k as int));
            }
            let (a, b) = self.contacts[k];
            if a == id {
                r.push(b);
            }
            k = k + 1;
        }
        proof {
            assert(self.contacts@.subrange(0, k as int) =~= self.contacts@);
        }
        r
    }

    /// Index of the entity with id `id`.
    pub fn index_of(&self, id: u64) -> (r: Option<usize>)
        ensures
            r matches Some(i) ==> i < self.entities@.len() && self.entities@[i as int].id == id,
            r is None ==> forall|i: int|
                0 <= i < self.entities@.len() ==> (#[trigger] self.entities@[i]).id != id,
    {
        let mut i: usize = 0;
        while i < self.entities.len()
            invariant
                i <= self.entities@.len(),
                forall|k: int| 0 <= k < i ==> (#[trigger] self.entities@[k]).id != id,
            decreases self.entities@.len() - i,
        {
            if self.entities[i].id == id {
                return Some(i);
            }
            i = i + 1;
        }
        None
    }

    /// Whether some entity has id `id` and role `role`.
    pub fn is_role(&self, id: u64, role: Role) -> (r: bool)
        requires
            self.wf(),
        ensures
            r == has_role(self.entities@, id, role),
    {
        match self.index_of(id) {
            Some(i) => {
                if self.entities[i].role == role {
                    true
                } else {
                    proof {
                        assert forall|k: int|
                            0 <= k < self.entities@.len() && #[trigger] self.entities@[k].id == id
                                implies self.entities@[k].role != role by {
                            assert(k == i as int);
                        }
                    }
                    false
                }
            },
            None => false,
        }
    }

    /// Index of the only entity with role `role`, if exactly one has it.
    pub fn single(&self, role: Role) -> (r: Option<usize>)
        ensures
            r matches Some(i) ==> is_single(self.entities@, role, i as int),
            r is None ==> !has_single(self.entities@, role),
    {
        let mut found: Option<usize> = None;
        let mut i: usize = 0;
        while i < self.entities.len()
            invariant
                i <= self.entities@.len(),
                found is None ==> forall|k: int|
                    0 <= k < i ==> (#[trigger] self.entities@[k]).role != role,
                found matches Some(f) ==> f < i && self.entities@[f as int].role == role
                    && forall|k: int|
                    0 <= k < i && k != f ==> (#[trigger] self.entities@[k]).role != role,
            decreases self.entities@.len() - i,
        {
            if self.entities[i].role == role {
                if found.is_some() {
                    proof {
                        let f = found.unwrap() as int;
                        assert forall|x: int| !is_single(self.entities@, role, x) by {
                            if is_single(self.entities@, role, x) {
                                if x == f {
                                    assert(self.entities@[i as int].role == role);
                                } else {
                                    assert(self.entities@[f].role == role);
                                }
                            }
                        }
                    }
                    return None;
                }
                found = Some(i);
            }
            i = i + 1;
        }
        proof {
            if found is None {
                assert forall|x: int| !is_single(self.entities@, role, x) by {
                    if is_single(self.entities@, role, x) {
                        assert(self.entities@[x].role == role);
                    }
                }
            }
        }
        found
    }

    /// Number of live entities with role `role`.
    pub fn count(&self, role: Role) -> (r: usize)
        ensures
            r == count_role(self.entities@, role),
    {
        let mut n: usize = 0;
        let mut i: usize = 0;
        while i < self.entities.len()
            invariant
                i <= self.entities@.len(),
                n == count_role(self.entities@.subrange(0, i as int), role),
                n <= i,
            decreases self.entities@.len() - i,
        {
            proof {
                assert(self.entities@.subrange(0, i + 1).drop_last()
                    =~= self.entities@.subrange(0, i as int));
            }
            if self.entities[i].role == role {
                n = n + 1;
            }
            i = i + 1;
        }
        proof {
            assert(self.entities@.subrange(0, i as int) =~= self.entities@);
        }
        n
    }

    /// Number of live entities tagged for mass despawn.
    pub fn count_despawn_tagged(&self) -> (r: usize)
        ensures
            r == count_tagged(self.entities@),
    {
        let mut n: usize = 0;
        let mut i: usize = 0;
        while i < self.entities.len()
            invariant
                i <= self.entities@.len(),
                n == count_tagged(self.entities@.subrange(0, i as int)),
                n <= i,
            decreases self.entities@.len() - i,
        {
            proof {
                assert(self.entities@.subrange(0, i + 1).drop_last()
                    =~= self.entities@.subrange(0, i as int));
            }
            if self.entities[i].despawn_at_endgame {
                n = n + 1;
            }
            i = i + 1;
        }
        proof {
            assert(self.entities@.subrange(0, i as int) =~= self.entities@);
        }
        n
    }
    /// Replaces the entity at `i` by `e`, which keeps its id.
    pub fn replace(&mut self, i: usize, e: Entity)
        requires
            old(self).wf(),
            i < old(self).entities@.len(),
            e.id == old(self).entities@[i as int].id,
            entity_wf(e),
        ensures
            final(self).wf(),
            final(self).entities@ == old(self).entities@.update(i as int, e),
            final(self).contacts@ == old(self).contacts@,
            final(self).next_id == old(self).next_id,
            final(self).state == old(self).state,
            final(self).next_state == old(self).next_state,
            final(self).spawn_timer == old(self).spawn_timer,
    {
        let ghost s = self.entities@;
        self.entities.set(i, e);
        proof {
            let t = self.entities@;
            assert forall|a: int, b: int|
                0 <= a < t.len() && 0 <= b < t.len() && a != b implies #[trigger] t[a].id
                != #[trigger] t[b].id by {
                assert(t[a].id == s[a].id && t[b].id == s[b].id);
            }
            assert forall|k: int| 0 <= k < t.len() implies (#[trigger] t[k]).id < self.next_id
                && entity_wf(t[k]) by {
                assert(t[k].id == s[k].id);
            }
        }
    }

    /// Creates an entity from `e` under a fresh id, which it returns; `None`,
    /// with nothing changed, once every id has been handed out.
    pub fn spawn(&mut self, e: Entity) -> (r: Option<u64>)
        requires
            old(self).wf(),
            entity_wf(e),
        ensures
            final(self).wf(),
            old(self).next_id < u64::MAX ==> r == Some(old(self).next_id) && final(self).entities@
                == old(self).entities@.push(Entity { id: old(self).next_id, ..e })
                && final(self).next_id == old(self).next_id + 1,
            old(self).next_id == u64::MAX ==> r is None && final(self).entities@ == old(
                self,
            ).entities@ && final(self).next_id == old(self).next_id,
            final(self).contacts@ == old(self).contacts@,
            final(self).state == old(self).state,
            final(self).next_state == old(self).next_state,
            final(self).spawn_timer == old(self).spawn_timer,
    {
        if self.next_id == u64::MAX {
            return None;
        }
        let id = self.next_id;
        self.entities.push(Entity { id, ..e });
        self.next_id = id + 1;
        proof {
            let s = self.entities@;
            assert forall|i: int, j: int|
                0 <= i < s.len() && 0 <= j < s.len() && i != j implies #[trigger] s[i].id
                != #[trigger] s[j].id by {
                if i < s.len() - 1 && j < s.len() - 1 {
                    assert(s[i] == old(self).entities@[i]);
                    assert(s[j] == old(self).entities@[j]);
                } else if i < s.len() - 1 {
                    assert(s[i] == old(self).entities@[i]);
                } else {
                    assert(s[j] == old(self).entities@[j]);
                }
            }
            assert forall|i: int| 0 <= i < s.len() implies (#[trigger] s[i]).id < self.next_id
                && entity_wf(s[i]) by {
                if i < s.len() - 1 {
                    assert(s[i] == old(self).entities@[i]);
                }
            }
        }
        Some(id)
    }

    /// Destroys every entity whose id is in `ids`; the others keep their order.
    pub fn despawn_ids(&mut self, ids: &Vec<u64>)
        requires
            old(self).wf(),
        ensures
            final(self).wf(),
            final(self).entities@ == survivors(old(self).entities@, ids@),
            final(self).contacts@ == old(self).contacts@,
            final(self).next_id == old(self).next_id,
            final(self).state == old(self).state,
            final(self).next_state == old(self).next_state,
            final(self).spawn_timer == old(self).spawn_timer,
    {
        let ghost s = self.entities@;
        let mut kept: Vec<Entity> = Vec::new();
        let mut i: usize = 0;
        while i < self.entities.len()
            invariant
                self.entities@ == s,
                self.wf(),
                i <= s.len(),
                kept@ == survivors(s.subrange(0, i as int), ids@),
                unique_ids(kept@),
                forall|k: int|
                    0 <= k < kept@.len() ==> exists|m: int|
                        0 <= m < i && s[m] == #[trigger] kept@[k],
            decreases s.len() - i,
        {
            proof {
                assert(s.subrange(0, i + 1).drop_last() =~= s.subrange(0, i as int));
            }
            let e = self.entities[i];
            if !contains_id(ids, e.id) {
                let ghost before = kept@;
                kept.push(e);
                proof {
                    assert forall|a: int, b: int|
                        0 <= a < kept@.len() && 0 <= b < kept@.len() && a != b implies #[trigger] kept@[a].id
                        != #[trigger] kept@[b].id by {
                        if a < before.len() && b < before.len() {
                            assert(before[a] == kept@[a] && before[b] == kept@[b]);
                        } else if a < before.len() {
                            assert(before[a] == kept@[a]);
                            let m = choose|m: int| 0 <= m < i && s[m] == #[trigger] before[a];
                        } else {
                            assert(before[b] == kept@[b]);
                            let m = choose|m: int| 0 <= m < i && s[m] == #[trigger] before[b];
                        }
                    }
                    assert forall|k: int| 0 <= k < kept@.len() implies exists|m: int|
                        0 <= m < i + 1 && s[m] == #[trigger] kept@[k] by {
                        if k < before.len() {
                            assert(before[k] == kept@[k]);
                            let m = choose|m: int| 0 <= m < i && s[m] == #[trigger] before[k];
                        } else {
                            assert(s[i as int] == kept@[k]);
                        }
                    }
                }
            }
            i = i + 1;
        }
        proof {
            assert(s.subrange(0, i as int) =~= s);
            assert forall|k: int| 0 <= k < kept@.len() implies (#[trigger] kept@[k]).id
                < self.next_id && entity_wf(kept@[k]) by {
                let m = choose|m: int| 0 <= m < i && s[m] == #[trigger] kept@[k];
            }
        }
        self.entities = kept;
    }
}

/// Whether `id` is one of `ids`.
pub fn contains_id(ids: &Vec<u64>, id: u64) -> (r: bool)
    ensures
        r == ids@.contains(id),
{
    let mut i: usize = 0;
    while i < ids.len()
        invariant
            i <= ids@.len(),
            forall|k: int| 0 <= k < i ==> ids@[k] != id,
        decreases ids@.len() - i,
    {
        if ids[i] == id {
            assert(ids@[i as int] == id);
            return true;
        }
        i = i + 1;
    }
    false
}

} // verus!
