use vstd::prelude::*;
use crate::collision::contact_pairs;
use crate::despawn::{any_stray_missile, has_stray_asteroid, has_stray_missile, stray_asteroid, stray_missile, untagged};
use crate::geometry::Vec3;
use crate::health::Health;
use crate::phase::{AppState, Hook, Keys, hook_of, is_edge, is_transition, phase_keys, requested, transition_hook};
use crate::resolve::{
    after_impact, any_strike, cooldown_cleared, first_hit, impact_victims, ship_is_hit, strike_at,
    struck,
};
use crate::movement::advanced;
use crate::spaceship::{
    after_fire, after_raise, after_shield_timer, after_steer, after_weapon_timer, can_fire, can_raise,
    ship_template,
};
use crate::spawner::{INITIAL_ASTEROIDS, fresh_asteroid, interval_spawn};
use crate::world::{
    Entity, Role, World, count_role, count_tagged, facing_ok, lemma_count_push, has_role, has_single, is_single, lemma_survivors,
    lemma_single_index,
    single_index, survivors, unique_ids,
};

verus! {

/// `a` and `b` hold the same entities at the same places, up to components
/// other than id, role and position.
pub open spec fn same_frame(a: Seq<Entity>, b: Seq<Entity>) -> bool {
    &&& a.len() == b.len()
    &&& forall|k: int|
        0 <= k < a.len() ==> (#[trigger] a[k]).id == b[k].id && a[k].role == b[k].role
            && a[k].position == b[k].position
}

/// `id` is destroyed by the despawn stage run on `s` with detected pairs `pairs`.
pub open spec fn doomed_in_stage(s: Seq<Entity>, pairs: Seq<(u64, u64)>, id: u64) -> bool {
    ||| ship_is_hit(s, pairs) && impact_victims(s, pairs).contains(id)
    ||| struck(s, pairs, id)
    ||| has_stray_asteroid(s, id)
    ||| has_stray_missile(s, id)
}

proof fn lemma_same_frame(a: Seq<Entity>, b: Seq<Entity>)
    requires
        same_frame(a, b),
    ensures
        forall|id: u64, role: Role| has_role(a, id, role) == has_role(b, id, role),
        forall|id: u64| has_stray_asteroid(a, id) == has_stray_asteroid(b, id),
        forall|id: u64| has_stray_missile(a, id) == has_stray_missile(b, id),
        forall|role: Role, i: int| is_single(a, role, i) == is_single(b, role, i),
        forall|role: Role| has_single(a, role) == has_single(b, role),
        forall|role: Role| has_single(a, role) ==> single_index(a, role) == single_index(b, role),
        unique_ids(a) == unique_ids(b),
{
    assert forall|id: u64, role: Role| has_role(a, id, role) == has_role(b, id, role) by {
        if has_role(a, id, role) {
            let k = choose|k: int| 0 <= k < a.len() && #[trigger] a[k].id == id && a[k].role == role;
            assert(b[k].id == id);
        }
        if has_role(b, id, role) {
            let k = choose|k: int| 0 <= k < b.len() && #[trigger] b[k].id == id && b[k].role == role;
            assert(a[k].id == id);
        }
    }
    assert forall|id: u64| has_stray_asteroid(a, id) == has_stray_asteroid(b, id) by {
        if has_stray_asteroid(a, id) {
            let k = choose|k: int| 0 <= k < a.len() && #[trigger] a[k].id == id && stray_asteroid(a[k]);
            assert(b[k].id == id);
        }
        if has_stray_asteroid(b, id) {
            let k = choose|k: int| 0 <= k < b.len() && #[trigger] b[k].id == id && stray_asteroid(b[k]);
            assert(a[k].id == id);
        }
    }
    assert forall|id: u64| has_stray_missile(a, id) == has_stray_missile(b, id) by {
        if has_stray_missile(a, id) {
            let k = choose|k: int| 0 <= k < a.len() && #[trigger] a[k].id == id && stray_missile(a[k]);
            assert(b[k].id == id);
        }
        if has_stray_missile(b, id) {
            let k = choose|k: int| 0 <= k < b.len() && #[trigger] b[k].id == id && stray_missile(b[k]);
            assert(a[k].id == id);
        }
    }
    assert forall|role: Role, i: int| is_single(a, role, i) == is_single(b, role, i) by {
        if is_single(a, role, i) {
            assert forall|j: int| 0 <= j < b.len() && j != i implies (#[trigger] b[j]).role != role by {
                assert(a[j].role == b[j].role);
            }
        }
        if is_single(b, role, i) {
            assert forall|j: int| 0 <= j < a.len() && j != i implies (#[trigger] a[j]).role != role by {
                assert(a[j].role == b[j].role);
            }
        }
    }
    assert forall|role: Role| has_single(a, role) == has_single(b, role) by {
        if has_single(a, role) {
            let i = choose|i: int| is_single(a, role, i);
            assert(is_single(b, role, i));
        }
        if has_single(b, role) {
            let i = choose|i: int| is_single(b, role, i);
            assert(is_single(a, role, i));
        }
    }
    assert forall|role: Role| has_single(a, role) implies single_index(a, role) == single_index(b, role) by {
        let i = single_index(a, role);
        assert(is_single(b, role, i));
        lemma_single_index(b, role, i);
    }
    if unique_ids(a) {
        assert forall|i: int, j: int|
            0 <= i < b.len() && 0 <= j < b.len() && i != j implies #[trigger] b[i].id != #[trigger] b[j].id by {
            assert(a[i].id == b[i].id && a[j].id == b[j].id);
        }
    }
    if unique_ids(b) {
        assert forall|i: int, j: int|
            0 <= i < a.len() && 0 <= j < a.len() && i != j implies #[trigger] a[i].id != #[trigger] a[j].id by {
            assert(a[i].id == b[i].id && a[j].id == b[j].id);
        }
    }
}

proof fn lemma_first_hit_role(s: Seq<Entity>, pairs: Seq<(u64, u64)>, pid: u64)
    requires
        first_hit(s, pairs, pid) is Some,
    ensures
        has_role(s, first_hit(s, pairs, pid).unwrap(), Role::Asteroid),
    decreases pairs.len(),
{
    if !(pairs[0].0 == pid && has_role(s, pairs[0].1, Role::Asteroid)) {
        lemma_first_hit_role(s, pairs.drop_first(), pid);
    }
}

/// Two entities with distinct roles have distinct ids.
proof fn lemma_role_apart(s: Seq<Entity>, i: int, id: u64, role: Role)
    requires
        unique_ids(s),
        0 <= i < s.len(),
        has_role(s, id, role),
        s[i].role != role,
    ensures
        s[i].id != id,
{
    let k = choose|k: int| 0 <= k < s.len() && #[trigger] s[k].id == id && s[k].role == role;
    assert(k != i);
}

proof fn lemma_strikes_frame(s0: Seq<Entity>, s1: Seq<Entity>, pairs: Seq<(u64, u64)>)
    requires
        same_frame(s0, s1),
    ensures
        forall|id: u64| struck(s1, pairs, id) == struck(s0, pairs, id),
        any_strike(s1, pairs) == any_strike(s0, pairs),
{
    lemma_same_frame(s0, s1);
    assert forall|k: int| 0 <= k < pairs.len() implies #[trigger] strike_at(s1, pairs, k) == strike_at(
        s0,
        pairs,
        k,
    ) by {}
    assert forall|id: u64| struck(s1, pairs, id) == struck(s0, pairs, id) by {
        if struck(s1, pairs, id) {
            let k = choose|k: int|
                0 <= k < pairs.len() && #[trigger] strike_at(s1, pairs, k) && (pairs[k].0 == id
                    || pairs[k].1 == id);
            assert(strike_at(s0, pairs, k));
        }
        if struck(s0, pairs, id) {
            let k = choose|k: int|
                0 <= k < pairs.len() && #[trigger] strike_at(s0, pairs, k) && (pairs[k].0 == id
                    || pairs[k].1 == id);
            assert(strike_at(s1, pairs, k));
        }
    }
    if any_strike(s1, pairs) {
        let k = choose|k: int| 0 <= k < pairs.len() && #[trigger] strike_at(s1, pairs, k);
        assert(strike_at(s0, pairs, k));
    }
    if any_strike(s0, pairs) {
        let k = choose|k: int| 0 <= k < pairs.len() && #[trigger] strike_at(s0, pairs, k);
        assert(strike_at(s1, pairs, k));
    }
}

/// The despawn stage never condemns the ship itself.
proof fn lemma_ship_spared(s0: Seq<Entity>, pairs: Seq<(u64, u64)>)
    requires
        unique_ids(s0),
        ship_is_hit(s0, pairs),
    ensures
        !doomed_in_stage(s0, pairs, s0[single_index(s0, Role::Spaceship)].id),
{
    let i = single_index(s0, Role::Spaceship);
    assert(is_single(s0, Role::Spaceship, i));
    let hit = first_hit(s0, pairs, s0[i].id).unwrap();
    lemma_first_hit_role(s0, pairs, s0[i].id);
    let v = impact_victims(s0, pairs);
    if v.contains(s0[i].id) {
        let m = choose|m: int| 0 <= m < v.len() && v[m] == s0[i].id;
        if m == 0 {
            lemma_role_apart(s0, i, hit, Role::Asteroid);
        } else {
            let d = single_index(s0, Role::ShieldDisplay);
            assert(is_single(s0, Role::ShieldDisplay, d));
            assert(s0[d].id != s0[i].id);
        }
    }
    if struck(s0, pairs, s0[i].id) {
        let k = choose|k: int|
            0 <= k < pairs.len() && #[trigger] strike_at(s0, pairs, k) && (pairs[k].0 == s0[i].id
                || pairs[k].1 == s0[i].id);
        if pairs[k].0 == s0[i].id {
            lemma_role_apart(s0, i, pairs[k].0, Role::Asteroid);
        } else {
            lemma_role_apart(s0, i, pairs[k].1, Role::Missile);
        }
    }
    if has_stray_asteroid(s0, s0[i].id) {
        let k = choose|k: int|
            0 <= k < s0.len() && #[trigger] s0[k].id == s0[i].id && stray_asteroid(s0[k]);
        assert(k != i);
    }
    if has_stray_missile(s0, s0[i].id) {
        let k = choose|k: int|
            0 <= k < s0.len() && #[trigger] s0[k].id == s0[i].id && stray_missile(s0[k]);
        assert(k != i);
    }
}

/// The entities of `s` that the despawn stage run on `s0` with pairs
/// `pairs` spares, in order.
pub open spec fn spared(s: Seq<Entity>, s0: Seq<Entity>, pairs: Seq<(u64, u64)>) -> Seq<Entity>
    decreases s.len(),
{
    if s.len() == 0 {
        s
    } else {
        let rest = spared(s.drop_last(), s0, pairs);
        if doomed_in_stage(s0, pairs, s.last().id) {
            rest
        } else {
            rest.push(s.last())
        }
    }
}

/// The entities after the despawn stage on `s0` with detected pairs `pairs`:
/// the ship absorbs at most one impact, a missile strike or a stray missile
/// frees the weapon, then the condemned entities go.
pub open spec fn despawn_outcome(s0: Seq<Entity>, pairs: Seq<(u64, u64)>) -> Seq<Entity> {
    let i = single_index(s0, Role::Spaceship);
    let s1 = if ship_is_hit(s0, pairs) {
        s0.update(i, after_impact(s0[i]))
    } else {
        s0
    };
    let s2 = if any_strike(s1, pairs) {
        cooldown_cleared(s1)
    } else {
        s1
    };
    let s3 = if any_stray_missile(s2) {
        cooldown_cleared(s2)
    } else {
        s2
    };
    spared(s3, s0, pairs)
}

proof fn lemma_survivors_spared(s: Seq<Entity>, ids: Seq<u64>, s0: Seq<Entity>, pairs: Seq<(u64, u64)>)
    requires
        forall|id: u64| #[trigger] ids.contains(id) <==> doomed_in_stage(s0, pairs, id),
    ensures
        survivors(s, ids) == spared(s, s0, pairs),
    decreases s.len(),
{
    if s.len() > 0 {
        lemma_survivors_spared(s.drop_last(), ids, s0, pairs);
    }
}

proof fn lemma_cooldown_frame(s: Seq<Entity>)
    ensures
        same_frame(s, cooldown_cleared(s)),
        forall|k: int|
            0 <= k < s.len() ==> (#[trigger] cooldown_cleared(s)[k]).shield == s[k].shield
                && cooldown_cleared(s)[k].health == s[k].health,
{
}

/// What the despawn stage makes of `s0`, step by step: the ship impact
/// (`s1`, `d1`), the missile strikes (`s2`, `d2`), the stray asteroids (`d3`)
/// and the stray missiles (`s3`, `d4`), then the removal that gives `f`.
proof fn lemma_stage_outcome(
    s0: Seq<Entity>,
    s1: Seq<Entity>,
    s2: Seq<Entity>,
    s3: Seq<Entity>,
    pairs: Seq<(u64, u64)>,
    d1: Seq<u64>,
    d2: Seq<u64>,
    d3: Seq<u64>,
    d4: Seq<u64>,
    f: Seq<Entity>,
)
    requires
        unique_ids(s0),
        ship_is_hit(s0, pairs) ==> {
            let i = single_index(s0, Role::Spaceship);
            &&& s1 == s0.update(i, after_impact(s0[i]))
            &&& d1 == impact_victims(s0, pairs)
        },
        !ship_is_hit(s0, pairs) ==> s1 == s0 && d1 == Seq::<u64>::empty(),
        s2 == if any_strike(s1, pairs) {
            cooldown_cleared(s1)
        } else {
            s1
        },
        forall|id: u64| #[trigger] d2.contains(id) <==> d1.contains(id) || struck(s1, pairs, id),
        forall|id: u64| #[trigger] d3.contains(id) <==> d2.contains(id) || has_stray_asteroid(s2, id),
        s3 == if any_stray_missile(s2) {
            cooldown_cleared(s2)
        } else {
            s2
        },
        forall|id: u64| #[trigger] d4.contains(id) <==> d3.contains(id) || has_stray_missile(s2, id),
        f == survivors(s3, d4),
    ensures
        f == despawn_outcome(s0, pairs),
        forall|k: int| 0 <= k < f.len() ==> !doomed_in_stage(s0, pairs, (#[trigger] f[k]).id),
        forall|i: int|
            0 <= i < s0.len() && !doomed_in_stage(s0, pairs, (#[trigger] s0[i]).id) ==> exists|k: int|
                0 <= k < f.len() && (#[trigger] f[k]).id == s0[i].id,
        ({
            let i = single_index(s0, Role::Spaceship);
            ship_is_hit(s0, pairs) && s0[i].shield is Some ==> {
                &&& forall|k: int|
                    0 <= k < f.len() ==> (#[trigger] f[k]).id != first_hit(s0, pairs, s0[i].id).unwrap()
                &&& exists|k: int|
                    0 <= k < f.len() && (#[trigger] f[k]).id == s0[i].id && f[k].shield is None
                        && f[k].health == s0[i].health
            }
        }),
{
    let i = single_index(s0, Role::Spaceship);
    assert(same_frame(s0, s1));
    lemma_strikes_frame(s0, s1, pairs);
    lemma_cooldown_frame(s1);
    lemma_cooldown_frame(s2);
    assert(same_frame(s1, s2));
    assert(same_frame(s2, s3));
    lemma_same_frame(s0, s1);
    lemma_same_frame(s1, s2);
    assert(same_frame(s0, s2));
    lemma_same_frame(s0, s2);
    assert(same_frame(s0, s3));
    assert forall|id: u64| #[trigger] d4.contains(id) <==> doomed_in_stage(s0, pairs, id) by {
        if ship_is_hit(s0, pairs) {
            assert(d1.contains(id) == impact_victims(s0, pairs).contains(id));
        }
    }
    lemma_survivors(s3, d4);
    lemma_survivors_spared(s3, d4, s0, pairs);
    assert forall|k: int| 0 <= k < f.len() implies !doomed_in_stage(s0, pairs, (#[trigger] f[k]).id) by {
        assert(!d4.contains(f[k].id));
    }
    assert forall|j: int|
        0 <= j < s0.len() && !doomed_in_stage(s0, pairs, (#[trigger] s0[j]).id) implies exists|k: int|
            0 <= k < f.len() && (#[trigger] f[k]).id == s0[j].id by {
        assert(s3[j].id == s0[j].id);
        assert(!d4.contains(s3[j].id));
        let k = choose|k: int| 0 <= k < f.len() && f[k] == s3[j];
        assert(f[k].id == s0[j].id);
    }
    if ship_is_hit(s0, pairs) {
        let hit = first_hit(s0, pairs, s0[i].id).unwrap();
        assert(impact_victims(s0, pairs)[0] == hit);
        assert(doomed_in_stage(s0, pairs, hit));
        assert forall|k: int| 0 <= k < f.len() implies (#[trigger] f[k]).id != hit by {
            assert(!d4.contains(f[k].id));
        }
        if s0[i].shield is Some {
            assert(s1[i].shield is None && s1[i].health == s0[i].health);
            assert(s2[i].shield is None && s2[i].health == s0[i].health);
            assert(s3[i].shield is None && s3[i].health == s0[i].health);
            lemma_ship_spared(s0, pairs);
            assert(s3[i].id == s0[i].id);
            assert(!d4.contains(s3[i].id));
            let k = choose|k: int| 0 <= k < f.len() && f[k] == s3[i];
            assert(f[k].id == s0[i].id);
        }
    }
}

/// A tick of play over `dt` milliseconds takes the entities `s0` (with
/// `next_id` the next free id) to `f`, with detected pairs `c`: the input
/// stage (fire, steer, shield), the update stage (a spawn if the spawn timer
/// `elapsed`, the shield and weapon timers, motion), detection, then the
/// despawn stage.
pub open spec fn played(
    s0: Seq<Entity>,
    next_id: u64,
    keys: Keys,
    heading: Option<Vec3>,
    dt: u32,
    elapsed: bool,
    f: Seq<Entity>,
    c: Seq<(u64, u64)>,
) -> bool {
    exists|s3: Seq<Entity>|
        #[trigger] interval_spawn(
            after_input(s0, next_id, keys, heading),
            s3,
            elapsed,
            id_after_input(s0, next_id, keys, heading),
        )
            && updated_then_resolved(s3, dt, f, c)
}

/// The next free id after the fire key.
pub open spec fn id_after_fire(s0: Seq<Entity>, next_id: u64, fire: bool) -> u64 {
    if can_fire(s0, next_id, fire) {
        (next_id + 1) as u64
    } else {
        next_id
    }
}

/// The next free id after the input stage.
pub open spec fn id_after_input(s0: Seq<Entity>, next_id: u64, keys: Keys, heading: Option<Vec3>) -> u64 {
    let n1 = id_after_fire(s0, next_id, keys.space);
    let s2 = after_steer(after_fire(s0, next_id, keys.space), keys, heading);
    if can_raise(s2, n1, keys.f) {
        (n1 + 1) as u64
    } else {
        n1
    }
}

/// The entities after the input stage: fire, steer, then raise the shield.
pub open spec fn after_input(s0: Seq<Entity>, next_id: u64, keys: Keys, heading: Option<Vec3>) -> Seq<Entity> {
    after_raise(
        after_steer(after_fire(s0, next_id, keys.space), keys, heading),
        id_after_fire(s0, next_id, keys.space),
        keys.f,
    )
}

/// From `s3`, the shield and weapon timers and motion over `dt` milliseconds,
/// detection, then the despawn stage, give the entities `f` and the pairs `c`.
pub open spec fn updated_then_resolved(s3: Seq<Entity>, dt: u32, f: Seq<Entity>, c: Seq<(u64, u64)>) -> bool {
    let s4 = advanced(after_weapon_timer(after_shield_timer(s3, dt), dt), dt);
    f == despawn_outcome(s4, contact_pairs(s4)) && c == contact_pairs(s4)
}

/// `w1` is `w0` after the keys of a frame were read outside play, and
/// `exit` whether they ask to quit.
pub open spec fn menu_handled(w0: World, w1: World, keys: Keys, exit: bool) -> bool {
    &&& exit == requested(w0.state, keys).exit
    &&& w1.next_state == match requested(w0.state, keys).next {
        Some(to) => Some(to),
        None => w0.next_state,
    }
    &&& w1.entities@ == w0.entities@
    &&& w1.contacts@ == w0.contacts@
    &&& w1.next_id == w0.next_id
    &&& w1.state == w0.state
    &&& w1.spawn_timer == w0.spawn_timer
}

/// `w1` is `w0` after one tick over `dt` milliseconds.
pub open spec fn ticked(w0: World, w1: World, keys: Keys, heading: Option<Vec3>, dt: u32) -> bool {
    &&& w1.state == w0.state
    &&& w0.state != AppState::InGame ==> w1.entities@ == w0.entities@ && w1.next_state
        == w0.next_state && w1.spawn_timer == w0.spawn_timer
    &&& w0.state == AppState::InGame ==> w1.spawn_timer.timer == w0.spawn_timer.timer.ticked(
        dt as u64,
    ) && played(
        w0.entities@,
        w0.next_id,
        keys,
        heading,
        dt,
        w1.spawn_timer.timer.just_finished,
        w1.entities@,
        w1.contacts@,
    )
    &&& w1.next_state == w0.next_state || w1.next_state == Some(AppState::Paused)
        || w1.next_state == Some(AppState::EndGame)
    &&& w0.state == AppState::InGame && keys.escape ==> w1.next_state is Some
}

/// `w1` is `w0` after the requested transition was applied.
pub open spec fn transitioned(w0: World, w1: World) -> bool {
    &&& w1.next_state is None
    &&& ({
        let s = w0.entities@;
        match w0.next_state {
            Some(to) => if is_edge(w0.state, to) {
                &&& w1.state == to
                &&& hook_of(w0.state, to) == Hook::Teardown ==> w1.entities@
                    == untagged(s) && count_tagged(w1.entities@) == 0
                &&& hook_of(w0.state, to) == Hook::SetupGame ==> {
                    &&& s.len() < w1.entities@.len() <= s.len() + 1 + INITIAL_ASTEROIDS
                    &&& w1.entities@.subrange(0, s.len() as int) == s
                    &&& count_role(w1.entities@, Role::Spaceship) == count_role(s, Role::Spaceship) + 1
                    &&& count_role(w1.entities@, Role::Asteroid) == count_role(s, Role::Asteroid) + (
                    w1.entities@.len() - s.len() - 1)
                    &&& w1.entities@[s.len() as int] == (Entity {
                        id: w0.next_id,
                        ..ship_template()
                    })
                    &&& forall|k: int|
                        s.len() < k < w1.entities@.len() ==> fresh_asteroid(
                            s.push(w1.entities@[s.len() as int]),
                            #[trigger] w1.entities@[k],
                        )
                } || (w0.next_id == u64::MAX && w1.entities@ == s)
                &&& hook_of(w0.state, to) == Hook::Nothing ==> w1.entities@ == s
            } else {
                w1.state == w0.state && w1.entities@ == s
            },
            None => w1.state == w0.state && w1.entities@ == s,
        }
    })
}

impl World {
    /// Requests `to` as the next phase; the last request of a tick wins.
    pub fn request_transition(&mut self, to: AppState)
        ensures
            final(self).next_state == Some(to),
            final(self).entities@ == old(self).entities@,
            final(self).contacts@ == old(self).contacts@,
            final(self).next_id == old(self).next_id,
            final(self).state == old(self).state,
            final(self).spawn_timer == old(self).spawn_timer,
    {
        self.next_state = Some(to);
    }

    /// Pauses the game on `escape`.
    pub fn pause_game(&mut self, keys: Keys)
        ensures
            final(self).next_state == if keys.escape {
                Some(AppState::Paused)
            } else {
                old(self).next_state
            },
            final(self).entities@ == old(self).entities@,
            final(self).contacts@ == old(self).contacts@,
            final(self).next_id == old(self).next_id,
            final(self).state == old(self).state,
            final(self).spawn_timer == old(self).spawn_timer,
    {
        if keys.escape {
            self.request_transition(AppState::Paused);
        }
    }

    /// Applies the keys of a frame outside play: menu choices request their
    /// transition. Returns whether the keys ask to quit.
    pub fn menu_keys(&mut self, keys: Keys) -> (exit: bool)
        requires
            old(self).state != AppState::InGame,
        ensures
            menu_handled(*old(self), *final(self), keys, exit),
    {
        let r = phase_keys(self.state, keys);
        if let Some(to) = r.next {
            self.request_transition(to);
        }
        r.exit
    }

    /// Applies the transition requested during the tick, if it is an edge of
    /// the phase graph, and runs its one-shot hook: entering the game spawns
    /// the ship and the first asteroids; ending it destroys every entity
    /// tagged for mass despawn. A request that is no edge is dropped.
    pub fn apply_transition(&mut self)
        requires
            old(self).wf(),
        ensures
            final(self).wf(),
            transitioned(*old(self), *final(self)),

    {
        let ghost s = self.entities@;
        if let Some(to) = self.next_state {
            self.next_state = None;
            if is_transition(self.state, to) {
                match transition_hook(self.state, to) {
                    Hook::SetupGame => {
                        if self.spawn_spaceship().is_some() {
                            let ghost with_ship = self.entities@;
                            self.spawn_initial_asteroids();
                            proof {
                                let f = self.entities@;
                                assert(f.subrange(0, s.len() as int) =~= with_ship.subrange(0, s.len() as int));
                                assert(f[s.len() as int] == with_ship[s.len() as int]);
                                assert(with_ship =~= s.push(f[s.len() as int]));
                                lemma_count_push(s, f[s.len() as int], Role::Spaceship);
                                lemma_count_push(s, f[s.len() as int], Role::Asteroid);
                                assert(count_role(f, Role::Spaceship) == count_role(s, Role::Spaceship) + 1);
                                assert(count_role(f, Role::Asteroid) == count_role(s, Role::Asteroid) + (f.len() - s.len() - 1));
                                assert(f[s.len() as int] == (Entity { id: old(self).next_id, ..ship_template() }));
                            }
                        }
                    },
                    Hook::Teardown => {
                        self.despawn_everything();
                    },
                    Hook::Nothing => {},
                }
                self.state = to;
            }
        }
        proof {
            assert(self.next_state is None);
            assert({
            let s = old(self).entities@;
            match old(self).next_state {
                Some(to) => if is_edge(old(self).state, to) {
                    &&& self.state == to
                    &&& hook_of(old(self).state, to) == Hook::Teardown ==> self.entities@
                        == untagged(s) && count_tagged(self.entities@) == 0
                    &&& hook_of(old(self).state, to) == Hook::SetupGame ==> {
                        &&& s.len() < self.entities@.len() <= s.len() + 1 + INITIAL_ASTEROIDS
                        &&& self.entities@.subrange(0, s.len() as int) == s
                        &&& count_role(self.entities@, Role::Spaceship) == count_role(s, Role::Spaceship) + 1
                        &&& count_role(self.entities@, Role::Asteroid) == count_role(s, Role::Asteroid) + (
                        self.entities@.len() - s.len() - 1)
                        &&& self.entities@[s.len() as int] == (Entity {
                            id: old(self).next_id,
                            ..ship_template()
                        })
                        &&& forall|k: int|
                            s.len() < k < self.entities@.len() ==> fresh_asteroid(
                                s.push(self.entities@[s.len() as int]),
                                #[trigger] self.entities@[k],
                            )
                    } || (old(self).next_id == u64::MAX && self.entities@ == s)
                    &&& hook_of(old(self).state, to) == Hook::Nothing ==> self.entities@ == s
                } else {
                    self.state == old(self).state && self.entities@ == s
                },
                None => self.state == old(self).state && self.entities@ == s,
            }
        });
        }
    }

    /// The input stage: fire, steer and raise the shield, in that order,
    /// then the pause key.
    pub fn user_input_stage(&mut self, keys: Keys, heading: Option<Vec3>)
        requires
            old(self).wf(),
            heading matches Some(h) ==> facing_ok(h),
        ensures
            final(self).wf(),
            final(self).entities@ == after_input(old(self).entities@, old(self).next_id, keys, heading),
            final(self).next_id == id_after_input(old(self).entities@, old(self).next_id, keys, heading),
            final(self).state == old(self).state,
            final(self).next_state == if keys.escape {
                Some(AppState::Paused)
            } else {
                old(self).next_state
            },
            final(self).contacts@ == old(self).contacts@,
            final(self).spawn_timer == old(self).spawn_timer,
    {
        self.spaceship_weapon_controls(keys.space);
        self.spaceship_movement_controls(keys, heading);
        self.enable_shields(keys.f);
        self.pause_game(keys);
    }

    /// The update stage: the spawn timer, the shield and weapon timers, then
    /// motion over `dt` milliseconds.
    pub fn entity_updates_stage(&mut self, dt: u32)
        requires
            old(self).wf(),
        ensures
            final(self).wf(),
            exists|s1: Seq<Entity>|
                interval_spawn(
                    old(self).entities@,
                    s1,
                    final(self).spawn_timer.timer.just_finished,
                    old(self).next_id,
                ) && final(self).entities@ == advanced(
                    after_weapon_timer(after_shield_timer(s1, dt), dt),
                    dt,
                ),
            final(self).state == old(self).state,
            final(self).next_state == old(self).next_state,
            final(self).contacts@ == old(self).contacts@,
            final(self).spawn_timer.timer == old(self).spawn_timer.timer.ticked(dt as u64),
    {
        self.spawn_asteroid_on_interval(dt);
        let ghost s1 = self.entities@;
        self.disable_shields(dt);
        self.weapon_timer(dt);
        self.advance(dt);
        assert(interval_spawn(old(self).entities@, s1, self.spawn_timer.timer.just_finished, old(self).next_id));
    }

    /// The detection stage: every overlap list is rebuilt.
    pub fn collision_detection_stage(&mut self)
        requires
            old(self).wf(),
        ensures
            final(self).wf(),
            final(self).contacts@ == contact_pairs(old(self).entities@),
            final(self).entities@ == old(self).entities@,
            final(self).state == old(self).state,
            final(self).next_state == old(self).next_state,
            final(self).spawn_timer == old(self).spawn_timer,
    {
        self.detect_collisions();
    }

    /// The despawn stage: every rule reads the stage's starting state, and
    /// the entities they condemn are destroyed together at its end.
    ///
    /// A shield absorbs an impact: the asteroid is destroyed, the ship keeps
    /// its hit points and loses the shield. Without a shield, a ship at one
    /// hit point asks for the game to end.
    pub fn despawn_entities_stage(&mut self)
        requires
            old(self).wf(),
        ensures
            final(self).wf(),
            final(self).state == old(self).state,
            final(self).contacts@ == old(self).contacts@,
            final(self).next_id == old(self).next_id,
            final(self).next_state == old(self).next_state || final(self).next_state == Some(
                AppState::EndGame,
            ),
            final(self).spawn_timer == old(self).spawn_timer,
            final(self).entities@ == despawn_outcome(old(self).entities@, old(self).contacts@),
            forall|k: int|
                0 <= k < final(self).entities@.len() ==> !doomed_in_stage(
                    old(self).entities@,
                    old(self).contacts@,
                    (#[trigger] final(self).entities@[k]).id,
                ),
            forall|i: int|
                0 <= i < old(self).entities@.len() && !doomed_in_stage(
                    old(self).entities@,
                    old(self).contacts@,
                    (#[trigger] old(self).entities@[i]).id,
                ) ==> exists|k: int|
                    0 <= k < final(self).entities@.len() && (#[trigger] final(self).entities@[k]).id
                        == old(self).entities@[i].id,
            ({
                let s = old(self).entities@;
                let pairs = old(self).contacts@;
                let i = single_index(s, Role::Spaceship);
                ship_is_hit(s, pairs) && s[i].shield is Some ==> {
                    &&& forall|k: int|
                        0 <= k < final(self).entities@.len() ==> (#[trigger] final(self).entities@[k]).id != first_hit(s, pairs, s[i].id).unwrap()
                    &&& exists|k: int|
                        0 <= k < final(self).entities@.len() && (#[trigger] final(self).entities@[k]).id == s[i].id && final(self).entities@[k].shield is None
                            && final(self).entities@[k].health == s[i].health
                }
            }),
            ({
                let s = old(self).entities@;
                let pairs = old(self).contacts@;
                let i = single_index(s, Role::Spaceship);
                ship_is_hit(s, pairs) && s[i].shield is None && s[i].health == Some(Health(1))
                    ==> final(self).next_state == Some(AppState::EndGame)
            }),
    {
        let ghost s0 = self.entities@;
        let ghost pairs = self.contacts@;
        let mut doomed: Vec<u64> = Vec::new();
        self.handle_spaceship_collision(&mut doomed);
        let ghost s1 = self.entities@;
        let ghost d1 = doomed@;
        self.handle_asteroid_collision(&mut doomed);
        let ghost s2 = self.entities@;
        let ghost d2 = doomed@;
        self.despawn_far_away_asteroids(&mut doomed);
        let ghost d3 = doomed@;
        self.despawn_far_away_missiles(&mut doomed);
        let ghost s3 = self.entities@;
        self.despawn_ids(&doomed);
        proof {
            lemma_stage_outcome(s0, s1, s2, s3, pairs, d1, d2, d3, doomed@, self.entities@);
        }
    }

    /// One tick of play over `dt` milliseconds: input, updates, detection,
    /// then despawns. Outside the `InGame` phase nothing runs.
    pub fn run_tick(&mut self, keys: Keys, heading: Option<Vec3>, dt: u32)
        requires
            old(self).wf(),
            heading matches Some(h) ==> facing_ok(h),
        ensures
            final(self).wf(),
            ticked(*old(self), *final(self), keys, heading, dt),
    {
        if self.state != AppState::InGame {
            return ;
        }
        self.user_input_stage(keys, heading);
        let ghost s2 = self.entities@;
        let ghost n2 = self.next_id;
        self.entity_updates_stage(dt);
        let ghost s4 = self.entities@;
        let ghost elapsed = self.spawn_timer.timer.just_finished;
        let ghost s3 = choose|s1: Seq<Entity>|
            interval_spawn(s2, s1, elapsed, n2) && s4 == advanced(
                after_weapon_timer(after_shield_timer(s1, dt), dt),
                dt,
            );
        self.collision_detection_stage();
        self.despawn_entities_stage();
        assert(self.contacts@ == contact_pairs(s4));
        assert(interval_spawn(s2, s3, self.spawn_timer.timer.just_finished, n2));
        assert(n2 == id_after_input(old(self).entities@, old(self).next_id, keys, heading));
        assert(s2 == after_input(old(self).entities@, old(self).next_id, keys, heading));
        assert(updated_then_resolved(s3, dt, self.entities@, self.contacts@));
    }

    /// One frame: menu keys outside play, a tick of play, then the requested
    /// transition. Returns whether the keys ask to quit.
    pub fn frame(&mut self, keys: Keys, heading: Option<Vec3>, dt: u32) -> (exit: bool)
        requires
            old(self).wf(),
            heading matches Some(h) ==> facing_ok(h),
        ensures
            final(self).wf(),
            final(self).next_state is None,
            exit == (old(self).state != AppState::InGame && requested(old(self).state, keys).exit),
            exists|w1: World, w2: World|
                #[trigger] ticked(w1, w2, keys, heading, dt) && transitioned(w2, *final(self)) && if old(
                    self,
                ).state != AppState::InGame {
                    menu_handled(*old(self), w1, keys, exit)
                } else {
                    w1 == *old(self)
                },
    {
        let mut exit = false;
        if self.state != AppState::InGame {
            exit = self.menu_keys(keys);
        }
        let ghost w1 = *self;
        self.run_tick(keys, heading, dt);
        let ghost w2 = *self;
        self.apply_transition();
        assert(ticked(w1, w2, keys, heading, dt));
        exit
    }
}

} // verus!
