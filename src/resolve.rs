use vstd::prelude::*;
use crate::health::Health;
use crate::phase::AppState;
use crate::world::{
    Entity, Role, World, has_role, has_single, lemma_single_index, single_index,
};

verus! {

/// Scanning `pairs` from the front, the first `(pid, h)` with `h` an
/// asteroid of `s`: the first asteroid in the overlap list of `pid`.
pub open spec fn first_hit(s: Seq<Entity>, pairs: Seq<(u64, u64)>, pid: u64) -> Option<u64>
    decreases pairs.len(),
{
    if pairs.len() == 0 {
        None
    } else if pairs[0].0 == pid && has_role(s, pairs[0].1, Role::Asteroid) {
        Some(pairs[0].1)
    } else {
        first_hit(s, pairs.drop_first(), pid)
    }
}

/// Hit points after one unshielded impact.
pub open spec fn lowered(h: u32) -> u32 {
    if h > 0 {
        (h - 1) as u32
    } else {
        0
    }
}

/// The ship after absorbing one impact: the shield goes if there is one,
/// else one hit point.
pub open spec fn after_impact(p: Entity) -> Entity {
    if p.shield is Some {
        Entity { shield: None, ..p }
    } else {
        Entity { health: Some(Health(lowered(p.health.unwrap().0))), ..p }
    }
}

/// There is exactly one ship, it has health and a collider, and it overlaps
/// an asteroid.
pub open spec fn ship_is_hit(s: Seq<Entity>, pairs: Seq<(u64, u64)>) -> bool {
    &&& has_single(s, Role::Spaceship)
    &&& s[single_index(s, Role::Spaceship)].health is Some
    &&& s[single_index(s, Role::Spaceship)].collider is Some
    &&& first_hit(s, pairs, s[single_index(s, Role::Spaceship)].id) is Some
}

/// The ids that one ship impact destroys: the asteroid, and the shield's
/// visual where a shield absorbs the impact and exactly one visual exists.
pub open spec fn impact_victims(s: Seq<Entity>, pairs: Seq<(u64, u64)>) -> Seq<u64> {
    let p = s[single_index(s, Role::Spaceship)];
    let hit = first_hit(s, pairs, p.id).unwrap();
    if p.shield is Some && has_single(s, Role::ShieldDisplay) {
        seq![hit, s[single_index(s, Role::ShieldDisplay)].id]
    } else {
        seq![hit]
    }
}

/// Pair `k` of `pairs` is an asteroid overlapping a missile.
pub open spec fn strike_at(s: Seq<Entity>, pairs: Seq<(u64, u64)>, k: int) -> bool {
    has_role(s, pairs[k].0, Role::Asteroid) && has_role(s, pairs[k].1, Role::Missile)
}

/// Among the first `n` pairs, one is a strike that involves `id`.
pub open spec fn struck_within(s: Seq<Entity>, pairs: Seq<(u64, u64)>, id: u64, n: int) -> bool {
    exists|k: int|
        0 <= k < n && #[trigger] strike_at(s, pairs, k) && (pairs[k].0 == id || pairs[k].1 == id)
}

/// `id` is an asteroid that overlaps a missile, or a missile that an
/// asteroid overlaps.
pub open spec fn struck(s: Seq<Entity>, pairs: Seq<(u64, u64)>, id: u64) -> bool {
    struck_within(s, pairs, id, pairs.len() as int)
}

pub open spec fn strike_within(s: Seq<Entity>, pairs: Seq<(u64, u64)>, n: int) -> bool {
    exists|k: int| 0 <= k < n && #[trigger] strike_at(s, pairs, k)
}

/// Some asteroid overlaps some missile.
pub open spec fn any_strike(s: Seq<Entity>, pairs: Seq<(u64, u64)>) -> bool {
    strike_within(s, pairs, pairs.len() as int)
}

/// `s` with the weapon cooldown of its only ship cleared, where there is
/// exactly one ship.
pub open spec fn cooldown_cleared(s: Seq<Entity>) -> Seq<Entity> {
    if has_single(s, Role::Spaceship) {
        let i = single_index(s, Role::Spaceship);
        s.update(i, Entity { cooldown: None, ..s[i] })
    } else {
        s
    }
}

impl World {
    /// The first asteroid in the overlap list of `pid`.
    pub fn first_asteroid_contact(&self, pid: u64) -> (r: Option<u64>)
        requires
            self.wf(),
        ensures
            r == first_hit(self.entities@, self.contacts@, pid),
    {
        let ghost s = self.entities@;
        let ghost pairs = self.contacts@;
        let mut k: usize = 0;
        assert(pairs.subrange(0, pairs.len() as int) =~= pairs);
        while k < self.contacts.len()
            invariant
                self.wf(),
                s == self.entities@,
                pairs == self.contacts@,
                k <= pairs.len(),
                first_hit(s, pairs, pid) == first_hit(s, pairs.subrange(k as int, pairs.len() as int), pid),
            decreases pairs.len() - k,
        {
            let (a, b) = self.contacts[k];
            proof {
                let rest = pairs.subrange(k as int, pairs.len() as int);
                assert(rest[0] == pairs[k as int]);
                assert(rest.drop_first() =~= pairs.subrange(k + 1, pairs.len() as int));
            }
            if a == pid && self.is_role(b, Role::Asteroid) {
                return Some(b);
            }
            k = k + 1;
        }
        None
    }

    /// Resolves at most one asteroid impact against the ship. The asteroid
    /// is queued in `doomed`; a shield absorbs the impact (its visual is
    /// queued too), or else the ship loses a hit point, and at zero the game
    /// is asked to end.
    pub fn handle_spaceship_collision(&mut self, doomed: &mut Vec<u64>)
        requires
            old(self).wf(),
        ensures
            final(self).wf(),
            final(self).contacts@ == old(self).contacts@,
            final(self).next_id == old(self).next_id,
            final(self).state == old(self).state,
            final(self).spawn_timer == old(self).spawn_timer,
            ship_is_hit(old(self).entities@, old(self).contacts@) ==> {
                let s = old(self).entities@;
                let i = single_index(s, Role::Spaceship);
                &&& final(self).entities@ == s.update(i, after_impact(s[i]))
                &&& final(doomed)@ == old(doomed)@ + impact_victims(s, old(self).contacts@)
                &&& final(self).next_state == if s[i].shield is None && lowered(
                    s[i].health.unwrap().0,
                ) < 1 {
                    Some(AppState::EndGame)
                } else {
                    old(self).next_state
                }
            },
            !ship_is_hit(old(self).entities@, old(self).contacts@) ==> {
                &&& final(self).entities@ == old(self).entities@
                &&& final(doomed)@ == old(doomed)@
                &&& final(self).next_state == old(self).next_state
            },
    {
        let ghost s = self.entities@;
        let i = match self.single(Role::Spaceship) {
            Some(i) => i,
            None => return ,
        };
        proof {
            lemma_single_index(s, Role::Spaceship, i as int);
        }
        let p = self.entities[i];
        let h = match p.health {
            Some(h) => h,
            None => return ,
        };
        if p.collider.is_none() {
            return ;
        }
        let hit = match self.first_asteroid_contact(p.id) {
            Some(hit) => hit,
            None => return ,
        };
        doomed.push(hit);
        if p.shield.is_some() {
            let display = self.single(Role::ShieldDisplay);
            self.replace(i, Entity { shield: None, ..p });
            match display {
                Some(d) => {
                    proof {
                        lemma_single_index(s, Role::ShieldDisplay, d as int);
                    }
                    doomed.push(self.entities[d].id);
                },
                None => {},
            }
            proof {
                assert(doomed@ =~= old(doomed)@ + impact_victims(s, old(self).contacts@));
            }
        } else {
            let left: u32 = if h.0 > 0 {
                h.0 - 1
            } else {
                0
            };
            self.replace(i, Entity { health: Some(Health(left)), ..p });
            if left < 1 {
                self.next_state = Some(AppState::EndGame);
            }
            proof {
                assert(doomed@ =~= old(doomed)@ + impact_victims(s, old(self).contacts@));
            }
        }
    }
    /// Clears the weapon cooldown of the ship, where there is exactly one.
    pub fn clear_cooldown(&mut self)
        requires
            old(self).wf(),
        ensures
            final(self).wf(),
            final(self).entities@ == cooldown_cleared(old(self).entities@),
            final(self).contacts@ == old(self).contacts@,
            final(self).next_id == old(self).next_id,
            final(self).state == old(self).state,
            final(self).next_state == old(self).next_state,
            final(self).spawn_timer == old(self).spawn_timer,
    {
        let ghost s = self.entities@;
        match self.single(Role::Spaceship) {
            Some(i) => {
                proof {
                    lemma_single_index(s, Role::Spaceship, i as int);
                }
                let p = self.entities[i];
                self.replace(i, Entity { cooldown: None, ..p });
            },
            None => {},
        }
    }

    /// Queues in `doomed` every asteroid that overlaps a missile, and that
    /// missile; if there was any, the ship may fire again at once.
    pub fn handle_asteroid_collision(&mut self, doomed: &mut Vec<u64>)
        requires
            old(self).wf(),
        ensures
            final(self).wf(),
            forall|id: u64|
                #[trigger] final(doomed)@.contains(id) <==> old(doomed)@.contains(id) || struck(
                    old(self).entities@,
                    old(self).contacts@,
                    id,
                ),
            final(self).entities@ == if any_strike(old(self).entities@, old(self).contacts@) {
                cooldown_cleared(old(self).entities@)
            } else {
                old(self).entities@
            },
            final(self).contacts@ == old(self).contacts@,
            final(self).next_id == old(self).next_id,
            final(self).state == old(self).state,
            final(self).next_state == old(self).next_state,
            final(self).spawn_timer == old(self).spawn_timer,
    {
        let ghost s = self.entities@;
        let ghost pairs = self.contacts@;
        let ghost start = doomed@;
        let mut any = false;
        let mut k: usize = 0;
        while k < self.contacts.len()
            invariant
                self.wf(),
                s == self.entities@,
                pairs == self.contacts@,
                k <= pairs.len(),
                any == strike_within(s, pairs, k as int),
                forall|id: u64|
                    #[trigger] doomed@.contains(id) <==> start.contains(id) || struck_within(
                        s,
                        pairs,
                        id,
                        k as int,
                    ),
            decreases pairs.len() - k,
        {
            let (a, b) = self.contacts[k];
            let hit = self.is_role(a, Role::Asteroid) && self.is_role(b, Role::Missile);
            let ghost before = doomed@;
            if hit {
                doomed.push(a);
                doomed.push(b);
                any = true;
            }
            proof {
                assert forall|id: u64|
                    #[trigger] doomed@.contains(id) <==> start.contains(id) || struck_within(
                        s,
                        pairs,
                        id,
                        k + 1,
                    ) by {
                    if hit && (id == a || id == b) {
                        assert(strike_at(s, pairs, k as int));
                        if id == a {
                            assert(doomed@[before.len() as int] == id);
                        } else {
                            assert(doomed@[before.len() as int + 1] == id);
                        }
                    } else {
                        if doomed@.contains(id) {
                            let m = choose|m: int| 0 <= m < doomed@.len() && doomed@[m] == id;
                            assert(before[m] == id);
                        }
                        if before.contains(id) {
                            let m = choose|m: int| 0 <= m < before.len() && before[m] == id;
                            assert(doomed@[m] == id);
                        }
                        if struck_within(s, pairs, id, k + 1) {
                            let j = choose|j: int|
                                0 <= j < k + 1 && #[trigger] strike_at(s, pairs, j) && (pairs[j].0
                                    == id || pairs[j].1 == id);
                            assert(j != k);
                        }
                    }
                }
                if hit {
                    assert(strike_at(s, pairs, k as int));
                }
                if strike_within(s, pairs, k + 1) && !hit {
                    let j = choose|j: int| 0 <= j < k + 1 && #[trigger] strike_at(s, pairs, j);
                    assert(j != k);
                }
            }
            k = k + 1;
        }
        if any {
            self.clear_cooldown();
        }
    }
}

} // verus!
