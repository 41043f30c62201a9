use vstd::prelude::*;
use crate::geometry::{closer_than, dist_sq, is_closer_than, sq};
use crate::world::{Entity, World, contacts_of, entity_wf};

verus! {

/// Both entities carry a collider and their distance is strictly less than
/// the sum of their radii.
pub open spec fn colliding(a: Entity, b: Entity) -> bool {
    &&& a.collider is Some
    &&& b.collider is Some
    &&& closer_than(
        a.position,
        b.position,
        a.collider.unwrap().radius + b.collider.unwrap().radius,
    )
}

/// The pairs that entity `i` forms with the entities before index `j`.
pub open spec fn row(s: Seq<Entity>, i: int, j: int) -> Seq<(u64, u64)>
    decreases j,
{
    if j <= 0 {
        Seq::empty()
    } else {
        let r = row(s, i, j - 1);
        if j - 1 != i && colliding(s[i], s[j - 1]) {
            r.push((s[i].id, s[j - 1].id))
        } else {
            r
        }
    }
}

/// The pairs formed by the entities before index `i`, row by row.
pub open spec fn rows(s: Seq<Entity>, i: int) -> Seq<(u64, u64)>
    decreases i,
{
    if i <= 0 {
        Seq::empty()
    } else {
        rows(s, i - 1) + row(s, i - 1, s.len() as int)
    }
}

/// Every ordered pair of distinct entities of `s` that collide, in the order
/// of a double loop over `s`.
pub open spec fn contact_pairs(s: Seq<Entity>) -> Seq<(u64, u64)> {
    rows(s, s.len() as int)
}

/// Whether `a` and `b` collide.
pub fn is_colliding(a: &Entity, b: &Entity) -> (r: bool)
    requires
        entity_wf(*a),
        entity_wf(*b),
    ensures
        r == colliding(*a, *b),
{
    match (a.collider, b.collider) {
        (Some(ca), Some(cb)) => is_closer_than(a.position, b.position, ca.radius + cb.radius),
        _ => false,
    }
}

impl World {
    /// Rebuilds every overlap list from the current positions.
    pub fn detect_collisions(&mut self)
        requires
            old(self).wf(),
        ensures
            final(self).wf(),
            final(self).contacts@ == contact_pairs(old(self).entities@),
            final(self).entities@ == old(self).entities@,
            final(self).next_id == old(self).next_id,
            final(self).state == old(self).state,
            final(self).next_state == old(self).next_state,
            final(self).spawn_timer == old(self).spawn_timer,
    {
        let ghost s = self.entities@;
        let n = self.entities.len();
        let mut pairs: Vec<(u64, u64)> = Vec::new();
        let mut i: usize = 0;
        while i < n
            invariant
                self.entities@ == s,
                n == s.len(),
                i <= n,
                pairs@ == rows(s, i as int),
                forall|k: int| 0 <= k < s.len() ==> entity_wf(#[trigger] s[k]),
            decreases n - i,
        {
            let mut j: usize = 0;
            while j < n
                invariant
                    self.entities@ == s,
                    n == s.len(),
                    i < n,
                    j <= n,
                    pairs@ == rows(s, i as int) + row(s, i as int, j as int),
                    forall|k: int| 0 <= k < s.len() ==> entity_wf(#[trigger] s[k]),
                decreases n - j,
            {
                if i != j && is_colliding(&self.entities[i], &self.entities[j]) {
                    pairs.push((self.entities[i].id, self.entities[j].id));
                    proof {
                        assert(pairs@ =~= rows(s, i as int) + row(s, i as int, j + 1));
                    }
                } else {
                    proof {
                        assert(pairs@ =~= rows(s, i as int) + row(s, i as int, j + 1));
                    }
                }
                j = j + 1;
            }
            i = i + 1;
        }
        self.contacts = pairs;
    }
}

pub proof fn lemma_colliding_symmetric(a: Entity, b: Entity)
    ensures
        colliding(a, b) == colliding(b, a),
{
    assert(sq(a.position.x - b.position.x) == sq(b.position.x - a.position.x)) by (nonlinear_arith);
    assert(sq(a.position.y - b.position.y) == sq(b.position.y - a.position.y)) by (nonlinear_arith);
    assert(sq(a.position.z - b.position.z) == sq(b.position.z - a.position.z)) by (nonlinear_arith);
    assert(dist_sq(a.position, b.position) == dist_sq(b.position, a.position));
}

proof fn lemma_row_contains(s: Seq<Entity>, i: int, j: int, p: (u64, u64))
    requires
        0 <= i < s.len(),
        j <= s.len(),
    ensures
        row(s, i, j).contains(p) <==> exists|k: int|
            0 <= k < j && k != i && colliding(s[i], #[trigger] s[k]) && p == (s[i].id, s[k].id),
    decreases j,
{
    if j > 0 {
        lemma_row_contains(s, i, j - 1, p);
        let r = row(s, i, j - 1);
        if j - 1 != i && colliding(s[i], s[j - 1]) {
            if row(s, i, j).contains(p) && !r.contains(p) {
                let m = choose|m: int| 0 <= m < row(s, i, j).len() && row(s, i, j)[m] == p;
                assert(m == r.len());
                assert(p == (s[i].id, s[j - 1].id));
            }
            if exists|k: int|
                0 <= k < j && k != i && colliding(s[i], #[trigger] s[k]) && p == (s[i].id, s[k].id)
            {
                let k = choose|k: int|
                    0 <= k < j && k != i && colliding(s[i], #[trigger] s[k]) && p == (
                        s[i].id,
                        s[k].id,
                    );
                if k < j - 1 {
                    let m = choose|m: int| 0 <= m < r.len() && r[m] == p;
                    assert(row(s, i, j)[m] == p);
                } else {
                    assert(row(s, i, j)[r.len() as int] == p);
                }
            }
        }
    }
}

proof fn lemma_rows_contains(s: Seq<Entity>, i: int, p: (u64, u64))
    requires
        0 <= i <= s.len(),
    ensures
        rows(s, i).contains(p) <==> exists|a: int, b: int|
            0 <= a < i && 0 <= b < s.len() && a != b && colliding(#[trigger] s[a], #[trigger] s[b])
                && p == (s[a].id, s[b].id),
    decreases i,
{
    if i > 0 {
        lemma_rows_contains(s, i - 1, p);
        lemma_row_contains(s, i - 1, s.len() as int, p);
        let front = rows(s, i - 1);
        let back = row(s, i - 1, s.len() as int);
        let all = rows(s, i);
        assert(all == front + back);
        if all.contains(p) {
            let m = choose|m: int| 0 <= m < all.len() && all[m] == p;
            if m < front.len() {
                assert(front[m] == p);
            } else {
                assert(back[m - front.len()] == p);
            }
        }
        if front.contains(p) {
            let m = choose|m: int| 0 <= m < front.len() && front[m] == p;
            assert(all[m] == p);
        }
        if back.contains(p) {
            let m = choose|m: int| 0 <= m < back.len() && back[m] == p;
            assert(all[front.len() + m] == p);
        }
        if exists|a: int, b: int|
            0 <= a < i && 0 <= b < s.len() && a != b && colliding(#[trigger] s[a], #[trigger] s[b])
                && p == (s[a].id, s[b].id)
        {
            let (a, b) = choose|a: int, b: int|
                0 <= a < i && 0 <= b < s.len() && a != b && colliding(
                    #[trigger] s[a],
                    #[trigger] s[b],
                ) && p == (s[a].id, s[b].id);
            if a == i - 1 {
                assert(back.contains(p));
            } else {
                assert(front.contains(p));
            }
        }
    }
}

/// `(a, b)` is a detected pair exactly when two distinct entities with these
/// ids collide.
pub proof fn lemma_contact_pairs(s: Seq<Entity>, a: u64, b: u64)
    ensures
        contact_pairs(s).contains((a, b)) <==> exists|i: int, j: int|
            0 <= i < s.len() && 0 <= j < s.len() && i != j && colliding(
                #[trigger] s[i],
                #[trigger] s[j],
            ) && s[i].id == a && s[j].id == b,
{
    lemma_rows_contains(s, s.len() as int, (a, b));
}

/// `b` is in the overlap list of `a` exactly when `(a, b)` is a detected pair.
pub proof fn lemma_contacts_of(pairs: Seq<(u64, u64)>, a: u64, b: u64)
    ensures
        contacts_of(pairs, a).contains(b) <==> pairs.contains((a, b)),
    decreases pairs.len(),
{
    if pairs.len() > 0 {
        let t = pairs.drop_last();
        lemma_contacts_of(t, a, b);
        let c = contacts_of(pairs, a);
        let ct = contacts_of(t, a);
        if c.contains(b) {
            let m = choose|m: int| 0 <= m < c.len() && c[m] == b;
            if m < ct.len() {
                assert(ct[m] == b);
                let k = choose|k: int| 0 <= k < t.len() && t[k] == (a, b);
                assert(pairs[k] == (a, b));
            } else {
                assert(pairs[pairs.len() - 1] == (a, b));
            }
        }
        if pairs.contains((a, b)) {
            let k = choose|k: int| 0 <= k < pairs.len() && pairs[k] == (a, b);
            if k < pairs.len() - 1 {
                assert(t[k] == (a, b));
                let m = choose|m: int| 0 <= m < ct.len() && ct[m] == b;
                assert(c[m] == b);
            } else {
                assert(c[c.len() - 1] == b);
            }
        }
    }
}

/// After detection, `a` lists `b` among its overlaps exactly when `b` lists `a`.
pub proof fn lemma_overlaps_symmetric(w: World, a: u64, b: u64)
    requires
        w.contacts@ == contact_pairs(w.entities@),
    ensures
        w.overlaps(a).contains(b) <==> w.overlaps(b).contains(a),
{
    let s = w.entities@;
    lemma_contacts_of(w.contacts@, a, b);
    lemma_contacts_of(w.contacts@, b, a);
    lemma_contact_pairs(s, a, b);
    lemma_contact_pairs(s, b, a);
    if contact_pairs(s).contains((a, b)) {
        let (i, j) = choose|i: int, j: int|
            0 <= i < s.len() && 0 <= j < s.len() && i != j && colliding(
                #[trigger] s[i],
                #[trigger] s[j],
            ) && s[i].id == a && s[j].id == b;
        lemma_colliding_symmetric(s[i], s[j]);
    }
    if contact_pairs(s).contains((b, a)) {
        let (i, j) = choose|i: int, j: int|
            0 <= i < s.len() && 0 <= j < s.len() && i != j && colliding(
                #[trigger] s[i],
                #[trigger] s[j],
            ) && s[i].id == b && s[j].id == a;
        lemma_colliding_symmetric(s[i], s[j]);
    }
}

/// Two colliders exactly `ra + rb` apart do not collide; at `ra + rb - eps`,
/// for `0 < eps <= ra + rb`, they do.
pub proof fn lemma_collision_threshold(a: Entity, b: Entity, eps: int)
    requires
        a.collider is Some,
        b.collider is Some,
    ensures
        dist_sq(a.position, b.position) == sq(a.collider.unwrap().radius + b.collider.unwrap().radius)
            ==> !colliding(a, b),
        0 < eps <= a.collider.unwrap().radius + b.collider.unwrap().radius && dist_sq(
            a.position,
            b.position,
        ) == sq(a.collider.unwrap().radius + b.collider.unwrap().radius - eps) ==> colliding(a, b),
{
    let r = a.collider.unwrap().radius + b.collider.unwrap().radius;
    if 0 < eps <= r {
        assert(sq(r - eps) < sq(r)) by (nonlinear_arith)
            requires
                0 < eps <= r,
        ;
    }
}

} // verus!
