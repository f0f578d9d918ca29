//! Laws of the simulation that relate several stages or entities.

use vstd::prelude::*;

use crate::entity::{EntityId, EntityTookDamage};
use crate::weapon::{cooldown_of, PlayerWeapon, Projectile};
use crate::stages::{descends_from, doomed_ids, after_melee, melee_event, sole_player, first_with_id, ids_increasing, lemma_first_with_id, lemma_first_with_id_stable, world_ok, EntityData, after_projectiles, can_hit, despawned, first_hit_in, hit_event, hit_fn, lemma_first_hit_in, lemma_first_hit_stable, move_fits, moved, projectile_events, survives_fn, unspent_fn};

verus! {

/// Integration is exact: after one step every entity stands at its old
/// position plus its velocity times the elapsed time, and nothing else
/// about it changes.
pub proof fn lemma_integration(s: Seq<EntityData>, dt: int, i: int)
    requires
        0 <= i < s.len(),
        move_fits(s[i], dt),
    ensures
        moved(s, dt).len() == s.len(),
        moved(s, dt)[i].transform.translation.x == s[i].transform.translation.x + s[i].velocity.0.x * dt,
        moved(s, dt)[i].transform.translation.y == s[i].transform.translation.y + s[i].velocity.0.y * dt,
        moved(s, dt)[i].velocity == s[i].velocity,
        moved(s, dt)[i].health == s[i].health,
        moved(s, dt)[i].id == s[i].id,
{
}

/// A projectile that may hit several entities hits exactly one: the first
/// of them in entity order, which it may hit; and it does not survive the
/// stage.
pub proof fn lemma_projectile_single_hit(s: Seq<EntityData>, i: int, a: int, b: int)
    requires
        0 <= i < s.len(),
        0 <= a < s.len(),
        0 <= b < s.len(),
        a != b,
        s[i].role is Projectile,
        can_hit(s[i], s[a]),
        can_hit(s[i], s[b]),
    ensures
        first_hit_in(s, s[i], s.len() as int) matches Some(k) && k <= a && k <= b && can_hit(s[i], s[k])
            && hit_event(s, s[i]) == Some(EntityTookDamage { entity: s[k].id, damage: s[i].role->Projectile_0.damage }),
        !after_projectiles(s).contains(s[i]),
{
    lemma_first_hit_in(s, s[i], s.len() as int);
    let k = first_hit_in(s, s[i], s.len() as int).unwrap();
    if a < k {
        lemma_first_hit_upto(s, s[i], a + 1, s.len() as int);
    }
    if b < k {
        lemma_first_hit_upto(s, s[i], b + 1, s.len() as int);
    }
    if after_projectiles(s).contains(s[i]) {
        let j = choose|j: int| 0 <= j < after_projectiles(s).len() && after_projectiles(s)[j] == s[i];
        s.lemma_filter_pred(unspent_fn(s), j);
    }
}

/// Once some entity among the first `m` may be hit, the first hit among
/// the first `n >= m` lies among the first `m`.
proof fn lemma_first_hit_upto(s: Seq<EntityData>, p: EntityData, m: int, n: int)
    requires
        0 < m <= n <= s.len(),
        can_hit(p, s[m - 1]),
    ensures
        first_hit_in(s, p, n) matches Some(k) && k < m,
{
    lemma_first_hit_in(s, p, m);
    lemma_first_hit_stable(s, p, m, n);
}

/// The projectile stage emits exactly one event per projectile it removes:
/// no projectile deals damage twice.
pub proof fn lemma_one_event_per_spent_projectile(s: Seq<EntityData>)
    ensures
        projectile_events(s).len() + after_projectiles(s).len() == s.len(),
{
    lemma_events_and_kept(s, s.len() as int);
    assert(s.take(s.len() as int) =~= s);
}

proof fn lemma_events_and_kept(s: Seq<EntityData>, n: int)
    requires
        0 <= n <= s.len(),
    ensures
        s.take(n).filter_map(hit_fn(s)).len() + s.take(n).filter(unspent_fn(s)).len() == n,
    decreases n,
{
    if n == 0 {
        assert(s.take(0) =~= Seq::<EntityData>::empty());
        reveal(Seq::filter);
    } else {
        lemma_events_and_kept(s, n - 1);
        s.lemma_filter_map_take_succ(hit_fn(s), n - 1);
        assert(s.take(n) =~= s.take(n - 1).push(s[n - 1]));
        s.take(n - 1).lemma_filter_push(s[n - 1], unspent_fn(s));
    }
}

/// Destroying an entity takes all of its descendants with it (its
/// children, their children, and so on) and nothing else: an entity
/// survives exactly when `id` is not among its ancestors nor its own id.
pub proof fn lemma_despawn_cascades(s: Seq<EntityData>, next_id: int, id: EntityId)
    requires
        world_ok(s, next_id),
    ensures
        forall|i: int| 0 <= i < s.len() ==> (despawned(s, id).contains(#[trigger] s[i]) <==> !descends_from(s, i, id)),
        forall|j: int| 0 <= j < despawned(s, id).len() ==> s.contains(#[trigger] despawned(s, id)[j]),
{
    broadcast use vstd::seq_lib::group_filter_ensures;
    let doomed = doomed_ids(s, id, s.len() as int);
    let keep = survives_fn(doomed);
    lemma_doomed_ids(s, next_id, id, s.len() as int);
    assert forall|i: int| 0 <= i < s.len() implies (despawned(s, id).contains(#[trigger] s[i]) <==> !descends_from(s, i, id)) by {
        if descends_from(s, i, id) {
            assert(doomed.contains(s[i].id));
            if despawned(s, id).contains(s[i]) {
                let j = choose|j: int| 0 <= j < despawned(s, id).len() && despawned(s, id)[j] == s[i];
                s.lemma_filter_pred(keep, j);
            }
        } else {
            if doomed.contains(s[i].id) {
                let k = choose|k: int| 0 <= k < s.len() && s[k].id == s[i].id && descends_from(s, k, id);
                if k < i {
                    assert(s[k].id.0 < s[i].id.0);
                } else if i < k {
                    assert(s[i].id.0 < s[k].id.0);
                }
            }
            s.lemma_filter_contains(keep, i);
        }
    }
    assert forall|j: int| 0 <= j < despawned(s, id).len() implies s.contains(#[trigger] despawned(s, id)[j]) by {
        assert(despawned(s, id).contains(despawned(s, id)[j]));
        s.lemma_filter_contains_rev(keep, despawned(s, id)[j]);
    }
}

/// `doomed_ids` holds exactly the ids of the first `n` entities that
/// descend from `id`.
proof fn lemma_doomed_ids(s: Seq<EntityData>, next_id: int, id: EntityId, n: int)
    requires
        world_ok(s, next_id),
        0 <= n <= s.len(),
    ensures
        forall|x: EntityId| doomed_ids(s, id, n).contains(x) <==> exists|k: int|
            0 <= k < n && s[k].id == x && #[trigger] descends_from(s, k, id),
    decreases n,
{
    if n > 0 {
        lemma_doomed_ids(s, next_id, id, n - 1);
        let r = doomed_ids(s, id, n - 1);
        let last = s[n - 1];
        let goes = last.id == id || (last.parent matches Some(q) && r.contains(q));
        assert(goes == descends_from(s, n - 1, id)) by {
            if last.id != id {
                if let Some(q) = last.parent {
                    lemma_first_with_id(s, q, n - 1);
                    if r.contains(q) {
                        let k = choose|k: int| 0 <= k < n - 1 && s[k].id == q && #[trigger] descends_from(s, k, id);
                        let j = first_with_id(s, q, n - 1).unwrap();
                        if j < k {
                            assert(s[j].id.0 < s[k].id.0);
                        } else if k < j {
                            assert(s[k].id.0 < s[j].id.0);
                        }
                    }
                    if descends_from(s, n - 1, id) {
                        let j = first_with_id(s, q, n - 1).unwrap();
                        assert(descends_from(s, j, id) && s[j].id == q);
                    }
                }
            }
        }
        assert forall|x: EntityId| doomed_ids(s, id, n).contains(x) <==> exists|k: int|
            0 <= k < n && s[k].id == x && #[trigger] descends_from(s, k, id) by {
            if goes {
                assert(doomed_ids(s, id, n) == r.push(last.id));
                if doomed_ids(s, id, n).contains(x) {
                    let m = choose|m: int| 0 <= m < r.len() + 1 && r.push(last.id)[m] == x;
                    if m < r.len() {
                        assert(r.contains(x));
                        let k = choose|k: int| 0 <= k < n - 1 && s[k].id == x && #[trigger] descends_from(s, k, id);
                    } else {
                        assert(descends_from(s, n - 1, id));
                    }
                }
                if exists|k: int| 0 <= k < n && s[k].id == x && #[trigger] descends_from(s, k, id) {
                    let k = choose|k: int| 0 <= k < n && s[k].id == x && #[trigger] descends_from(s, k, id);
                    if k < n - 1 {
                        assert(r.contains(x));
                        let m = choose|m: int| 0 <= m < r.len() && r[m] == x;
                        assert(r.push(last.id)[m] == x);
                    } else {
                        assert(r.push(last.id)[r.len() as int] == x);
                    }
                }
            } else {
                if exists|k: int| 0 <= k < n && s[k].id == x && #[trigger] descends_from(s, k, id) {
                    let k = choose|k: int| 0 <= k < n && s[k].id == x && #[trigger] descends_from(s, k, id);
                    assert(k < n - 1);
                }
            }
        }
    } else {
        assert forall|x: EntityId| !doomed_ids(s, id, n).contains(x) by {}
    }
}

/// Ids are unique: looking up the id of any entity finds that entity.
pub proof fn lemma_id_lookup(s: Seq<EntityData>, next_id: int, k: int)
    requires
        world_ok(s, next_id),
        0 <= k < s.len(),
    ensures
        first_with_id(s, s[k].id, s.len() as int) == Some(k),
{
    lemma_first_with_id(s, s[k].id, s.len() as int);
    lemma_first_with_id_prefix(s, s[k].id, k);
    lemma_first_with_id_stable(s, s[k].id, k + 1, s.len() as int);
}

/// Before index `k`, no entity of a store with increasing ids carries the
/// id of entity `k`.
proof fn lemma_first_with_id_prefix(s: Seq<EntityData>, id: EntityId, k: int)
    requires
        ids_increasing(s),
        0 <= k < s.len(),
        s[k].id == id,
    ensures
        first_with_id(s, id, k + 1) == Some(k),
{
    assert(first_with_id(s, id, k) is None) by {
        lemma_no_id_before(s, id, k, k);
    }
}

proof fn lemma_no_id_before(s: Seq<EntityData>, id: EntityId, k: int, n: int)
    requires
        ids_increasing(s),
        0 <= n <= k < s.len(),
        s[k].id == id,
    ensures
        first_with_id(s, id, n) is None,
    decreases n,
{
    if n > 0 {
        lemma_no_id_before(s, id, k, n - 1);
        assert(s[n - 1].id.0 < s[k].id.0);
    }
}

/// Cooldown gating: a weapon that attacked at `t` is ready again at `now`
/// (not before `t`) exactly when its whole cooldown has passed.
pub proof fn lemma_cooldown_gating(w: PlayerWeapon, t: u64, now: int)
    requires
        w.last_attack_time() == Some(t),
        now >= t,
    ensures
        w.ready(now) <==> now >= t + cooldown_of(w),
{
}

/// Melee is gated by the cooldown, not by frames: an enemy that hit at
/// `now1` lands no hit, on anyone, at any `now2` up to its cooldown later.
pub proof fn lemma_melee_gated(s: Seq<EntityData>, i: int, now1: int, now2: int, target: EntityData)
    requires
        0 <= i < s.len(),
        0 <= now1 <= u64::MAX,
        sole_player(s) matches Some(p) && melee_event(s[p], s[i], now1) is Some,
        now1 <= now2 <= now1 + s[i].role->Enemy_0.cooldown_of(),
    ensures
        melee_event(target, after_melee(s, now1)[i], now2) is None,
{
}

} // verus!
