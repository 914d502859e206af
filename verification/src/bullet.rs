//! Projectiles: each references its target enemy by handle, homes on the
//! target's current position every tick, deals its damage on contact and
//! despawns; a projectile whose target is already gone despawns without
//! touching anything else.

use vstd::prelude::*;

use crate::arena::{EntityArena, EntityId};
use crate::enemy::{enemies_ok, EnemyBundle, EnemyStats};
use crate::game::apply_damage;
use crate::geometry::{dist_sq, distance_squared, floor_sqrt, in_world, isqrt, spec_step_toward, step_toward, Point};

verus! {

/// Radius of a projectile, in subpixel world units; also its contact
/// distance.
pub const BULLET_RADIUS: i64 = 3_000;

/// A projectile: its target's handle, the damage it carries, its speed
/// and its current world position.
#[derive(Clone, Copy, Debug, Eq, PartialEq, Structural)]
pub struct Bullet {
    pub target: EntityId,
    pub damage: u64,
    pub speed: u64,
    pub pos: Point,
}

/// Every bullet of the list is within the world bound.
pub open spec fn bullets_ok(bullets: Seq<Bullet>) -> bool {
    forall|k: int| 0 <= k < bullets.len() ==> in_world(#[trigger] bullets[k].pos)
}

/// Whether `id` refers to an occupied slot of the given generation, at
/// the slot-sequence level: [`EntityArena::live`] over the slots alone.
pub open spec fn slot_live(s: Seq<(u64, Option<EnemyBundle>)>, id: EntityId) -> bool {
    &&& id.idx < s.len()
    &&& s[id.idx as int].0 == id.gen
    &&& s[id.idx as int].1 is Some
}

/// What one tick makes of one bullet, as a function of the bullet and
/// the enemy slots: the surviving bullet, if any, and the slots after
/// the step. A stale target despawns the bullet and touches nothing; a
/// live target out of contact draws one homing step; contact lands the
/// damage, clamped at zero, despawning the target exactly when the
/// damage reaches its remaining health.
pub open spec fn spec_step_bullet(
    b: Bullet,
    s: Seq<(u64, Option<EnemyBundle>)>,
    delta_ms: u64,
) -> (Option<Bullet>, Seq<(u64, Option<EnemyBundle>)>) {
    if !slot_live(s, b.target) {
        (None::<Bullet>, s)
    } else {
        let e = s[b.target.idx as int].1.unwrap();
        let dist = floor_sqrt(dist_sq(b.pos, e.state.pos));
        let step = b.speed * delta_ms / 1000;
        if dist > BULLET_RADIUS {
            let pos = if step >= dist {
                e.state.pos
            } else {
                spec_step_toward(b.pos, e.state.pos, step as int, dist)
            };
            (Some(Bullet { pos, ..b }), s)
        } else if b.damage >= e.stats.health {
            (None::<Bullet>, s.update(b.target.idx as int, (b.target.gen, None::<EnemyBundle>)))
        } else {
            let hit = EnemyBundle {
                stats: EnemyStats { health: (e.stats.health - b.damage) as u64, ..e.stats },
                ..e
            };
            (None::<Bullet>, s.update(b.target.idx as int, (b.target.gen, Some(hit))))
        }
    }
}

/// The whole projectile pass as a function: the first `n` bullets
/// stepped left to right, each seeing the slots the ones before it
/// left, with the survivors kept in order.
pub open spec fn spec_bullets_pass(
    bullets: Seq<Bullet>,
    n: int,
    s: Seq<(u64, Option<EnemyBundle>)>,
    delta_ms: u64,
) -> (Seq<Bullet>, Seq<(u64, Option<EnemyBundle>)>)
    decreases n,
{
    if n <= 0 {
        (Seq::<Bullet>::empty(), s)
    } else {
        let prior = spec_bullets_pass(bullets, n - 1, s, delta_ms);
        let stepped = spec_step_bullet(bullets[n - 1], prior.1, delta_ms);
        (
            match stepped.0 {
                Some(nb) => prior.0.push(nb),
                None => prior.0,
            },
            stepped.1,
        )
    }
}

/// What one tick does to one bullet whose target is live: it either
/// flies one homing step (the enemies are untouched) or, in contact, it
/// goes away, its damage lands on the target, and the target despawns
/// exactly when the damage reaches its remaining health.
pub open spec fn stepped_bullet_ok(
    b: Bullet,
    a0: EntityArena<EnemyBundle>,
    a1: EntityArena<EnemyBundle>,
    r: Option<Bullet>,
    delta_ms: u64,
) -> bool {
    let e = a0.value(b.target);
    let dist = floor_sqrt(dist_sq(b.pos, e.state.pos));
    let step = b.speed * delta_ms / 1000;
    if dist > BULLET_RADIUS {
        &&& a1 == a0
        &&& r is Some
        &&& r.unwrap().target == b.target
        &&& r.unwrap().damage == b.damage
        &&& r.unwrap().speed == b.speed
        &&& r.unwrap().pos == (if step >= dist {
            e.state.pos
        } else {
            spec_step_toward(b.pos, e.state.pos, step as int, dist)
        })
    } else {
        &&& r is None
        &&& if b.damage >= e.stats.health {
            !a1.live(b.target)
        } else {
            &&& a1.live(b.target)
            &&& a1.value(b.target).stats.health == e.stats.health - b.damage
            &&& a1.value(b.target).stats.destination == e.stats.destination
            &&& a1.value(b.target).stats.speed == e.stats.speed
            &&& a1.value(b.target).stats.damage == e.stats.damage
            &&& a1.value(b.target).state == e.state
        }
    }
}

/// Advances one bullet. A bullet whose target no longer exists despawns
/// at once and alters nothing; otherwise it homes on the target's
/// current position and on contact applies its damage, clamped at zero
/// health, despawning the target exactly when the damage reaches its
/// remaining health.
pub fn step_bullet(b: Bullet, enemies: &mut EntityArena<EnemyBundle>, delta_ms: u64) -> (r: Option<
    Bullet,
>)
    requires
        enemies_ok(*old(enemies)),
        in_world(b.pos),
    ensures
        enemies_ok(*final(enemies)),
        final(enemies).slot_len() == old(enemies).slot_len(),
        forall|i: int|
            0 <= i < old(enemies).slot_len() ==> old(enemies).slots@[i].0
                == #[trigger] final(enemies).slots@[i].0,
        forall|o: EntityId| o != b.target ==> final(enemies).live(o) == old(enemies).live(o),
        forall|o: EntityId|
            o != b.target && old(enemies).live(o) ==> final(enemies).value(o) == old(enemies).value(o),
        !old(enemies).live(b.target) ==> *final(enemies) == *old(enemies) && r is None,
        old(enemies).live(b.target) ==> stepped_bullet_ok(
            b,
            *old(enemies),
            *final(enemies),
            r,
            delta_ms,
        ),
        r == spec_step_bullet(b, old(enemies).slots@, delta_ms).0,
        final(enemies).slots@ == spec_step_bullet(b, old(enemies).slots@, delta_ms).1,
        r is Some ==> in_world(r.unwrap().pos),
{
    let target = enemies.get(b.target);
    match target {
        None => None,
        Some(e) => {
            let e = *e;
            let sq = distance_squared(b.pos, e.state.pos);
            let dist = isqrt(sq);
            if dist > (BULLET_RADIUS as u64) {
                let new_pos = step_toward(b.pos, e.state.pos, b.speed, delta_ms);
                Some(Bullet { pos: new_pos, ..b })
            } else {
                let (new_health, dead) = apply_damage(e.stats.health, b.damage);
                if dead {
                    enemies.remove(b.target);
                    proof {
                        assert(final(enemies).slots@ =~= old(enemies).slots@.update(
                            b.target.idx as int,
                            (b.target.gen, None::<EnemyBundle>),
                        ));
                    }
                } else {
                    let mut ne = e;
                    ne.stats.health = new_health;
                    enemies.set_value(b.target, ne);
                    proof {
                        assert(final(enemies).slots@ =~= old(enemies).slots@.update(
                            b.target.idx as int,
                            (b.target.gen, Some(ne)),
                        ));
                    }
                }
                None
            }
        },
    }
}

/// Advances every projectile one tick, keeping the survivors in order.
/// Bullets are resolved one after the other, so a later bullet sees the
/// damage the earlier ones dealt. If no bullet's target exists any
/// more, the whole pass despawns every bullet and leaves the enemies
/// exactly as they were.
pub fn move_bullets(bullets: &mut Vec<Bullet>, enemies: &mut EntityArena<EnemyBundle>, delta_ms: u64)
    requires
        enemies_ok(*old(enemies)),
        bullets_ok(old(bullets)@),
    ensures
        enemies_ok(*final(enemies)),
        bullets_ok(final(bullets)@),
        final(enemies).slot_len() == old(enemies).slot_len(),
        forall|i: int|
            0 <= i < old(enemies).slot_len() ==> old(enemies).slots@[i].0
                == #[trigger] final(enemies).slots@[i].0,
        forall|id: EntityId| !old(enemies).live(id) ==> !final(enemies).live(id),
        forall|id: EntityId|
            #[trigger] final(enemies).live(id) ==> old(enemies).live(id) && final(enemies).value(id).stats.health <= old(enemies).value(id).stats.health,
        (forall|k: int|
            0 <= k < old(bullets)@.len() ==> !old(enemies).live(
                #[trigger] old(bullets)@[k].target,
            )) ==> *final(enemies) == *old(enemies) && final(bullets)@.len() == 0,
        final(bullets)@ == spec_bullets_pass(
            old(bullets)@,
            old(bullets)@.len() as int,
            old(enemies).slots@,
            delta_ms,
        ).0,
        final(enemies).slots@ == spec_bullets_pass(
            old(bullets)@,
            old(bullets)@.len() as int,
            old(enemies).slots@,
            delta_ms,
        ).1,
{
    let mut retained: Vec<Bullet> = Vec::new();
    let mut j: usize = 0;
    let ghost stale_only = forall|k: int|
        0 <= k < old(bullets)@.len() ==> !old(enemies).live(#[trigger] old(bullets)@[k].target);
    while j < bullets.len()
        invariant
            enemies_ok(*enemies),
            bullets_ok(retained@),
            bullets@ == old(bullets)@,
            bullets_ok(bullets@),
            j <= bullets@.len(),
            enemies.slot_len() == old(enemies).slot_len(),
            forall|i: int|
                0 <= i < old(enemies).slot_len() ==> old(enemies).slots@[i].0
                    == #[trigger] enemies.slots@[i].0,
            forall|id: EntityId| !old(enemies).live(id) ==> !enemies.live(id),
            forall|id: EntityId|
                #[trigger] enemies.live(id) ==> old(enemies).live(id) && enemies.value(
                    id,
                ).stats.health <= old(enemies).value(id).stats.health,
            stale_only == (forall|k: int|
                0 <= k < old(bullets)@.len() ==> !old(enemies).live(
                    #[trigger] old(bullets)@[k].target,
                )),
            stale_only ==> *enemies == *old(enemies) && retained@.len() == 0,
            retained@ == spec_bullets_pass(
                old(bullets)@,
                j as int,
                old(enemies).slots@,
                delta_ms,
            ).0,
            enemies.slots@ == spec_bullets_pass(
                old(bullets)@,
                j as int,
                old(enemies).slots@,
                delta_ms,
            ).1,
        decreases bullets@.len() - j,
    {
        let b = bullets[j];
        match step_bullet(b, enemies, delta_ms) {
            None => {},
            Some(nb) => {
                retained.push(nb);
            },
        }
        j = j + 1;
    }
    *bullets = retained;
}

} // verus!
