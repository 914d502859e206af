//! Towers: placed by the player, they acquire the nearest enemy in range
//! on a cooldown and fire homing projectiles. Placing a tower is an area
//! action: everything on the map takes falloff damage around the point
//! of impact. During heal seasons a click heals what it lands on.

use vstd::prelude::*;

use crate::arena::{EntityArena, EntityId};
use crate::base::{Base, BASE_INITIAL_HEALTH, BASE_RADIUS};
use crate::bullet::{bullets_ok, Bullet};
use crate::enemy::{enemies_ok, EnemyBundle, WaveTimer};
use crate::game::{
    apply_damage, compute_scale, fall_off_damage_curve, spec_fall_off, spec_scale,
    AREA_BASE_DAMAGE, AREA_DECAY_PPM, AREA_MIN_DISTANCE, HEAL_AMOUNT,
};
use crate::geometry::{
    dist_sq, distance_squared, euclidean_distance, floor_sqrt, in_world, Point,
};
use crate::season::CountdownTimer;

verus! {

/// Radius of a tower, in subpixel world units.
pub const TOWER_RADIUS: i64 = 25_000;

/// Health a tower starts with, in health units.
pub const TOWER_INITIAL_HEALTH: u64 = 100_000;

/// The persistent attributes of a tower, its position included.
#[derive(Clone, Copy, Debug, Eq, PartialEq, Structural)]
pub struct TowerStats {
    pub x: i64,
    pub y: i64,
    pub level: u32,
    pub range: u64,
    pub damage: u64,
    pub upgrade_price: u32,
    pub speed: u64,
    pub health: u64,
}

/// The transient state of a tower: its fire-rate cooldown.
#[derive(Clone, Copy, Debug, Eq, PartialEq, Structural)]
pub struct TowerState {
    pub timer: CountdownTimer,
}

/// Everything one tower entity carries.
#[derive(Clone, Copy, Debug, Eq, PartialEq, Structural)]
pub struct TowerBundle {
    pub stats: TowerStats,
    pub state: TowerState,
}

impl TowerBundle {
    /// A fresh level-one tower at `(x, y)`.
    pub fn new(x: i64, y: i64) -> (t: TowerBundle)
        ensures
            t == spec_new_tower(x, y),
    {
        TowerBundle {
            stats: TowerStats {
                x,
                y,
                level: 1,
                range: 128_000,
                damage: 50_000,
                upgrade_price: 10,
                speed: 500_000,
                health: TOWER_INITIAL_HEALTH,
            },
            state: TowerState { timer: CountdownTimer::new(100) },
        }
    }
}

/// The exact shape of a newly placed tower.
pub open spec fn spec_new_tower(x: i64, y: i64) -> TowerBundle {
    TowerBundle {
        stats: TowerStats {
            x,
            y,
            level: 1,
            range: 128_000,
            damage: 50_000,
            upgrade_price: 10,
            speed: 500_000,
            health: TOWER_INITIAL_HEALTH,
        },
        state: TowerState { timer: CountdownTimer { period_ms: 100, remaining_ms: 100 } },
    }
}

/// Every live tower is within the world bound with health remaining.
pub open spec fn towers_ok(a: EntityArena<TowerBundle>) -> bool {
    forall|id: EntityId| #[trigger] a.live(id) ==> {
        &&& in_world(Point { x: a.value(id).stats.x, y: a.value(id).stats.y })
        &&& a.value(id).stats.health > 0
    }
}

/// The nearest live enemy of the first `n` enemy slots to `from`, with
/// its squared distance, scanning in slot order and replacing the
/// champion only on a strictly smaller distance: among equally near
/// enemies the one in the lowest slot wins. `None` only when no slot of
/// the prefix is occupied.
pub open spec fn spec_closest_enemy(
    s: Seq<(u64, Option<EnemyBundle>)>,
    n: int,
    from: Point,
) -> Option<(EntityId, int)>
    decreases n,
{
    if n <= 0 {
        None::<(EntityId, int)>
    } else {
        let prior = spec_closest_enemy(s, n - 1, from);
        if s[n - 1].1 is Some {
            let e = s[n - 1].1.unwrap();
            let d = dist_sq(from, e.state.pos);
            let id = EntityId { idx: (n - 1) as usize, gen: s[n - 1].0 };
            match prior {
                None => Some((id, d)),
                Some(best) => if d < best.1 {
                    Some((id, d))
                } else {
                    Some(best)
                },
            }
        } else {
            prior
        }
    }
}

/// Finds the live enemy nearest to `from`, with its squared distance;
/// among equally near enemies the one in the lowest slot wins, matching
/// a scan in slot order. `None` only when no enemy is alive.
pub fn find_closest_enemy(enemies: &EntityArena<EnemyBundle>, from: Point) -> (r: Option<
    (EntityId, u64),
>)
    requires
        enemies_ok(*enemies),
        in_world(from),
    ensures
        match r {
            Some(pair) => {
                &&& enemies.live(pair.0)
                &&& pair.1 == dist_sq(from, enemies.value(pair.0).state.pos)
                &&& forall|o: EntityId| #[trigger]
                    enemies.live(o) ==> dist_sq(from, enemies.value(o).state.pos) >= pair.1
                &&& forall|o: EntityId| #[trigger]
                    enemies.live(o) && o.idx < pair.0.idx ==> dist_sq(
                        from,
                        enemies.value(o).state.pos,
                    ) > pair.1
                &&& spec_closest_enemy(enemies.slots@, enemies.slots@.len() as int, from) == Some(
                    (pair.0, pair.1 as int),
                )
            },
            None => (forall|o: EntityId| !enemies.live(o)) && spec_closest_enemy(
                enemies.slots@,
                enemies.slots@.len() as int,
                from,
            ) is None,
        },
{
    let mut best: Option<(EntityId, u64)> = None;
    let mut i: usize = 0;
    while i < enemies.slot_count()
        invariant
            enemies_ok(*enemies),
            in_world(from),
            i <= enemies.slot_len(),
            match best {
                Some(pair) => {
                    &&& enemies.live(pair.0)
                    &&& pair.0.idx < i
                    &&& pair.1 == dist_sq(from, enemies.value(pair.0).state.pos)
                    &&& forall|o: EntityId| #[trigger]
                        enemies.live(o) && o.idx < i ==> dist_sq(
                            from,
                            enemies.value(o).state.pos,
                        ) >= pair.1
                    &&& forall|o: EntityId| #[trigger]
                        enemies.live(o) && o.idx < pair.0.idx ==> dist_sq(
                            from,
                            enemies.value(o).state.pos,
                        ) > pair.1
                },
                None => forall|o: EntityId| #[trigger] enemies.live(o) ==> o.idx >= i,
            },
            match best {
                Some(pair) => spec_closest_enemy(enemies.slots@, i as int, from) == Some(
                    (pair.0, pair.1 as int),
                ),
                None => spec_closest_enemy(enemies.slots@, i as int, from) is None,
            },
        decreases enemies.slot_len() - i,
    {
        match enemies.id_at(i) {
            None => {},
            Some(id) => {
                let e = *enemies.get(id).unwrap();
                let d = distance_squared(from, e.state.pos);
                match best {
                    None => {
                        best = Some((id, d));
                    },
                    Some(pair) => {
                        if d < pair.1 {
                            best = Some((id, d));
                        }
                    },
                }
            },
        }
        i = i + 1;
    }
    best
}

/// How a cooldown tick leaves a tower: stats untouched, timer advanced.
pub open spec fn cooled_tower_ok(t: TowerBundle, r: TowerBundle, delta_ms: u64) -> bool {
    &&& r.stats == t.stats
    &&& r.state.timer.period_ms == t.state.timer.period_ms
    &&& r.state.timer.remaining_ms == (if delta_ms >= t.state.timer.remaining_ms {
        t.state.timer.period_ms
    } else {
        (t.state.timer.remaining_ms - delta_ms) as u64
    })
}

/// What one tick makes of one tower, as a function: the cooldown
/// advances (rewinding on completion), and if it completed, the nearest
/// live enemy is re-acquired; when that enemy lies strictly within
/// range, exactly one projectile is appended, starting at the tower and
/// carrying the tower's damage and projectile speed. No target persists
/// between shots.
pub open spec fn spec_shoot_tower(
    t: TowerBundle,
    enemy_slots: Seq<(u64, Option<EnemyBundle>)>,
    bullets: Seq<Bullet>,
    delta_ms: u64,
) -> (TowerBundle, Seq<Bullet>) {
    let fired = delta_ms >= t.state.timer.remaining_ms;
    let nt = TowerBundle {
        state: TowerState {
            timer: CountdownTimer {
                period_ms: t.state.timer.period_ms,
                remaining_ms: if fired {
                    t.state.timer.period_ms
                } else {
                    (t.state.timer.remaining_ms - delta_ms) as u64
                },
            },
        },
        ..t
    };
    if fired {
        match spec_closest_enemy(
            enemy_slots,
            enemy_slots.len() as int,
            Point { x: t.stats.x, y: t.stats.y },
        ) {
            Some(pair) => if pair.1 < t.stats.range * t.stats.range {
                (
                    nt,
                    bullets.push(
                        Bullet {
                            target: pair.0,
                            damage: t.stats.damage,
                            speed: t.stats.speed,
                            pos: Point { x: t.stats.x, y: t.stats.y },
                        },
                    ),
                )
            } else {
                (nt, bullets)
            },
            None => (nt, bullets),
        }
    } else {
        (nt, bullets)
    }
}

/// The whole shooting pass as a function: the first `n` tower slots
/// handled in slot order, each occupied slot ticking its cooldown and
/// possibly appending one projectile.
pub open spec fn spec_shoot_pass(
    tower_slots: Seq<(u64, Option<TowerBundle>)>,
    n: int,
    enemy_slots: Seq<(u64, Option<EnemyBundle>)>,
    bullets: Seq<Bullet>,
    delta_ms: u64,
) -> (Seq<(u64, Option<TowerBundle>)>, Seq<Bullet>)
    decreases n,
{
    if n <= 0 {
        (tower_slots, bullets)
    } else {
        let prior = spec_shoot_pass(tower_slots, n - 1, enemy_slots, bullets, delta_ms);
        if tower_slots[n - 1].1 is Some {
            let t = tower_slots[n - 1].1.unwrap();
            let shot = spec_shoot_tower(t, enemy_slots, prior.1, delta_ms);
            (prior.0.update(n - 1, (tower_slots[n - 1].0, Some(shot.0))), shot.1)
        } else {
            prior
        }
    }
}

/// Ticks every tower's cooldown; each tower whose cooldown completes
/// re-acquires the nearest live enemy and, if that enemy is within
/// range, fires one projectile at it — exactly as [`spec_shoot_pass`]
/// says, tower by tower in slot order. Existing projectiles are kept.
pub fn shoot_enemies(
    towers: &mut EntityArena<TowerBundle>,
    enemies: &EntityArena<EnemyBundle>,
    bullets: &mut Vec<Bullet>,
    delta_ms: u64,
)
    requires
        towers_ok(*old(towers)),
        enemies_ok(*enemies),
        bullets_ok(old(bullets)@),
    ensures
        towers_ok(*final(towers)),
        bullets_ok(final(bullets)@),
        final(towers).slot_len() == old(towers).slot_len(),
        forall|i: int|
            0 <= i < old(towers).slot_len() ==> old(towers).slots@[i].0
                == #[trigger] final(towers).slots@[i].0,
        forall|id: EntityId| final(towers).live(id) == old(towers).live(id),
        forall|id: EntityId| #[trigger]
            old(towers).live(id) ==> cooled_tower_ok(
                old(towers).value(id),
                final(towers).value(id),
                delta_ms,
            ),
        old(bullets)@.len() <= final(bullets)@.len(),
        forall|k: int|
            0 <= k < old(bullets)@.len() ==> final(bullets)@[k] == #[trigger] old(bullets)@[k],
        forall|k: int|
            #![trigger final(bullets)@[k]]
            old(bullets)@.len() <= k < final(bullets)@.len() ==> enemies.live(
                final(bullets)@[k].target,
            ) && in_world(final(bullets)@[k].pos),
        final(towers).slots@ == spec_shoot_pass(
            old(towers).slots@,
            old(towers).slot_len() as int,
            enemies.slots@,
            old(bullets)@,
            delta_ms,
        ).0,
        final(bullets)@ == spec_shoot_pass(
            old(towers).slots@,
            old(towers).slot_len() as int,
            enemies.slots@,
            old(bullets)@,
            delta_ms,
        ).1,
{
    let mut i: usize = 0;
    while i < towers.slot_count()
        invariant
            towers_ok(*towers),
            enemies_ok(*enemies),
            bullets_ok(bullets@),
            i <= towers.slot_len(),
            towers.slot_len() == old(towers).slot_len(),
            forall|j: int|
                0 <= j < old(towers).slot_len() ==> old(towers).slots@[j].0
                    == #[trigger] towers.slots@[j].0,
            forall|id: EntityId| towers.live(id) == old(towers).live(id),
            forall|id: EntityId| #[trigger]
                old(towers).live(id) && id.idx < i ==> cooled_tower_ok(
                    old(towers).value(id),
                    towers.value(id),
                    delta_ms,
                ),
            forall|id: EntityId| #[trigger]
                old(towers).live(id) && id.idx >= i ==> towers.value(id) == old(towers).value(id),
            old(bullets)@.len() <= bullets@.len(),
            forall|k: int|
                0 <= k < old(bullets)@.len() ==> bullets@[k] == #[trigger] old(bullets)@[k],
            forall|k: int|
                #![trigger bullets@[k]]
                old(bullets)@.len() <= k < bullets@.len() ==> enemies.live(bullets@[k].target)
                    && in_world(bullets@[k].pos),
            forall|j: int|
                i <= j < old(towers).slot_len() ==> towers.slots@[j] == old(towers).slots@[j],
            towers.slots@ == spec_shoot_pass(
                old(towers).slots@,
                i as int,
                enemies.slots@,
                old(bullets)@,
                delta_ms,
            ).0,
            bullets@ == spec_shoot_pass(
                old(towers).slots@,
                i as int,
                enemies.slots@,
                old(bullets)@,
                delta_ms,
            ).1,
        decreases towers.slot_len() - i,
    {
        match towers.id_at(i) {
            None => {},
            Some(id) => {
                let t = *towers.get(id).unwrap();
                let ghost pre_towers = towers.slots@;
                let mut nt = t;
                let fired = nt.state.timer.tick(delta_ms);
                towers.set_value(id, nt);
                proof {
                    assert(towers.slots@ =~= pre_towers.update(i as int, (id.gen, Some(nt))));
                }
                if fired {
                    match find_closest_enemy(enemies, Point { x: t.stats.x, y: t.stats.y }) {
                        None => {},
                        Some((enemy_id, d)) => {
                            proof {
                                assert(t.stats.range as int * t.stats.range as int
                                    <= 0xFFFF_FFFF_FFFF_FFFF * 0xFFFF_FFFF_FFFF_FFFF)
                                    by (nonlinear_arith)
                                    requires
                                        0 <= t.stats.range <= 0xFFFF_FFFF_FFFF_FFFF,
                                ;
                            }
                            if (d as u128) < (t.stats.range as u128) * (t.stats.range as u128) {
                                let nb = Bullet {
                                    target: enemy_id,
                                    damage: t.stats.damage,
                                    speed: t.stats.speed,
                                    pos: Point { x: t.stats.x, y: t.stats.y },
                                };
                                bullets.push(nb);
                            }
                        },
                    }
                }
            },
        }
        i = i + 1;
    }
}


/// The falloff damage an area placement at `click` deals to a thing at
/// `p`: the curve of [`spec_fall_off`] at their exact distance, with
/// the game's area-placement parameters.
pub open spec fn area_damage_at(click: Point, p: Point) -> int {
    spec_fall_off(
        floor_sqrt(dist_sq(click, p)),
        AREA_BASE_DAMAGE as int,
        AREA_MIN_DISTANCE as int,
        AREA_DECAY_PPM as int,
    )
}

/// What the area blast leaves of a tower: despawned when the damage
/// reaches its remaining health, else the same tower with the damage
/// subtracted.
pub open spec fn area_damaged_tower(click: Point, t: TowerBundle) -> Option<TowerBundle> {
    let dmg = area_damage_at(click, Point { x: t.stats.x, y: t.stats.y });
    if dmg >= t.stats.health {
        None
    } else {
        Some(
            TowerBundle {
                stats: TowerStats { health: (t.stats.health - dmg) as u64, ..t.stats },
                ..t
            },
        )
    }
}

/// What the area blast leaves of an enemy, in the same way.
pub open spec fn area_damaged_enemy(click: Point, e: EnemyBundle) -> Option<EnemyBundle> {
    let dmg = area_damage_at(click, e.state.pos);
    if dmg >= e.stats.health {
        None
    } else {
        Some(
            EnemyBundle {
                stats: crate::enemy::EnemyStats {
                    health: (e.stats.health - dmg) as u64,
                    ..e.stats
                },
                ..e
            },
        )
    }
}

/// What placing a tower does as a whole: every tower and enemy takes
/// the falloff damage of its exact distance to the click and is removed
/// exactly when that damage reaches its health; the base takes its own
/// falloff damage, clamped at zero, reporting the loss exactly when the
/// damage reaches its health; and exactly one fresh tower stands at the
/// click afterwards.
pub open spec fn place_tower_rel(
    click: Point,
    t0: EntityArena<TowerBundle>,
    t1: EntityArena<TowerBundle>,
    e0: EntityArena<EnemyBundle>,
    e1: EntityArena<EnemyBundle>,
    b0: Base,
    b1: Base,
    lost: bool,
) -> bool {
    &&& towers_ok(t1)
    &&& enemies_ok(e1)
    &&& forall|j: int| 0 <= j < t0.slot_len() ==> t0.slots@[j].0 <= #[trigger] t1.slots@[j].0
    &&& forall|j: int| 0 <= j < e0.slot_len() ==> e0.slots@[j].0 == #[trigger] e1.slots@[j].0
    &&& e1.slot_len() == e0.slot_len()
    &&& forall|id: EntityId| #[trigger]
        t0.live(id) ==> (match area_damaged_tower(click, t0.value(id)) {
            Some(t) => t1.live(id) && t1.value(id) == t,
            None => !t1.live(id),
        })
    &&& forall|id: EntityId| #[trigger]
        e0.live(id) ==> (match area_damaged_enemy(click, e0.value(id)) {
            Some(e) => e1.live(id) && e1.value(id) == e,
            None => !e1.live(id),
        })
    &&& forall|id: EntityId| !e0.live(id) ==> !e1.live(id)
    &&& forall|id: EntityId|
        #[trigger] t1.live(id) && !t0.live(id) ==> t1.value(id) == spec_new_tower(
            click.x,
            click.y,
        )
    &&& exists|nid: EntityId| #[trigger]
        t1.live(nid) && !t0.live(nid) && t1.value(nid) == spec_new_tower(click.x, click.y)
    &&& forall|o1: EntityId, o2: EntityId|
        #[trigger] t1.live(o1) && #[trigger] t1.live(o2) && !t0.live(o1) && !t0.live(o2) ==> o1
            == o2
    &&& lost == (area_damage_at(click, Point { x: 0, y: 0 }) >= b0.health)
    &&& b1.health as int == (if area_damage_at(click, Point { x: 0, y: 0 }) >= b0.health {
        0int
    } else {
        b0.health - area_damage_at(click, Point { x: 0, y: 0 })
    })
}

/// Places a tower at the click position. The placement is an area
/// blast first: every tower, every enemy and the base take the falloff
/// damage of their exact distance to the click, with health clamped at
/// zero; whatever the damage reaches the remaining health of is
/// removed, exactly once, and the base going down reports the loss.
/// The new tower is spawned after the blast.
pub fn place_tower(towers: &mut EntityArena<TowerBundle>, enemies: &mut EntityArena<EnemyBundle>, base: &mut Base, x: i64, y: i64) -> (lost: bool)
    requires
        in_world(Point { x, y }),
        towers_ok(*old(towers)),
        enemies_ok(*old(enemies)),
        old(base).health > 0,
    ensures
        towers_ok(*final(towers)),
        enemies_ok(*final(enemies)),
        forall|j: int|
            0 <= j < old(towers).slot_len() ==> old(towers).slots@[j].0
                <= #[trigger] final(towers).slots@[j].0,
        forall|j: int|
            0 <= j < old(enemies).slot_len() ==> old(enemies).slots@[j].0
                == #[trigger] final(enemies).slots@[j].0,
        final(enemies).slot_len() == old(enemies).slot_len(),
        forall|id: EntityId| #[trigger]
            old(towers).live(id) ==> (match area_damaged_tower(Point { x, y }, old(towers).value(id)) {
                Some(t) => final(towers).live(id) && final(towers).value(id) == t,
                None => !final(towers).live(id),
            }),
        forall|id: EntityId| #[trigger]
            old(enemies).live(id) ==> (match area_damaged_enemy(Point { x, y }, old(enemies).value(id)) {
                Some(e) => final(enemies).live(id) && final(enemies).value(id) == e,
                None => !final(enemies).live(id),
            }),
        forall|id: EntityId| !old(enemies).live(id) ==> !final(enemies).live(id),
        forall|id: EntityId|
            #[trigger] final(towers).live(id) && !old(towers).live(id) ==> final(towers).value(id)
                == spec_new_tower(x, y),
        exists|nid: EntityId| #[trigger]
            final(towers).live(nid) && !old(towers).live(nid) && final(towers).value(nid)
                == spec_new_tower(x, y),
        forall|o1: EntityId, o2: EntityId|
            #[trigger] final(towers).live(o1) && #[trigger] final(towers).live(o2) && !old(
                towers,
            ).live(o1) && !old(towers).live(o2) ==> o1 == o2,
        lost == (area_damage_at(Point { x, y }, Point { x: 0, y: 0 }) >= old(base).health),
        final(base).health as int == (if area_damage_at(Point { x, y }, Point { x: 0, y: 0 })
            >= old(base).health {
            0int
        } else {
            old(base).health - area_damage_at(Point { x, y }, Point { x: 0, y: 0 })
        }),
        place_tower_rel(
            Point { x, y },
            *old(towers),
            *final(towers),
            *old(enemies),
            *final(enemies),
            *old(base),
            *final(base),
            lost,
        ),
{
    let click = Point { x, y };
    let mut i: usize = 0;
    while i < towers.slot_count()
        invariant
            in_world(click),
            towers_ok(*towers),
            i <= towers.slot_len(),
            towers.slot_len() == old(towers).slot_len(),
            forall|j: int|
                i <= j < old(towers).slot_len() ==> towers.slots@[j] == old(towers).slots@[j],
            forall|j: int|
                0 <= j < i ==> towers.slots@[j].0 == old(towers).slots@[j].0
                    && towers.slots@[j].1 == (match old(towers).slots@[j].1 {
                    Some(t) => area_damaged_tower(click, t),
                    None => None::<TowerBundle>,
                }),
        decreases towers.slot_len() - i,
    {
        match towers.id_at(i) {
            None => {},
            Some(id) => {
                let t = *towers.get(id).unwrap();
                let d = euclidean_distance(click.x, click.y, t.stats.x, t.stats.y);
                let dmg = fall_off_damage_curve(d, AREA_BASE_DAMAGE, AREA_MIN_DISTANCE, AREA_DECAY_PPM);
                let (new_health, dead) = apply_damage(t.stats.health, dmg);
                if dead {
                    towers.remove(id);
                } else {
                    let mut nt = t;
                    nt.stats.health = new_health;
                    towers.set_value(id, nt);
                }
            },
        }
        i = i + 1;
    }
    let mut i: usize = 0;
    while i < enemies.slot_count()
        invariant
            in_world(click),
            enemies_ok(*enemies),
            i <= enemies.slot_len(),
            enemies.slot_len() == old(enemies).slot_len(),
            forall|j: int|
                i <= j < old(enemies).slot_len() ==> enemies.slots@[j] == old(enemies).slots@[j],
            forall|j: int|
                0 <= j < i ==> enemies.slots@[j].0 == old(enemies).slots@[j].0
                    && enemies.slots@[j].1 == (match old(enemies).slots@[j].1 {
                    Some(e) => area_damaged_enemy(click, e),
                    None => None::<EnemyBundle>,
                }),
        decreases enemies.slot_len() - i,
    {
        match enemies.id_at(i) {
            None => {},
            Some(id) => {
                let e = *enemies.get(id).unwrap();
                let d = euclidean_distance(click.x, click.y, e.state.pos.x, e.state.pos.y);
                let dmg = fall_off_damage_curve(d, AREA_BASE_DAMAGE, AREA_MIN_DISTANCE, AREA_DECAY_PPM);
                let (new_health, dead) = apply_damage(e.stats.health, dmg);
                if dead {
                    enemies.remove(id);
                } else {
                    let mut ne = e;
                    ne.stats.health = new_health;
                    enemies.set_value(id, ne);
                }
            },
        }
        i = i + 1;
    }
    let d = euclidean_distance(click.x, click.y, 0, 0);
    let dmg = fall_off_damage_curve(d, AREA_BASE_DAMAGE, AREA_MIN_DISTANCE, AREA_DECAY_PPM);
    let (new_health, lost) = apply_damage(base.health, dmg);
    base.health = new_health;
    let ghost mid = *towers;
    proof {
        assert forall|o: EntityId| #[trigger] mid.live(o) implies old(towers).live(o) by {
            if o.idx < old(towers).slot_len() {
                assert(mid.slots@[o.idx as int].1 == (match old(towers).slots@[o.idx as int].1 {
                    Some(t) => area_damaged_tower(click, t),
                    None => None::<TowerBundle>,
                }));
            }
        }
    }
    let new_id = towers.spawn(TowerBundle::new(x, y));
    proof {
        assert(final(towers).live(new_id) && !old(towers).live(new_id) && final(towers).value(
            new_id,
        ) == spec_new_tower(x, y));
        assert forall|o1: EntityId, o2: EntityId|
            #[trigger] final(towers).live(o1) && #[trigger] final(towers).live(o2) && !old(
                towers,
            ).live(o1) && !old(towers).live(o2) implies o1 == o2 by {
            if o1 != new_id {
                assert(mid.live(o1));
            }
            if o2 != new_id {
                assert(mid.live(o2));
            }
        }
    }
    lost
}

/// Whether the click lands on the thing at `p` of radius `radius`,
/// scaled by its health as the rendered size is.
pub open spec fn heal_hit(click: Point, p: Point, radius: int, health: int, initial: int) -> bool {
    floor_sqrt(dist_sq(click, p)) < radius * spec_scale(health, initial) / 1000
}

/// Health after one heal, saturating at the top of the range.
pub open spec fn spec_healed(h: int) -> int {
    if h + HEAL_AMOUNT > u64::MAX {
        u64::MAX as int
    } else {
        h + HEAL_AMOUNT
    }
}

/// Whether the click lands on any occupied tower of the first `n`
/// slots.
pub open spec fn spec_heal_hits(
    s: Seq<(u64, Option<TowerBundle>)>,
    n: int,
    click: Point,
) -> bool
    decreases n,
{
    if n <= 0 {
        false
    } else {
        spec_heal_hits(s, n - 1, click) || (match s[n - 1].1 {
            Some(t) => heal_hit(
                click,
                Point { x: t.stats.x, y: t.stats.y },
                TOWER_RADIUS as int,
                t.stats.health as int,
                TOWER_INITIAL_HEALTH as int,
            ),
            None => false,
        })
    }
}

/// What a heal click does as a whole: every tower the click lands on,
/// and the base if the click lands on it, gains the heal amount
/// (saturating); everything else is untouched, and the force-wave flag
/// is raised exactly when something was healed (and never lowered).
pub open spec fn heal_rel(
    click: Point,
    t0: EntityArena<TowerBundle>,
    t1: EntityArena<TowerBundle>,
    b0: Base,
    b1: Base,
    w0: WaveTimer,
    w1: WaveTimer,
) -> bool {
    &&& towers_ok(t1)
    &&& t1.slot_len() == t0.slot_len()
    &&& forall|j: int| 0 <= j < t0.slot_len() ==> t0.slots@[j].0 == #[trigger] t1.slots@[j].0
    &&& forall|id: EntityId| t1.live(id) == t0.live(id)
    &&& forall|id: EntityId| #[trigger]
        t0.live(id) ==> ({
            let t = t0.value(id);
            let r = t1.value(id);
            if heal_hit(
                click,
                Point { x: t.stats.x, y: t.stats.y },
                TOWER_RADIUS as int,
                t.stats.health as int,
                TOWER_INITIAL_HEALTH as int,
            ) {
                r == (TowerBundle {
                    stats: TowerStats {
                        health: spec_healed(t.stats.health as int) as u64,
                        ..t.stats
                    },
                    ..t
                })
            } else {
                r == t
            }
        })
    &&& b1.health as int == (if heal_hit(
        click,
        Point { x: 0, y: 0 },
        BASE_RADIUS as int,
        b0.health as int,
        BASE_INITIAL_HEALTH as int,
    ) {
        spec_healed(b0.health as int)
    } else {
        b0.health as int
    })
    &&& w1.timer == w0.timer
    &&& w1.force_wave == (w0.force_wave || spec_heal_hits(t0.slots@, t0.slot_len() as int, click)
        || heal_hit(
        click,
        Point { x: 0, y: 0 },
        BASE_RADIUS as int,
        b0.health as int,
        BASE_INITIAL_HEALTH as int,
    ))
}

/// A heal click: every tower the click lands on, and the base if the
/// click lands on it, are healed by the heal amount; any successful
/// heal forces the next enemy wave.
pub fn heal_tower_and_base(towers: &mut EntityArena<TowerBundle>, base: &mut Base, wave_timer: &mut WaveTimer, x: i64, y: i64)
    requires
        in_world(Point { x, y }),
        towers_ok(*old(towers)),
    ensures
        towers_ok(*final(towers)),
        final(towers).slot_len() == old(towers).slot_len(),
        forall|j: int|
            0 <= j < old(towers).slot_len() ==> old(towers).slots@[j].0
                == #[trigger] final(towers).slots@[j].0,
        forall|id: EntityId| final(towers).live(id) == old(towers).live(id),
        forall|id: EntityId| #[trigger]
            old(towers).live(id) ==> ({
                let t = old(towers).value(id);
                let r = final(towers).value(id);
                if heal_hit(
                    Point { x, y },
                    Point { x: t.stats.x, y: t.stats.y },
                    TOWER_RADIUS as int,
                    t.stats.health as int,
                    TOWER_INITIAL_HEALTH as int,
                ) {
                    r == (TowerBundle {
                        stats: TowerStats { health: spec_healed(t.stats.health as int) as u64, ..t.stats },
                        ..t
                    })
                } else {
                    r == t
                }
            }),
        final(base).health as int == (if heal_hit(
            Point { x, y },
            Point { x: 0, y: 0 },
            BASE_RADIUS as int,
            old(base).health as int,
            BASE_INITIAL_HEALTH as int,
        ) {
            spec_healed(old(base).health as int)
        } else {
            old(base).health as int
        }),
        final(wave_timer).timer == old(wave_timer).timer,
        final(wave_timer).force_wave == (old(wave_timer).force_wave || spec_heal_hits(
            old(towers).slots@,
            old(towers).slot_len() as int,
            Point { x, y },
        ) || heal_hit(
            Point { x, y },
            Point { x: 0, y: 0 },
            BASE_RADIUS as int,
            old(base).health as int,
            BASE_INITIAL_HEALTH as int,
        )),
        heal_rel(
            Point { x, y },
            *old(towers),
            *final(towers),
            *old(base),
            *final(base),
            *old(wave_timer),
            *final(wave_timer),
        ),
{
    let click = Point { x, y };
    let mut i: usize = 0;
    while i < towers.slot_count()
        invariant
            in_world(click),
            towers_ok(*towers),
            i <= towers.slot_len(),
            towers.slot_len() == old(towers).slot_len(),
            wave_timer.timer == old(wave_timer).timer,
            wave_timer.force_wave == (old(wave_timer).force_wave || spec_heal_hits(
                old(towers).slots@,
                i as int,
                click,
            )),
            forall|j: int|
                i <= j < old(towers).slot_len() ==> towers.slots@[j] == old(towers).slots@[j],
            forall|j: int|
                0 <= j < i ==> towers.slots@[j].0 == old(towers).slots@[j].0
                    && towers.slots@[j].1 == (match old(towers).slots@[j].1 {
                    Some(t) => Some(
                        if heal_hit(
                            click,
                            Point { x: t.stats.x, y: t.stats.y },
                            TOWER_RADIUS as int,
                            t.stats.health as int,
                            TOWER_INITIAL_HEALTH as int,
                        ) {
                            TowerBundle {
                                stats: TowerStats {
                                    health: spec_healed(t.stats.health as int) as u64,
                                    ..t.stats
                                },
                                ..t
                            }
                        } else {
                            t
                        },
                    ),
                    None => None::<TowerBundle>,
                }),
        decreases towers.slot_len() - i,
    {
        match towers.id_at(i) {
            None => {},
            Some(id) => {
                let t = *towers.get(id).unwrap();
                proof {
                    vstd::arithmetic::div_mod::lemma_div_is_ordered_by_denominator(
                        t.stats.health as int * 1000,
                        1000,
                        100_000,
                    );
                    vstd::arithmetic::div_mod::lemma_div_multiples_vanish(
                        t.stats.health as int,
                        1000,
                    );
                }
                let scale = compute_scale(t.stats.health, TOWER_INITIAL_HEALTH);
                let d = euclidean_distance(click.x, click.y, t.stats.x, t.stats.y);
                let threshold: u128 = (TOWER_RADIUS as u128) * (scale as u128) / 1000;
                if (d as u128) < threshold {
                    let mut nt = t;
                    nt.stats.health = saturating_heal(t.stats.health);
                    towers.set_value(id, nt);
                    wave_timer.force_wave = true;
                }
            },
        }
        i = i + 1;
    }
    proof {
        vstd::arithmetic::div_mod::lemma_div_is_ordered_by_denominator(
            base.health as int * 1000,
            1000,
            1_000_000,
        );
        vstd::arithmetic::div_mod::lemma_div_multiples_vanish(base.health as int, 1000);
    }
    let scale = compute_scale(base.health, BASE_INITIAL_HEALTH);
    let d = euclidean_distance(click.x, click.y, 0, 0);
    let threshold: u128 = (BASE_RADIUS as u128) * (scale as u128) / 1000;
    if (d as u128) < threshold {
        base.health = saturating_heal(base.health);
        wave_timer.force_wave = true;
    }
}

/// Adds one heal to a health value without overflowing.
fn saturating_heal(health: u64) -> (r: u64)
    ensures
        r as int == spec_healed(health as int),
{
    if health > u64::MAX - HEAL_AMOUNT {
        u64::MAX
    } else {
        health + HEAL_AMOUNT
    }
}


} // verus!
