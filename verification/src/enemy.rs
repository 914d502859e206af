//! Enemies: spawned in waves at random open, reachable cells, they walk
//! the flow field toward the base and damage it on contact.

use vstd::prelude::*;

use crate::arena::{occupied_count, EntityArena, EntityId};
use crate::base::{Base, BASE_INITIAL_HEALTH, BASE_RADIUS};
use crate::flow::FlowField;
use crate::game::{apply_damage, compute_scale, spec_scale};
use crate::geometry::{
    cell_center, cell_from_position, dist_sq, distance_squared, floor_sqrt, in_world, isqrt,
    spec_cell_from_position, spec_step_toward, step_toward, Point,
};
use crate::map::{CellCoordinate, GridMap, CELL_SIZE};
use crate::rng::random_in_range;
use crate::season::CountdownTimer;

verus! {

/// Radius of an enemy, in subpixel world units.
pub const ENEMY_RADIUS: i64 = 5_000;

/// Seconds between enemy waves.
pub const ENEMY_SPAWN_INTERVAL_SECONDS: u32 = 3;

/// Spawn positions drawn per wave; draws landing on unreachable or
/// walled cells are skipped, so a wave may come up short.
pub const ENEMY_SPAWN_PER_INTERVAL: u32 = 250;

/// An enemy closer than this to its destination has arrived and
/// retargets, in subpixel units.
pub const ENEMY_ARRIVE_DISTANCE: u64 = 3_000;

/// Largest magnitude of the random offset added to a new destination on
/// each axis: a quarter of a cell, to avoid perfect column stacking.
pub const ENEMY_JITTER: i64 = 7_500;

/// The periodic wave trigger; `force_wave` requests an immediate wave.
pub struct WaveTimer {
    pub timer: CountdownTimer,
    pub force_wave: bool,
}

/// The persistent attributes of an enemy, plus its current destination.
#[derive(Clone, Copy, Debug, Eq, PartialEq, Structural)]
pub struct EnemyStats {
    pub health: u64,
    pub destination: Point,
    pub speed: u64,
    pub damage: u64,
}

/// The transient state of an enemy: its world position and a repeating
/// timer (carried but not read by any current mechanic).
#[derive(Clone, Copy, Debug, Eq, PartialEq, Structural)]
pub struct EnemyState {
    pub timer: CountdownTimer,
    pub pos: Point,
}

/// Everything one enemy entity carries.
#[derive(Clone, Copy, Debug, Eq, PartialEq, Structural)]
pub struct EnemyBundle {
    pub stats: EnemyStats,
    pub state: EnemyState,
}

impl EnemyBundle {
    /// A fresh enemy at `(x, y)` headed for `destination`.
    pub fn new(x: i64, y: i64, destination: Point) -> (e: EnemyBundle)
        ensures
            e.stats.health == 100_000,
            e.stats.destination == destination,
            e.stats.speed == 50_000,
            e.stats.damage == 100_000,
            e.state.pos == (Point { x, y }),
            e.state.timer.period_ms == 1_000,
            e.state.timer.remaining_ms == 1_000,
    {
        EnemyBundle {
            stats: EnemyStats { health: 100_000, destination, speed: 50_000, damage: 100_000 },
            state: EnemyState { timer: CountdownTimer::new(1_000), pos: Point { x, y } },
        }
    }
}

/// Every live enemy is within the world bound, with a destination within
/// it too and health remaining.
pub open spec fn enemies_ok(a: EntityArena<EnemyBundle>) -> bool {
    forall|id: EntityId| #[trigger] a.live(id) ==> {
        &&& in_world(a.value(id).state.pos)
        &&& in_world(a.value(id).stats.destination)
        &&& a.value(id).stats.health > 0
    }
}

/// How one movement tick transforms a single enemy: it steps toward its
/// destination by `speed * delta / 1000`, clamped at the destination;
/// if it was already within the arrival threshold, it retargets to the
/// flow-field successor of its new cell (or the origin cell where the
/// cell has no entry), jittered by less than a quarter cell per axis.
pub open spec fn moved_enemy_ok(f: FlowField, e: EnemyBundle, r: EnemyBundle, delta_ms: u64) -> bool {
    let dist = floor_sqrt(dist_sq(e.state.pos, e.stats.destination));
    let step = e.stats.speed * delta_ms / 1000;
    &&& r.state.pos == if step >= dist {
        e.stats.destination
    } else {
        spec_step_toward(e.state.pos, e.stats.destination, step as int, dist)
    }
    &&& r.stats.health == e.stats.health
    &&& r.stats.speed == e.stats.speed
    &&& r.stats.damage == e.stats.damage
    &&& r.state.timer == e.state.timer
    &&& if dist < ENEMY_ARRIVE_DISTANCE {
        let cell = spec_cell_from_position(r.state.pos);
        let next = if f.contains_cell(cell) {
            f.next_hop(cell)
        } else {
            CellCoordinate { x: 0, y: 0 }
        };
        &&& next.x as int * CELL_SIZE - ENEMY_JITTER <= r.stats.destination.x < next.x as int
            * CELL_SIZE + ENEMY_JITTER
        &&& next.y as int * CELL_SIZE - ENEMY_JITTER <= r.stats.destination.y < next.y as int
            * CELL_SIZE + ENEMY_JITTER
    } else {
        r.stats.destination == e.stats.destination
    }
}

/// What the movement pass does as a whole: no enemy appears or
/// disappears, and every enemy is transformed as [`moved_enemy_ok`]
/// says.
pub open spec fn moved_wave_rel(
    f: FlowField,
    a0: EntityArena<EnemyBundle>,
    a1: EntityArena<EnemyBundle>,
    delta_ms: u64,
) -> bool {
    &&& enemies_ok(a1)
    &&& a1.slot_len() == a0.slot_len()
    &&& forall|id: EntityId| a1.live(id) == a0.live(id)
    &&& forall|i: int| 0 <= i < a0.slot_len() ==> a0.slots@[i].0 == #[trigger] a1.slots@[i].0
    &&& forall|id: EntityId| #[trigger]
        a0.live(id) ==> moved_enemy_ok(f, a0.value(id), a1.value(id), delta_ms)
}

/// Advances every enemy one tick: a linear step toward its destination,
/// and on arrival a retarget to the next hop of the flow field. No
/// enemy spawns or despawns here.
pub fn move_enemy(enemies: &mut EntityArena<EnemyBundle>, flow: &FlowField, delta_ms: u64)
    requires
        flow.world_bounded(),
        enemies_ok(*old(enemies)),
    ensures
        enemies_ok(*final(enemies)),
        final(enemies).slot_len() == old(enemies).slot_len(),
        forall|id: EntityId| final(enemies).live(id) == old(enemies).live(id),
        forall|i: int|
            0 <= i < old(enemies).slot_len() ==> old(enemies).slots@[i].0
                == #[trigger] final(enemies).slots@[i].0,
        forall|id: EntityId| #[trigger]
            old(enemies).live(id) ==> moved_enemy_ok(
                *flow,
                old(enemies).value(id),
                final(enemies).value(id),
                delta_ms,
            ),
        moved_wave_rel(*flow, *old(enemies), *final(enemies), delta_ms),
{
    let mut i: usize = 0;
    while i < enemies.slot_count()
        invariant
            flow.world_bounded(),
            enemies_ok(*enemies),
            i <= enemies.slot_len(),
            enemies.slot_len() == old(enemies).slot_len(),
            forall|id: EntityId| enemies.live(id) == old(enemies).live(id),
            forall|j: int|
                0 <= j < old(enemies).slot_len() ==> old(enemies).slots@[j].0
                    == #[trigger] enemies.slots@[j].0,
            forall|id: EntityId| #[trigger]
                old(enemies).live(id) && id.idx < i ==> moved_enemy_ok(
                    *flow,
                    old(enemies).value(id),
                    enemies.value(id),
                    delta_ms,
                ),
            forall|id: EntityId| #[trigger]
                old(enemies).live(id) && id.idx >= i ==> enemies.value(id) == old(enemies).value(id),
        decreases enemies.slot_len() - i,
    {
        match enemies.id_at(i) {
            None => {},
            Some(id) => {
                let e = *enemies.get(id).unwrap();
                let sq = distance_squared(e.state.pos, e.stats.destination);
                let dist = isqrt(sq);
                let new_pos = step_toward(e.state.pos, e.stats.destination, e.stats.speed, delta_ms);
                let mut ne = e;
                ne.state.pos = new_pos;
                if dist < ENEMY_ARRIVE_DISTANCE {
                    let cell = cell_from_position(new_pos);
                    let next = match flow.lookup(cell) {
                        Some(n) => {
                            proof {
                                assert(flow.contains_cell(n));
                                crate::flow::lemma_entry_bounded(*flow, n);
                            }
                            n
                        },
                        None => CellCoordinate { x: 0, y: 0 },
                    };
                    let center = cell_center(next);
                    let jx = random_in_range(-ENEMY_JITTER, ENEMY_JITTER);
                    let jy = random_in_range(-ENEMY_JITTER, ENEMY_JITTER);
                    ne.stats.destination = Point { x: center.x + jx, y: center.y + jy };
                }
                enemies.set_value(id, ne);
            },
        }
        i = i + 1;
    }
}

/// Whether an enemy is touching the base: its distance to the origin is
/// below the base's health-scaled radius.
pub open spec fn in_base_contact(e: EnemyBundle, r_eff: int) -> bool {
    floor_sqrt(dist_sq(e.state.pos, Point { x: 0, y: 0 })) < r_eff
}

/// Total contact damage of the first `n` slots: the damage of every
/// occupied slot whose enemy is touching the base.
pub open spec fn spec_contact_damage(
    s: Seq<(u64, Option<EnemyBundle>)>,
    n: int,
    r_eff: int,
) -> int
    decreases n,
{
    if n <= 0 {
        0
    } else {
        spec_contact_damage(s, n - 1, r_eff) + (match s[n - 1].1 {
            Some(e) => if in_base_contact(e, r_eff) {
                e.stats.damage as int
            } else {
                0
            },
            None => 0,
        })
    }
}

/// What the base-contact pass does as a whole: every enemy touching
/// the base (at the health-scaled radius of the pass's start) despawns
/// and lands its damage, the base's health is the old health less the
/// total contact damage clamped at zero, and the loss is reported
/// exactly when that total reaches the old health.
pub open spec fn base_contact_rel(
    a0: EntityArena<EnemyBundle>,
    a1: EntityArena<EnemyBundle>,
    b0: Base,
    b1: Base,
    lost: bool,
) -> bool {
    let r_eff = BASE_RADIUS * spec_scale(b0.health as int, BASE_INITIAL_HEALTH as int) / 1000;
    let total = spec_contact_damage(a0.slots@, a0.slot_len() as int, r_eff);
    &&& enemies_ok(a1)
    &&& a1.slot_len() == a0.slot_len()
    &&& forall|i: int| 0 <= i < a0.slot_len() ==> a0.slots@[i].0 == #[trigger] a1.slots@[i].0
    &&& forall|id: EntityId| #[trigger]
        a0.live(id) ==> (a1.live(id) <==> !in_base_contact(a0.value(id), r_eff))
    &&& forall|id: EntityId|
        #[trigger] a0.live(id) && a1.live(id) ==> a1.value(id) == a0.value(id)
    &&& forall|id: EntityId| !a0.live(id) ==> !a1.live(id)
    &&& b1.health as int == (if total >= b0.health as int {
        0int
    } else {
        b0.health - total
    })
    &&& lost == (total >= b0.health as int)
}

/// Every enemy touching the base despawns and deals the base its
/// contact damage; the base's health is clamped at zero, and the loss
/// is reported exactly when the total contact damage reaches it. The
/// contact radius uses the base scale at the start of the pass.
pub fn enemy_damage_base(enemies: &mut EntityArena<EnemyBundle>, base: &mut Base) -> (lost: bool)
    requires
        enemies_ok(*old(enemies)),
        old(base).health > 0,
    ensures
        base_contact_rel(*old(enemies), *final(enemies), *old(base), *final(base), lost),
        enemies_ok(*final(enemies)),
{
    proof {
        vstd::arithmetic::div_mod::lemma_div_is_ordered_by_denominator(
            old(base).health as int * 1000,
            1000,
            1_000_000,
        );
        vstd::arithmetic::div_mod::lemma_div_multiples_vanish(old(base).health as int, 1000);
    }
    let scale = compute_scale(base.health, BASE_INITIAL_HEALTH);
    let r_eff: u128 = (BASE_RADIUS as u128) * (scale as u128) / 1000;
    let ghost r_eff_i: int = BASE_RADIUS * spec_scale(
        old(base).health as int,
        BASE_INITIAL_HEALTH as int,
    ) / 1000;
    let ghost h0: int = old(base).health as int;
    let mut lost = false;
    let mut i: usize = 0;
    while i < enemies.slot_count()
        invariant
            enemies_ok(*enemies),
            i <= enemies.slot_len(),
            enemies.slot_len() == old(enemies).slot_len(),
            r_eff == r_eff_i,
            h0 == old(base).health as int,
            h0 > 0,
            forall|j: int|
                i <= j < old(enemies).slot_len() ==> enemies.slots@[j] == old(enemies).slots@[j],
            forall|j: int|
                0 <= j < i ==> enemies.slots@[j].0 == old(enemies).slots@[j].0
                    && enemies.slots@[j].1 == (match old(enemies).slots@[j].1 {
                    Some(e) => if in_base_contact(e, r_eff_i) {
                        None
                    } else {
                        Some(e)
                    },
                    None => None::<EnemyBundle>,
                }),
            ({
                let partial = spec_contact_damage(old(enemies).slots@, i as int, r_eff_i);
                &&& base.health as int == if partial >= h0 {
                    0int
                } else {
                    h0 - partial
                }
                &&& lost == (partial >= h0)
                &&& partial >= 0
            }),
        decreases enemies.slot_len() - i,
    {
        match enemies.id_at(i) {
            None => {},
            Some(id) => {
                let e = *enemies.get(id).unwrap();
                let sq = distance_squared(e.state.pos, Point { x: 0, y: 0 });
                let dist = isqrt(sq);
                if (dist as u128) < r_eff {
                    let (new_health, dead) = apply_damage(base.health, e.stats.damage);
                    base.health = new_health;
                    lost = lost || dead;
                    enemies.remove(id);
                }
            },
        }
        i = i + 1;
    }
    lost
}


/// A wave-spawned enemy: full stats, standing on an open cell that has a
/// route to the base, headed for the center of that cell's next hop.
pub open spec fn spawned_enemy_ok(m: GridMap, f: FlowField, e: EnemyBundle) -> bool {
    let cell = spec_cell_from_position(e.state.pos);
    &&& e.stats.health == 100_000
    &&& e.stats.speed == 50_000
    &&& e.stats.damage == 100_000
    &&& f.contains_cell(cell)
    &&& !m.wall_at(cell)
    &&& e.stats.destination.x == f.next_hop(cell).x as int * CELL_SIZE
    &&& e.stats.destination.y == f.next_hop(cell).y as int * CELL_SIZE
}

/// Ticks the wave timer and, when it completes or a wave is forced,
/// draws a batch of random positions inside the window and spawns an
/// enemy at each whose cell is unwalled and routed to the base; other
/// draws are skipped, so a wave may produce fewer enemies. Every new
/// enemy starts for the center of its cell's next hop.
pub open spec fn wave_timer_ticked(t0: WaveTimer, t1: WaveTimer, delta_ms: u64) -> bool {
    &&& t1.timer.period_ms == t0.timer.period_ms
    &&& t1.timer.remaining_ms == (if delta_ms >= t0.timer.remaining_ms {
        t0.timer.period_ms
    } else {
        (t0.timer.remaining_ms - delta_ms) as u64
    })
    &&& t1.force_wave == false
}

/// Spawning only adds enemies: the old ones keep their handles and
/// values, slot generations never decrease, and every newcomer is a
/// proper wave spawn.
pub open spec fn wave_spawned(
    m: GridMap,
    f: FlowField,
    a0: EntityArena<EnemyBundle>,
    a1: EntityArena<EnemyBundle>,
) -> bool {
    &&& forall|id: EntityId| #[trigger]
        a0.live(id) ==> a1.live(id) && a1.value(id) == a0.value(id)
    &&& forall|id: EntityId|
        #[trigger] a1.live(id) && !a0.live(id) ==> spawned_enemy_ok(m, f, a1.value(id))
    &&& a0.slot_len() <= a1.slot_len()
    &&& forall|i: int| 0 <= i < a0.slot_len() ==> a0.slots@[i].0 <= #[trigger] a1.slots@[i].0
}

pub fn spawn_enemy(enemies: &mut EntityArena<EnemyBundle>, grid: &GridMap, flow: &FlowField, wave_timer: &mut WaveTimer, window_width: i64, window_height: i64, delta_ms: u64)
    requires
        flow.world_bounded(),
        flow.grid@ == *grid,
        2 <= window_width <= 2_000_000_000,
        2 <= window_height <= 2_000_000_000,
        enemies_ok(*old(enemies)),
    ensures
        enemies_ok(*final(enemies)),
        wave_spawned(*grid, *flow, *old(enemies), *final(enemies)),
        wave_timer_ticked(*old(wave_timer), *final(wave_timer), delta_ms),
        (delta_ms < old(wave_timer).timer.remaining_ms && !old(wave_timer).force_wave)
            ==> *final(enemies) == *old(enemies),
        occupied_count(final(enemies).slots@, final(enemies).slot_len() as int) <= occupied_count(
            old(enemies).slots@,
            old(enemies).slot_len() as int,
        ) + ENEMY_SPAWN_PER_INTERVAL,
{
    let fired = wave_timer.timer.tick(delta_ms);
    if fired || wave_timer.force_wave {
        let hw = ((window_width as u64) / 2) as i64;
        let hh = ((window_height as u64) / 2) as i64;
        let mut n: u32 = 0;
        while n < ENEMY_SPAWN_PER_INTERVAL
            invariant
                flow.world_bounded(),
                flow.grid@ == *grid,
                1 <= hw <= 1_000_000_000,
                1 <= hh <= 1_000_000_000,
                enemies_ok(*enemies),
                wave_spawned(*grid, *flow, *old(enemies), *enemies),
                n <= ENEMY_SPAWN_PER_INTERVAL,
                occupied_count(enemies.slots@, enemies.slot_len() as int) <= occupied_count(
                    old(enemies).slots@,
                    old(enemies).slot_len() as int,
                ) + n,
            decreases ENEMY_SPAWN_PER_INTERVAL - n,
        {
            let x = random_in_range(-hw, hw);
            let y = random_in_range(-hh, hh);
            let spawn_cell = cell_from_position(Point { x, y });
            if flow.has_entry(spawn_cell) && !grid.has_wall(&spawn_cell) {
                let destination_cell = match flow.lookup(spawn_cell) {
                    Some(d) => {
                        proof {
                            assert(flow.contains_cell(d));
                            crate::flow::lemma_entry_bounded(*flow, d);
                        }
                        d
                    },
                    None => CellCoordinate { x: 0, y: 0 },
                };
                let destination = cell_center(destination_cell);
                let e = EnemyBundle::new(x, y, destination);
                enemies.spawn(e);
            }
            n = n + 1;
        }
        wave_timer.force_wave = false;
    }
}

} // verus!
