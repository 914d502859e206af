//! The session core: health and damage accounting, the falloff damage
//! curve for area placements, the top-level game states, and the session
//! context that ties the grid, the flow field and the entities together.

use vstd::prelude::*;

use vstd::arithmetic::div_mod::{
    lemma_div_is_ordered, lemma_div_is_ordered_by_denominator, lemma_div_multiples_vanish,
};

use crate::arena::{occupied_count, EntityArena};
use crate::base::{Base, BASE_INITIAL_HEALTH};
use crate::bullet::{bullets_ok, move_bullets, spec_bullets_pass, Bullet};
use crate::enemy::{
    base_contact_rel, enemies_ok, enemy_damage_base, move_enemy, moved_wave_rel, spawn_enemy,
    wave_spawned, wave_timer_ticked, EnemyBundle, WaveTimer, ENEMY_SPAWN_INTERVAL_SECONDS,
    ENEMY_SPAWN_PER_INTERVAL,
};
use crate::flow::FlowField;
use crate::geometry::{in_world, Point};
use crate::map::{generate_walls, CellCoordinate, GridMap, CELL_SIZE};
use crate::season::{
    spec_season_tick, CountdownTimer, Season, SeasonEvent, SeasonInterval, SeasonSchedule,
};
use crate::tower::{
    heal_rel, heal_tower_and_base, place_tower, place_tower_rel, shoot_enemies, spec_shoot_pass,
    towers_ok, TowerBundle,
};

verus! {

/// Health restored by one heal click, in health units.
pub const HEAL_AMOUNT: u64 = 100_000;

/// Base amount of an area placement's falloff damage, in health units.
pub const AREA_BASE_DAMAGE: u64 = 100_000;

/// Within this distance of the point of impact the falloff damage is the
/// full base amount, in subpixel units.
pub const AREA_MIN_DISTANCE: u64 = 10_000;

/// Attenuation of the falloff denominator per pixel of distance beyond
/// the inner radius, in parts per million: the logistic curve's
/// `e^(-k)` for the steepness `k = 4` the game tunes its placements to.
pub const AREA_DECAY_PPM: u64 = 18_316;

/// The top-level scene states; the session simulation runs only in
/// `Game`, and any key press in a terminal state returns to the menu.
#[derive(Clone, Copy, Default, Eq, PartialEq, Debug, Hash, Structural)]
pub enum GameState {
    #[default]
    Splash,
    Menu,
    Game,
    Pause,
    GameLost,
    GameWon,
}

/// Applies `damage` to `health`: the remaining health, clamped so it
/// never goes below zero, and whether the blow was fatal. The blow is
/// fatal exactly when the damage reaches the remaining health, so a
/// surviving entity always keeps positive health.
pub fn apply_damage(health: u64, damage: u64) -> (r: (u64, bool))
    ensures
        r.1 == (damage >= health),
        r.0 == if damage >= health {
            0u64
        } else {
            (health - damage) as u64
        },
{
    if damage >= health {
        (0, true)
    } else {
        (health - damage, false)
    }
}

/// The health-derived visual scale of an entity, in thousandths:
/// `health / initial_health`, never below a quarter.
pub open spec fn spec_scale(health: int, initial_health: int) -> int {
    let s = health * 1000 / initial_health;
    if s < 250 {
        250
    } else {
        s
    }
}

/// Computes the health-derived scale factor, in thousandths.
pub fn compute_scale(health: u64, initial_health: u64) -> (scale: u64)
    requires
        initial_health > 0,
        health as int * 1000 / initial_health as int <= u64::MAX,
    ensures
        scale == spec_scale(health as int, initial_health as int),
{
    let s: u128 = (health as u128) * 1000 / (initial_health as u128);
    if s < 250 {
        250
    } else {
        s as u64
    }
}

/// The falloff damage of an area placement at the given distance: the
/// full base amount inside the inner radius, and beyond it the base
/// amount divided by a denominator that grows with distance. Distances
/// are in subpixels; the denominator arithmetic is in parts per million,
/// with `decay_ppm` applied per whole pixel beyond the inner radius.
pub open spec fn spec_fall_off(
    distance: int,
    base_damage: int,
    min_distance: int,
    decay_ppm: int,
) -> int {
    if distance < min_distance {
        base_damage
    } else {
        base_damage * 1_000_000 / (1_000_000 + decay_ppm * (distance - min_distance) / 1000)
    }
}

/// Computes the falloff damage for a distance. There is no outer
/// cutoff: at the game's own parameters even entities arbitrarily far
/// away (in-world) receive at least one unit, as
/// [`lemma_fall_off_positive`] proves; with a far larger decay value
/// the integer quotient could round to zero.
pub fn fall_off_damage_curve(distance: u64, base_damage: u64, min_distance: u64, decay_ppm: u64) -> (damage:
    u64)
    requires
        distance <= 4_000_000_000,
        decay_ppm <= 1_000_000_000,
    ensures
        damage as int == spec_fall_off(
            distance as int,
            base_damage as int,
            min_distance as int,
            decay_ppm as int,
        ),
        damage <= base_damage,
{
    if distance < min_distance {
        base_damage
    } else {
        let span = distance - min_distance;
        proof {
            assert(decay_ppm as int * span as int <= 1_000_000_000 * 4_000_000_000)
                by (nonlinear_arith)
                requires
                    0 <= decay_ppm <= 1_000_000_000,
                    0 <= span <= 4_000_000_000,
            ;
        }
        let denom: u128 = 1_000_000 + (decay_ppm as u128) * (span as u128) / 1000;
        let scaled: u128 = (base_damage as u128) * 1_000_000 / denom;
        proof {
            let b = base_damage as int;
            let d = denom as int;
            lemma_div_is_ordered_by_denominator(b * 1_000_000, 1_000_000, d);
            lemma_div_multiples_vanish(b, 1_000_000);
        }
        scaled as u64
    }
}

/// Beyond the inner radius the falloff denominator never shrinks as the
/// distance grows.
proof fn lemma_fall_off_denominator_ordered(d1: int, d2: int, min_d: int, decay: int)
    requires
        min_d <= d1 <= d2,
        0 <= decay,
    ensures
        1_000_000 + decay * (d1 - min_d) / 1000 <= 1_000_000 + decay * (d2 - min_d) / 1000,
        0 <= decay * (d1 - min_d) / 1000,
{
    assert(decay * (d1 - min_d) <= decay * (d2 - min_d) && 0 <= decay * (d1 - min_d))
        by (nonlinear_arith)
        requires
            min_d <= d1 <= d2,
            0 <= decay,
    ;
    lemma_div_is_ordered(decay * (d1 - min_d), decay * (d2 - min_d), 1000);
    lemma_div_is_ordered(0, decay * (d1 - min_d), 1000);
}

/// Falloff damage is monotonically non-increasing in distance for fixed
/// parameters, and equals the base amount everywhere inside the inner
/// radius.
pub proof fn lemma_fall_off_monotone(d1: int, d2: int, base: int, min_d: int, decay: int)
    requires
        0 <= d1 <= d2,
        0 <= base,
        0 <= decay,
    ensures
        spec_fall_off(d2, base, min_d, decay) <= spec_fall_off(d1, base, min_d, decay),
        d1 < min_d ==> spec_fall_off(d1, base, min_d, decay) == base,
{
    if d2 < min_d {
    } else if d1 < min_d {
        lemma_fall_off_denominator_ordered(d2, d2, min_d, decay);
        let den = 1_000_000 + decay * (d2 - min_d) / 1000;
        lemma_div_is_ordered_by_denominator(base * 1_000_000, 1_000_000, den);
        lemma_div_multiples_vanish(base, 1_000_000);
    } else {
        lemma_fall_off_denominator_ordered(d1, d2, min_d, decay);
        let den1 = 1_000_000 + decay * (d1 - min_d) / 1000;
        let den2 = 1_000_000 + decay * (d2 - min_d) / 1000;
        assert(0 <= base * 1_000_000);
        lemma_div_is_ordered_by_denominator(base * 1_000_000, den1, den2);
    }
}


/// At the game's own area parameters the falloff never rounds down to
/// nothing anywhere in the world: entities arbitrarily far away still
/// take at least one unit of damage. (With a far larger decay value the
/// integer quotient could reach zero; the game's constants stay well
/// clear of that.)
pub proof fn lemma_fall_off_positive(d: int)
    requires
        0 <= d <= 4_000_000_000,
    ensures
        spec_fall_off(
            d,
            AREA_BASE_DAMAGE as int,
            AREA_MIN_DISTANCE as int,
            AREA_DECAY_PPM as int,
        ) >= 1,
{
    if d >= AREA_MIN_DISTANCE {
        let span = d - AREA_MIN_DISTANCE;
        assert(0 <= AREA_DECAY_PPM as int * span <= 18_316 * 4_000_000_000) by (nonlinear_arith)
            requires
                0 <= span <= 4_000_000_000,
        ;
        lemma_div_is_ordered(AREA_DECAY_PPM as int * span, (18_316 * 4_000_000_000) as int, 1000);
        lemma_div_is_ordered(0, AREA_DECAY_PPM as int * span, 1000);
        let den = 1_000_000 + AREA_DECAY_PPM as int * span / 1000;
        lemma_div_is_ordered_by_denominator((100_000 * 1_000_000) as int, den, 100_000_000_000int);
        lemma_div_multiples_vanish(1int, 100_000_000_000int);
    }
}

/// Any key press in a terminal state consumes the event, rewinds the
/// wave timer and returns to the menu; in every other case nothing
/// changes.
pub fn listen_for_restart(state: GameState, key_pressed: bool, wave_timer: &mut WaveTimer) -> (next: GameState)
    ensures
        next == (if key_pressed && (state is GameLost || state is GameWon) {
            GameState::Menu
        } else {
            state
        }),
        (key_pressed && (state is GameLost || state is GameWon)) ==> {
            &&& final(wave_timer).timer.period_ms == old(wave_timer).timer.period_ms
            &&& final(wave_timer).timer.remaining_ms == old(wave_timer).timer.period_ms
            &&& final(wave_timer).force_wave == old(wave_timer).force_wave
        },
        !(key_pressed && (state is GameLost || state is GameWon)) ==> *final(wave_timer) == *old(wave_timer),
{
    if key_pressed && (matches!(state, GameState::GameLost) || matches!(state, GameState::GameWon)) {
        wave_timer.timer.reset();
        GameState::Menu
    } else {
        state
    }
}

/// The session context: the grid and its flow field, the entities, the
/// timers and the season schedule, owned together for one play session.
/// The flow field is traced once, when the session is built; wall edits
/// made afterwards do not reroute it.
pub struct Session {
    pub map: GridMap,
    pub flow: FlowField,
    pub enemies: EntityArena<EnemyBundle>,
    pub towers: EntityArena<TowerBundle>,
    pub bullets: Vec<Bullet>,
    pub base: Base,
    pub wave_timer: WaveTimer,
    pub season_schedule: SeasonSchedule,
    pub window_width: i64,
    pub window_height: i64,
}

impl Session {
    /// Session well-formedness: the flow field was built for this very
    /// map with the base at the origin cell, the window is a sane size,
    /// and every entity is within the world with health remaining.
    pub open spec fn wf(self) -> bool {
        &&& self.flow.world_bounded()
        &&& self.flow.grid@ == self.map
        &&& self.flow.base == (CellCoordinate { x: 0, y: 0 })
        &&& 60_000 <= self.window_width <= 2_000_000_000
        &&& 60_000 <= self.window_height <= 2_000_000_000
        &&& enemies_ok(self.enemies)
        &&& towers_ok(self.towers)
        &&& bullets_ok(self.bullets@)
        &&& self.season_schedule.wf()
    }

    /// Builds a fresh session for a window of the given size: the grid
    /// sized to the window, random wall strokes with the base area
    /// cleared, the flow field traced from the origin cell, no entities
    /// yet, the wave timer at its full interval and the season schedule
    /// at its first interval.
    pub fn new(window_width: i64, window_height: i64) -> (s: Session)
        requires
            60_000 <= window_width <= 2_000_000_000,
            60_000 <= window_height <= 2_000_000_000,
        ensures
            s.wf(),
            s.base.health == BASE_INITIAL_HEALTH,
            s.window_width == window_width,
            s.window_height == window_height,
            s.map.width as int == window_width as int / (CELL_SIZE as int),
            s.map.height as int == window_height as int / (CELL_SIZE as int),
            forall|c: CellCoordinate| -2 <= c.x <= 1 && -2 <= c.y <= 1 ==> !s.map.wall_at(c),
            s.wave_timer.timer.period_ms == 3_000,
            s.wave_timer.timer.remaining_ms == 3_000,
            !s.wave_timer.force_wave,
            s.season_schedule.intervals@.len() == 5,
            s.season_schedule.intervals@[0] == (SeasonInterval {
                season: Season::Build,
                duration_ms: 10_000,
            }),
            s.season_schedule.intervals@[1] == (SeasonInterval {
                season: Season::Heal,
                duration_ms: 5_000,
            }),
            s.season_schedule.intervals@[2] == (SeasonInterval {
                season: Season::Build,
                duration_ms: 15_000,
            }),
            s.season_schedule.intervals@[3] == (SeasonInterval {
                season: Season::Heal,
                duration_ms: 3_000,
            }),
            s.season_schedule.intervals@[4] == (SeasonInterval {
                season: Season::Build,
                duration_ms: 10_000,
            }),
            s.season_schedule.current_season_index == 0,
            s.season_schedule.remaining_ms == 10_000,
            !s.season_schedule.finished,
            forall|id: crate::arena::EntityId| !s.enemies.live(id) && !s.towers.live(id),
            s.bullets@.len() == 0,
    {
        let width = ((window_width as u64) / (CELL_SIZE as u64)) as u32;
        let height = ((window_height as u64) / (CELL_SIZE as u64)) as u32;
        proof {
            lemma_div_is_ordered(60_000, window_width as int, 30_000);
            lemma_div_is_ordered(window_width as int, 2_000_000_000, 30_000);
            lemma_div_is_ordered(60_000, window_height as int, 30_000);
            lemma_div_is_ordered(window_height as int, 2_000_000_000, 30_000);
            lemma_div_is_ordered(width as int, 66_666, 2);
            lemma_div_is_ordered(height as int, 66_666, 2);
        }
        let mut map = GridMap::new(width, height);
        generate_walls(&mut map);
        let flow = FlowField::build(&map, CellCoordinate { x: 0, y: 0 });
        let mut intervals: Vec<SeasonInterval> = Vec::new();
        intervals.push(SeasonInterval { season: Season::Build, duration_ms: 10_000 });
        intervals.push(SeasonInterval { season: Season::Heal, duration_ms: 5_000 });
        intervals.push(SeasonInterval { season: Season::Build, duration_ms: 15_000 });
        intervals.push(SeasonInterval { season: Season::Heal, duration_ms: 3_000 });
        intervals.push(SeasonInterval { season: Season::Build, duration_ms: 10_000 });
        Session {
            map,
            flow,
            enemies: EntityArena::new(),
            towers: EntityArena::new(),
            bullets: Vec::new(),
            base: Base::new(),
            wave_timer: WaveTimer {
                timer: CountdownTimer::new((ENEMY_SPAWN_INTERVAL_SECONDS as u64) * 1000),
                force_wave: false,
            },
            season_schedule: SeasonSchedule::new(intervals),
            window_width,
            window_height,
        }
    }

    /// The gated player-action stage of a tick: in a build season a
    /// click places a tower (the area blast included, possibly losing
    /// the game); in a heal season it heals what it lands on; with no
    /// click, or in any other season, nothing at all changes.
    pub open spec fn click_stage_rel(
        schedule: SeasonSchedule,
        left_click: Option<Point>,
        t0: EntityArena<TowerBundle>,
        t1: EntityArena<TowerBundle>,
        e0: EntityArena<EnemyBundle>,
        e1: EntityArena<EnemyBundle>,
        b0: Base,
        b1: Base,
        w0: WaveTimer,
        w1: WaveTimer,
        lost: bool,
    ) -> bool {
        match left_click {
            None => t1 == t0 && e1 == e0 && b1 == b0 && w1 == w0 && !lost,
            Some(p) => {
                if !schedule.finished && schedule.intervals@[
                    schedule.current_season_index as int
                ].season is Build {
                    &&& place_tower_rel(p, t0, t1, e0, e1, b0, b1, lost)
                    &&& w1 == w0
                } else if !schedule.finished && schedule.intervals@[
                    schedule.current_season_index as int
                ].season is Heal {
                    &&& heal_rel(p, t0, t1, b0, b1, w0, w1)
                    &&& e1 == e0
                    &&& !lost
                } else {
                    t1 == t0 && e1 == e0 && b1 == b0 && w1 == w0 && !lost
                }
            },
        }
    }

    /// One tick of the session, as a chain of the stage relations
    /// through the intermediate states: the season advances, the click
    /// acts under its season's gate (`t1, e1, b1, w1, lost1`), and
    /// unless that lost the game, a wave may spawn (`e2, w2`), the
    /// enemies move (`e3`), base contact resolves (`e4, b2, lost2`),
    /// and unless that lost the game, the towers shoot and the
    /// projectiles fly, both exact folds. A loss stops the pipeline at
    /// the damage that caused it; otherwise the outcome is the win
    /// exactly when the schedule signalled it this tick.
    pub open spec fn tick_pipeline(
        s0: Session,
        delta_ms: u64,
        left_click: Option<Point>,
        t1: EntityArena<TowerBundle>,
        e1: EntityArena<EnemyBundle>,
        b1: Base,
        w1: WaveTimer,
        lost1: bool,
        e2: EntityArena<EnemyBundle>,
        w2: WaveTimer,
        e3: EntityArena<EnemyBundle>,
        e4: EntityArena<EnemyBundle>,
        b2: Base,
        lost2: bool,
        s1: Session,
        outcome: GameState,
    ) -> bool {
        let schedule1 = spec_season_tick(s0.season_schedule, delta_ms).0;
        let event = spec_season_tick(s0.season_schedule, delta_ms).1;
        &&& s1.season_schedule == schedule1
        &&& Session::click_stage_rel(
            schedule1,
            left_click,
            s0.towers,
            t1,
            s0.enemies,
            e1,
            s0.base,
            b1,
            s0.wave_timer,
            w1,
            lost1,
        )
        &&& if lost1 {
            &&& outcome is GameLost
            &&& s1.towers == t1
            &&& s1.enemies == e1
            &&& s1.base == b1
            &&& s1.wave_timer == w1
            &&& s1.bullets == s0.bullets
        } else {
            &&& wave_spawned(s0.map, s0.flow, e1, e2)
            &&& wave_timer_ticked(w1, w2, delta_ms)
            &&& occupied_count(e2.slots@, e2.slot_len() as int) <= occupied_count(
                e1.slots@,
                e1.slot_len() as int,
            ) + ENEMY_SPAWN_PER_INTERVAL
            &&& moved_wave_rel(s0.flow, e2, e3, delta_ms)
            &&& base_contact_rel(e3, e4, b1, b2, lost2)
            &&& s1.base == b2
            &&& s1.wave_timer == w2
            &&& if lost2 {
                &&& outcome is GameLost
                &&& s1.towers == t1
                &&& s1.enemies == e4
                &&& s1.bullets == s0.bullets
            } else {
                let shot = spec_shoot_pass(
                    t1.slots@,
                    t1.slot_len() as int,
                    e4.slots@,
                    s0.bullets@,
                    delta_ms,
                );
                let flown = spec_bullets_pass(shot.1, shot.1.len() as int, e4.slots@, delta_ms);
                &&& s1.towers.slots@ == shot.0
                &&& s1.bullets@ == flown.0
                &&& s1.enemies.slots@ == flown.1
                &&& outcome == (if event is Won {
                    GameState::GameWon
                } else {
                    GameState::Game
                })
            }
        }
    }

    /// One simulation tick of the fixed pipeline: advance the season and
    /// gate the click by it (build places a tower, heal heals), spawn
    /// the wave if due, move the enemies, resolve base contact, let the
    /// towers shoot, fly the projectiles, then settle the outcome. A
    /// loss ends the tick at the damage that caused it; otherwise the
    /// season's win, if it fired this tick, is reported. The tick never
    /// leaves the base at zero health without reporting the loss.
    pub fn tick(&mut self, delta_ms: u64, left_click: Option<Point>) -> (outcome: GameState)
        requires
            old(self).wf(),
            old(self).base.health > 0,
            match left_click {
                Some(p) => in_world(p),
                None => true,
            },
        ensures
            final(self).wf(),
            final(self).map == old(self).map,
            final(self).flow == old(self).flow,
            final(self).window_width == old(self).window_width,
            final(self).window_height == old(self).window_height,
            outcome is Game || outcome is GameWon || outcome is GameLost,
            final(self).season_schedule == spec_season_tick(old(self).season_schedule, delta_ms).0,
            (outcome is GameLost) <==> final(self).base.health == 0,
            (outcome is GameWon) ==> spec_season_tick(old(self).season_schedule, delta_ms).1 is Won,
            (outcome is Game || outcome is GameWon) ==> final(self).base.health > 0,
            exists|
                t1: EntityArena<TowerBundle>,
                e1: EntityArena<EnemyBundle>,
                b1: Base,
                w1: WaveTimer,
                lost1: bool,
                e2: EntityArena<EnemyBundle>,
                w2: WaveTimer,
                e3: EntityArena<EnemyBundle>,
                e4: EntityArena<EnemyBundle>,
                b2: Base,
                lost2: bool,
            |
                #[trigger] Session::tick_pipeline(
                    *old(self),
                    delta_ms,
                    left_click,
                    t1,
                    e1,
                    b1,
                    w1,
                    lost1,
                    e2,
                    w2,
                    e3,
                    e4,
                    b2,
                    lost2,
                    *final(self),
                    outcome,
                ),
    {
        let season_event = self.season_schedule.tick(delta_ms);
        match left_click {
            None => {},
            Some(p) => {
                match self.season_schedule.current_season() {
                    Some(Season::Build) => {
                        let lost = place_tower(
                            &mut self.towers,
                            &mut self.enemies,
                            &mut self.base,
                            p.x,
                            p.y,
                        );
                        if lost {
                            proof {
                                assert(Session::tick_pipeline(
                                    *old(self),
                                    delta_ms,
                                    left_click,
                                    self.towers,
                                    self.enemies,
                                    self.base,
                                    self.wave_timer,
                                    true,
                                    self.enemies,
                                    self.wave_timer,
                                    self.enemies,
                                    self.enemies,
                                    self.base,
                                    false,
                                    *self,
                                    GameState::GameLost,
                                ));
                            }
                            return GameState::GameLost;
                        }
                    },
                    Some(Season::Heal) => {
                        heal_tower_and_base(
                            &mut self.towers,
                            &mut self.base,
                            &mut self.wave_timer,
                            p.x,
                            p.y,
                        );
                    },
                    _ => {},
                }
            },
        }
        let ghost t1g = self.towers;
        let ghost e1g = self.enemies;
        let ghost b1g = self.base;
        let ghost w1g = self.wave_timer;
        spawn_enemy(
            &mut self.enemies,
            &self.map,
            &self.flow,
            &mut self.wave_timer,
            self.window_width,
            self.window_height,
            delta_ms,
        );
        let ghost e2g = self.enemies;
        let ghost w2g = self.wave_timer;
        move_enemy(&mut self.enemies, &self.flow, delta_ms);
        let ghost e3g = self.enemies;
        let lost = enemy_damage_base(&mut self.enemies, &mut self.base);
        if lost {
            proof {
                assert(Session::tick_pipeline(
                    *old(self),
                    delta_ms,
                    left_click,
                    t1g,
                    e1g,
                    b1g,
                    w1g,
                    false,
                    e2g,
                    w2g,
                    e3g,
                    self.enemies,
                    self.base,
                    true,
                    *self,
                    GameState::GameLost,
                ));
            }
            return GameState::GameLost;
        }
        let ghost e4g = self.enemies;
        let ghost b2g = self.base;
        shoot_enemies(&mut self.towers, &self.enemies, &mut self.bullets, delta_ms);
        move_bullets(&mut self.bullets, &mut self.enemies, delta_ms);
        let outcome = if matches!(season_event, SeasonEvent::Won) {
            GameState::GameWon
        } else {
            GameState::Game
        };
        proof {
            assert(Session::tick_pipeline(
                *old(self),
                delta_ms,
                left_click,
                t1g,
                e1g,
                b1g,
                w1g,
                false,
                e2g,
                w2g,
                e3g,
                e4g,
                b2g,
                false,
                *self,
                outcome,
            ));
        }
        outcome
    }
}

} // verus!
