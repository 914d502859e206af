use rusty_towers::arena::EntityArena;
use rusty_towers::base::{Base, BASE_INITIAL_HEALTH};
use rusty_towers::bullet::{move_bullets, Bullet};
use rusty_towers::enemy::{enemy_damage_base, move_enemy, EnemyBundle};
use rusty_towers::flow::FlowField;
use rusty_towers::game::{
    apply_damage, compute_scale, fall_off_damage_curve, AREA_BASE_DAMAGE, AREA_DECAY_PPM,
    AREA_MIN_DISTANCE, HEAL_AMOUNT,
};
use rusty_towers::geometry::{euclidean_distance, isqrt, Point};
use rusty_towers::map::{CellCoordinate, GridMap};
use rusty_towers::tower::{
    find_closest_enemy, heal_tower_and_base, place_tower, shoot_enemies, TowerBundle,
    TOWER_INITIAL_HEALTH,
};
use rusty_towers::enemy::WaveTimer;
use rusty_towers::season::CountdownTimer;

#[test]
fn apply_damage_clamps_at_zero_and_reports_the_fatal_blow() {
    assert_eq!(apply_damage(100, 40), (60, false));
    assert_eq!(apply_damage(100, 100), (0, true));
    assert_eq!(apply_damage(50, 100), (0, true));
    assert_eq!(apply_damage(0, 0), (0, true));
}

#[test]
fn fall_off_is_flat_inside_the_inner_radius() {
    // five pixels out of a ten-pixel inner radius: full base damage
    assert_eq!(
        fall_off_damage_curve(5_000, 100_000, 10_000, AREA_DECAY_PPM),
        100_000
    );
    // the denominator is one at the inner radius itself
    assert_eq!(
        fall_off_damage_curve(10_000, 100_000, 10_000, AREA_DECAY_PPM),
        100_000
    );
}

#[test]
fn fall_off_decays_with_distance_but_never_to_nothing() {
    let near = fall_off_damage_curve(20_000, 100_000, 10_000, AREA_DECAY_PPM);
    let mid = fall_off_damage_curve(100_000, 100_000, 10_000, AREA_DECAY_PPM);
    let far = fall_off_damage_curve(3_000_000, 100_000, 10_000, AREA_DECAY_PPM);
    assert!(near < 100_000);
    assert!(mid < near);
    assert!(far < mid);
    assert!(far > 0);
    // ten pixels past the inner radius: 100000 * 1e6 / (1e6 + 18316 * 10)
    assert_eq!(near, 84_519);
}

#[test]
fn euclidean_distance_is_exact_on_integer_triangles() {
    assert_eq!(euclidean_distance(0, 0, 3_000, 4_000), 5_000);
    assert_eq!(euclidean_distance(-3_000, -4_000, 0, 0), 5_000);
    assert_eq!(isqrt(15), 3);
    assert_eq!(isqrt(16), 4);
    assert_eq!(isqrt(0), 0);
}

#[test]
fn compute_scale_floors_at_a_quarter() {
    assert_eq!(compute_scale(100_000, 100_000), 1_000);
    assert_eq!(compute_scale(200_000, 100_000), 2_000);
    assert_eq!(compute_scale(10_000, 100_000), 250);
    assert_eq!(compute_scale(0, 100_000), 250);
}

#[test]
fn arena_detects_stale_handles_and_never_resurrects_them() {
    let mut arena: EntityArena<u32> = EntityArena::new();
    let a = arena.spawn(7);
    let b = arena.spawn(8);
    assert_eq!(arena.get(a).copied(), Some(7));
    assert_eq!(arena.get(b).copied(), Some(8));
    arena.remove(a);
    assert!(arena.get(a).is_none());
    // the freed slot is reused under a fresh generation
    let c = arena.spawn(9);
    assert_eq!(c.idx, a.idx);
    assert_ne!(c.gen, a.gen);
    assert!(arena.get(a).is_none());
    assert_eq!(arena.get(c).copied(), Some(9));
}

#[test]
fn stale_projectile_despawns_without_touching_anyone() {
    let mut enemies: EntityArena<EnemyBundle> = EntityArena::new();
    let victim = enemies.spawn(EnemyBundle::new(0, 0, Point { x: 0, y: 0 }));
    let bystander = enemies.spawn(EnemyBundle::new(200_000, 0, Point { x: 0, y: 0 }));
    enemies.remove(victim);
    let mut bullets = vec![Bullet {
        target: victim,
        damage: 50_000,
        speed: 500_000,
        pos: Point { x: 0, y: 0 },
    }];
    move_bullets(&mut bullets, &mut enemies, 16);
    assert!(bullets.is_empty());
    assert_eq!(enemies.get(bystander).unwrap().stats.health, 100_000);
    assert!(enemies.get(victim).is_none());
}

#[test]
fn projectile_contact_damages_and_despawns_in_turn() {
    let mut enemies: EntityArena<EnemyBundle> = EntityArena::new();
    let target = enemies.spawn(EnemyBundle::new(1_000, 0, Point { x: 0, y: 0 }));
    let hit = |enemies: &mut EntityArena<EnemyBundle>| {
        let mut bullets = vec![Bullet {
            target,
            damage: 50_000,
            speed: 500_000,
            pos: Point { x: 0, y: 0 },
        }];
        // within the contact radius: the bullet lands at once
        move_bullets(&mut bullets, enemies, 16);
        assert!(bullets.is_empty());
    };
    hit(&mut enemies);
    assert_eq!(enemies.get(target).unwrap().stats.health, 50_000);
    hit(&mut enemies);
    // the second blow reaches the remaining health: despawned, once
    assert!(enemies.get(target).is_none());
    hit(&mut enemies);
    assert!(enemies.get(target).is_none());
}

#[test]
fn distant_projectile_homes_toward_its_target() {
    let mut enemies: EntityArena<EnemyBundle> = EntityArena::new();
    let target = enemies.spawn(EnemyBundle::new(100_000, 0, Point { x: 0, y: 0 }));
    let mut bullets = vec![Bullet {
        target,
        damage: 50_000,
        speed: 500_000,
        pos: Point { x: 0, y: 0 },
    }];
    // 100 ms at 500 px/s is 50,000 subpixels of the 100,000 gap
    move_bullets(&mut bullets, &mut enemies, 100);
    assert_eq!(bullets.len(), 1);
    assert_eq!(bullets[0].pos, Point { x: 50_000, y: 0 });
    assert_eq!(enemies.get(target).unwrap().stats.health, 100_000);
}

#[test]
fn find_closest_enemy_prefers_the_nearest_then_the_first() {
    let mut enemies: EntityArena<EnemyBundle> = EntityArena::new();
    let far = enemies.spawn(EnemyBundle::new(90_000, 0, Point { x: 0, y: 0 }));
    let near = enemies.spawn(EnemyBundle::new(30_000, 0, Point { x: 0, y: 0 }));
    let tied = enemies.spawn(EnemyBundle::new(-30_000, 0, Point { x: 0, y: 0 }));
    let (chosen, dist_sq) = find_closest_enemy(&enemies, Point { x: 0, y: 0 }).unwrap();
    assert_eq!(chosen, near);
    assert_eq!(dist_sq, 30_000u64 * 30_000u64);
    let _ = (far, tied);
    let empty: EntityArena<EnemyBundle> = EntityArena::new();
    assert!(find_closest_enemy(&empty, Point { x: 0, y: 0 }).is_none());
}

#[test]
fn tower_fires_at_the_nearest_enemy_in_range() {
    let mut towers: EntityArena<TowerBundle> = EntityArena::new();
    let mut enemies: EntityArena<EnemyBundle> = EntityArena::new();
    towers.spawn(TowerBundle::new(0, 0));
    let prey = enemies.spawn(EnemyBundle::new(100_000, 0, Point { x: 0, y: 0 }));
    let mut bullets: Vec<Bullet> = Vec::new();
    // 100 ms completes the cooldown; the enemy is within the 128-pixel range
    shoot_enemies(&mut towers, &enemies, &mut bullets, 100);
    assert_eq!(bullets.len(), 1);
    assert_eq!(bullets[0].target, prey);
    assert_eq!(bullets[0].damage, 50_000);
    assert_eq!(bullets[0].pos, Point { x: 0, y: 0 });
    // a shorter tick leaves the cooldown running: no second shot
    shoot_enemies(&mut towers, &enemies, &mut bullets, 50);
    assert_eq!(bullets.len(), 1);
}

#[test]
fn out_of_range_enemies_draw_no_fire() {
    let mut towers: EntityArena<TowerBundle> = EntityArena::new();
    let mut enemies: EntityArena<EnemyBundle> = EntityArena::new();
    towers.spawn(TowerBundle::new(0, 0));
    enemies.spawn(EnemyBundle::new(200_000, 0, Point { x: 0, y: 0 }));
    let mut bullets: Vec<Bullet> = Vec::new();
    shoot_enemies(&mut towers, &enemies, &mut bullets, 100);
    assert!(bullets.is_empty());
}

#[test]
fn placement_blast_applies_falloff_damage_everywhere() {
    let mut towers: EntityArena<TowerBundle> = EntityArena::new();
    let mut enemies: EntityArena<EnemyBundle> = EntityArena::new();
    let mut base = Base::new();
    let old_tower = towers.spawn(TowerBundle::new(300_000, 0));
    let doomed = enemies.spawn(EnemyBundle::new(0, 0, Point { x: 0, y: 0 }));
    let lost = place_tower(&mut towers, &mut enemies, &mut base, 0, 0);
    assert!(!lost);
    // the enemy sat at the point of impact: full base damage, fatal
    assert!(enemies.get(doomed).is_none());
    // the base is at the impact too but has ten times the health
    assert_eq!(base.health, BASE_INITIAL_HEALTH - AREA_BASE_DAMAGE);
    // the old tower, 300 pixels away, takes the attenuated amount
    let d = euclidean_distance(0, 0, 300_000, 0);
    let expected = fall_off_damage_curve(d, AREA_BASE_DAMAGE, AREA_MIN_DISTANCE, AREA_DECAY_PPM);
    assert_eq!(
        towers.get(old_tower).unwrap().stats.health,
        TOWER_INITIAL_HEALTH - expected
    );
    // and the new tower stands at the click
    assert_eq!(towers.live_count(), 2);
}

#[test]
fn repeated_blasts_fell_the_base_exactly_at_zero() {
    let mut towers: EntityArena<TowerBundle> = EntityArena::new();
    let mut enemies: EntityArena<EnemyBundle> = EntityArena::new();
    let mut base = Base::new();
    let mut lost = false;
    let mut clicks = 0;
    while !lost && clicks < 20 {
        lost = place_tower(&mut towers, &mut enemies, &mut base, 0, 0);
        clicks += 1;
    }
    // 1,000,000 health over 100,000-damage hits: lost on the tenth click
    assert!(lost);
    assert_eq!(clicks, 10);
    assert_eq!(base.health, 0);
}

#[test]
fn heal_click_heals_what_it_lands_on_and_forces_a_wave() {
    let mut towers: EntityArena<TowerBundle> = EntityArena::new();
    let mut base = Base::new();
    let mut wave_timer = WaveTimer { timer: CountdownTimer::new(3_000), force_wave: false };
    let healed = towers.spawn(TowerBundle::new(200_000, 0));
    let missed = towers.spawn(TowerBundle::new(500_000, 0));
    // click right on the first tower: it and nothing else is healed
    heal_tower_and_base(&mut towers, &mut base, &mut wave_timer, 200_000, 0);
    assert_eq!(
        towers.get(healed).unwrap().stats.health,
        TOWER_INITIAL_HEALTH + HEAL_AMOUNT
    );
    assert_eq!(towers.get(missed).unwrap().stats.health, TOWER_INITIAL_HEALTH);
    assert_eq!(base.health, BASE_INITIAL_HEALTH);
    assert!(wave_timer.force_wave);
}

#[test]
fn enemies_step_toward_their_destination() {
    let map = GridMap::new(10, 10);
    let flow = FlowField::build(&map, CellCoordinate { x: 0, y: 0 });
    let mut enemies: EntityArena<EnemyBundle> = EntityArena::new();
    let walker = enemies.spawn(EnemyBundle::new(0, 0, Point { x: 100_000, y: 0 }));
    // enemy speed is 50 px/s: one second covers half the 100-px gap
    move_enemy(&mut enemies, &flow, 1_000);
    let e = *enemies.get(walker).unwrap();
    assert_eq!(e.state.pos, Point { x: 50_000, y: 0 });
    assert_eq!(e.stats.destination, Point { x: 100_000, y: 0 });
}

#[test]
fn arrived_enemies_retarget_along_the_flow_field() {
    let map = GridMap::new(10, 10);
    let flow = FlowField::build(&map, CellCoordinate { x: 0, y: 0 });
    let mut enemies: EntityArena<EnemyBundle> = EntityArena::new();
    // two pixels from its destination: already within the arrival radius
    let walker = enemies.spawn(EnemyBundle::new(2_000, 0, Point { x: 0, y: 0 }));
    move_enemy(&mut enemies, &flow, 1);
    let e = *enemies.get(walker).unwrap();
    // the cell is the origin, whose next hop is the base itself: the new
    // destination is the base cell's center plus at most a quarter cell
    assert!(-7_500 <= e.stats.destination.x && e.stats.destination.x < 7_500);
    assert!(-7_500 <= e.stats.destination.y && e.stats.destination.y < 7_500);
}

#[test]
fn contact_with_the_base_spends_the_enemy_and_its_damage() {
    let mut enemies: EntityArena<EnemyBundle> = EntityArena::new();
    let mut base = Base::new();
    let toucher = enemies.spawn(EnemyBundle::new(10_000, 0, Point { x: 0, y: 0 }));
    let waiter = enemies.spawn(EnemyBundle::new(500_000, 0, Point { x: 0, y: 0 }));
    let lost = enemy_damage_base(&mut enemies, &mut base);
    assert!(!lost);
    assert_eq!(base.health, BASE_INITIAL_HEALTH - 100_000);
    assert!(enemies.get(toucher).is_none());
    assert!(enemies.get(waiter).is_some());
}
