use rusty_towers::game::{GameState, Session};
use rusty_towers::geometry::{cell_from_position, Point};

#[test]
fn new_session_matches_its_window() {
    // an 800 x 400 pixel window, in subpixels: a 26 x 13 cell grid
    let s = Session::new(800_000, 400_000);
    assert_eq!(s.map.width, 26);
    assert_eq!(s.map.height, 13);
    assert_eq!(s.base.health, 1_000_000);
    assert!(s.bullets.is_empty());
    assert_eq!(s.enemies.live_count(), 0);
    assert_eq!(s.towers.live_count(), 0);
    assert_eq!(s.wave_timer.timer.period_ms, 3_000);
    assert!(!s.wave_timer.force_wave);
    assert_eq!(s.season_schedule.total_duration_ms(), 43_000);
    assert_eq!(s.season_schedule.remaining_ms, 10_000);
    // the base cell is kept open by the wall generator and is routed
    assert!(s.flow.has_entry(rusty_towers::map::CellCoordinate { x: 0, y: 0 }));
}

#[test]
fn quiet_tick_stays_in_the_game() {
    let mut s = Session::new(800_000, 400_000);
    let outcome = s.tick(16, None);
    assert_eq!(outcome, GameState::Game);
    assert!(s.base.health > 0);
}

#[test]
fn forced_wave_spawns_only_on_routed_open_cells() {
    let mut s = Session::new(800_000, 400_000);
    s.wave_timer.force_wave = true;
    rusty_towers::enemy::spawn_enemy(
        &mut s.enemies,
        &s.map,
        &s.flow,
        &mut s.wave_timer,
        s.window_width,
        s.window_height,
        1,
    );
    assert!(!s.wave_timer.force_wave);
    let count = s.enemies.slot_count();
    for i in 0..count {
        if let Some(id) = s.enemies.id_at(i) {
            let e = *s.enemies.get(id).unwrap();
            let cell = cell_from_position(e.state.pos);
            assert!(s.flow.has_entry(cell));
            assert!(!s.map.has_wall(&cell));
            // the enemy heads for the center of that cell's next hop
            let next = s.flow.lookup(cell).unwrap();
            assert_eq!(e.stats.destination.x, next.x as i64 * 30_000);
            assert_eq!(e.stats.destination.y, next.y as i64 * 30_000);
        }
    }
    // one wave never exceeds its configured batch size
    assert!(s.enemies.live_count() <= 250);
}

#[test]
fn building_in_the_build_season_places_a_tower() {
    let mut s = Session::new(800_000, 400_000);
    // the schedule opens in a build season
    let outcome = s.tick(16, Some(Point { x: 200_000, y: 100_000 }));
    assert_eq!(outcome, GameState::Game);
    assert_eq!(s.towers.live_count(), 1);
}

#[test]
fn a_lost_session_reports_zero_base_health() {
    let mut s = Session::new(800_000, 400_000);
    // hammer the base with placements at the origin until it falls
    let mut outcome = GameState::Game;
    let mut safety = 0;
    while outcome == GameState::Game && safety < 40 {
        outcome = s.tick(1, Some(Point { x: 0, y: 0 }));
        safety += 1;
    }
    assert_eq!(outcome, GameState::GameLost);
    assert_eq!(s.base.health, 0);
}
