use rusty_towers::enemy::WaveTimer;
use rusty_towers::game::{listen_for_restart, GameState};
use rusty_towers::season::{
    CountdownTimer, Season, SeasonEvent, SeasonInterval, SeasonSchedule,
};

fn two_interval_schedule() -> SeasonSchedule {
    let intervals = vec![
        SeasonInterval { season: Season::Build, duration_ms: 10_000 },
        SeasonInterval { season: Season::Heal, duration_ms: 5_000 },
    ];
    SeasonSchedule::new(intervals)
}

#[test]
fn countdown_timer_repeats_on_completion() {
    let mut t = CountdownTimer::new(100);
    assert!(!t.tick(60));
    assert_eq!(t.remaining_ms, 40);
    assert!(t.tick(40));
    assert_eq!(t.remaining_ms, 100);
    assert!(t.tick(250));
    assert_eq!(t.remaining_ms, 100);
}

#[test]
fn schedule_advances_through_its_intervals() {
    let mut s = two_interval_schedule();
    assert_eq!(s.current_season(), Some(Season::Build));
    assert_eq!(s.tick(4_000), SeasonEvent::Continuing);
    assert_eq!(s.current_season(), Some(Season::Build));
    assert_eq!(s.tick(6_000), SeasonEvent::Changed(Season::Heal));
    assert_eq!(s.current_season(), Some(Season::Heal));
}

#[test]
fn final_interval_elapsing_wins_exactly_once() {
    let mut s = two_interval_schedule();
    assert_eq!(s.tick(10_000), SeasonEvent::Changed(Season::Heal));
    assert_eq!(s.tick(5_000), SeasonEvent::Won);
    assert_eq!(s.current_season(), None);
    // however many further ticks elapse, the win never fires again
    let mut wins = 0;
    for _ in 0..50 {
        if s.tick(60_000) == SeasonEvent::Won {
            wins += 1;
        }
    }
    assert_eq!(wins, 0);
}

#[test]
fn progress_tracks_elapsed_time_over_the_whole_schedule() {
    let mut s = two_interval_schedule();
    assert_eq!(s.total_duration_ms(), 15_000);
    assert_eq!(s.elapsed_ms(), 0);
    s.tick(4_000);
    assert_eq!(s.elapsed_ms(), 4_000);
    // completing the first interval discards the overshoot
    s.tick(60_000);
    assert_eq!(s.elapsed_ms(), 10_000);
    s.tick(5_000);
    assert_eq!(s.elapsed_ms(), 15_000);
}

#[test]
fn empty_schedule_is_complete_and_silent() {
    let mut s = SeasonSchedule::new(Vec::new());
    assert_eq!(s.current_season(), None);
    assert_eq!(s.tick(1_000), SeasonEvent::Continuing);
}

#[test]
fn schedule_reset_rewinds_to_the_first_interval() {
    let mut s = two_interval_schedule();
    s.tick(10_000);
    s.tick(5_000);
    s.reset();
    assert_eq!(s.current_season(), Some(Season::Build));
    assert_eq!(s.tick(10_000), SeasonEvent::Changed(Season::Heal));
}

#[test]
fn any_key_in_a_terminal_state_returns_to_the_menu() {
    let mut wave_timer = WaveTimer { timer: CountdownTimer::new(3_000), force_wave: false };
    wave_timer.timer.tick(1_000);
    assert_eq!(
        listen_for_restart(GameState::GameWon, true, &mut wave_timer),
        GameState::Menu
    );
    assert_eq!(wave_timer.timer.remaining_ms, 3_000);
    assert_eq!(
        listen_for_restart(GameState::GameLost, true, &mut wave_timer),
        GameState::Menu
    );
    assert_eq!(
        listen_for_restart(GameState::Game, true, &mut wave_timer),
        GameState::Game
    );
    assert_eq!(
        listen_for_restart(GameState::GameWon, false, &mut wave_timer),
        GameState::GameWon
    );
}
