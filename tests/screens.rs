use screen_timer::screen::{frame, state_of_game, FrameInput, GameState, Screen, GAME_SECONDS};
use screen_timer::timer::Timer;

const NONE: FrameInput = FrameInput { start: false, a: false };
const START: FrameInput = FrameInput { start: true, a: false };
const A: FrameInput = FrameInput { start: false, a: true };

#[test]
fn first_frame_is_title() {
    let s = GameState::new(3);
    assert_eq!(s.screen, Screen::Title);
    assert_eq!(s.timer, Timer { start_tick: 3, duration_ticks: 0 });
}

#[test]
fn start_on_title_begins_round_then_timer_ends_it() {
    let mut s = GameState::new(0);
    frame(&mut s, 10, START);
    assert_eq!(s.screen, Screen::Game);
    assert_eq!(s.timer, Timer { start_tick: 10, duration_ticks: GAME_SECONDS * 60 });
    frame(&mut s, 11, NONE);
    assert_eq!(s.screen, Screen::Game);
    frame(&mut s, 309, NONE);
    assert_eq!(s.screen, Screen::Game);
    frame(&mut s, 310, NONE);
    assert_eq!(s.screen, Screen::Gameover);
}

#[test]
fn secondary_button_in_game_restarts_timer() {
    let mut s = GameState { screen: Screen::Game, timer: Timer { start_tick: 0, duration_ticks: 300 } };
    frame(&mut s, 299, A);
    assert_eq!(s.screen, Screen::Game);
    assert_eq!(s.timer, Timer { start_tick: 299, duration_ticks: 300 });
    frame(&mut s, 300, NONE);
    assert_eq!(s.screen, Screen::Game);
}

#[test]
fn secondary_button_on_gameover_resumes_play() {
    let mut s = GameState { screen: Screen::Gameover, timer: Timer { start_tick: 0, duration_ticks: 300 } };
    frame(&mut s, 500, A);
    assert_eq!(s.screen, Screen::Game);
    assert_eq!(s.timer.start_tick, 500);
}

#[test]
fn start_in_game_with_time_left_returns_to_game() {
    let mut s = GameState { screen: Screen::Game, timer: Timer { start_tick: 0, duration_ticks: 300 } };
    frame(&mut s, 100, START);
    assert_eq!(s.screen, Screen::Game);
}

#[test]
fn start_in_game_after_time_is_up_gives_gameover() {
    let mut s = GameState { screen: Screen::Game, timer: Timer { start_tick: 0, duration_ticks: 300 } };
    frame(&mut s, 300, START);
    assert_eq!(s.screen, Screen::Gameover);
}

#[test]
fn start_on_gameover_goes_to_title() {
    let mut s = GameState { screen: Screen::Gameover, timer: Timer { start_tick: 0, duration_ticks: 300 } };
    frame(&mut s, 400, START);
    assert_eq!(s.screen, Screen::Title);
    frame(&mut s, 401, NONE);
    assert_eq!(s.screen, Screen::Title);
}

#[test]
fn title_ignores_a_done_timer() {
    let mut s = GameState::new(0);
    frame(&mut s, 1000, NONE);
    assert_eq!(s.screen, Screen::Title);
    frame(&mut s, 1001, A);
    assert_eq!(s.screen, Screen::Title);
    assert_eq!(s.timer.start_tick, 1001);
}

#[test]
fn screen_reactions_alone() {
    let mut s = GameState::new(0);
    state_of_game(&mut s, 5, false);
    assert_eq!(s, GameState::new(0));
    state_of_game(&mut s, 5, true);
    assert_eq!(s.screen, Screen::Game);
    assert_eq!(s.timer, Timer { start_tick: 5, duration_ticks: 300 });
    state_of_game(&mut s, 6, true);
    assert_eq!(s.screen, Screen::Gameover);
    assert_eq!(s.timer, Timer { start_tick: 5, duration_ticks: 300 });
    state_of_game(&mut s, 7, true);
    assert_eq!(s.screen, Screen::Title);
}
