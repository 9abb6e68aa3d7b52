use vstd::prelude::*;

use crate::timer::{Timer, TICKS_PER_SECOND, duration_in_ticks};

verus! {

/// Seconds that a round of play lasts.
pub const GAME_SECONDS: usize = 5;

/// The three screens of the game.
#[derive(Clone, Copy, Debug, PartialEq, Eq, Structural)]
pub enum Screen {
    Title,
    Game,
    Gameover,
}

/// What the host keeps from one frame to the next.
#[derive(Clone, Copy, Debug, PartialEq, Eq, Structural)]
pub struct GameState {
    pub screen: Screen,
    pub timer: Timer,
}

/// The buttons that went down this frame.
#[derive(Clone, Copy, Debug, PartialEq, Eq, Structural)]
pub struct FrameInput {
    /// The start button was pressed this frame.
    pub start: bool,
    /// The secondary button was pressed this frame.
    pub a: bool,
}

/// A fresh round's timer, started at `now`.
pub open spec fn game_timer(now: int) -> Timer {
    Timer {
        start_tick: now as usize,
        duration_ticks: duration_in_ticks(GAME_SECONDS as int, TICKS_PER_SECOND as int) as usize,
    }
}

/// The state on the first frame: the title screen, with a timer of no length.
pub open spec fn initial_state(now: int) -> GameState {
    GameState { screen: Screen::Title, timer: Timer { start_tick: now as usize, duration_ticks: 0 } }
}

/// What the current screen does with a press of start.
pub open spec fn react(s: GameState, now: int, start: bool) -> GameState {
    if !start {
        s
    } else {
        match s.screen {
            Screen::Title => GameState { screen: Screen::Game, timer: game_timer(now) },
            Screen::Game => GameState { screen: Screen::Gameover, ..s },
            Screen::Gameover => GameState { screen: Screen::Title, ..s },
        }
    }
}

/// The rule that follows every screen's reaction: the secondary button
/// restarts the timer, and off the title screen the timer decides between
/// play and game over.
pub open spec fn settle(s: GameState, now: int, a: bool) -> GameState {
    let timer = if a {
        Timer { start_tick: now as usize, ..s.timer }
    } else {
        s.timer
    };
    let screen = match s.screen {
        Screen::Title => Screen::Title,
        _ => if timer.done_at(now) {
            Screen::Gameover
        } else {
            Screen::Game
        },
    };
    GameState { screen, timer }
}

/// One whole frame: the screen's reaction, then the common rule.
pub open spec fn next_state(s: GameState, now: int, input: FrameInput) -> GameState {
    settle(react(s, now, input.start), now, input.a)
}

impl GameState {
    /// The state on the first frame, at tick `now`.
    pub fn new(now: usize) -> (r: GameState)
        ensures
            r == initial_state(now as int),
    {
        GameState { screen: Screen::Title, timer: Timer::new(now, 0, TICKS_PER_SECOND) }
    }
}

/// The current screen's reaction to a press of start at tick `now`.
pub fn state_of_game(state: &mut GameState, now: usize, start: bool)
    ensures
        *final(state) == react(*old(state), now as int, start),
{
    if start {
        match state.screen {
            Screen::Title => {
                state.screen = Screen::Game;
                state.timer = Timer::new(now, GAME_SECONDS, TICKS_PER_SECOND);
            },
            Screen::Game => {
                state.screen = Screen::Gameover;
            },
            Screen::Gameover => {
                state.screen = Screen::Title;
            },
        }
    }
}

/// Runs one frame at tick `now` with the given input.
pub fn frame(state: &mut GameState, now: usize, input: FrameInput)
    ensures
        *final(state) == next_state(*old(state), now as int, input),
{
    state_of_game(state, now, input.start);
    if input.a {
        state.timer.reset(now);
    }
    match state.screen {
        Screen::Title => {},
        _ => {
            if state.timer.is_done(now) {
                state.screen = Screen::Gameover;
            } else {
                state.screen = Screen::Game;
            }
        },
    }
}

/// On the title screen, a press of start begins a round: the game screen,
/// with a fresh timer of `GAME_SECONDS` seconds started at `now`.
pub proof fn lemma_start_begins_round(s: GameState, now: usize, input: FrameInput)
    requires
        s.screen == Screen::Title,
        input.start,
    ensures
        next_state(s, now as int, input) == (GameState { screen: Screen::Game, timer: game_timer(now as int) }),
{
}

/// Off the title screen, with no button pressed, a timer that has run out
/// puts the game on the game over screen.
pub proof fn lemma_done_timer_ends_round(s: GameState, now: usize)
    requires
        s.screen != Screen::Title,
        s.timer.done_at(now as int),
    ensures
        next_state(s, now as int, FrameInput { start: false, a: false }) == (GameState {
            screen: Screen::Gameover,
            ..s
        }),
{
}

/// During play, the secondary button restarts the timer at `now`, and the
/// game stays on the game screen, whatever start does.
pub proof fn lemma_secondary_keeps_playing(s: GameState, now: usize, input: FrameInput)
    requires
        s.screen == Screen::Game,
        s.timer.duration_ticks > 0,
        input.a,
    ensures
        next_state(s, now as int, input) == (GameState {
            screen: Screen::Game,
            timer: Timer { start_tick: now, ..s.timer },
        }),
{
}

} // verus!
