use vstd::prelude::*;
use crate::geometry::Direction;

verus! {

/// Fastest allowed tick interval, in milliseconds.
pub const MIN_TICK_MS: u64 = 50;

/// Slowest allowed tick interval, in milliseconds.
pub const MAX_TICK_MS: u64 = 500;

/// How much one speed adjustment changes the tick interval, in milliseconds.
pub const TICK_STEP_MS: u64 = 100;

/// A key press, stripped of the terminal library's event types.
#[derive(Clone, Copy, Debug, PartialEq, Eq, Structural)]
pub enum Key {
    Up,
    Down,
    Left,
    Right,
    Enter,
    Char(char),
    Other,
}

/// What a key press asks the game to do.
#[derive(Clone, Copy, Debug, PartialEq, Eq, Structural)]
pub enum Intent {
    ChangeDirection(Direction),
    TogglePause,
    SpeedUp,
    SlowDown,
    Quit,
    Ignore,
}

/// The heading an arrow key names.
pub open spec fn key_heading(key: Key) -> Option<Direction> {
    match key {
        Key::Up => Some(Direction::Up),
        Key::Down => Some(Direction::Down),
        Key::Left => Some(Direction::Left),
        Key::Right => Some(Direction::Right),
        _ => None,
    }
}

/// The intent of `key` while the snake heads `current`: an arrow that would
/// turn the snake straight back onto itself is dropped.
pub open spec fn intent_of(key: Key, current: Direction) -> Intent {
    match key {
        Key::Char(c) => {
            if c == 'q' {
                Intent::Quit
            } else if c == ' ' {
                Intent::TogglePause
            } else if c == '+' {
                Intent::SpeedUp
            } else if c == '-' {
                Intent::SlowDown
            } else {
                Intent::Ignore
            }
        },
        _ => match key_heading(key) {
            Some(d) => if d == current.reverse() {
                Intent::Ignore
            } else {
                Intent::ChangeDirection(d)
            },
            None => Intent::Ignore,
        },
    }
}

/// The tick interval after one speed-up: one step shorter, never below the minimum.
pub open spec fn faster_ms(ms: u64) -> u64 {
    if ms >= MIN_TICK_MS + TICK_STEP_MS {
        (ms - TICK_STEP_MS) as u64
    } else {
        MIN_TICK_MS
    }
}

/// The tick interval after one slow-down: one step longer, never above the maximum.
pub open spec fn slower_ms(ms: u64) -> u64 {
    if ms + TICK_STEP_MS <= MAX_TICK_MS {
        (ms + TICK_STEP_MS) as u64
    } else {
        MAX_TICK_MS
    }
}

/// Maps a key press to an intent, given the direction in effect.
pub fn interpret(key: Key, current: Direction) -> (r: Intent)
    ensures
        r == intent_of(key, current),
        r matches Intent::ChangeDirection(d) ==> d != current.reverse(),
{
    let back = current.opposite();
    match key {
        Key::Char(c) => {
            if c == 'q' {
                Intent::Quit
            } else if c == ' ' {
                Intent::TogglePause
            } else if c == '+' {
                Intent::SpeedUp
            } else if c == '-' {
                Intent::SlowDown
            } else {
                Intent::Ignore
            }
        },
        Key::Up => turn(Direction::Up, back),
        Key::Down => turn(Direction::Down, back),
        Key::Left => turn(Direction::Left, back),
        Key::Right => turn(Direction::Right, back),
        _ => Intent::Ignore,
    }
}

/// A turn towards `d`, unless `d` is the forbidden heading `back`.
fn turn(d: Direction, back: Direction) -> (r: Intent)
    ensures
        r == (if d == back { Intent::Ignore } else { Intent::ChangeDirection(d) }),
{
    if d == back {
        Intent::Ignore
    } else {
        Intent::ChangeDirection(d)
    }
}

/// The tick interval after a speed-up intent.
pub fn speed_up(ms: u64) -> (r: u64)
    ensures
        r == faster_ms(ms),
        MIN_TICK_MS <= ms <= MAX_TICK_MS ==> MIN_TICK_MS <= r <= MAX_TICK_MS,
{
    if ms >= MIN_TICK_MS + TICK_STEP_MS {
        ms - TICK_STEP_MS
    } else {
        MIN_TICK_MS
    }
}

/// The tick interval after a slow-down intent.
pub fn slow_down(ms: u64) -> (r: u64)
    ensures
        r == slower_ms(ms),
        MIN_TICK_MS <= ms <= MAX_TICK_MS ==> MIN_TICK_MS <= r <= MAX_TICK_MS,
{
    if ms <= MAX_TICK_MS - TICK_STEP_MS {
        ms + TICK_STEP_MS
    } else {
        MAX_TICK_MS
    }
}

} // verus!
