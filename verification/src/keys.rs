use vstd::prelude::*;

verus! {

/// The discrete game actions a key can be bound to.
#[derive(Debug, Clone, Copy, PartialEq, Eq, Structural)]
pub enum Key {
    Left,
    Right,
    RotateCW,
    RotateCCW,
    SoftDrop,
    HardDrop,
    Swap,
}

/// Repeat timing state of one held key, in milliseconds of a monotonic
/// clock. A freshly pressed key starts in `Idle`.
#[derive(Debug, Clone, Copy, PartialEq, Eq, Structural)]
pub enum KeyTiming {
    /// Not fired yet; soft drop stays here because it is level-triggered.
    Idle,
    /// Fired once at the given time; waits out the initial repeat delay.
    Delayed(u64),
    /// Repeating; last fired at the given time.
    Repeat(u64),
    /// Fires exactly once per press; already fired.
    Single,
}

/// Initial delay before a held horizontal key starts repeating.
pub const REPEAT_DELAY_MS: u64 = 150;

/// Interval between repeats of a held horizontal key.
pub const REPEAT_INTERVAL_MS: u64 = 20;

/// One debounce step for a held key at time `now`: whether the key's action
/// fires this tick, and the key's next timing state.
///
/// A fresh press always fires once; horizontal keys then gate behind the
/// initial delay and the repeat interval; rotation, hard drop and swap fire
/// exactly once per press; soft drop never "fires" — it is read as a level
/// while the key is held.
pub open spec fn timing_step(timing: KeyTiming, key: Key, now: u64) -> (bool, KeyTiming) {
    match timing {
        KeyTiming::Idle => match key {
            Key::SoftDrop => (false, KeyTiming::Idle),
            Key::Left | Key::Right => (true, KeyTiming::Delayed(now)),
            _ => (true, KeyTiming::Single),
        },
        KeyTiming::Delayed(t) => if now >= t + REPEAT_DELAY_MS {
            (true, KeyTiming::Repeat(now))
        } else {
            (false, KeyTiming::Delayed(t))
        },
        KeyTiming::Repeat(t) => if now >= t + REPEAT_INTERVAL_MS {
            (true, KeyTiming::Repeat(now))
        } else {
            (false, KeyTiming::Repeat(t))
        },
        KeyTiming::Single => (false, KeyTiming::Single),
    }
}

/// Whether a held key contributes the soft-drop level this tick.
pub open spec fn soft_drop_held(timing: KeyTiming, key: Key) -> bool {
    key is SoftDrop && timing is Idle
}

/// One held key as the board sees it: the bound action and its repeat state.
/// The host input layer decodes raw key codes to this.
#[derive(Debug, Clone, Copy, PartialEq, Eq, Structural)]
pub struct KeyInput {
    pub key: Key,
    pub timing: KeyTiming,
}

/// One debounce step, executable twin of `timing_step`.
pub fn step_timing(timing: KeyTiming, key: Key, now: u64) -> (r: (bool, KeyTiming))
    ensures
        r == timing_step(timing, key, now),
{
    match timing {
        KeyTiming::Idle => match key {
            Key::SoftDrop => (false, KeyTiming::Idle),
            Key::Left | Key::Right => (true, KeyTiming::Delayed(now)),
            _ => (true, KeyTiming::Single),
        },
        KeyTiming::Delayed(t) => {
            if now >= t && now - t >= REPEAT_DELAY_MS {
                (true, KeyTiming::Repeat(now))
            } else {
                (false, KeyTiming::Delayed(t))
            }
        },
        KeyTiming::Repeat(t) => {
            if now >= t && now - t >= REPEAT_INTERVAL_MS {
                (true, KeyTiming::Repeat(now))
            } else {
                (false, KeyTiming::Repeat(t))
            }
        },
        KeyTiming::Single => (false, KeyTiming::Single),
    }
}

} // verus!
