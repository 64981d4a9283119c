//! Top-level modes, the score counter, and the accumulate-and-fire timers
//! that drive spawning and the post-death grace period.

use vstd::prelude::*;

verus! {

/// Top-level application mode: either on the main menu or in a play session.
#[derive(Clone, Copy, Debug, PartialEq, Eq, Structural)]
pub enum AppState {
    MainMenu,
    Playing,
}

/// Play sub-mode, meaningful only while the session runs: the actor is
/// either alive or has collided with a barrier.
#[derive(Clone, Copy, Debug, PartialEq, Eq, Structural)]
pub enum GameState {
    Playing,
    Dead,
}

/// Background colour chosen by the state machine: grey on the menu, a sky
/// tone during play.
#[derive(Clone, Copy, Debug, PartialEq, Eq, Structural)]
pub enum Backdrop {
    Grey,
    Sky,
}

/// What a menu button asks for: start a session, or quit the application.
#[derive(Clone, Copy, Debug, PartialEq, Eq, Structural)]
pub enum MenuButtonAction {
    Play,
    Exit,
}

/// Monotonically non-decreasing score counter, reset only on session restart.
#[derive(Clone, Copy, Debug, PartialEq, Eq, Structural)]
pub struct Score(pub u32);

/// Longest per-tick elapsed time the fixed-point arithmetic accepts, in
/// milliseconds.
pub const MAX_TICK_MS: u64 = 1_000_000_000;

/// Accumulated time after which the obstacle spawner fires, in
/// milliseconds.
pub const PIPE_SPAWN_THRESHOLD_MS: u64 = 2500;

/// The obstacle timer's initial accumulator, pre-loaded past the
/// threshold so a fresh world's first spawn is not delayed.
pub const PIPE_SPAWN_INITIAL_MS: u64 = 3000;

/// Accumulated time after which the decorative spawner fires, in
/// milliseconds.
pub const CLOUD_SPAWN_THRESHOLD_MS: u64 = 600;

/// Grace period between death and the return to the menu, in
/// milliseconds.
pub const GAMEOVER_THRESHOLD_MS: u64 = 5000;

/// Largest timer threshold in use; `SpawnTimer::advance` relies on this
/// bound to rule out overflow when accumulating.
pub const MAX_THRESHOLD_MS: u64 = 10_000;

/// An accumulate-and-fire timer: `elapsed` grows by the per-tick delta and
/// the timer fires once the accumulated time exceeds `threshold`, resetting
/// `elapsed` to zero.
#[derive(Clone, Copy, Debug, PartialEq, Eq, Structural)]
pub struct SpawnTimer {
    /// Time accumulated since the last firing, in milliseconds.
    pub elapsed: u64,
    /// The timer fires once `elapsed` exceeds this, in milliseconds.
    pub threshold: u64,
}

/// Whether the timer fires on the next evaluation: the check precedes the
/// tick's accumulation, so a pre-loaded `elapsed` fires immediately.
pub open spec fn timer_fires(t: SpawnTimer) -> bool {
    t.elapsed > t.threshold
}

/// The timer one evaluation later: a firing resets the accumulator to
/// zero, otherwise the tick's delta is added.
pub open spec fn timer_after(t: SpawnTimer, dt_ms: u64) -> SpawnTimer {
    if timer_fires(t) {
        SpawnTimer { elapsed: 0, threshold: t.threshold }
    } else {
        SpawnTimer { elapsed: (t.elapsed + dt_ms) as u64, threshold: t.threshold }
    }
}

impl SpawnTimer {
    /// Advance the timer by one tick of `dt_ms` milliseconds, reporting
    /// whether it fired this tick.
    pub fn advance(&mut self, dt_ms: u64) -> (fired: bool)
        requires
            old(self).threshold <= MAX_THRESHOLD_MS,
            dt_ms <= MAX_TICK_MS,
        ensures
            fired == timer_fires(*old(self)),
            *final(self) == timer_after(*old(self), dt_ms),
    {
        if self.elapsed > self.threshold {
            self.elapsed = 0;
            true
        } else {
            self.elapsed = self.elapsed + dt_ms;
            false
        }
    }
}

} // verus!
