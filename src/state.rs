//! The application's states and the splash screen's timing.
use vstd::prelude::*;

verus! {

/// How long the splash screen shows, in seconds.
pub const SPLASH_DURATION_SECS: u64 = 3;

/// The phase of the application.
#[derive(Clone, Copy, Debug, PartialEq, Eq, Structural, Default)]
pub enum AppState {
    #[default]
    Loading,
    Splash,
    Game,
}

/// Time spent in a state, in microseconds, when it was entered at `state_start` and
/// it is now `now` (both in microseconds since start-up).
pub open spec fn time_in_state(state_start: u64, now: u64) -> int {
    now - state_start
}

/// The state to switch to from the splash screen: the game, once the splash has
/// shown for longer than `SPLASH_DURATION_SECS`.
pub fn leave_splash_after_delay(state_start: u64, now: u64) -> (r: Option<AppState>)
    requires
        state_start <= now,
    ensures
        r == (if time_in_state(state_start, now) > SPLASH_DURATION_SECS * 1_000_000 {
            Some(AppState::Game)
        } else {
            None::<AppState>
        }),
{
    if now - state_start > SPLASH_DURATION_SECS * 1_000_000 {
        Some(AppState::Game)
    } else {
        None
    }
}

} // verus!
