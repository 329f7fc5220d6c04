//! The state of the frame loop that objects and cameras read.

use vstd::prelude::*;

verus! {

/// Trusted: `std::time::Instant`, a point in time that only the clock can
/// make. Nothing is said of what it holds.
#[verifier::external_type_specification]
#[verifier::external_body]
pub struct ExInstant(std::time::Instant);

/// The longest time step that a frame reports, in microseconds: one second.
pub const MAX_DELTA_MICROS: u64 = 1_000_000;

/// What a frame knows of itself.
#[derive(Copy, Clone, Debug, PartialEq, Eq, Structural)]
pub struct RenderState {
    /// The index of the frame in flight that is being recorded.
    pub frame: usize,
    /// The time since the frame before, in microseconds, at most a second.
    pub delta_time: u64,
}

/// The part of the render state that stays inside the scene.
#[derive(Copy, Clone, Debug)]
pub struct RenderStateLocal {
    /// When the frame before was recorded.
    pub delta_timer: std::time::Instant,
}

/// Trusted: `std::time::Instant::now`. The result is whatever the clock
/// says, so nothing is claimed of it.
pub assume_specification[ std::time::Instant::now ]() -> (r: std::time::Instant)
;

/// Trusted: `std::time::Instant::elapsed`, the time since the instant. The
/// result is whatever the clock says, so nothing is claimed of it.
pub assume_specification[ std::time::Instant::elapsed ](since: &std::time::Instant) -> (r:
    std::time::Duration)
;

/// Trusted: `std::time::Duration::as_micros`, the whole microseconds of a
/// duration. A duration is opaque here, so nothing is claimed of the number.
pub assume_specification[ std::time::Duration::as_micros ](duration: &std::time::Duration) -> (r:
    u128)
;

/// The time step that a frame reports for a measured time: the measured
/// time, cut off at one second.
pub open spec fn clamped_delta(elapsed_micros: u128) -> u64 {
    if elapsed_micros >= MAX_DELTA_MICROS as u128 {
        MAX_DELTA_MICROS
    } else {
        elapsed_micros as u64
    }
}

impl Default for RenderState {
    fn default() -> (r: Self)
        ensures
            r.frame == 0,
            r.delta_time == 0,
    {
        RenderState { frame: 0, delta_time: 0 }
    }
}

impl RenderState {
    /// Starts frame `frame`, `elapsed_micros` after the frame before.
    pub fn begin_frame(&mut self, frame: usize, elapsed_micros: u128)
        ensures
            final(self).frame == frame,
            final(self).delta_time == clamped_delta(elapsed_micros),
    {
        self.frame = frame;
        if elapsed_micros >= MAX_DELTA_MICROS as u128 {
            self.delta_time = MAX_DELTA_MICROS;
        } else {
            self.delta_time = elapsed_micros as u64;
        }
    }
}

impl RenderStateLocal {
    /// A timer that starts now.
    pub fn new() -> Self {
        RenderStateLocal { delta_timer: std::time::Instant::now() }
    }

    /// The microseconds since the timer was started or last restarted. Restarts the timer.
    pub fn restart(&mut self) -> u128 {
        let elapsed: u128 = self.delta_timer.elapsed().as_micros();
        self.delta_timer = std::time::Instant::now();
        elapsed
    }
}

} // verus!
