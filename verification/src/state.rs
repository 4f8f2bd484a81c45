//! The node's mutable state and the three operations that change it.
//!
//! The state lives for as long as the node runs.  It starts out with both
//! indicators off and no time set, and is changed only by the tasks that
//! the dispatcher hands out for accepted commands.

use crate::clock::ReferenceTimes;
use crate::protocol::{BlinkerOptions, DateTime};
use vstd::prelude::*;

verus! {

/// Whether the colour indicator is switched on.
#[derive(Debug, Clone, Copy, PartialEq, Eq, Structural)]
pub enum RgbState {
    On,
    Off,
}

/// Which schedulers have to look at the state again at once: a change
/// shows only when the scheduler's timer fires, so the operation that makes
/// it asks for the timer to be armed with a zero interval.
#[derive(Debug, Clone, Copy, PartialEq, Eq, Structural)]
pub struct Kick {
    pub blink: bool,
    pub rgb: bool,
}

/// What the dispatcher and the schedulers share.
#[derive(Debug, Clone, Copy, PartialEq, Eq, Structural)]
pub struct SharedState {
    pub rgb_state: RgbState,
    pub blink_data: BlinkerOptions,
    pub reference_times: ReferenceTimes,
}

/// Options as they are stored: a start at `Now` is replaced by the
/// virtual time `now`.
pub open spec fn resolved(options: BlinkerOptions, now: int) -> BlinkerOptions {
    match options {
        BlinkerOptions::On { date_time: DateTime::Now, freq, duration } => BlinkerOptions::On {
            date_time: DateTime::Utc(now as u64),
            freq,
            duration,
        },
        _ => options,
    }
}

/// The node's state at boot: both indicators off, no time set.
pub open spec fn boot() -> SharedState {
    SharedState {
        rgb_state: RgbState::Off,
        blink_data: BlinkerOptions::Off,
        reference_times: ReferenceTimes { utc_reference: 0, rtc_reference: 0 },
    }
}

impl SharedState {
    /// The stored blink options are valid and never start at `Now`: a
    /// relative start is resolved when it is stored.
    pub open spec fn wf(self) -> bool {
        self.blink_data.valid() && !self.blink_data.starts_now()
    }

    /// Whether the state is well formed.
    pub fn is_sound(&self) -> (r: bool)
        ensures
            r == self.wf(),
    {
        self.blink_data.is_valid() && !self.blink_data.is_relative()
    }

    /// The state at boot: both indicators off, no time set.
    pub fn new() -> (r: Self)
        ensures
            r == boot(),
            r.wf(),
    {
        SharedState {
            rgb_state: RgbState::Off,
            blink_data: BlinkerOptions::Off,
            reference_times: ReferenceTimes::new(),
        }
    }

    /// Stores new blink options, with a start at `Now` resolved to the
    /// virtual time at `rtc_now`, and wakes the blink scheduler.
    pub fn set_blink_data(&mut self, options: BlinkerOptions, rtc_now: u64) -> (kick: Kick)
        requires
            old(self).wf(),
            options.valid(),
            options.starts_now() ==> old(self).reference_times.covers(rtc_now),
        ensures
            final(self).wf(),
            final(self).blink_data == resolved(options, old(self).reference_times.time_at(rtc_now)),
            final(self).rgb_state == old(self).rgb_state,
            final(self).reference_times == old(self).reference_times,
            kick == (Kick { blink: true, rgb: false }),
    {
        match options {
            BlinkerOptions::Off => {
                self.blink_data = options;
            },
            BlinkerOptions::On { date_time, freq, duration } => match date_time {
                DateTime::Now => {
                    let time_now = self.reference_times.get_time(rtc_now);
                    self.blink_data =
                    BlinkerOptions::On { date_time: DateTime::Utc(time_now), freq, duration };
                },
                DateTime::Utc(_) => {
                    self.blink_data = options;
                },
            },
        }
        Kick { blink: true, rgb: false }
    }

    /// Stores the state of the colour indicator and wakes its scheduler.
    pub fn update_rgb_data(&mut self, state: RgbState) -> (kick: Kick)
        ensures
            final(self).rgb_state == state,
            final(self).blink_data == old(self).blink_data,
            final(self).reference_times == old(self).reference_times,
            kick == (Kick { blink: false, rgb: true }),
    {
        self.rgb_state = state;
        Kick { blink: false, rgb: true }
    }

    /// Rebases the virtual clock: it is `new_time` seconds at `rtc_now`
    /// milliseconds.  Wakes both schedulers, whose outputs depend on the
    /// time.
    pub fn set_date_time(&mut self, new_time: u64, rtc_now: u64) -> (kick: Kick)
        ensures
            final(self).reference_times == (ReferenceTimes {
                utc_reference: new_time,
                rtc_reference: rtc_now,
            }),
            final(self).reference_times.time_at(rtc_now) == new_time,
            final(self).rgb_state == old(self).rgb_state,
            final(self).blink_data == old(self).blink_data,
            kick == (Kick { blink: true, rgb: true }),
    {
        self.reference_times.update(new_time, rtc_now);
        Kick { blink: true, rgb: true }
    }
}

impl Default for SharedState {
    fn default() -> (r: Self)
        ensures
            r == boot(),
            r.wf(),
    {
        Self::new()
    }
}

} // verus!
