//! The blink scheduler: what the blinking indicator does each time its
//! timer fires.
//!
//! The scheduler is a one-shot timer that re-arms itself.  When the
//! indicator is off, or the blinking is over, it forces the output low
//! and stays asleep until new options are stored.

use crate::protocol::{BlinkerOptions, DateTime};
use crate::state::SharedState;
use vstd::prelude::*;

verus! {

/// What to do with the output.
#[derive(Debug, Clone, Copy, PartialEq, Eq, Structural)]
pub enum Led {
    /// Force the output low.
    Low,
    /// Invert the output.
    Toggle,
}

/// When the timer is to fire next.
#[derive(Debug, Clone, Copy, PartialEq, Eq, Structural)]
pub enum Rearm {
    /// Not at all: the next activation comes with new options.
    Never,
    /// After this many milliseconds.
    Millis(u64),
    /// After this many seconds.
    Secs(u64),
}

/// One activation of the scheduler.
#[derive(Debug, Clone, Copy, PartialEq, Eq, Structural)]
pub struct BlinkStep {
    pub led: Led,
    pub rearm: Rearm,
}

/// What the scheduler does with `options` stored at the virtual time
/// `now`, in seconds.  Before the start the output stays low until the
/// start; from the start until `duration` seconds later it toggles every
/// `1000 / freq` milliseconds; after that it is low for good.
pub open spec fn blink_step(options: BlinkerOptions, now: int) -> BlinkStep {
    match options {
        BlinkerOptions::Off => BlinkStep { led: Led::Low, rearm: Rearm::Never },
        BlinkerOptions::On { date_time, freq, duration } => {
            let start = date_time->Utc_0;
            if now >= start + duration {
                BlinkStep { led: Led::Low, rearm: Rearm::Never }
            } else if now >= start {
                BlinkStep { led: Led::Toggle, rearm: Rearm::Millis((1000u64 / freq) as u64) }
            } else {
                BlinkStep { led: Led::Low, rearm: Rearm::Secs((start - now) as u64) }
            }
        },
    }
}

/// Whether the scheduler needs the time for these options, and so whether
/// the clock has to be able to tell it.
pub open spec fn blink_reads_clock(options: BlinkerOptions) -> bool {
    options is On
}

/// One activation of the blink scheduler at the virtual time `time_now`.
pub fn blink_at(options: BlinkerOptions, time_now: u64) -> (step: BlinkStep)
    requires
        options.valid(),
        !options.starts_now(),
    ensures
        step == blink_step(options, time_now as int),
{
    match options {
        BlinkerOptions::Off => BlinkStep { led: Led::Low, rearm: Rearm::Never },
        BlinkerOptions::On { date_time, freq, duration } => {
            match date_time {
                DateTime::Now => BlinkStep { led: Led::Low, rearm: Rearm::Never },
                DateTime::Utc(s_time) => {
                    let over = match s_time.checked_add(duration) {
                        Some(end) => time_now >= end,
                        None => false,
                    };
                    if over {
                        return BlinkStep { led: Led::Low, rearm: Rearm::Never };
                    }
                    if time_now >= s_time {
                        let period: u64 = 1000 / freq;
                        return BlinkStep { led: Led::Toggle, rearm: Rearm::Millis(period) };
                    }
                    // wait for the start with the output low
                    let time_left = s_time - time_now;
                    BlinkStep { led: Led::Low, rearm: Rearm::Secs(time_left) }
                },
            }
        },
    }
}

/// Whether the scheduler may run in `state` at `rtc_now`.
pub fn can_blink(state: &SharedState, rtc_now: u64) -> (r: bool)
    ensures
        r == (state.wf() && (blink_reads_clock(state.blink_data)
            ==> state.reference_times.covers(rtc_now))),
{
    state.is_sound() && match state.blink_data {
        BlinkerOptions::Off => true,
        BlinkerOptions::On { .. } => state.reference_times.can_tell(rtc_now),
    }
}

/// One activation of the blink scheduler: reads the stored options and,
/// where they are on, the virtual time at `rtc_now`.
pub fn blink(state: &SharedState, rtc_now: u64) -> (step: BlinkStep)
    requires
        state.wf(),
        blink_reads_clock(state.blink_data) ==> state.reference_times.covers(rtc_now),
    ensures
        step == blink_step(state.blink_data, state.reference_times.time_at(rtc_now)),
{
    let opts = state.blink_data;
    match opts {
        BlinkerOptions::Off => BlinkStep { led: Led::Low, rearm: Rearm::Never },
        BlinkerOptions::On { .. } => {
            let time_now = state.reference_times.get_time(rtc_now);
            blink_at(opts, time_now)
        },
    }
}

/// The scheduler toggles only inside the window from the start to
/// `duration` seconds later, re-arms itself exactly until the window is
/// over, and never waits longer than a second between two toggles.
pub proof fn law_blink_window(start: u64, freq: u64, duration: u64, now: int)
    requires
        freq != 0,
        0 <= now,
    ensures
        ({
            let step = blink_step(
                BlinkerOptions::On { date_time: DateTime::Utc(start), freq, duration },
                now,
            );
            &&& step.led == Led::Toggle <==> start <= now < start + duration
            &&& step.rearm == Rearm::Never <==> now >= start + duration
            &&& step.rearm matches Rearm::Millis(ms) ==> ms <= 1000 && ms == 1000u64 / freq
            &&& step.rearm matches Rearm::Secs(s) ==> now + s == start
        }),
{
    assert(0 <= 1000u64 / freq <= 1000) by (nonlinear_arith)
        requires
            freq > 0,
    ;
}

} // verus!
