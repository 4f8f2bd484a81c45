//! The colour scheduler: what the colour indicator shows each time its
//! timer fires.
//!
//! While the indicator is on, its colour follows the hour of the virtual
//! day and is refreshed every second.  When it is off the scheduler blanks
//! it and stays asleep until it is switched on again.

use crate::state::{RgbState, SharedState};
use vstd::prelude::*;

verus! {

/// A colour, one byte per channel.
#[derive(Debug, Clone, Copy, PartialEq, Eq, Structural)]
pub struct Rgb {
    pub r: u8,
    pub g: u8,
    pub b: u8,
}

/// The four parts of the day, six hours each.
#[derive(Debug, Clone, Copy, PartialEq, Eq, Structural)]
pub enum Bucket {
    /// From 3 to 9 o'clock.
    Morning,
    /// From 9 to 15 o'clock.
    Midday,
    /// From 15 to 21 o'clock.
    Evening,
    /// From 21 to 3 o'clock, over midnight.
    Night,
}

impl Bucket {
    /// The colour shown during this part of the day.
    pub open spec fn shade(self) -> Rgb {
        match self {
            Bucket::Morning => Rgb { r: 0xF8, g: 0xF3, b: 0x2B },
            Bucket::Midday => Rgb { r: 0x9C, g: 0xFF, b: 0xFA },
            Bucket::Evening => Rgb { r: 0x05, g: 0x3C, b: 0x5E },
            Bucket::Night => Rgb { r: 0x31, g: 0x08, b: 0x1F },
        }
    }

    /// The colour shown during this part of the day.
    pub fn color(self) -> (c: Rgb)
        ensures
            c == self.shade(),
    {
        match self {
            Bucket::Morning => Rgb { r: 0xF8, g: 0xF3, b: 0x2B },
            Bucket::Midday => Rgb { r: 0x9C, g: 0xFF, b: 0xFA },
            Bucket::Evening => Rgb { r: 0x05, g: 0x3C, b: 0x5E },
            Bucket::Night => Rgb { r: 0x31, g: 0x08, b: 0x1F },
        }
    }
}

/// No light at all.
pub open spec fn blank() -> Rgb {
    Rgb { r: 0, g: 0, b: 0 }
}

/// The brightness at which a colour of the day is shown.
pub const BRIGHTNESS: u8 = 20;

/// The seconds between two refreshes.
pub const REFRESH_SECS: u64 = 1;

/// One activation of the scheduler.
#[derive(Debug, Clone, Copy, PartialEq, Eq, Structural)]
pub struct RgbStep {
    /// The colour of the part of the day, or no light.
    pub color: Rgb,
    /// The brightness it is shown at.
    pub brightness: u8,
    /// What to write to the indicator: the colour at that brightness.
    pub shown: Rgb,
    /// After how many seconds the timer fires next, if at all.
    pub rearm_secs: Option<u64>,
}

/// A channel at a brightness: scaled by `(level + 1) / 256`, rounded
/// down.
pub open spec fn dimmed_channel(c: u8, level: u8) -> u8 {
    (c as int * (level as int + 1) / 256) as u8
}

/// A colour at a brightness, channel by channel.
pub open spec fn dimmed(color: Rgb, level: u8) -> Rgb {
    Rgb {
        r: dimmed_channel(color.r, level),
        g: dimmed_channel(color.g, level),
        b: dimmed_channel(color.b, level),
    }
}

/// `smart_leds::brightness` applied to one colour: the iterator yields
/// that colour with every channel scaled by `(level + 1) / 256`.
#[verifier::external_body]
fn dim(color: Rgb, level: u8) -> (r: Option<Rgb>)
    ensures
        r == Some(dimmed(color, level)),
{
    let one = [smart_leds::RGB8 { r: color.r, g: color.g, b: color.b }];
    smart_leds::brightness(one.into_iter(), level).next().map(|c| Rgb { r: c.r, g: c.g, b: c.b })
}

/// The colour that is written to the indicator for `color` at the
/// brightness `level`.
pub fn at_brightness(color: Rgb, level: u8) -> (r: Rgb)
    ensures
        r == dimmed(color, level),
{
    match dim(color, level) {
        Some(shown) => shown,
        None => color,
    }
}

/// The hour of the day, 0 to 23, at `time` seconds.
pub open spec fn hour_of(time: int) -> int {
    (time / 3600) % 24
}

/// The part of the day that an hour belongs to: each part includes its
/// first hour and excludes its last, and the night wraps over midnight.
pub open spec fn hour_bucket(hour: int) -> Bucket {
    if 3 <= hour < 9 {
        Bucket::Morning
    } else if 9 <= hour < 15 {
        Bucket::Midday
    } else if 15 <= hour < 21 {
        Bucket::Evening
    } else {
        Bucket::Night
    }
}

/// What the scheduler does in `state` at the virtual time `now`.
pub open spec fn rgb_step(state: RgbState, now: int) -> RgbStep {
    match state {
        RgbState::On => RgbStep {
            color: hour_bucket(hour_of(now)).shade(),
            brightness: BRIGHTNESS,
            shown: dimmed(hour_bucket(hour_of(now)).shade(), BRIGHTNESS),
            rearm_secs: Some(REFRESH_SECS),
        },
        RgbState::Off => RgbStep {
            color: blank(),
            brightness: 0,
            shown: dimmed(blank(), 0),
            rearm_secs: None,
        },
    }
}

/// The part of the day that the hour `hours` belongs to.
pub fn bucket_of_hour(hours: u64) -> (bucket: Bucket)
    ensures
        bucket == hour_bucket(hours as int),
{
    if 3 <= hours && hours < 9 {
        Bucket::Morning
    } else if 9 <= hours && hours < 15 {
        Bucket::Midday
    } else if 15 <= hours && hours < 21 {
        Bucket::Evening
    } else {
        Bucket::Night
    }
}

/// One activation of the colour scheduler at the virtual time `time_now`.
pub fn update_rgb_at(state: RgbState, time_now: u64) -> (step: RgbStep)
    ensures
        step == rgb_step(state, time_now as int),
{
    match state {
        RgbState::On => {
            let hours = time_now / 3600 % 24;
            let color = bucket_of_hour(hours).color();
            RgbStep {
                color,
                brightness: BRIGHTNESS,
                shown: at_brightness(color, BRIGHTNESS),
                rearm_secs: Some(REFRESH_SECS),
            }
        },
        RgbState::Off => dark(),
    }
}

/// Whether the scheduler may run in `state` at `rtc_now`.
pub fn can_update_rgb(state: &SharedState, rtc_now: u64) -> (r: bool)
    ensures
        r == (state.rgb_state is On ==> state.reference_times.covers(rtc_now)),
{
    match state.rgb_state {
        RgbState::On => state.reference_times.can_tell(rtc_now),
        RgbState::Off => true,
    }
}

/// One activation of the colour scheduler: reads the stored state and,
/// where it is on, the virtual time at `rtc_now`.
pub fn update_rgb(state: &SharedState, rtc_now: u64) -> (step: RgbStep)
    requires
        state.rgb_state is On ==> state.reference_times.covers(rtc_now),
    ensures
        step == rgb_step(state.rgb_state, state.reference_times.time_at(rtc_now)),
{
    match state.rgb_state {
        RgbState::On => {
            let time_now = state.reference_times.get_time(rtc_now);
            update_rgb_at(RgbState::On, time_now)
        },
        RgbState::Off => dark(),
    }
}

/// The step that blanks the indicator and lets the scheduler sleep.
fn dark() -> (step: RgbStep)
    ensures
        step == rgb_step(RgbState::Off, 0),
{
    let color = Rgb { r: 0, g: 0, b: 0 };
    RgbStep { color, brightness: 0, shown: at_brightness(color, 0), rearm_secs: None }
}

/// Every moment has an hour from 0 to 23, and the colour repeats from day
/// to day.
pub proof fn law_colour_repeats_daily(now: int)
    requires
        0 <= now,
    ensures
        0 <= hour_of(now) < 24,
        hour_bucket(hour_of(now + 86400)) == hour_bucket(hour_of(now)),
{
    assert((now + 86400) / 3600 == now / 3600 + 24);
}

} // verus!
