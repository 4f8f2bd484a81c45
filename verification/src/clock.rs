//! The virtual clock: seconds of virtual UTC derived from the hardware's
//! monotonic millisecond counter.

use vstd::prelude::*;

verus! {

/// A calibration point of the virtual clock: at `rtc_reference`
/// milliseconds on the hardware counter it was `utc_reference` seconds.
/// `utc_reference == 0` means that the time has not been set; a real epoch
/// of exactly 0 cannot be told apart from that.
#[derive(Debug, Clone, Copy, PartialEq, Eq, Structural)]
pub struct ReferenceTimes {
    pub utc_reference: u64,
    pub rtc_reference: u64,
}

impl ReferenceTimes {
    /// Whether a time has been set.
    pub open spec fn is_set(self) -> bool {
        self.utc_reference != 0
    }

    /// The virtual time at `rtc_now` milliseconds on the hardware counter.
    pub open spec fn time_at(self, rtc_now: u64) -> int {
        self.utc_reference + (rtc_now - self.rtc_reference) / 1000
    }

    /// Whether the clock can tell the time at `rtc_now`: the counter has
    /// not run backwards since calibration and the time fits in 64 bits.
    pub open spec fn covers(self, rtc_now: u64) -> bool {
        self.rtc_reference <= rtc_now && self.time_at(rtc_now) <= u64::MAX
    }

    /// The clock before any time was set.
    pub fn new() -> (r: Self)
        ensures
            r == (ReferenceTimes { utc_reference: 0, rtc_reference: 0 }),
            !r.is_set(),
    {
        ReferenceTimes { utc_reference: 0, rtc_reference: 0 }
    }

    /// Rebases the clock: it is `utc_ref` seconds at `rtc_ref` milliseconds.
    pub fn update(&mut self, utc_ref: u64, rtc_ref: u64)
        ensures
            *final(self) == (ReferenceTimes { utc_reference: utc_ref, rtc_reference: rtc_ref }),
    {
        self.rtc_reference = rtc_ref;
        self.utc_reference = utc_ref;
    }

    /// Whether a time has been set.
    pub fn datetime_set(&self) -> (r: bool)
        ensures
            r == self.is_set(),
    {
        self.utc_reference != 0
    }

    /// Whether `get_time` may be asked for the time at `rtc_now`.
    pub fn can_tell(&self, rtc_now: u64) -> (r: bool)
        ensures
            r == self.covers(rtc_now),
    {
        rtc_now >= self.rtc_reference && (rtc_now - self.rtc_reference) / 1000 <= u64::MAX
            - self.utc_reference
    }

    /// The virtual time, in seconds, at `rtc_now` milliseconds on the
    /// hardware counter: the reference time plus the whole seconds that
    /// have passed since calibration.
    pub fn get_time(&self, rtc_now: u64) -> (r: u64)
        requires
            self.covers(rtc_now),
        ensures
            r == self.time_at(rtc_now),
    {
        self.utc_reference + (rtc_now - self.rtc_reference) / 1000
    }
}

impl Default for ReferenceTimes {
    fn default() -> (r: Self)
        ensures
            r == (ReferenceTimes { utc_reference: 0, rtc_reference: 0 }),
    {
        Self::new()
    }
}

/// Right after rebasing, the clock shows the time it was set to, and from
/// then on it never runs backwards.
pub proof fn law_clock_monotonic(r: ReferenceTimes, earlier: u64, later: u64)
    requires
        r.rtc_reference <= earlier <= later,
    ensures
        r.time_at(r.rtc_reference) == r.utc_reference,
        r.time_at(earlier) <= r.time_at(later),
{
}

} // verus!
