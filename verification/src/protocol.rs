//! The values that cross the serial link.

use vstd::prelude::*;

verus! {

/// A request from the host to the node.
#[derive(Debug, Clone, Copy, PartialEq, Eq, Structural)]
pub enum Command {
    SetBlinker(BlinkerOptions),
    SetDateTime(DateTime),
    RgbOn,
    RgbOff,
}

/// What the blinking indicator is asked to do.  `freq` is in toggles per
/// second and `duration` in seconds; a command with `freq == 0` is turned
/// down before it is stored.
#[derive(Debug, Clone, Copy, PartialEq, Eq, Structural)]
pub enum BlinkerOptions {
    Off,
    On { date_time: DateTime, freq: u64, duration: u64 },
}

/// A point in time: the moment the command is accepted, or an absolute
/// count of seconds on the virtual clock.
#[derive(Debug, Clone, Copy, PartialEq, Eq, Structural)]
pub enum DateTime {
    Now,
    Utc(u64),
}

/// The node's answer to one frame.
#[derive(Debug, Clone, Copy, PartialEq, Eq, Structural)]
pub enum Ack {
    /// Accepted as received.
    Okay,
    /// Accepted after the error correction repaired at least one bit.
    Recovered,
    /// Rejected: malformed, invalid, or sent before the time was set.
    NotOk,
}

/// Why a frame could not be turned back into a value.
#[derive(Debug, Clone, Copy, PartialEq, Eq, Structural)]
pub enum DeserializeError {
    /// The byte stuffing is broken.
    DecodeError,
    /// The payload is not an encoding of the expected type.
    DeserializeError,
    /// The checksum does not match the payload.
    CrcError,
    /// A received byte has two wrong bits.
    HammingError,
}

impl BlinkerOptions {
    /// Whether these options may be stored: blinking needs a frequency.
    pub open spec fn valid(self) -> bool {
        self matches BlinkerOptions::On { freq, .. } ==> freq != 0
    }

    /// Whether these options name `Now` as their start.
    pub open spec fn starts_now(self) -> bool {
        self matches BlinkerOptions::On { date_time: DateTime::Now, .. }
    }

    /// Whether these options may be stored.
    pub fn is_valid(&self) -> (r: bool)
        ensures
            r == self.valid(),
    {
        match *self {
            BlinkerOptions::Off => true,
            BlinkerOptions::On { date_time: _, freq, duration: _ } => freq != 0,
        }
    }

    /// Whether these options name `Now` as their start.
    pub fn is_relative(&self) -> (r: bool)
        ensures
            r == self.starts_now(),
    {
        match *self {
            BlinkerOptions::On { date_time: DateTime::Now, freq: _, duration: _ } => true,
            _ => false,
        }
    }
}

} // verus!
