//! Protocol and scheduling engine of a serial-controlled indicator node.
//!
//! The node receives commands over a serial link and drives a blinking
//! indicator and a colour indicator whose colour follows the time of day.
//! This crate holds everything that decides or computes: the Hamming(8,4)
//! code, the frame codec, the link receiver, the command dispatcher, the
//! virtual clock, the two output schedulers and the host's request/response
//! exchange.  Interrupts, timers, pins and ports stay with the caller.

pub mod blink;
pub mod clock;
pub mod codec;
pub mod dispatcher;
pub mod exchange;
pub mod hamming;
pub mod mailbox;
pub mod protocol;
pub mod receiver;
pub mod rgb;
pub mod state;
pub mod wire;

pub use crate::codec::{deserialize_crc_cobs, serialize_crc_cobs, IN_SIZE, OUT_SIZE};
pub use crate::protocol::{Ack, BlinkerOptions, Command, DateTime, DeserializeError};
