use vstd::prelude::*;

pub mod atomic_channel;
pub mod message_controller;
pub mod messages;
pub mod timestamp_map;
pub mod watchdog;
pub mod ws2812;

verus! {

/// Upper bound on the number of addressable LEDs in one frame.
pub const MAX_LEDS: usize = 400;

} // verus!
