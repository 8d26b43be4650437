use vstd::prelude::*;
use crate::messages::rgb8::{ColorFrame, Rgb8};

verus! {

/// Carrier rate of the strip's self-clocked one-wire protocol, in
/// kilohertz; fixed by the LED hardware.
pub const WS2812_CARRIER_KHZ: u32 = 800;

/// PIO cycles of a bit's leading high segment.
pub const T1: u8 = 2;

/// PIO cycles of a bit's data segment, high for a one and low for a zero.
pub const T2: u8 = 5;

/// PIO cycles of a bit's trailing low segment.
pub const T3: u8 = 3;

/// PIO cycles per transmitted bit.
pub const CYCLES_PER_BIT: u32 = 10;

/// Quiet microseconds the strip needs after a frame to latch it before
/// another frame may start.
pub const LATCH_INTERVAL_MICROS: u64 = 300;

/// The three phases partition each bit's fixed-width cycle: the 2:5:3
/// ratio is the hardware's timing contract, not a tunable.
pub proof fn lemma_bit_phases()
    ensures
        T1 as u32 + T2 as u32 + T3 as u32 == CYCLES_PER_BIT,
{
}

/// One color in the strip's native channel order: green, red, blue, each
/// eight bits, packed from the word's top down; the low byte stays clear.
pub open spec fn spec_grb_word(c: Rgb8) -> u32 {
    ((c.g as u32) << 24) | ((c.r as u32) << 16) | ((c.b as u32) << 8)
}

/// Repacks one color for transmission.
pub fn grb_word(c: Rgb8) -> (w: u32)
    ensures
        w == spec_grb_word(c),
{
    ((c.g as u32) << 24) | ((c.r as u32) << 16) | ((c.b as u32) << 8)
}

/// The words a frame transmits: one per supplied color, in the frame's
/// order, and none beyond them — no implicit padding to full capacity.
pub fn pack_frame(frame: &ColorFrame) -> (words: Vec<u32>)
    ensures
        words@.len() == frame@.len(),
        forall|i: int| 0 <= i < frame@.len() ==> words@[i] == spec_grb_word(frame@[i]),
{
    let mut words: Vec<u32> = Vec::new();
    let n = frame.len();
    let mut i: usize = 0;
    while i < n
        invariant
            i <= n,
            n == frame@.len(),
            words@.len() == i,
            forall|j: int| 0 <= j < i ==> words@[j] == spec_grb_word(frame@[j]),
        decreases n - i,
    {
        let w = grb_word(frame.get(i));
        words.push(w);
        i = i + 1;
    }
    words
}

} // verus!
