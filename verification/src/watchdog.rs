use vstd::prelude::*;
use crate::atomic_channel::AtomicChannel;
use crate::messages::rgb8::{ColorFrame, Rgb8};
use crate::MAX_LEDS;

verus! {

/// How long the watchdog waits for a keepalive before it blanks the
/// strip, in milliseconds.
pub const WATCHDOG_TIMEOUT_MS: u64 = 800;

/// What one watchdog round decided: rest for the arriving keepalive's
/// duration, or the wait timed out and the strip was blanked.
#[derive(Debug, Clone, Copy, PartialEq, Eq, Structural)]
pub enum WatchdogOutcome {
    Rest { duration_ms: u32 },
    Blanked,
}

/// A full-capacity, all-black frame: blanking must reach every pixel the
/// strip may have lit, so no length short of the whole strip will do.
pub fn blank_frame() -> (f: ColorFrame)
    ensures
        f@.len() == MAX_LEDS,
        forall|i: int| 0 <= i < MAX_LEDS ==> f@[i] == (Rgb8 { r: 0, g: 0, b: 0 }),
{
    let mut f = ColorFrame::new();
    let mut i: usize = 0;
    while i < MAX_LEDS
        invariant
            i <= MAX_LEDS,
            f@.len() == i,
            forall|j: int| 0 <= j < i ==> f@[j] == (Rgb8 { r: 0, g: 0, b: 0 }),
        decreases MAX_LEDS - i,
    {
        f.push(Rgb8 { r: 0, g: 0, b: 0 });
        i = i + 1;
    }
    f
}

/// One round of the watchdog, entered once its timed wait on the
/// keepalive slot has resolved. A keepalive that arrived in time leaves
/// the frame slot untouched; the caller waits out the returned duration
/// and the strip keeps showing whatever frames arrive. A timeout
/// overwrites whatever frame is pending with a full blank, so a silent
/// sender extinguishes the strip instead of freezing its last image.
pub fn keep_alive_step(
    keepalive: Option<u32>,
    led_channel: &mut AtomicChannel<ColorFrame>,
) -> (outcome: WatchdogOutcome)
    ensures
        keepalive matches Some(d) ==> outcome == (WatchdogOutcome::Rest { duration_ms: d })
            && final(led_channel).pending() == old(led_channel).pending(),
        keepalive is None ==> outcome == WatchdogOutcome::Blanked
            && (final(led_channel).pending() matches Some(f) && f@.len() == MAX_LEDS
            && (forall|i: int| 0 <= i < MAX_LEDS ==> f@[i] == (Rgb8 { r: 0, g: 0, b: 0 }))),
{
    match keepalive {
        Some(duration_ms) => WatchdogOutcome::Rest { duration_ms },
        None => {
            led_channel.send(blank_frame());
            WatchdogOutcome::Blanked
        },
    }
}

} // verus!
