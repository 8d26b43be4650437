use lumen_controller::atomic_channel::{AtomicChannel, RecvPoll};
use lumen_controller::message_controller::MessageController;
use lumen_controller::messages::rgb8::{ColorFrame, Rgb8};
use lumen_controller::watchdog::{blank_frame, keep_alive_step, WatchdogOutcome, WATCHDOG_TIMEOUT_MS};
use lumen_controller::ws2812::{
    grb_word, pack_frame, CYCLES_PER_BIT, LATCH_INTERVAL_MICROS, T1, T2, T3, WS2812_CARRIER_KHZ,
};
use lumen_controller::MAX_LEDS;

fn frame_of(colors: &[(u8, u8, u8)]) -> ColorFrame {
    let mut f = ColorFrame::new();
    for &(r, g, b) in colors {
        f.push(Rgb8 { r, g, b });
    }
    f
}

#[test]
fn second_send_wins() {
    let mut slot: AtomicChannel<ColorFrame> = AtomicChannel::new();
    slot.send(frame_of(&[(1, 0, 0)]));
    slot.send(frame_of(&[(0, 2, 0)]));
    let got = slot.recv().expect("a frame should be pending");
    assert_eq!(got, frame_of(&[(0, 2, 0)]));
    assert_eq!(slot.recv(), None);
}

#[test]
fn recv_on_empty_slot_is_none() {
    let mut slot: AtomicChannel<u32> = AtomicChannel::new();
    assert_eq!(slot.recv(), None);
}

#[test]
fn timed_receive_delivers_or_times_out() {
    let mut slot: AtomicChannel<u32> = AtomicChannel::new();
    assert_eq!(slot.recv_with_timeout_step(0, 800), RecvPoll::KeepWaiting);
    assert_eq!(slot.recv_with_timeout_step(799, 800), RecvPoll::KeepWaiting);
    assert_eq!(slot.recv_with_timeout_step(800, 800), RecvPoll::TimedOut);
    slot.send(7);
    assert_eq!(slot.recv_with_timeout_step(900, 800), RecvPoll::Delivered(7));
    assert_eq!(slot.recv(), None);
}

#[test]
fn watchdog_timeout_blanks_the_whole_strip() {
    let mut led: AtomicChannel<ColorFrame> = AtomicChannel::new();
    led.send(frame_of(&[(9, 9, 9)]));

    let outcome = keep_alive_step(None, &mut led);
    assert_eq!(outcome, WatchdogOutcome::Blanked);

    let frame = led.recv().expect("the blank frame should be pending");
    assert_eq!(frame.len(), MAX_LEDS);
    for i in 0..MAX_LEDS {
        assert_eq!(frame.get(i), Rgb8 { r: 0, g: 0, b: 0 });
    }
}

#[test]
fn watchdog_keepalive_leaves_frames_alone() {
    let mut led: AtomicChannel<ColorFrame> = AtomicChannel::new();
    led.send(frame_of(&[(3, 2, 1)]));

    let outcome = keep_alive_step(Some(250), &mut led);
    assert_eq!(outcome, WatchdogOutcome::Rest { duration_ms: 250 });

    // Normal frames resume unaltered after a keepalive.
    assert_eq!(led.recv(), Some(frame_of(&[(3, 2, 1)])));
}

#[test]
fn watchdog_window_is_fixed() {
    assert_eq!(WATCHDOG_TIMEOUT_MS, 800);
}

#[test]
fn blank_frame_is_full_capacity() {
    let f = blank_frame();
    assert_eq!(f.len(), 400);
}

#[test]
fn grb_word_reorders_channels() {
    assert_eq!(grb_word(Rgb8 { r: 255, g: 0, b: 0 }), 0x00ff_0000);
    assert_eq!(grb_word(Rgb8 { r: 0, g: 255, b: 0 }), 0xff00_0000);
    assert_eq!(grb_word(Rgb8 { r: 0, g: 0, b: 255 }), 0x0000_ff00);
    assert_eq!(grb_word(Rgb8 { r: 0x12, g: 0x34, b: 0x56 }), 0x3412_5600);
}

#[test]
fn pack_frame_emits_one_word_per_color_only() {
    let frame = frame_of(&[(255, 0, 0), (0, 255, 0)]);
    let words = pack_frame(&frame);
    assert_eq!(words, vec![0x00ff_0000, 0xff00_0000]);
}

#[test]
fn strip_timing_constants_are_fixed() {
    assert_eq!(WS2812_CARRIER_KHZ, 800);
    assert_eq!(LATCH_INTERVAL_MICROS, 300);
    assert_eq!((T1, T2, T3), (2, 5, 3));
    assert_eq!(T1 as u32 + T2 as u32 + T3 as u32, CYCLES_PER_BIT);
}

#[test]
fn end_to_end_two_pixel_frame() {
    // [u64=1][u16=2][u16=2][255,0,0][0,255,0]
    let payload: Vec<u8> = vec![
        1, 0, 0, 0, 0, 0, 0, 0, // timestamp 1
        2, 0, // kind: LedFrame
        2, 0, // two colors
        255, 0, 0, // red
        0, 255, 0, // green
    ];

    let mut controller = MessageController::new();
    let mut led: AtomicChannel<ColorFrame> = AtomicChannel::new();
    let mut keep_alive: AtomicChannel<u32> = AtomicChannel::new();
    assert_eq!(controller.handle_msg_lumen(&payload, &mut led, &mut keep_alive), Ok(()));

    // Dispatch delivered exactly this frame: red then green.
    let frame = led.recv().expect("the decoded frame should be pending");
    assert_eq!(frame, frame_of(&[(255, 0, 0), (0, 255, 0)]));

    // The writer transmits exactly two units, in strip channel order.
    let words = pack_frame(&frame);
    assert_eq!(words.len(), 2);
    assert_eq!(words, vec![0x00ff_0000, 0xff00_0000]);
    assert_eq!(keep_alive.recv(), None);
}
