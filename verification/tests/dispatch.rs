use lumen_controller::atomic_channel::AtomicChannel;
use lumen_controller::message_controller::{HandleError, MessageController};
use lumen_controller::messages::rgb8::{ColorFrame, Rgb8};
use lumen_controller::messages::DecodeError;

fn le64(v: u64) -> [u8; 8] {
    let mut b = [0u8; 8];
    let mut x = v;
    for i in 0..8 {
        b[i] = (x % 256) as u8;
        x /= 256;
    }
    b
}

fn led_frame_datagram(timestamp: u64, colors: &[(u8, u8, u8)]) -> Vec<u8> {
    let mut buf = Vec::new();
    buf.extend_from_slice(&le64(timestamp));
    buf.extend_from_slice(&[2, 0]);
    let n = colors.len() as u16;
    buf.extend_from_slice(&[(n % 256) as u8, (n / 256) as u8]);
    for &(r, g, b) in colors {
        buf.push(r);
        buf.push(g);
        buf.push(b);
    }
    buf
}

fn keepalive_datagram(timestamp: u64, duration_ms: u32) -> Vec<u8> {
    let mut buf = Vec::new();
    buf.extend_from_slice(&le64(timestamp));
    buf.extend_from_slice(&[1, 0]);
    let mut d = duration_ms;
    for _ in 0..4 {
        buf.push((d % 256) as u8);
        d /= 256;
    }
    buf
}

fn empty_datagram(timestamp: u64) -> Vec<u8> {
    let mut buf = Vec::new();
    buf.extend_from_slice(&le64(timestamp));
    buf.extend_from_slice(&[0, 0]);
    buf
}

fn expect_frame(channel: &mut AtomicChannel<ColorFrame>, colors: &[(u8, u8, u8)]) {
    let frame = channel.recv().expect("a frame should be pending");
    assert_eq!(frame.len(), colors.len());
    for (i, &(r, g, b)) in colors.iter().enumerate() {
        assert_eq!(frame.get(i), Rgb8 { r, g, b });
    }
}

#[test]
fn newer_timestamp_supersedes_older() {
    let mut controller = MessageController::new();
    let mut led = AtomicChannel::new();
    let mut keep_alive = AtomicChannel::new();

    let a = led_frame_datagram(1, &[(10, 0, 0)]);
    let b = led_frame_datagram(2, &[(0, 20, 0)]);
    assert_eq!(controller.handle_msg_lumen(&a, &mut led, &mut keep_alive), Ok(()));
    assert_eq!(controller.handle_msg_lumen(&b, &mut led, &mut keep_alive), Ok(()));

    // Without an intervening receive, only B's frame is left.
    expect_frame(&mut led, &[(0, 20, 0)]);
    assert_eq!(led.recv(), None);
}

#[test]
fn stale_timestamp_is_rejected() {
    let mut controller = MessageController::new();
    let mut led = AtomicChannel::new();
    let mut keep_alive = AtomicChannel::new();

    let b = led_frame_datagram(2, &[(0, 20, 0)]);
    let a = led_frame_datagram(1, &[(10, 0, 0)]);
    assert_eq!(controller.handle_msg_lumen(&b, &mut led, &mut keep_alive), Ok(()));
    assert_eq!(controller.handle_msg_lumen(&a, &mut led, &mut keep_alive), Err(HandleError::Stale));

    // The visible state remains B's.
    expect_frame(&mut led, &[(0, 20, 0)]);
}

#[test]
fn equal_timestamp_is_rejected() {
    let mut controller = MessageController::new();
    let mut led = AtomicChannel::new();
    let mut keep_alive = AtomicChannel::new();

    let first = led_frame_datagram(5, &[(1, 1, 1)]);
    let duplicate = led_frame_datagram(5, &[(2, 2, 2)]);
    assert_eq!(controller.handle_msg_lumen(&first, &mut led, &mut keep_alive), Ok(()));
    assert_eq!(
        controller.handle_msg_lumen(&duplicate, &mut led, &mut keep_alive),
        Err(HandleError::Stale)
    );
    expect_frame(&mut led, &[(1, 1, 1)]);
}

#[test]
fn kinds_are_filtered_independently() {
    let mut controller = MessageController::new();
    let mut led = AtomicChannel::new();
    let mut keep_alive = AtomicChannel::new();

    // A keepalive at timestamp 10, then a stale keepalive at 3: rejected.
    assert_eq!(
        controller.handle_msg_lumen(&keepalive_datagram(10, 800), &mut led, &mut keep_alive),
        Ok(())
    );
    assert_eq!(
        controller.handle_msg_lumen(&keepalive_datagram(3, 900), &mut led, &mut keep_alive),
        Err(HandleError::Stale)
    );

    // A fresh LedFrame at timestamp 4 is not blocked by the keepalive's 10.
    assert_eq!(
        controller.handle_msg_lumen(&led_frame_datagram(4, &[(9, 9, 9)]), &mut led, &mut keep_alive),
        Ok(())
    );
    expect_frame(&mut led, &[(9, 9, 9)]);

    // And a stale LedFrame does not block a fresh keepalive.
    assert_eq!(
        controller.handle_msg_lumen(&led_frame_datagram(2, &[(1, 1, 1)]), &mut led, &mut keep_alive),
        Err(HandleError::Stale)
    );
    assert_eq!(
        controller.handle_msg_lumen(&keepalive_datagram(11, 700), &mut led, &mut keep_alive),
        Ok(())
    );
    assert_eq!(keep_alive.recv(), Some(700));
}

#[test]
fn first_timestamp_is_accepted_unconditionally() {
    let mut controller = MessageController::new();
    let mut led = AtomicChannel::new();
    let mut keep_alive = AtomicChannel::new();

    // Even timestamp zero passes a kind's first check.
    assert_eq!(
        controller.handle_msg_lumen(&led_frame_datagram(0, &[(4, 4, 4)]), &mut led, &mut keep_alive),
        Ok(())
    );
    expect_frame(&mut led, &[(4, 4, 4)]);
}

#[test]
fn empty_command_touches_no_slot() {
    let mut controller = MessageController::new();
    let mut led = AtomicChannel::new();
    let mut keep_alive = AtomicChannel::new();

    assert_eq!(controller.handle_msg_lumen(&empty_datagram(1), &mut led, &mut keep_alive), Ok(()));
    assert_eq!(led.recv(), None);
    assert_eq!(keep_alive.recv(), None);
}

#[test]
fn keepalive_is_routed_to_its_slot() {
    let mut controller = MessageController::new();
    let mut led = AtomicChannel::new();
    let mut keep_alive = AtomicChannel::new();

    assert_eq!(
        controller.handle_msg_lumen(&keepalive_datagram(1, 1234), &mut led, &mut keep_alive),
        Ok(())
    );
    assert_eq!(led.recv(), None);
    assert_eq!(keep_alive.recv(), Some(1234));
}

#[test]
fn malformed_datagram_has_no_effect() {
    let mut controller = MessageController::new();
    let mut led = AtomicChannel::new();
    let mut keep_alive = AtomicChannel::new();

    assert_eq!(
        controller.handle_msg_lumen(&[1, 2, 3], &mut led, &mut keep_alive),
        Err(HandleError::Decode(DecodeError::Truncated))
    );
    assert_eq!(led.recv(), None);
    assert_eq!(keep_alive.recv(), None);

    // A decode failure leaves the filter untouched: timestamp 1 still works.
    let mut bad = led_frame_datagram(9, &[(1, 1, 1)]);
    bad.truncate(bad.len() - 1);
    assert_eq!(
        controller.handle_msg_lumen(&bad, &mut led, &mut keep_alive),
        Err(HandleError::Decode(DecodeError::Truncated))
    );
    assert_eq!(
        controller.handle_msg_lumen(&led_frame_datagram(1, &[(2, 2, 2)]), &mut led, &mut keep_alive),
        Ok(())
    );
    expect_frame(&mut led, &[(2, 2, 2)]);
}
