use sk9822::led_buffer::LedBuffer;
use sk9822::pixel::Pixel;
use sk9822::send::{sampled, LineOp, Transmitter, SK9822BitBang, SK9822I2s};

fn bits_msb_first(bytes: &[u8]) -> Vec<bool> {
    let mut bits = Vec::new();
    for &b in bytes {
        for k in (0..8).rev() {
            bits.push((b >> k) & 1 == 1);
        }
    }
    bits
}

#[test]
fn bitbang_framing_end_to_end() {
    // one-pixel frame: red=255, green=0, blue=128, brightness=10
    let mut buf: LedBuffer<1> = LedBuffer::new();
    buf.fill_with(0, 10, |_, _, brightness| Pixel::rgb(255, 0, 128, brightness));
    let bytes = buf.to_bytes();

    let mut tx = SK9822BitBang::new();
    tx.send(&bytes, 0).unwrap();
    let wire = sampled(tx.ops());

    let expected_bytes: [u8; 12] = [
        0x00, 0x00, 0x00, 0x00, // start marker
        0xFF, 0x00, 0x80, 0xEA, // red, green, blue, intensity
        0xFF, 0xFF, 0xFF, 0xFF, // end marker
    ];
    let expected = bits_msb_first(&expected_bytes);
    assert_eq!(wire.len(), 96);
    assert_eq!(wire, expected);
}

#[test]
fn bitbang_delay_changes_timing_not_payload() {
    let payload: [u8; 3] = [0xA5, 0x00, 0xFF];
    let mut fast = SK9822BitBang::new();
    fast.send(&payload, 0).unwrap();
    let mut slow = SK9822BitBang::new();
    slow.send(&payload, 7).unwrap();
    // the delayed plan is longer on the wire clock, byte-identical as a payload
    assert!(slow.ops().len() > fast.ops().len());
    assert_eq!(sampled(fast.ops()), sampled(slow.ops()));
    assert!(slow.ops().iter().any(|op| matches!(op, LineOp::Wait(7))));
    assert!(!fast.ops().iter().any(|op| matches!(op, LineOp::Wait(_))));
}

#[test]
fn bitbang_leaves_lines_idle_high() {
    let payload: [u8; 1] = [0x12];
    let mut tx = SK9822BitBang::new();
    tx.send(&payload, 0).unwrap();
    let ops = tx.ops();
    assert_eq!(ops[ops.len() - 2], LineOp::ClockHigh);
    assert_eq!(ops[ops.len() - 1], LineOp::DataHigh);
}

#[test]
fn transmitters_are_interchangeable() {
    let mut buf: LedBuffer<3> = LedBuffer::new();
    buf.fill_with(4, 17, |id, frame, brightness| {
        Pixel::rgb(id as u8 * 40, frame as u8, 200, brightness)
    });
    let bytes = buf.to_bytes();

    let mut bang = SK9822BitBang::new();
    let mut clocked = SK9822I2s::new();
    send_frame(&mut bang, &bytes);
    send_frame(&mut clocked, &bytes);

    // identical logical payloads, timing artifacts aside
    let bang_bits = sampled(bang.ops());
    let clocked_bits = bits_msb_first(clocked.written());
    assert_eq!(bang_bits, clocked_bits);
    assert_eq!(clocked.written(), &bytes[..]);
}

// both variants behind the one capability, as the control loop uses them
fn send_frame<T: Transmitter>(tx: &mut T, bytes: &[u8]) {
    tx.send(bytes, 0).unwrap();
}

#[test]
fn empty_payload_sends_no_bits() {
    let mut tx = SK9822BitBang::new();
    tx.send(&[], 0).unwrap();
    assert_eq!(tx.ops().len(), 2);
    assert_eq!(sampled(tx.ops()).len(), 0);
}
