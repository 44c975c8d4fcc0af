use sk9822::led_buffer::LedBuffer;
use sk9822::pixel::Pixel;

#[test]
fn pixel_roundtrip_samples() {
    let channels: [u8; 6] = [0, 1, 127, 128, 254, 255];
    for brightness in 0u8..32 {
        for &red in &channels {
            for &green in &channels {
                for &blue in &channels {
                    let p = Pixel::rgb(red, green, blue, brightness);
                    assert_eq!(p.red(), red);
                    assert_eq!(p.green(), green);
                    assert_eq!(p.blue(), blue);
                    assert_eq!(p.brightness(), brightness);
                    assert_eq!(p.intensity() & 0xE0, 0xE0);
                }
            }
        }
    }
}

#[test]
fn pixel_record_exact() {
    let p = Pixel::rgb(255, 0, 128, 10);
    assert_eq!(p.red(), 255);
    assert_eq!(p.green(), 0);
    assert_eq!(p.blue(), 128);
    assert_eq!(p.intensity(), 0xEA);
    assert_eq!(p.brightness(), 10);
}

#[test]
fn brightness_bound_rejected() {
    assert!(Pixel::checked_rgb(1, 2, 3, 32).is_none());
    assert!(Pixel::checked_rgb(1, 2, 3, 33).is_none());
    assert!(Pixel::checked_rgb(1, 2, 3, 255).is_none());
}

#[test]
fn brightness_bound_accepted() {
    let p = Pixel::checked_rgb(9, 8, 7, 31).unwrap();
    assert_eq!(p.brightness(), 31);
    assert_eq!(p.intensity(), 0xFF);
    let q = Pixel::checked_rgb(9, 8, 7, 0).unwrap();
    assert_eq!(q.brightness(), 0);
    assert_eq!(q.intensity(), 0xE0);
}

#[test]
fn markers_exact() {
    let s = Pixel::start();
    assert_eq!(s.red(), 0);
    assert_eq!(s.green(), 0);
    assert_eq!(s.blue(), 0);
    assert_eq!(s.intensity(), 0);
    let e = Pixel::end();
    assert_eq!(e.red(), 0xFF);
    assert_eq!(e.green(), 0xFF);
    assert_eq!(e.blue(), 0xFF);
    assert_eq!(e.intensity(), 0xFF);
}

#[test]
fn image_picks_triples() {
    let img: [u8; 6] = [1, 2, 3, 4, 5, 6];
    let p = Pixel::image(&img, 1, 0, 5);
    assert_eq!(p.red(), 4);
    assert_eq!(p.green(), 5);
    assert_eq!(p.blue(), 6);
    let q = Pixel::image(&img, 2, 0, 5);
    assert_eq!(q.red(), 1);
    assert_eq!(q.green(), 2);
    assert_eq!(q.blue(), 3);
    let r = Pixel::image(&img, 0, 1, 5);
    assert_eq!(r.red(), 1);
    assert_eq!(r.green(), 2);
    assert_eq!(r.blue(), 3);
}

#[test]
fn new_buffer_is_bracketed_and_blank() {
    let buf: LedBuffer<3> = LedBuffer::new();
    let window = buf.data();
    assert_eq!(window.len(), 3);
    for p in window {
        assert_eq!(p.intensity(), 0xFF);
        assert_eq!(p.red(), 0xFF);
    }
    let bytes = buf.to_bytes();
    assert_eq!(bytes.len(), 4 * 5);
    assert_eq!(&bytes[0..4], &[0, 0, 0, 0]);
    assert_eq!(&bytes[16..20], &[0xFF, 0xFF, 0xFF, 0xFF]);
}

#[test]
fn fill_with_writes_window_only() {
    let mut buf: LedBuffer<4> = LedBuffer::new();
    buf.fill_with(7, 3, |id, frame, brightness| {
        Pixel::rgb(id as u8, frame as u8, 100, brightness)
    });
    let window = buf.data();
    for (id, p) in window.iter().enumerate() {
        assert_eq!(p.red(), id as u8);
        assert_eq!(p.green(), 7);
        assert_eq!(p.blue(), 100);
        assert_eq!(p.brightness(), 3);
    }
    let bytes = buf.to_bytes();
    assert_eq!(&bytes[0..4], &[0, 0, 0, 0]);
    assert_eq!(&bytes[20..24], &[0xFF, 0xFF, 0xFF, 0xFF]);
}

#[test]
fn frame_bracketing_survives_refills() {
    let mut buf: LedBuffer<2> = LedBuffer::new();
    for frame in 0..10usize {
        buf.fill_with(frame, 31, |id, frame, brightness| {
            Pixel::rgb(255 - id as u8, frame as u8, id as u8, brightness)
        });
        let bytes = buf.to_bytes();
        assert_eq!(bytes.len(), 16);
        assert_eq!(&bytes[0..4], &[0, 0, 0, 0]);
        assert_eq!(&bytes[12..16], &[0xFF, 0xFF, 0xFF, 0xFF]);
    }
}

#[test]
fn data_mut_reaches_one_slot() {
    let mut buf: LedBuffer<3> = LedBuffer::new();
    *buf.data_mut(1) = Pixel::rgb(10, 20, 30, 1);
    let window = buf.data();
    assert_eq!(window[0].intensity(), 0xFF);
    assert_eq!(window[1].red(), 10);
    assert_eq!(window[1].green(), 20);
    assert_eq!(window[1].blue(), 30);
    assert_eq!(window[2].intensity(), 0xFF);
    let bytes = buf.to_bytes();
    assert_eq!(&bytes[0..4], &[0, 0, 0, 0]);
    assert_eq!(&bytes[16..20], &[0xFF, 0xFF, 0xFF, 0xFF]);
}

#[test]
fn word_view_matches_byte_view() {
    let mut buf: LedBuffer<1> = LedBuffer::new();
    buf.fill_with(0, 10, |_, _, brightness| Pixel::rgb(255, 0, 128, brightness));
    let words = buf.to_u32();
    assert_eq!(words.len(), 3);
    assert_eq!(words[0], 0);
    assert_eq!(words[1], 0xEA80_00FF);
    assert_eq!(words[2], 0xFFFF_FFFF);
    let bytes = buf.to_bytes();
    for (i, w) in words.iter().enumerate() {
        let le = u32::from_le_bytes([
            bytes[4 * i],
            bytes[4 * i + 1],
            bytes[4 * i + 2],
            bytes[4 * i + 3],
        ]);
        assert_eq!(*w, le);
    }
}
