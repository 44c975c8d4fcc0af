//! A single LED's color and intensity, encoded as the 4-byte wire record.

use vstd::prelude::*;

verus! {

/// The fixed protocol header occupying the top 3 bits of the intensity byte.
pub const INTENSITY_HEADER: u8 = 0xE0;

/// Number of brightness levels; the 5-bit brightness field is `0..32`.
pub const BRIGHTNESS_LEVELS: u8 = 32;

/// One LED's color plus intensity, laid out exactly as the wire record:
/// red, green, blue, then the intensity byte. The intensity byte packs the
/// fixed 3-bit header in its top bits and the 5-bit brightness level below.
///
/// A pixel is a value type: copied freely, never mutated after construction.
#[derive(Copy, Clone, PartialEq, Eq, Structural, Debug)]
pub struct Pixel {
    red: u8,
    green: u8,
    blue: u8,
    intensity: u8,
}

/// The 4-byte record of a color pixel: channels in declared field order,
/// intensity byte last, with the header bits forced high.
pub open spec fn rgb_record(red: u8, green: u8, blue: u8, brightness: u8) -> Seq<u8> {
    seq![red, green, blue, brightness | INTENSITY_HEADER]
}

/// The start-of-frame marker record: four zero bytes.
pub open spec fn start_record() -> Seq<u8> {
    seq![0u8, 0u8, 0u8, 0u8]
}

/// The end-of-frame marker record: four 0xFF bytes.
pub open spec fn end_record() -> Seq<u8> {
    seq![0xFFu8, 0xFFu8, 0xFFu8, 0xFFu8]
}

impl View for Pixel {
    type V = Seq<u8>;

    /// A pixel is abstractly its 4-byte wire record.
    closed spec fn view(&self) -> Seq<u8> {
        seq![self.red, self.green, self.blue, self.intensity]
    }
}

impl Pixel {
    /// Every pixel's record is exactly 4 bytes long.
    pub proof fn lemma_record_len(self)
        ensures
            self@.len() == 4,
    {
    }

    /// Build a color pixel. Brightness must be a 5-bit level; anything
    /// larger would corrupt the header bits of the intensity byte.
    pub fn rgb(red: u8, green: u8, blue: u8, brightness: u8) -> (p: Pixel)
        requires
            brightness < BRIGHTNESS_LEVELS,
        ensures
            p@ == rgb_record(red, green, blue, brightness),
    {
        Pixel { red, green, blue, intensity: brightness | INTENSITY_HEADER }
    }

    /// Build a color pixel, rejecting an out-of-range brightness instead of
    /// treating it as a caller error: `Some` exactly when `brightness` is a
    /// valid 5-bit level.
    pub fn checked_rgb(red: u8, green: u8, blue: u8, brightness: u8) -> (p: Option<Pixel>)
        ensures
            match p {
                Some(q) => brightness < BRIGHTNESS_LEVELS && q@ == rgb_record(
                    red,
                    green,
                    blue,
                    brightness,
                ),
                None => brightness >= BRIGHTNESS_LEVELS,
            },
    {
        if brightness < BRIGHTNESS_LEVELS {
            Some(Pixel::rgb(red, green, blue, brightness))
        } else {
            None
        }
    }

    /// Pick a color out of a flat RGB byte image, wrapping around the image:
    /// the pixel index advances by columns, the frame counter by rows. The
    /// wrapped offset must leave room for a whole triple; an image of whole
    /// RGB triples always does (`lemma_whole_triples_fit`).
    pub fn image(bytes: &[u8], x: usize, y: usize, brightness: u8) -> (p: Pixel)
        requires
            brightness < BRIGHTNESS_LEVELS,
            bytes@.len() > 0,
            x + y * 72 <= usize::MAX / 3,
            image_pos(x as int, y as int, bytes@.len() as int) + 2 < bytes@.len(),
        ensures
            p@ == rgb_record(
                bytes@[image_pos(x as int, y as int, bytes@.len() as int)],
                bytes@[image_pos(x as int, y as int, bytes@.len() as int) + 1],
                bytes@[image_pos(x as int, y as int, bytes@.len() as int) + 2],
                brightness,
            ),
    {
        let pos: usize = (x + y * 72) * 3 % bytes.len();
        Pixel::rgb(bytes[pos], bytes[pos + 1], bytes[pos + 2], brightness)
    }

    /// The start-of-frame marker. Not a valid color pixel: its intensity
    /// byte carries no header bits.
    pub fn start() -> (p: Pixel)
        ensures
            p@ == start_record(),
    {
        Pixel { red: 0, green: 0, blue: 0, intensity: 0 }
    }

    /// The end-of-frame marker: all bytes high.
    pub fn end() -> (p: Pixel)
        ensures
            p@ == end_record(),
    {
        Pixel { red: 0xFF, green: 0xFF, blue: 0xFF, intensity: 0xFF }
    }

    /// The red channel byte of the record.
    pub fn red(&self) -> (r: u8)
        ensures
            r == self@[0],
    {
        self.red
    }

    /// The green channel byte of the record.
    pub fn green(&self) -> (r: u8)
        ensures
            r == self@[1],
    {
        self.green
    }

    /// The blue channel byte of the record.
    pub fn blue(&self) -> (r: u8)
        ensures
            r == self@[2],
    {
        self.blue
    }

    /// The raw intensity byte of the record: header bits plus brightness.
    pub fn intensity(&self) -> (r: u8)
        ensures
            r == self@[3],
    {
        self.intensity
    }

    /// The decoded 5-bit brightness level of the record.
    pub fn brightness(&self) -> (r: u8)
        ensures
            r == self@[3] & 0x1F,
    {
        self.intensity & 0x1F
    }
}

/// Offset of a strip/frame position inside a flat RGB byte image.
pub open spec fn image_pos(x: int, y: int, len: int) -> int {
    ((x + y * 72) * 3) % len
}

/// In an image made of whole RGB triples, every wrapped offset is a
/// multiple of 3 and so leaves room for a whole triple: such an image
/// meets `Pixel::image`'s range condition at every position.
pub proof fn lemma_whole_triples_fit(x: int, y: int, len: int)
    requires
        len > 0,
        len % 3 == 0,
        x >= 0,
        y >= 0,
    ensures
        0 <= image_pos(x, y, len),
        image_pos(x, y, len) + 2 < len,
{
    let k = x + y * 72;
    let m = len / 3;
    vstd::arithmetic::div_mod::lemma_fundamental_div_mod(len, 3);
    assert(len == 3 * m);
    vstd::arithmetic::div_mod::lemma_truncate_middle(k, 3, m);
    assert((3 * k) % (3 * m) == 3 * (k % m));
    assert(0 <= k % m < m);
}

/// Encoding then decoding a color record recovers the exact channels and
/// brightness, and the top 3 bits of the intensity byte are always set.
pub proof fn lemma_pixel_roundtrip(red: u8, green: u8, blue: u8, brightness: u8)
    requires
        brightness < BRIGHTNESS_LEVELS,
    ensures
        rgb_record(red, green, blue, brightness)[0] == red,
        rgb_record(red, green, blue, brightness)[1] == green,
        rgb_record(red, green, blue, brightness)[2] == blue,
        rgb_record(red, green, blue, brightness)[3] & 0x1F == brightness,
        rgb_record(red, green, blue, brightness)[3] & 0xE0 == 0xE0,
        rgb_record(red, green, blue, brightness).len() == 4,
{
    let b = brightness;
    assert(b < 32 ==> ((b | 0xE0) & 0x1F) == b) by (bit_vector);
    assert(((b | 0xE0) & 0xE0) == 0xE0) by (bit_vector);
}

} // verus!
