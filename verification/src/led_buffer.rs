//! The framed pixel buffer: N addressable colors bracketed by the
//! protocol's start and end markers.

use vstd::prelude::*;

use crate::pixel::{end_record, start_record, Pixel};

verus! {

/// One frame of pixel data for a strip of `N` LEDs. Slot 0 always holds the
/// start marker and slot `N + 1` the end marker; the `N` slots in between
/// are the active window, the only region a pattern may write.
pub struct LedBuffer<const N: usize> {
    buffer: Vec<Pixel>,
}

/// The 4-byte records of a pixel sequence, concatenated in order.
pub open spec fn frame_bytes(ps: Seq<Pixel>) -> Seq<u8>
    decreases ps.len(),
{
    if ps.len() == 0 {
        Seq::empty()
    } else {
        frame_bytes(ps.drop_last()) + ps.last()@
    }
}

/// The 32-bit word a 4-byte record becomes when read back least significant
/// byte first, so that word order equals byte order on a little-endian wire.
pub open spec fn le_word(rec: Seq<u8>) -> u32
    recommends
        rec.len() == 4,
{
    (rec[0] + rec[1] * 0x100 + rec[2] * 0x10000 + rec[3] * 0x1000000) as u32
}

impl<const N: usize> View for LedBuffer<N> {
    type V = Seq<Pixel>;

    /// A frame is abstractly its full pixel sequence, markers included.
    closed spec fn view(&self) -> Seq<Pixel> {
        self.buffer@
    }
}

impl<const N: usize> LedBuffer<N> {
    /// The frame invariant: full length, start marker first, end marker last.
    pub open spec fn wf(&self) -> bool {
        &&& self@.len() == N + 2
        &&& self@[0]@ == start_record()
        &&& self@[N + 1]@ == end_record()
    }

    /// Allocate the frame: the start marker, then `N + 1` end markers, so
    /// the active window holds a safe default until the first fill.
    pub fn new() -> (b: Self)
        requires
            N + 2 <= usize::MAX,
        ensures
            b.wf(),
            forall|i: int| 1 <= i <= N ==> b@[i]@ == end_record(),
    {
        let mut buffer: Vec<Pixel> = Vec::new();
        buffer.push(Pixel::start());
        let mut i: usize = 0;
        while i < N + 1
            invariant
                i <= N + 1,
                N + 2 <= usize::MAX,
                buffer@.len() == i + 1,
                buffer@[0]@ == start_record(),
                forall|j: int| 1 <= j <= i ==> buffer@[j]@ == end_record(),
            decreases N + 1 - i,
        {
            buffer.push(Pixel::end());
            i = i + 1;
        }
        LedBuffer { buffer }
    }

    /// The active window: the `N` color slots between the markers.
    pub fn data(&self) -> (r: &[Pixel])
        requires
            self.wf(),
        ensures
            r@ == self@.subrange(1, N + 1),
    {
        let n = self.buffer.len();
        vstd::slice::slice_subrange(self.buffer.as_slice(), 1, n - 1)
    }

    /// Mutable access to one slot of the active window; the markers stay
    /// out of reach whatever the caller writes through the reference.
    pub fn data_mut(&mut self, i: usize) -> (p: &mut Pixel)
        requires
            old(self).wf(),
            i < N,
        ensures
            *p == old(self)@[i + 1],
            final(self)@ == old(self)@.update(i + 1, *final(p)),
            final(self).wf(),
    {
        &mut self.buffer[i + 1]
    }

    /// Overwrite the active window with one generated color per slot. The
    /// generator is a pure function of the slot index, the frame counter
    /// and the global brightness; the markers are never touched.
    pub fn fill_with<F: Fn(usize, usize, u8) -> Pixel>(
        &mut self,
        frame: usize,
        brightness: u8,
        gen: F,
    )
        requires
            old(self).wf(),
            forall|i: usize| i < N ==> call_requires(gen, (i, frame, brightness)),
        ensures
            final(self).wf(),
            final(self)@.len() == old(self)@.len(),
            final(self)@[0] == old(self)@[0],
            final(self)@[N + 1] == old(self)@[N + 1],
            forall|i: int|
                1 <= i <= N ==> call_ensures(
                    gen,
                    ((i - 1) as usize, frame, brightness),
                    #[trigger] final(self)@[i],
                ),
    {
        let mut i: usize = 0;
        while i < N
            invariant
                i <= N,
                self@.len() == old(self)@.len(),
                self@.len() == N + 2,
                self@[0] == old(self)@[0],
                self@[N + 1] == old(self)@[N + 1],
                self.wf(),
                forall|k: usize| k < N ==> call_requires(gen, (k, frame, brightness)),
                forall|j: int|
                    1 <= j <= i ==> call_ensures(
                        gen,
                        ((j - 1) as usize, frame, brightness),
                        #[trigger] self@[j],
                    ),
            decreases N - i,
        {
            let p = gen(i, frame, brightness);
            self.buffer[i + 1] = p;
            i = i + 1;
        }
    }

    /// The whole frame, one little-endian 32-bit word per pixel record.
    pub fn to_u32(&self) -> (r: Vec<u32>)
        requires
            self.wf(),
        ensures
            r@.len() == N + 2,
            forall|i: int| 0 <= i < N + 2 ==> r@[i] == le_word(self@[i]@),
    {
        let mut words: Vec<u32> = Vec::new();
        let mut i: usize = 0;
        while i < self.buffer.len()
            invariant
                self.wf(),
                i <= self@.len(),
                self@.len() == N + 2,
                words@.len() == i,
                forall|j: int| 0 <= j < i ==> words@[j] == le_word(self@[j]@),
            decreases self@.len() - i,
        {
            let px = self.buffer[i];
            proof {
                px.lemma_record_len();
            }
            let w: u32 = px.red() as u32 + px.green() as u32 * 0x100 + px.blue() as u32 * 0x10000
                + px.intensity() as u32 * 0x1000000;
            words.push(w);
            i = i + 1;
        }
        words
    }

    /// The whole frame as raw bytes in wire order: each pixel's 4-byte
    /// record in sequence, markers included. The first four bytes are
    /// always the start marker and the last four the end marker.
    pub fn to_bytes(&self) -> (r: Vec<u8>)
        requires
            self.wf(),
        ensures
            r@ == frame_bytes(self@),
            r@.len() == 4 * (N + 2),
            r@.subrange(0, 4) == start_record(),
            r@.subrange(r@.len() - 4, r@.len() as int) == end_record(),
    {
        let mut bytes: Vec<u8> = Vec::new();
        let mut i: usize = 0;
        while i < self.buffer.len()
            invariant
                self.wf(),
                i <= self@.len(),
                self@.len() == N + 2,
                bytes@ == frame_bytes(self@.take(i as int)),
                bytes@.len() == 4 * i,
            decreases self@.len() - i,
        {
            let px = self.buffer[i];
            proof {
                px.lemma_record_len();
                assert(self@.take(i + 1).drop_last() =~= self@.take(i as int));
                assert(self@.take(i + 1).last() == self@[i as int]);
            }
            bytes.push(px.red());
            bytes.push(px.green());
            bytes.push(px.blue());
            bytes.push(px.intensity());
            proof {
                assert(bytes@ =~= frame_bytes(self@.take(i as int)) + self@[i as int]@);
            }
            i = i + 1;
        }
        proof {
            assert(self@.take(self@.len() as int) =~= self@);
            lemma_frame_bracketing(self@);
        }
        bytes
    }
}

/// Every record in a frame byte view is 4 bytes, so the view's length is
/// four times the pixel count.
pub proof fn lemma_frame_bytes_len(ps: Seq<Pixel>)
    ensures
        frame_bytes(ps).len() == 4 * ps.len(),
    decreases ps.len(),
{
    if ps.len() > 0 {
        lemma_frame_bytes_len(ps.drop_last());
        ps.last().lemma_record_len();
    }
}

/// The byte view is a flat reinterpretation of the pixel sequence: pixel
/// `i`'s record occupies exactly bytes `4 * i .. 4 * i + 4`. The word view
/// reads the same storage, one `le_word` per record, so the two read-only
/// views always describe the same frame.
pub proof fn lemma_views_agree(ps: Seq<Pixel>, i: int)
    requires
        0 <= i < ps.len(),
    ensures
        frame_bytes(ps).len() == 4 * ps.len(),
        frame_bytes(ps).subrange(4 * i, 4 * i + 4) == ps[i]@,
    decreases ps.len(),
{
    lemma_frame_bytes_len(ps);
    lemma_frame_bytes_len(ps.drop_last());
    ps.last().lemma_record_len();
    if i == ps.len() - 1 {
        assert(frame_bytes(ps).subrange(4 * i, 4 * i + 4) =~= ps[i]@);
    } else {
        lemma_views_agree(ps.drop_last(), i);
        assert(ps.drop_last()[i] == ps[i]);
        assert(frame_bytes(ps).subrange(4 * i, 4 * i + 4) =~= frame_bytes(
            ps.drop_last(),
        ).subrange(4 * i, 4 * i + 4));
    }
}

/// Frame bracketing: however the active window was filled, a frame that
/// keeps its markers serializes to bytes that open with the start marker's
/// record and close with the end marker's record.
pub proof fn lemma_frame_bracketing(ps: Seq<Pixel>)
    requires
        ps.len() >= 2,
        ps[0]@ == start_record(),
        ps[ps.len() - 1]@ == end_record(),
    ensures
        frame_bytes(ps).len() == 4 * ps.len(),
        frame_bytes(ps).subrange(0, 4) == start_record(),
        frame_bytes(ps).subrange(frame_bytes(ps).len() - 4, frame_bytes(ps).len() as int)
            == end_record(),
{
    lemma_views_agree(ps, 0);
    lemma_views_agree(ps, ps.len() - 1);
}

} // verus!
