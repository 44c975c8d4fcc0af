//! The two interchangeable frame transmitters.
//!
//! The bit-banged variant drives a data and a clock line by hand; here it
//! computes the exact sequence of line operations the protocol calls for,
//! and the platform layer replays them on the physical pins. The
//! hardware-clocked variant hands the frame bytes to a clocked serial
//! peripheral unchanged. Both present one capability, `Transmitter`, whose
//! contract ties the logical payload to the frame's bits, so the control
//! loop can use either without changing call sites.

use vstd::prelude::*;

verus! {

/// A platform-level transmission failure, reported once to the caller and
/// never swallowed or retried inside the core.
#[derive(Copy, Clone, PartialEq, Eq, Structural, Debug)]
pub enum IoError {
    /// A pin-level write failed.
    PinWrite,
    /// The peripheral write failed or timed out.
    PeripheralWrite,
}

/// One operation on the two output lines of the bit-banged link.
#[derive(Copy, Clone, PartialEq, Eq, Structural, Debug)]
pub enum LineOp {
    /// Drive the clock line low.
    ClockLow,
    /// Drive the clock line high; the receiver samples the data line here.
    ClockHigh,
    /// Drive the data line low.
    DataLow,
    /// Drive the data line high.
    DataHigh,
    /// Pause for the given number of microseconds.
    Wait(u32),
}

/// Bit `j` of a byte, counting from the most significant bit down.
pub open spec fn bit_of(b: u8, j: int) -> bool
    recommends
        0 <= j < 8,
{
    (b >> ((7 - j) as u8)) & 1u8 == 1u8
}

/// A byte sequence as wire bits: most significant bit first within each
/// byte, bytes in order.
pub open spec fn byte_bits(s: Seq<u8>) -> Seq<bool> {
    Seq::new(s.len() * 8, |k: int| bit_of(s[k / 8], k % 8))
}

/// The clock level an operation leaves behind.
pub open spec fn op_clk(op: LineOp, clk: bool) -> bool {
    match op {
        LineOp::ClockLow => false,
        LineOp::ClockHigh => true,
        _ => clk,
    }
}

/// The data level an operation leaves behind.
pub open spec fn op_data(op: LineOp, data: bool) -> bool {
    match op {
        LineOp::DataLow => false,
        LineOp::DataHigh => true,
        _ => data,
    }
}

/// Whether an operation produces a sampling edge: a low-to-high clock
/// transition.
pub open spec fn op_emits(op: LineOp, clk: bool) -> bool {
    op == LineOp::ClockHigh && !clk
}

/// The clock level after a whole operation sequence.
pub open spec fn clk_after(ops: Seq<LineOp>, clk: bool) -> bool
    decreases ops.len(),
{
    if ops.len() == 0 {
        clk
    } else {
        clk_after(ops.drop_first(), op_clk(ops[0], clk))
    }
}

/// The data level after a whole operation sequence.
pub open spec fn data_after(ops: Seq<LineOp>, data: bool) -> bool
    decreases ops.len(),
{
    if ops.len() == 0 {
        data
    } else {
        data_after(ops.drop_first(), op_data(ops[0], data))
    }
}

/// What a receiver on the far end of the two lines reads: the data level
/// at every low-to-high clock transition, given the lines start at the
/// given levels.
pub open spec fn sampled_from(ops: Seq<LineOp>, clk: bool, data: bool) -> Seq<bool>
    decreases ops.len(),
{
    if ops.len() == 0 {
        Seq::empty()
    } else if op_emits(ops[0], clk) {
        seq![data] + sampled_from(ops.drop_first(), true, data)
    } else {
        sampled_from(ops.drop_first(), op_clk(ops[0], clk), op_data(ops[0], data))
    }
}

/// What a receiver reads from an operation sequence, starting from the
/// protocol's idle-high lines.
pub open spec fn sampled_bits(ops: Seq<LineOp>) -> Seq<bool> {
    sampled_from(ops, true, true)
}

/// The line operations that put one bit on the wire: clock low, data set
/// while the clock is low, then the sampling edge, with the optional
/// inter-step delay after each half of the clock cycle.
pub open spec fn bit_ops(bit: bool, delay_us: u32) -> Seq<LineOp> {
    let d = if bit {
        LineOp::DataHigh
    } else {
        LineOp::DataLow
    };
    if delay_us == 0 {
        seq![LineOp::ClockLow, d, LineOp::ClockHigh]
    } else {
        seq![
            LineOp::ClockLow,
            d,
            LineOp::Wait(delay_us),
            LineOp::ClockHigh,
            LineOp::Wait(delay_us),
        ]
    }
}

/// The line operations for a bit sequence, in order.
pub open spec fn ops_for_bits(bits: Seq<bool>, delay_us: u32) -> Seq<LineOp>
    decreases bits.len(),
{
    if bits.len() == 0 {
        Seq::empty()
    } else {
        ops_for_bits(bits.drop_last(), delay_us) + bit_ops(bits.last(), delay_us)
    }
}

/// The complete operation sequence of one bit-banged send: every byte's
/// bits most significant first, then both lines left idle-high.
pub open spec fn plan_ops(bytes: Seq<u8>, delay_us: u32) -> Seq<LineOp> {
    ops_for_bits(byte_bits(bytes), delay_us) + seq![LineOp::ClockHigh, LineOp::DataHigh]
}

/// Sampling distributes over concatenation of operation sequences, with
/// the line levels threaded through.
proof fn lemma_sampled_append(a: Seq<LineOp>, b: Seq<LineOp>, clk: bool, data: bool)
    ensures
        sampled_from(a + b, clk, data) == sampled_from(a, clk, data) + sampled_from(
            b,
            clk_after(a, clk),
            data_after(a, data),
        ),
        clk_after(a + b, clk) == clk_after(b, clk_after(a, clk)),
        data_after(a + b, data) == data_after(b, data_after(a, data)),
    decreases a.len(),
{
    if a.len() == 0 {
        assert(a + b =~= b);
        assert(sampled_from(a, clk, data) + sampled_from(b, clk, data) =~= sampled_from(
            b,
            clk,
            data,
        ));
    } else {
        let rest = a.drop_first();
        assert((a + b).drop_first() =~= rest + b);
        lemma_sampled_append(rest, b, op_clk(a[0], clk), op_data(a[0], data));
        if op_emits(a[0], clk) {
            assert(seq![data] + (sampled_from(rest, true, data) + sampled_from(
                b,
                clk_after(a, clk),
                data_after(a, data),
            )) =~= (seq![data] + sampled_from(rest, true, data)) + sampled_from(
                b,
                clk_after(a, clk),
                data_after(a, data),
            ));
        }
    }
}

/// One operation's effect on the sampled sequence and the line levels.
proof fn lemma_sampled_single(op: LineOp, clk: bool, data: bool)
    ensures
        sampled_from(seq![op], clk, data) == (if op_emits(op, clk) {
            seq![data]
        } else {
            Seq::<bool>::empty()
        }),
        clk_after(seq![op], clk) == op_clk(op, clk),
        data_after(seq![op], data) == op_data(op, data),
{
    assert(seq![op].drop_first() =~= Seq::<LineOp>::empty());
    assert(sampled_from(Seq::<LineOp>::empty(), op_clk(op, clk), op_data(op, data))
        =~= Seq::<bool>::empty());
    assert(sampled_from(Seq::<LineOp>::empty(), true, data) =~= Seq::<bool>::empty());
    assert(clk_after(Seq::<LineOp>::empty(), op_clk(op, clk)) == op_clk(op, clk));
    assert(data_after(Seq::<LineOp>::empty(), op_data(op, data)) == op_data(op, data));
    if op_emits(op, clk) {
        assert(seq![data] + sampled_from(Seq::<LineOp>::empty(), true, data) =~= seq![data]);
    }
}

/// A receiver reads exactly one bit out of one bit's operations, and the
/// operations leave the clock high and the data line at the bit's level.
proof fn lemma_bit_ops_sampled(bit: bool, delay_us: u32, clk: bool, data: bool)
    ensures
        sampled_from(bit_ops(bit, delay_us), clk, data) == seq![bit],
        clk_after(bit_ops(bit, delay_us), clk) == true,
        data_after(bit_ops(bit, delay_us), data) == bit,
{
    let d = if bit {
        LineOp::DataHigh
    } else {
        LineOp::DataLow
    };
    let s = bit_ops(bit, delay_us);
    let e = Seq::<LineOp>::empty();
    assert(sampled_from(e, true, bit) =~= Seq::<bool>::empty());
    assert(clk_after(e, true) == true);
    assert(data_after(e, bit) == bit);
    if delay_us == 0 {
        let s1 = seq![d, LineOp::ClockHigh];
        let s2 = seq![LineOp::ClockHigh];
        assert(s.drop_first() =~= s1);
        assert(s1.drop_first() =~= s2);
        assert(s2.drop_first() =~= e);
        assert(sampled_from(s2, false, bit) == seq![bit] + sampled_from(e, true, bit));
        assert(seq![bit] + sampled_from(e, true, bit) =~= seq![bit]);
        assert(clk_after(s2, false) == true);
        assert(data_after(s2, bit) == bit);
        assert(sampled_from(s1, false, data) == sampled_from(s2, false, bit));
        assert(clk_after(s1, false) == true);
        assert(data_after(s1, data) == bit);
        assert(sampled_from(s, clk, data) == sampled_from(s1, false, data));
        assert(clk_after(s, clk) == true);
        assert(data_after(s, data) == bit);
    } else {
        let s1 = seq![d, LineOp::Wait(delay_us), LineOp::ClockHigh, LineOp::Wait(delay_us)];
        let s2 = seq![LineOp::Wait(delay_us), LineOp::ClockHigh, LineOp::Wait(delay_us)];
        let s3 = seq![LineOp::ClockHigh, LineOp::Wait(delay_us)];
        let s4 = seq![LineOp::Wait(delay_us)];
        assert(s.drop_first() =~= s1);
        assert(s1.drop_first() =~= s2);
        assert(s2.drop_first() =~= s3);
        assert(s3.drop_first() =~= s4);
        assert(s4.drop_first() =~= e);
        assert(sampled_from(s4, true, bit) =~= Seq::<bool>::empty());
        assert(clk_after(s4, true) == true);
        assert(data_after(s4, bit) == bit);
        assert(sampled_from(s3, false, bit) == seq![bit] + sampled_from(s4, true, bit));
        assert(seq![bit] + sampled_from(s4, true, bit) =~= seq![bit]);
        assert(clk_after(s3, false) == true);
        assert(data_after(s3, bit) == bit);
        assert(sampled_from(s2, false, bit) == sampled_from(s3, false, bit));
        assert(clk_after(s2, false) == true);
        assert(data_after(s2, bit) == bit);
        assert(sampled_from(s1, false, data) == sampled_from(s2, false, bit));
        assert(clk_after(s1, false) == true);
        assert(data_after(s1, data) == bit);
        assert(sampled_from(s, clk, data) == sampled_from(s1, false, data));
        assert(clk_after(s, clk) == true);
        assert(data_after(s, data) == bit);
    }
}

/// A receiver reads a bit sequence back out of its operation sequence
/// unchanged, whatever levels the lines start at.
proof fn lemma_ops_for_bits_sampled(bits: Seq<bool>, delay_us: u32, clk: bool, data: bool)
    ensures
        sampled_from(ops_for_bits(bits, delay_us), clk, data) == bits,
        clk_after(ops_for_bits(bits, delay_us), clk) == (if bits.len() == 0 {
            clk
        } else {
            true
        }),
        data_after(ops_for_bits(bits, delay_us), data) == (if bits.len() == 0 {
            data
        } else {
            bits.last()
        }),
    decreases bits.len(),
{
    if bits.len() == 0 {
        assert(sampled_from(ops_for_bits(bits, delay_us), clk, data) =~= bits);
    } else {
        let pre = bits.drop_last();
        let b = bits.last();
        let pre_ops = ops_for_bits(pre, delay_us);
        lemma_ops_for_bits_sampled(pre, delay_us, clk, data);
        lemma_sampled_append(pre_ops, bit_ops(b, delay_us), clk, data);
        lemma_bit_ops_sampled(b, delay_us, clk_after(pre_ops, clk), data_after(pre_ops, data));
        assert(pre + seq![b] =~= bits);
    }
}

/// The end-to-end framing theorem of the bit-banged link: replaying a
/// send's operations puts exactly the frame's bits on the wire, most
/// significant bit first per byte — the same logical payload the clocked
/// peripheral is handed, so the two transmitters are interchangeable.
pub proof fn lemma_plan_decodes(bytes: Seq<u8>, delay_us: u32)
    ensures
        sampled_bits(plan_ops(bytes, delay_us)) == byte_bits(bytes),
{
    let bits = byte_bits(bytes);
    let body = ops_for_bits(bits, delay_us);
    let tail = seq![LineOp::ClockHigh, LineOp::DataHigh];
    lemma_ops_for_bits_sampled(bits, delay_us, true, true);
    lemma_sampled_append(body, tail, true, true);
    assert(clk_after(body, true));
    let d = data_after(body, true);
    assert(tail.drop_first() =~= seq![LineOp::DataHigh]);
    assert(seq![LineOp::DataHigh].drop_first() =~= Seq::<LineOp>::empty());
    assert(sampled_from(Seq::<LineOp>::empty(), true, true) =~= Seq::<bool>::empty());
    assert(sampled_from(seq![LineOp::DataHigh], true, d) =~= Seq::<bool>::empty());
    assert(sampled_from(tail, true, d) =~= Seq::<bool>::empty());
    assert(bits + Seq::<bool>::empty() =~= bits);
}

/// One capability over both transmitter variants: pushing a frame's bytes
/// out succeeds with the frame's bits as the logical payload, or reports a
/// platform failure untouched.
pub trait Transmitter {
    /// The logical payload of the last completed send, as wire bits.
    spec fn wire_bits(&self) -> Seq<bool>;

    /// Push one frame's byte view out over the link. `delay_us` is the
    /// optional inter-step delay of the bit-banged variant; zero asks for
    /// maximum throughput. On success the logical payload equals the
    /// frame's bits, most significant bit first per byte.
    fn send(&mut self, bytes: &[u8], delay_us: u32) -> (r: Result<(), IoError>)
        ensures
            r is Ok ==> final(self).wire_bits() == byte_bits(bytes@),
    ;
}

/// The software transmitter: serializes a frame onto a data and a clock
/// line by explicit level toggling. It computes the exact operation
/// sequence of the protocol; the platform layer replays the operations on
/// the two pins it owns and surfaces any pin write failure.
pub struct SK9822BitBang {
    ops: Vec<LineOp>,
}

impl View for SK9822BitBang {
    type V = Seq<LineOp>;

    /// The recorded operation sequence of the last send.
    closed spec fn view(&self) -> Seq<LineOp> {
        self.ops@
    }
}

impl SK9822BitBang {
    /// A transmitter that has sent nothing yet.
    pub fn new() -> (t: Self)
        ensures
            t@ == Seq::<LineOp>::empty(),
    {
        SK9822BitBang { ops: Vec::new() }
    }

    /// The operations of the last send, for the platform layer to replay
    /// in order on the data and clock pins.
    pub fn ops(&self) -> (r: &[LineOp])
        ensures
            r@ == self@,
    {
        self.ops.as_slice()
    }
}

impl Transmitter for SK9822BitBang {
    /// What a receiver on the two lines reads from the recorded operations.
    open spec fn wire_bits(&self) -> Seq<bool> {
        sampled_bits(self@)
    }

    fn send(&mut self, bytes: &[u8], delay_us: u32) -> (r: Result<(), IoError>)
        ensures
            r is Ok,
            final(self)@ == plan_ops(bytes@, delay_us),
    {
        let ghost bits = byte_bits(bytes@);
        let mut ops: Vec<LineOp> = Vec::new();
        let mut i: usize = 0;
        while i < bytes.len()
            invariant
                i <= bytes@.len(),
                bits == byte_bits(bytes@),
                ops@ == ops_for_bits(bits.take(8 * i), delay_us),
            decreases bytes@.len() - i,
        {
            let b = bytes[i];
            let mut k: usize = 0;
            while k < 8
                invariant
                    i < bytes@.len(),
                    k <= 8,
                    b == bytes@[i as int],
                    bits == byte_bits(bytes@),
                    ops@ == ops_for_bits(bits.take(8 * i + k), delay_us),
                decreases 8 - k,
            {
                let ghost old_ops = ops@;
                let bit = (b >> ((7 - k) as u8)) & 1u8 == 1u8;
                ops.push(LineOp::ClockLow);
                if bit {
                    ops.push(LineOp::DataHigh);
                } else {
                    ops.push(LineOp::DataLow);
                }
                if delay_us != 0 {
                    ops.push(LineOp::Wait(delay_us));
                }
                ops.push(LineOp::ClockHigh);
                if delay_us != 0 {
                    ops.push(LineOp::Wait(delay_us));
                }
                proof {
                    let n = 8 * i + k;
                    vstd::arithmetic::div_mod::lemma_fundamental_div_mod_converse(
                        n as int,
                        8,
                        i as int,
                        k as int,
                    );
                    assert(bit == bit_of(bytes@[i as int], k as int));
                    assert(bits.take(n + 1) =~= bits.take(n as int).push(bit));
                    lemma_ops_for_bits_push(bits.take(n as int), bit, delay_us);
                    assert(ops@ =~= old_ops + bit_ops(bit, delay_us));
                }
                k = k + 1;
            }
            i = i + 1;
        }
        proof {
            assert(bits.take(8 * i) =~= bits);
        }
        let ghost body = ops@;
        ops.push(LineOp::ClockHigh);
        ops.push(LineOp::DataHigh);
        proof {
            assert(ops@ =~= body + seq![LineOp::ClockHigh, LineOp::DataHigh]);
            lemma_plan_decodes(bytes@, delay_us);
        }
        self.ops = ops;
        Ok(())
    }
}

/// Appending one bit to a bit sequence appends that bit's operations.
proof fn lemma_ops_for_bits_push(bits: Seq<bool>, b: bool, delay_us: u32)
    ensures
        ops_for_bits(bits.push(b), delay_us) == ops_for_bits(bits, delay_us) + bit_ops(
            b,
            delay_us,
        ),
{
    assert(bits.push(b).drop_last() =~= bits);
}

/// The hardware-clocked transmitter: achieves the same wire protocol by
/// handing the frame bytes, unchanged, to a clocked serial peripheral that
/// shifts each byte out most significant bit first at a fixed rate. The
/// platform layer owns the peripheral, performs the bounded-wait write and
/// surfaces its failure or timeout.
pub struct SK9822I2s {
    written: Vec<u8>,
}

impl View for SK9822I2s {
    type V = Seq<u8>;

    /// The payload handed to the peripheral by the last send.
    closed spec fn view(&self) -> Seq<u8> {
        self.written@
    }
}

impl SK9822I2s {
    /// A transmitter that has sent nothing yet.
    pub fn new() -> (t: Self)
        ensures
            t@ == Seq::<u8>::empty(),
    {
        SK9822I2s { written: Vec::new() }
    }

    /// The payload of the last send, for the platform layer to write to
    /// the peripheral.
    pub fn written(&self) -> (r: &[u8])
        ensures
            r@ == self@,
    {
        self.written.as_slice()
    }
}

impl Transmitter for SK9822I2s {
    /// The peripheral clocks each payload byte out most significant bit
    /// first, so the wire bits are the payload's bits.
    open spec fn wire_bits(&self) -> Seq<bool> {
        byte_bits(self@)
    }

    fn send(&mut self, bytes: &[u8], delay_us: u32) -> (r: Result<(), IoError>)
        ensures
            r is Ok,
            final(self)@ == bytes@,
    {
        self.written = vstd::slice::slice_to_vec(bytes);
        Ok(())
    }
}

/// A recording sink: replay an operation sequence over mock lines and
/// collect what a receiver would read, bit for bit.
pub fn sampled(ops: &[LineOp]) -> (r: Vec<bool>)
    ensures
        r@ == sampled_bits(ops@),
{
    let mut clk = true;
    let mut data = true;
    let mut out: Vec<bool> = Vec::new();
    let mut i: usize = 0;
    while i < ops.len()
        invariant
            i <= ops@.len(),
            out@ == sampled_from(ops@.take(i as int), true, true),
            clk == clk_after(ops@.take(i as int), true),
            data == data_after(ops@.take(i as int), true),
        decreases ops@.len() - i,
    {
        let op = ops[i];
        proof {
            assert(ops@.take(i + 1) =~= ops@.take(i as int) + seq![op]);
            lemma_sampled_append(ops@.take(i as int), seq![op], true, true);
            lemma_sampled_single(op, clk, data);
            if op_emits(op, clk) {
                assert(out@.push(data) =~= out@ + seq![data]);
            } else {
                assert(out@ + Seq::<bool>::empty() =~= out@);
            }
        }
        match op {
            LineOp::ClockLow => {
                clk = false;
            },
            LineOp::ClockHigh => {
                if !clk {
                    out.push(data);
                }
                clk = true;
            },
            LineOp::DataLow => {
                data = false;
            },
            LineOp::DataHigh => {
                data = true;
            },
            LineOp::Wait(_) => {},
        }
        i = i + 1;
    }
    proof {
        assert(ops@.take(ops@.len() as int) =~= ops@);
    }
    out
}

} // verus!
