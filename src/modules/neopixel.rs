use vstd::prelude::*;

use crate::codec::{be_bytes, encode_be, lemma_be_bytes_len, pow256};
use crate::common::{Modules, Reg};
use crate::driver::{frame_views, Op, RECONFIGURE_DELAY};

verus! {

/// Function id of the register that selects the output pin (8 bits, write only).
pub const SET_PIN: u8 = 0x01;

/// Function id of the register that selects the protocol speed (8 bits, write only).
pub const SET_SPEED: u8 = 0x02;

/// Function id of the register that holds the pixel buffer's length in bytes
/// (16 bits, write only).
pub const SET_LEN: u8 = 0x03;

/// Function id of the pixel buffer window: a 2-byte start offset, then the
/// channel bytes to store there (write only).
pub const SET_BUF: u8 = 0x04;

/// Function id of the command that latches the buffer onto the pixels (no payload).
pub const SHOW: u8 = 0x05;

/// A color as a tuple of channel bytes.
pub trait ColorVector: Sized {
    /// The number of channels.
    spec fn spec_dims() -> nat;

    proof fn lemma_dims()
        ensures
            1 <= Self::spec_dims() <= 4,
    ;

    fn dims() -> (r: usize)
        ensures
            r == Self::spec_dims(),
            1 <= r <= 4,
    ;
}

pub type ColorRGB = (u8, u8, u8);

impl ColorVector for ColorRGB {
    open spec fn spec_dims() -> nat {
        3
    }

    proof fn lemma_dims() {
    }

    fn dims() -> (r: usize) {
        3
    }
}

pub type ColorRGBW = (u8, u8, u8, u8);

impl ColorVector for ColorRGBW {
    open spec fn spec_dims() -> nat {
        4
    }

    proof fn lemma_dims() {
    }

    fn dims() -> (r: usize) {
        4
    }
}

/// The order in which a pixel protocol variant expects a color's channels.
pub trait ColorLayout {
    type Vector: ColorVector;

    /// The channel bytes of `c` in wire order.
    spec fn wire(c: Self::Vector) -> Seq<u8>;

    proof fn lemma_wire_len(c: Self::Vector)
        ensures
            Self::wire(c).len() == Self::Vector::spec_dims(),
    ;

    /// Appends the wire bytes of `c` to `buf`.
    fn blit(c: &Self::Vector, buf: &mut Vec<u8>)
        ensures
            final(buf)@ == old(buf)@ + Self::wire(*c),
    ;
}

pub struct RGB;

impl ColorLayout for RGB {
    type Vector = ColorRGB;

    open spec fn wire(c: ColorRGB) -> Seq<u8> {
        seq![c.0, c.1, c.2]
    }

    proof fn lemma_wire_len(c: ColorRGB) {
    }

    fn blit(c: &ColorRGB, buf: &mut Vec<u8>) {
        buf.push(c.0);
        buf.push(c.1);
        buf.push(c.2);
        assert(buf@ =~= old(buf)@ + Self::wire(*c));
    }
}

pub struct GRB;

impl ColorLayout for GRB {
    type Vector = ColorRGB;

    open spec fn wire(c: ColorRGB) -> Seq<u8> {
        seq![c.1, c.0, c.2]
    }

    proof fn lemma_wire_len(c: ColorRGB) {
    }

    fn blit(c: &ColorRGB, buf: &mut Vec<u8>) {
        buf.push(c.1);
        buf.push(c.0);
        buf.push(c.2);
        assert(buf@ =~= old(buf)@ + Self::wire(*c));
    }
}

pub struct RGBW;

impl ColorLayout for RGBW {
    type Vector = ColorRGBW;

    open spec fn wire(c: ColorRGBW) -> Seq<u8> {
        seq![c.0, c.1, c.2, c.3]
    }

    proof fn lemma_wire_len(c: ColorRGBW) {
    }

    fn blit(c: &ColorRGBW, buf: &mut Vec<u8>) {
        buf.push(c.0);
        buf.push(c.1);
        buf.push(c.2);
        buf.push(c.3);
        assert(buf@ =~= old(buf)@ + Self::wire(*c));
    }
}

/// The protocol speed of the pixel strand.
#[derive(Debug, Clone, Copy, PartialEq, Eq, Structural)]
pub enum NeopixelSpeed {
    Khz400,
    Khz800,
}

impl NeopixelSpeed {
    /// The value of the speed register for this speed.
    pub open spec fn code(self) -> u8 {
        match self {
            NeopixelSpeed::Khz400 => 0,
            NeopixelSpeed::Khz800 => 1,
        }
    }
}

impl Default for NeopixelSpeed {
    fn default() -> (r: NeopixelSpeed)
        ensures
            r == NeopixelSpeed::Khz800,
    {
        NeopixelSpeed::Khz800
    }
}

/// The wire bytes of the colors of `cs`, one record after another.
pub open spec fn wire_bytes<C: ColorLayout>(cs: Seq<C::Vector>) -> Seq<u8>
    decreases cs.len(),
{
    if cs.len() == 0 {
        Seq::empty()
    } else {
        wire_bytes::<C>(cs.drop_last()) + C::wire(cs.last())
    }
}

pub proof fn lemma_wire_bytes_len<C: ColorLayout>(cs: Seq<C::Vector>)
    ensures
        wire_bytes::<C>(cs).len() == cs.len() * C::Vector::spec_dims(),
    decreases cs.len(),
{
    if cs.len() > 0 {
        lemma_wire_bytes_len::<C>(cs.drop_last());
        C::lemma_wire_len(cs.last());
        assert((cs.len() - 1) * C::Vector::spec_dims() + C::Vector::spec_dims() == cs.len()
            * C::Vector::spec_dims()) by (nonlinear_arith);
    }
}

/// The largest number of whole records that fit one transfer of
/// `max_transfer` bytes after the 2-byte offset header.
pub open spec fn max_records(max_transfer: nat, record_size: nat) -> nat {
    ((max_transfer - 2) as nat) / record_size
}

/// The number of chunks that `n` records take, `m` records at most in each.
pub open spec fn chunk_count(n: nat, m: nat) -> nat {
    if n % m == 0 {
        n / m
    } else {
        n / m + 1
    }
}

/// The number of records in chunk `k` of `n` records, `m` at most in each.
pub open spec fn chunk_records(n: nat, m: nat, k: nat) -> nat {
    if (k + 1) * m <= n {
        m
    } else {
        (n - k * m) as nat
    }
}

/// The byte offset in the pixel buffer at which chunk `k` is stored, where
/// the first record goes to pixel `first` and a record has `record_size` bytes.
pub open spec fn chunk_offset(first: nat, record_size: nat, m: nat, k: nat) -> nat {
    (first + k * m) * record_size
}

/// The payload of chunk `k` of a buffer write: the chunk's offset as two
/// big-endian bytes, then the wire bytes of its records.
pub open spec fn chunk_payload<C: ColorLayout>(first: nat, colors: Seq<C::Vector>, m: nat, k: nat) -> Seq<u8> {
    let s = k * m;
    be_bytes(chunk_offset(first, C::Vector::spec_dims(), m, k), 2) + wire_bytes::<C>(
        colors.subrange(s as int, (s + chunk_records(colors.len(), m, k)) as int),
    )
}

/// A register write of `payload` to function `function` of the pixel module.
pub open spec fn neopixel_frame(function: u8, payload: Seq<u8>) -> Seq<u8> {
    seq![Modules::Neopixel.id(), function] + payload
}

/// Whether a strand of `n_leds` pixels of `dims` channels fits the 16-bit
/// length register.
pub open spec fn strand_fits(n_leds: nat, dims: nat) -> bool {
    n_leds * dims < 0x1_0000
}

fn neopixel_reg(function: u8) -> (r: Vec<u8>)
    ensures
        r@ == seq![Modules::Neopixel.id(), function],
{
    let reg: Reg = Modules::Neopixel.reg(function);
    let mut r: Vec<u8> = Vec::new();
    r.push(reg[0]);
    r.push(reg[1]);
    assert(r@ =~= seq![Modules::Neopixel.id(), function]);
    r
}

/// Appends the wire bytes of `colors[lo..hi]` to `buf`.
fn blit_range<C: ColorLayout>(colors: &[C::Vector], lo: usize, hi: usize, buf: &mut Vec<u8>)
    requires
        lo <= hi <= colors@.len(),
    ensures
        final(buf)@ == old(buf)@ + wire_bytes::<C>(colors@.subrange(lo as int, hi as int)),
{
    let mut i: usize = lo;
    assert(wire_bytes::<C>(colors@.subrange(lo as int, lo as int)) =~= Seq::<u8>::empty());
    assert(buf@ =~= old(buf)@ + wire_bytes::<C>(colors@.subrange(lo as int, lo as int)));
    while i < hi
        invariant
            lo <= i <= hi <= colors@.len(),
            buf@ == old(buf)@ + wire_bytes::<C>(colors@.subrange(lo as int, i as int)),
        decreases hi - i,
    {
        C::blit(&colors[i], buf);
        proof {
            let next = colors@.subrange(lo as int, i + 1);
            assert(next.drop_last() =~= colors@.subrange(lo as int, i as int));
            assert(next.last() == colors@[i as int]);
            assert(buf@ =~= old(buf)@ + wire_bytes::<C>(next));
        }
        i = i + 1;
    }
}

/// The register write that stores `colors[lo..hi]` at byte offset `reg_off`.
fn buf_frame<C: ColorLayout>(reg_off: u16, colors: &[C::Vector], lo: usize, hi: usize) -> (r: Vec<u8>)
    requires
        lo <= hi <= colors@.len(),
    ensures
        r@ == neopixel_frame(
            SET_BUF,
            be_bytes(reg_off as nat, 2) + wire_bytes::<C>(colors@.subrange(lo as int, hi as int)),
        ),
{
    let mut r = neopixel_reg(SET_BUF);
    proof {
        reveal_with_fuel(pow256, 3);
    }
    let off = encode_be(reg_off as u64, 2);
    let ghost head = r@;
    r.push(off[0]);
    r.push(off[1]);
    assert(off@ =~= seq![off[0], off[1]]);
    assert(r@ =~= head + off@);
    blit_range::<C>(colors, lo, hi, &mut r);
    assert(r@ =~= neopixel_frame(
        SET_BUF,
        be_bytes(reg_off as nat, 2) + wire_bytes::<C>(colors@.subrange(lo as int, hi as int)),
    ));
    r
}

/// The register write that stores `colors` in the pixel buffer from byte
/// offset `reg_off` on, each color in the layout's wire order.
pub fn write_neopixel_buf<C: ColorLayout>(reg_off: u16, colors: &[C::Vector]) -> (r: Vec<u8>)
    ensures
        r@ == neopixel_frame(SET_BUF, be_bytes(reg_off as nat, 2) + wire_bytes::<C>(colors@)),
{
    assert(colors@.subrange(0, colors@.len() as int) =~= colors@);
    buf_frame::<C>(reg_off, colors, 0, colors.len())
}

/// The register writes that store `colors` in the pixel buffer from pixel
/// `offset` on, in chunks of at most `max_transfer` bytes after the register
/// address: one write per chunk, in ascending order of offset.
pub fn set_neopixel_colors<C: ColorLayout>(
    offset: usize,
    colors: &[C::Vector],
    n_leds: u16,
    max_transfer: usize,
) -> (r: Vec<Vec<u8>>)
    requires
        offset + colors@.len() <= n_leds,
        strand_fits(n_leds as nat, C::Vector::spec_dims()),
        max_transfer >= 2 + C::Vector::spec_dims(),
    ensures
        ({
            let m = max_records(max_transfer as nat, C::Vector::spec_dims());
            &&& r@.len() == chunk_count(colors@.len(), m)
            &&& forall|k: int|
                0 <= k < r@.len() ==> #[trigger] r@[k]@ == neopixel_frame(
                    SET_BUF,
                    chunk_payload::<C>(offset as nat, colors@, m, k as nat),
                )
        }),
{
    let dims = C::Vector::dims();
    let n = colors.len();
    let m = (max_transfer - 2) / dims;
    let ghost gm = max_records(max_transfer as nat, dims as nat);
    assert(m >= 1) by (nonlinear_arith)
        requires
            m == (max_transfer - 2) as int / dims as int,
            max_transfer - 2 >= dims,
            dims >= 1,
    ;
    let tail = n % m;
    assert(tail <= n) by (nonlinear_arith)
        requires
            tail == n % m,
            m >= 1,
    ;
    let bulk = n - tail;
    let mut out: Vec<Vec<u8>> = Vec::new();
    let mut start: usize = 0;
    proof {
        assert(bulk == (n / m) * m) by (nonlinear_arith)
            requires
                tail == n % m,
                bulk == n - tail,
                m >= 1,
        ;
        assert((offset + n) * dims < 0x1_0000) by (nonlinear_arith)
            requires
                offset + n <= n_leds,
                n_leds * dims < 0x1_0000,
        ;
    }
    assert(start == out@.len() * m) by (nonlinear_arith)
        requires
            start == 0,
            out@.len() == 0,
    ;
    while start < bulk
        invariant
            m == gm,
            m >= 1,
            1 <= dims <= 4,
            dims == C::Vector::spec_dims(),
            n == colors@.len(),
            bulk == (n / m) * m,
            bulk <= n,
            (offset + n) * dims < 0x1_0000,
            start == out@.len() * m,
            start <= bulk,
            forall|k: int|
                0 <= k < out@.len() ==> #[trigger] out@[k]@ == neopixel_frame(
                    SET_BUF,
                    chunk_payload::<C>(offset as nat, colors@, m as nat, k as nat),
                ),
        decreases bulk - start,
    {
        let ghost k = out@.len();
        proof {
            assert(start + m <= bulk) by (nonlinear_arith)
                requires
                    start == k * m,
                    start < bulk,
                    bulk == (n / m) * m,
                    m >= 1,
            ;
            assert((offset + start) * dims < 0x1_0000 && offset + start < 0x1_0000) by (nonlinear_arith)
                requires
                    start < n,
                    (offset + n) * dims < 0x1_0000,
                    dims >= 1,
            ;
            assert((k + 1) * m <= n) by (nonlinear_arith)
                requires
                    start == k * m,
                    start + m <= bulk,
                    bulk <= n,
            ;
        }
        let reg_off = ((offset + start) * dims) as u16;
        let frame = buf_frame::<C>(reg_off, colors, start, start + m);
        out.push(frame);
        start = start + m;
        proof {
            assert(start == out@.len() * m) by (nonlinear_arith)
                requires
                    start == k * m + m,
                    out@.len() == k + 1,
            ;
        }
    }
    if tail != 0 {
        let ghost k = out@.len();
        proof {
            assert(start == bulk);
            assert((offset + start) * dims < 0x1_0000 && offset + start < 0x1_0000) by (nonlinear_arith)
                requires
                    start < n,
                    (offset + n) * dims < 0x1_0000,
                    dims >= 1,
            ;
            assert(!((k + 1) * m <= n)) by (nonlinear_arith)
                requires
                    start == k * m,
                    start == (n / m) * m,
                    n - start == n % m,
                    n % m != 0,
                    m >= 1,
            ;
        }
        let reg_off = ((offset + start) * dims) as u16;
        let frame = buf_frame::<C>(reg_off, colors, start, n);
        out.push(frame);
    }
    proof {
        assert(out@.len() == chunk_count(n as nat, m as nat)) by (nonlinear_arith)
            requires
                bulk == out@.len() * m || (tail != 0 && bulk == (out@.len() - 1) * m),
                bulk == (n / m) * m,
                tail == n % m,
                tail == 0 ==> bulk == out@.len() * m,
                tail != 0 ==> bulk == (out@.len() - 1) * m,
                m >= 1,
        ;
    }
    out
}

/// Quiet time after the command that latches the buffer onto the pixels,
/// in microseconds: the write delay and the latch time.
pub const SYNC_DELAY: u64 = 250;

/// The writes that select the output pin `pin` and the buffer length of a
/// strand of `n_leds` pixels of `dims` channels; each is followed by the
/// reconfiguration delay.
pub fn enable_neopixel(addr: u8, pin: u8, n_leds: u16, dims: usize) -> (r: Op)
    requires
        strand_fits(n_leds as nat, dims as nat),
    ensures
        r.is_write(
            addr,
            seq![
                neopixel_frame(SET_PIN, seq![pin]),
                neopixel_frame(SET_LEN, be_bytes(n_leds as nat * dims as nat, 2)),
            ],
            RECONFIGURE_DELAY,
        ),
{
    let mut pin_frame = neopixel_reg(SET_PIN);
    pin_frame.push(pin);
    let mut len_frame = neopixel_reg(SET_LEN);
    proof {
        reveal_with_fuel(pow256, 3);
    }
    let len = encode_be((n_leds as usize * dims) as u64, 2);
    let ghost head = len_frame@;
    len_frame.push(len[0]);
    len_frame.push(len[1]);
    assert(len@ =~= seq![len[0], len[1]]);
    assert(len_frame@ =~= head + len@);
    assert(pin_frame@ =~= neopixel_frame(SET_PIN, seq![pin]));
    assert(len_frame@ =~= neopixel_frame(SET_LEN, be_bytes(n_leds as nat * dims as nat, 2)));
    let mut frames: Vec<Vec<u8>> = Vec::new();
    frames.push(pin_frame);
    frames.push(len_frame);
    assert(frame_views(frames@) =~= seq![
        neopixel_frame(SET_PIN, seq![pin]),
        neopixel_frame(SET_LEN, be_bytes(n_leds as nat * dims as nat, 2)),
    ]);
    Op::Write { addr, frames, hold: RECONFIGURE_DELAY }
}

/// The write that selects the protocol speed, followed by the
/// reconfiguration delay.
pub fn set_neopixel_speed(addr: u8, speed: NeopixelSpeed) -> (r: Op)
    ensures
        r.is_write(addr, seq![neopixel_frame(SET_SPEED, seq![speed.code()])], RECONFIGURE_DELAY),
{
    let mut frame = neopixel_reg(SET_SPEED);
    let code: u8 = match speed {
        NeopixelSpeed::Khz400 => 0,
        NeopixelSpeed::Khz800 => 1,
    };
    frame.push(code);
    assert(frame@ =~= neopixel_frame(SET_SPEED, seq![speed.code()]));
    let mut frames: Vec<Vec<u8>> = Vec::new();
    frames.push(frame);
    assert(frame_views(frames@) =~= seq![neopixel_frame(SET_SPEED, seq![speed.code()])]);
    Op::Write { addr, frames, hold: RECONFIGURE_DELAY }
}

/// The write of the command that latches the buffer onto the pixels.
pub fn sync_neopixel(addr: u8) -> (r: Op)
    ensures
        r.is_write(addr, seq![neopixel_frame(SHOW, Seq::empty())], SYNC_DELAY),
{
    let frame = neopixel_reg(SHOW);
    let mut frames: Vec<Vec<u8>> = Vec::new();
    frames.push(frame);
    assert(frame_views(frames@) =~= seq![neopixel_frame(SHOW, Seq::empty())]);
    Op::Write { addr, frames, hold: SYNC_DELAY }
}

/// The register writes that set pixel `n` to `color`.
pub fn set_nth_neopixel_color<C: ColorLayout>(n: u16, color: C::Vector, n_leds: u16, max_transfer: usize) -> (r: Vec<Vec<u8>>)
    requires
        n < n_leds,
        strand_fits(n_leds as nat, C::Vector::spec_dims()),
        max_transfer >= 2 + C::Vector::spec_dims(),
    ensures
        r@.len() == 1,
        r@[0]@ == neopixel_frame(
            SET_BUF,
            be_bytes(n as nat * C::Vector::spec_dims(), 2) + C::wire(color),
        ),
{
    let mut colors: Vec<C::Vector> = Vec::new();
    colors.push(color);
    let r = set_neopixel_colors::<C>(n as usize, colors.as_slice(), n_leds, max_transfer);
    proof {
        let m = max_records(max_transfer as nat, C::Vector::spec_dims());
        C::Vector::lemma_dims();
        assert(m >= 1) by (nonlinear_arith)
            requires
                m == ((max_transfer - 2) as nat) / C::Vector::spec_dims(),
                max_transfer - 2 >= C::Vector::spec_dims(),
                C::Vector::spec_dims() >= 1,
        ;
        assert(1nat % m == 0 ==> 1nat / m == 1) by (nonlinear_arith)
            requires
                m >= 1,
        ;
        assert(1nat % m != 0 ==> 1nat / m == 0) by (nonlinear_arith)
            requires
                m >= 1,
        ;
        assert(0 * m == 0) by (nonlinear_arith);
        let sub = colors@.subrange(0, chunk_records(1, m, 0) as int);
        assert(chunk_records(1, m, 0) == 1) by (nonlinear_arith)
            requires
                m >= 1,
                chunk_records(1, m, 0) == if (0 + 1) * m <= 1 { m } else { (1 - 0 * m) as nat },
        ;
        assert(sub =~= seq![color]);
        assert(sub.drop_last() =~= Seq::<C::Vector>::empty());
        assert(wire_bytes::<C>(sub.drop_last()) =~= Seq::<u8>::empty());
        assert(sub.last() == color);
        assert(wire_bytes::<C>(sub) =~= C::wire(color));
        assert(r@[0]@ == neopixel_frame(SET_BUF, chunk_payload::<C>(n as nat, colors@, m, 0)));
    }
    r
}

/// The register writes that set the first pixel to `color`.
pub fn set_neopixel_color<C: ColorLayout>(color: C::Vector, n_leds: u16, max_transfer: usize) -> (r: Vec<Vec<u8>>)
    requires
        0 < n_leds,
        strand_fits(n_leds as nat, C::Vector::spec_dims()),
        max_transfer >= 2 + C::Vector::spec_dims(),
    ensures
        r@.len() == 1,
        r@[0]@ == neopixel_frame(SET_BUF, be_bytes(0, 2) + C::wire(color)),
{
    set_nth_neopixel_color::<C>(0, color, n_leds, max_transfer)
}

/// The sum of the record counts of the first `c` chunks of `n` records, `m`
/// at most in each.
pub open spec fn records_in_chunks(n: nat, m: nat, c: nat) -> nat
    decreases c,
{
    if c == 0 {
        0
    } else {
        records_in_chunks(n, m, (c - 1) as nat) + chunk_records(n, m, (c - 1) as nat)
    }
}

proof fn lemma_full_chunks(n: nat, m: nat, c: nat)
    requires
        m >= 1,
        c * m <= n,
    ensures
        records_in_chunks(n, m, c) == c * m,
    decreases c,
{
    if c > 0 {
        let c1 = (c - 1) as nat;
        assert(c1 * m + m == c * m && c1 * m <= n && (c1 + 1) * m <= n) by (nonlinear_arith)
            requires
                c1 + 1 == c,
                c * m <= n,
                m >= 1,
        ;
        lemma_full_chunks(n, m, c1);
        assert(chunk_records(n, m, c1) == m);
    } else {
        assert(c * m == 0) by (nonlinear_arith)
            requires
                c == 0,
        ;
    }
}

/// The chunks of a buffer write of `colors` from pixel `first` on, for
/// transfers of at most `max_transfer` bytes: each chunk's payload fits one
/// transfer and holds at least one record, the record counts of all chunks add
/// up to the number of colors, and each chunk's bytes end at or before the
/// offset of every later chunk, so that offsets strictly increase and no two
/// chunks overlap.
pub proof fn lemma_chunks_partition<C: ColorLayout>(
    first: nat,
    colors: Seq<C::Vector>,
    max_transfer: nat,
)
    requires
        max_transfer >= 2 + C::Vector::spec_dims(),
    ensures
        ({
            let d = C::Vector::spec_dims();
            let m = max_records(max_transfer, d);
            let n = colors.len();
            &&& records_in_chunks(n, m, chunk_count(n, m)) == n
            &&& forall|k: nat|
                k < chunk_count(n, m) ==> {
                    &&& 1 <= #[trigger] chunk_records(n, m, k) <= m
                    &&& chunk_payload::<C>(first, colors, m, k).len() == 2 + chunk_records(n, m, k) * d
                    &&& chunk_payload::<C>(first, colors, m, k).len() <= max_transfer
                }
            &&& forall|k: nat, j: nat|
                k < j < chunk_count(n, m) ==> chunk_offset(first, d, m, k) + #[trigger] chunk_records(
                    n,
                    m,
                    k,
                ) * d <= #[trigger] chunk_offset(first, d, m, j)
                    && chunk_offset(first, d, m, k) < chunk_offset(first, d, m, j)
        }),
{
    let d = C::Vector::spec_dims();
    let m = max_records(max_transfer, d);
    let n = colors.len();
    let cnt = chunk_count(n, m);
    C::Vector::lemma_dims();
    assert(m >= 1 && m * d <= max_transfer - 2) by (nonlinear_arith)
        requires
            m == ((max_transfer - 2) as nat) / d,
            max_transfer - 2 >= d,
            d >= 1,
    ;
    assert((n / m) * m <= n && n - (n / m) * m == n % m) by (nonlinear_arith)
        requires
            m >= 1,
    ;
    lemma_full_chunks(n, m, n / m);
    if n % m != 0 {
        assert(!((n / m + 1) * m <= n)) by (nonlinear_arith)
            requires
                m >= 1,
                n % m != 0,
        ;
    }
    assert forall|k: nat| k < cnt implies {
        &&& 1 <= #[trigger] chunk_records(n, m, k) <= m
        &&& chunk_payload::<C>(first, colors, m, k).len() == 2 + chunk_records(n, m, k) * d
        &&& chunk_payload::<C>(first, colors, m, k).len() <= max_transfer
    } by {
        let r = chunk_records(n, m, k);
        assert(k * m < n && (k + 1) * m <= n || (k == n / m && n % m != 0)) by (nonlinear_arith)
            requires
                m >= 1,
                k < cnt,
                cnt == if n % m == 0 { n / m } else { n / m + 1 },
                (n / m) * m <= n,
                n - (n / m) * m == n % m,
        ;
        assert(1 <= r <= m && k * m + r <= n) by (nonlinear_arith)
            requires
                m >= 1,
                r == if (k + 1) * m <= n { m } else { (n - k * m) as nat },
                k * m < n && (k + 1) * m <= n || (k == n / m && n % m != 0),
                (n / m) * m <= n,
                n - (n / m) * m == n % m,
                !((n / m + 1) * m <= n) || n % m == 0,
        ;
        let sub = colors.subrange((k * m) as int, (k * m + r) as int);
        lemma_wire_bytes_len::<C>(sub);
        lemma_be_bytes_len(chunk_offset(first, d, m, k), 2);
        assert(r * d <= m * d) by (nonlinear_arith)
            requires
                r <= m,
        ;
    }
    assert forall|k: nat, j: nat| k < j < cnt implies chunk_offset(first, d, m, k) + #[trigger] chunk_records(
        n,
        m,
        k,
    ) * d <= #[trigger] chunk_offset(first, d, m, j) && chunk_offset(first, d, m, k) < chunk_offset(
        first,
        d,
        m,
        j,
    ) by {
        let r = chunk_records(n, m, k);
        assert(r <= m);
        assert((first + k * m) * d + r * d <= (first + j * m) * d && (first + k * m) * d < (first + j
            * m) * d) by (nonlinear_arith)
            requires
                k < j,
                r <= m,
                m >= 1,
                d >= 1,
        ;
    }
}

/// A buffer write of no colors takes no chunks, and so no bus transaction,
/// whatever the transfer size and record size.
pub proof fn lemma_no_colors_no_chunks(max_transfer: nat, record_size: nat)
    requires
        record_size >= 1,
        max_transfer >= 2 + record_size,
    ensures
        chunk_count(0, max_records(max_transfer, record_size)) == 0,
{
    let m = max_records(max_transfer, record_size);
    assert(m >= 1) by (nonlinear_arith)
        requires
            m == ((max_transfer - 2) as nat) / record_size,
            max_transfer - 2 >= record_size,
            record_size >= 1,
    ;
    assert(0nat % m == 0 && 0nat / m == 0) by (nonlinear_arith)
        requires
            m >= 1,
    ;
}

} // verus!
