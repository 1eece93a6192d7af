use vstd::prelude::*;

use crate::codec::{
    be_bytes, be_signed_value, be_value, decode_be, decode_be_signed, encode_be, encode_be_signed,
    fits_signed, pow256, twos_complement, valid_width,
};
use crate::common::Reg;
use crate::reg::RegValue;
use crate::SeesawError;

verus! {

/// Quiet time after a successful operation before the next one may start,
/// in microseconds.
pub const DELAY_TIME: u64 = 125;

/// Quiet time after a failed operation before the next one may start, in
/// microseconds.
pub const ERROR_DELAY: u64 = 125;

/// Time between the address-select write of a read and the data read, in
/// microseconds.
pub const SETTLE_DELAY: u64 = 125;

/// Quiet time after writes that reconfigure a pin or the pixel protocol, in
/// microseconds.
pub const RECONFIGURE_DELAY: u64 = 10_000;

/// The instant `d` microseconds after `now`, or the last instant if that is
/// later than time can count.
pub open spec fn deadline(now: u64, d: u64) -> u64 {
    if now + d > u64::MAX {
        u64::MAX
    } else {
        (now + d) as u64
    }
}

/// How long an operation that starts at `now` waits for the backoff instant
/// `timeout`.
pub open spec fn gate_delay(timeout: u64, now: u64) -> nat {
    if now < timeout {
        (timeout - now) as nat
    } else {
        0
    }
}

/// One operation on a peripheral at bus address `addr`.
pub enum Op {
    /// Register writes, one bus transaction each, in order; after each
    /// successful one the bus stays quiet for `hold` microseconds.
    Write { addr: u8, frames: Vec<Vec<u8>>, hold: u64 },
    /// A read of `len` bytes from register `reg`.
    Read { addr: u8, reg: Reg, len: usize },
}

/// What the caller of the driver does next.
pub enum Action<E> {
    /// Wait this many microseconds, then report `Event::Woke`.
    Sleep(u64),
    /// Write these bytes to the peripheral at `addr`, then report `Event::Wrote`.
    BusWrite { addr: u8, bytes: Vec<u8> },
    /// Read `len` bytes from the peripheral at `addr`, then report `Event::Received`.
    BusRead { addr: u8, len: usize },
    /// The operation is over, with the bytes read (none for a write) or the error.
    Done(Result<Vec<u8>, SeesawError<E>>),
}

/// What happened since the last action; each carries the time it was
/// observed, in microseconds.
pub enum Event<E> {
    Woke(u64),
    Wrote(u64, Result<(), E>),
    Received(u64, Result<Vec<u8>, E>),
}

impl<E> Action<E> {
    pub open spec fn is_sleep_for(self, d: nat) -> bool {
        match self {
            Action::Sleep(t) => t == d,
            _ => false,
        }
    }

    pub open spec fn is_write_of(self, addr: u8, bytes: Seq<u8>) -> bool {
        match self {
            Action::BusWrite { addr: a, bytes: b } => a == addr && b@ == bytes,
            _ => false,
        }
    }

    pub open spec fn is_read_of(self, addr: u8, len: usize) -> bool {
        match self {
            Action::BusRead { addr: a, len: n } => a == addr && n == len,
            _ => false,
        }
    }

    pub open spec fn is_done_with(self, bytes: Seq<u8>) -> bool {
        match self {
            Action::Done(Ok(b)) => b@ == bytes,
            _ => false,
        }
    }

    pub open spec fn is_bus_error(self, e: E) -> bool {
        match self {
            Action::Done(Err(SeesawError::I2c(x))) => x == e,
            _ => false,
        }
    }
}

/// Where the driver stands within the current operation.
pub enum Stage {
    Idle,
    /// Waiting for the backoff instant before write `next`.
    WriteGate { addr: u8, frames: Vec<Vec<u8>>, next: usize, hold: u64 },
    /// Write `next` is on the bus.
    Writing { addr: u8, frames: Vec<Vec<u8>>, next: usize, hold: u64 },
    /// Waiting for the backoff instant before a read's address-select write.
    ReadGate { addr: u8, reg: Reg, len: usize },
    /// The address-select write of a read is on the bus.
    Selecting { addr: u8, reg: Reg, len: usize },
    /// Waiting for the peripheral to prepare the data of a read.
    Settling { addr: u8, len: usize },
    /// The data read is on the bus.
    Reading { addr: u8, len: usize },
}

/// The transport to one peripheral bus: it decides the bus transactions of
/// each operation and when they may happen, and keeps the instant before which
/// no operation may start. The caller carries out each `Action` and reports
/// back the matching `Event`.
pub struct Driver {
    timeout: u64,
    stage: Stage,
}

impl Driver {
    /// The instant before which no bus operation may start.
    pub closed spec fn spec_timeout(&self) -> u64 {
        self.timeout
    }

    pub closed spec fn spec_stage(&self) -> Stage {
        self.stage
    }

    /// A write operation under way has a write left at its index.
    pub closed spec fn wf(&self) -> bool {
        match self.stage {
            Stage::WriteGate { frames, next, .. } => next < frames@.len(),
            Stage::Writing { frames, next, .. } => next < frames@.len(),
            _ => true,
        }
    }

    pub open spec fn spec_idle(&self) -> bool {
        self.spec_stage() is Idle
    }

    /// Whether `ev` is what the driver waits for in its current stage.
    pub open spec fn spec_accepts<E>(&self, ev: Event<E>) -> bool {
        match (self.spec_stage(), ev) {
            (Stage::WriteGate { .. }, Event::Woke(_)) => true,
            (Stage::ReadGate { .. }, Event::Woke(_)) => true,
            (Stage::Settling { .. }, Event::Woke(_)) => true,
            (Stage::Writing { .. }, Event::Wrote(_, _)) => true,
            (Stage::Selecting { .. }, Event::Wrote(_, _)) => true,
            (Stage::Reading { len, .. }, Event::Received(_, res)) => match res {
                Ok(b) => b@.len() == len,
                Err(_) => true,
            },
            _ => false,
        }
    }

    /// A driver with no operation under way whose first operation may start
    /// at once.
    pub fn new() -> (r: Driver)
        ensures
            r.wf(),
            r.spec_idle(),
            r.spec_timeout() == 0,
    {
        Driver { timeout: 0, stage: Stage::Idle }
    }

    pub fn timeout(&self) -> (r: u64)
        ensures
            r == self.spec_timeout(),
    {
        self.timeout
    }

    /// Makes the next operation wait until `d` microseconds after `now`.
    pub fn set_timeout(&mut self, now: u64, d: u64)
        requires
            old(self).wf(),
        ensures
            final(self).wf(),
            final(self).spec_timeout() == deadline(now, d),
            final(self).spec_stage() == old(self).spec_stage(),
    {
        self.timeout = after(now, d);
    }

    pub fn is_idle(&self) -> (r: bool)
        ensures
            r == self.spec_idle(),
    {
        match self.stage {
            Stage::Idle => true,
            _ => false,
        }
    }

    pub fn accepts<E>(&self, ev: &Event<E>) -> (r: bool)
        ensures
            r == self.spec_accepts(*ev),
    {
        match (&self.stage, ev) {
            (Stage::WriteGate { .. }, Event::Woke(_)) => true,
            (Stage::ReadGate { .. }, Event::Woke(_)) => true,
            (Stage::Settling { .. }, Event::Woke(_)) => true,
            (Stage::Writing { .. }, Event::Wrote(_, _)) => true,
            (Stage::Selecting { .. }, Event::Wrote(_, _)) => true,
            (Stage::Reading { len, .. }, Event::Received(_, res)) => match res {
                Ok(b) => b.len() == *len,
                Err(_) => true,
            },
            _ => false,
        }
    }

    /// Waits for the backoff instant before write `next`, or issues it.
    fn gate_write<E>(&mut self, addr: u8, frames: Vec<Vec<u8>>, next: usize, hold: u64, now: u64) -> (r: Action<E>)
        requires
            next < frames@.len(),
        ensures
            final(self).wf(),
            final(self).spec_timeout() == old(self).spec_timeout(),
            now < old(self).spec_timeout() ==> r.is_sleep_for(gate_delay(old(self).spec_timeout(), now))
                && final(self).spec_stage() == (Stage::WriteGate { addr, frames, next, hold }),
            now >= old(self).spec_timeout() ==> r.is_write_of(addr, frames@[next as int]@)
                && final(self).spec_stage() == (Stage::Writing { addr, frames, next, hold }),
    {
        if now < self.timeout {
            self.stage = Stage::WriteGate { addr, frames, next, hold };
            Action::Sleep(self.timeout - now)
        } else {
            let bytes = copy_bytes(frames[next].as_slice());
            self.stage = Stage::Writing { addr, frames, next, hold };
            Action::BusWrite { addr, bytes }
        }
    }

    /// Waits for the backoff instant before a read's address-select write,
    /// or issues it.
    fn gate_read<E>(&mut self, addr: u8, reg: Reg, len: usize, now: u64) -> (r: Action<E>)
        ensures
            final(self).wf(),
            final(self).spec_timeout() == old(self).spec_timeout(),
            now < old(self).spec_timeout() ==> r.is_sleep_for(gate_delay(old(self).spec_timeout(), now))
                && final(self).spec_stage() == (Stage::ReadGate { addr, reg, len }),
            now >= old(self).spec_timeout() ==> r.is_write_of(addr, reg@)
                && final(self).spec_stage() == (Stage::Selecting { addr, reg, len }),
    {
        if now < self.timeout {
            self.stage = Stage::ReadGate { addr, reg, len };
            Action::Sleep(self.timeout - now)
        } else {
            let mut bytes: Vec<u8> = Vec::new();
            bytes.push(reg[0]);
            bytes.push(reg[1]);
            assert(bytes@ =~= reg@);
            self.stage = Stage::Selecting { addr, reg, len };
            Action::BusWrite { addr, bytes }
        }
    }

    /// Begins `op` at time `now`. The first bus transaction is issued at once
    /// if the backoff instant has passed; else the caller first sleeps until
    /// it. A write of no frames ends at once without touching the bus.
    pub fn start<E>(&mut self, op: Op, now: u64) -> (r: Action<E>)
        requires
            old(self).wf(),
            old(self).spec_idle(),
        ensures
            final(self).wf(),
            final(self).spec_timeout() == old(self).spec_timeout(),
            match op {
                Op::Write { addr, frames, hold } => if frames@.len() == 0 {
                    &&& r.is_done_with(Seq::empty())
                    &&& final(self).spec_idle()
                } else if now < old(self).spec_timeout() {
                    &&& r.is_sleep_for(gate_delay(old(self).spec_timeout(), now))
                    &&& final(self).spec_stage() == (Stage::WriteGate { addr, frames, next: 0, hold })
                } else {
                    &&& r.is_write_of(addr, frames@[0]@)
                    &&& final(self).spec_stage() == (Stage::Writing { addr, frames, next: 0, hold })
                },
                Op::Read { addr, reg, len } => if now < old(self).spec_timeout() {
                    &&& r.is_sleep_for(gate_delay(old(self).spec_timeout(), now))
                    &&& final(self).spec_stage() == (Stage::ReadGate { addr, reg, len })
                } else {
                    &&& r.is_write_of(addr, reg@)
                    &&& final(self).spec_stage() == (Stage::Selecting { addr, reg, len })
                },
            },
    {
        match op {
            Op::Write { addr, frames, hold } => {
                if frames.len() == 0 {
                    Action::Done(Ok(Vec::new()))
                } else {
                    self.gate_write(addr, frames, 0, hold, now)
                }
            },
            Op::Read { addr, reg, len } => self.gate_read(addr, reg, len, now),
        }
    }

    /// Takes the outcome of the last action and decides the next one.
    ///
    /// After each write the bus stays quiet for the operation's hold time,
    /// after a failure for the error delay, after a read for the fixed delay.
    /// A failed transaction ends the operation with its error, at once: a
    /// failed address-select write is never followed by the data read, and a
    /// failed write is never followed by the next one.
    pub fn resume<E>(&mut self, ev: Event<E>) -> (r: Action<E>)
        requires
            old(self).wf(),
            old(self).spec_accepts(ev),
        ensures
            final(self).wf(),
            match (old(self).spec_stage(), ev) {
                (Stage::WriteGate { addr, frames, next, hold }, Event::Woke(now)) => {
                    &&& final(self).spec_timeout() == old(self).spec_timeout()
                    &&& if now < old(self).spec_timeout() {
                        &&& r.is_sleep_for(gate_delay(old(self).spec_timeout(), now))
                        &&& final(self).spec_stage() == old(self).spec_stage()
                    } else {
                        &&& r.is_write_of(addr, frames@[next as int]@)
                        &&& final(self).spec_stage() == (Stage::Writing { addr, frames, next, hold })
                    }
                },
                (Stage::Writing { addr, frames, next, hold }, Event::Wrote(now, res)) => match res {
                    Err(e) => {
                        &&& r.is_bus_error(e)
                        &&& final(self).spec_idle()
                        &&& final(self).spec_timeout() == deadline(now, ERROR_DELAY)
                    },
                    Ok(_) => {
                        &&& final(self).spec_timeout() == deadline(now, hold)
                        &&& if next + 1 == frames@.len() {
                            r.is_done_with(Seq::empty()) && final(self).spec_idle()
                        } else if now < deadline(now, hold) {
                            &&& r.is_sleep_for(gate_delay(deadline(now, hold), now))
                            &&& final(self).spec_stage() == (Stage::WriteGate { addr, frames, next: (next + 1) as usize, hold })
                        } else {
                            &&& r.is_write_of(addr, frames@[next + 1]@)
                            &&& final(self).spec_stage() == (Stage::Writing { addr, frames, next: (next + 1) as usize, hold })
                        }
                    },
                },
                (Stage::ReadGate { addr, reg, len }, Event::Woke(now)) => {
                    &&& final(self).spec_timeout() == old(self).spec_timeout()
                    &&& if now < old(self).spec_timeout() {
                        &&& r.is_sleep_for(gate_delay(old(self).spec_timeout(), now))
                        &&& final(self).spec_stage() == old(self).spec_stage()
                    } else {
                        &&& r.is_write_of(addr, reg@)
                        &&& final(self).spec_stage() == (Stage::Selecting { addr, reg, len })
                    }
                },
                (Stage::Selecting { addr, reg, len }, Event::Wrote(now, res)) => match res {
                    Err(e) => {
                        &&& r.is_bus_error(e)
                        &&& final(self).spec_idle()
                        &&& final(self).spec_timeout() == deadline(now, ERROR_DELAY)
                    },
                    Ok(_) => {
                        &&& r.is_sleep_for(SETTLE_DELAY as nat)
                        &&& final(self).spec_stage() == (Stage::Settling { addr, len })
                        &&& final(self).spec_timeout() == old(self).spec_timeout()
                    },
                },
                (Stage::Settling { addr, len }, Event::Woke(_)) => {
                    &&& r.is_read_of(addr, len)
                    &&& final(self).spec_stage() == (Stage::Reading { addr, len })
                    &&& final(self).spec_timeout() == old(self).spec_timeout()
                },
                (Stage::Reading { addr, len }, Event::Received(now, res)) => {
                    &&& final(self).spec_idle()
                    &&& match res {
                        Ok(b) => r.is_done_with(b@) && final(self).spec_timeout() == deadline(now, DELAY_TIME),
                        Err(e) => r.is_bus_error(e) && final(self).spec_timeout() == deadline(now, ERROR_DELAY),
                    }
                },
                _ => false,
            },
    {
        let mut stage = Stage::Idle;
        core::mem::swap(&mut stage, &mut self.stage);
        match (stage, ev) {
            (Stage::WriteGate { addr, frames, next, hold }, Event::Woke(now)) => {
                self.gate_write(addr, frames, next, hold, now)
            },
            (Stage::Writing { addr, frames, next, hold }, Event::Wrote(now, res)) => match res {
                Err(e) => {
                    self.timeout = after(now, ERROR_DELAY);
                    Action::Done(Err(SeesawError::I2c(e)))
                },
                Ok(_) => {
                    self.timeout = after(now, hold);
                    if next == frames.len() - 1 {
                        Action::Done(Ok(Vec::new()))
                    } else {
                        self.gate_write(addr, frames, next + 1, hold, now)
                    }
                },
            },
            (Stage::ReadGate { addr, reg, len }, Event::Woke(now)) => {
                self.gate_read(addr, reg, len, now)
            },
            (Stage::Selecting { addr, reg, len }, Event::Wrote(now, res)) => match res {
                Err(e) => {
                    self.timeout = after(now, ERROR_DELAY);
                    Action::Done(Err(SeesawError::I2c(e)))
                },
                Ok(_) => {
                    self.stage = Stage::Settling { addr, len };
                    Action::Sleep(SETTLE_DELAY)
                },
            },
            (Stage::Settling { addr, len }, Event::Woke(_)) => {
                self.stage = Stage::Reading { addr, len };
                Action::BusRead { addr, len }
            },
            (Stage::Reading { addr, len }, Event::Received(now, res)) => match res {
                Ok(b) => {
                    self.timeout = after(now, DELAY_TIME);
                    Action::Done(Ok(b))
                },
                Err(e) => {
                    self.timeout = after(now, ERROR_DELAY);
                    Action::Done(Err(SeesawError::I2c(e)))
                },
            },
            (stage, _) => {
                self.stage = stage;
                Action::Sleep(0)
            },
        }
    }
}

/// The bytes of each frame.
pub open spec fn frame_views(frames: Seq<Vec<u8>>) -> Seq<Seq<u8>> {
    frames.map_values(|f: Vec<u8>| f@)
}

impl Op {
    /// Whether this is the write of `frames` to `addr`, each followed by
    /// `hold` microseconds of quiet.
    pub open spec fn is_write(self, addr: u8, frames: Seq<Seq<u8>>, hold: u64) -> bool {
        match self {
            Op::Write { addr: a, frames: f, hold: h } => a == addr && frame_views(f@) == frames
                && h == hold,
            _ => false,
        }
    }

    /// Whether this is the read of `len` bytes from register `reg` of `addr`.
    pub open spec fn is_read(self, addr: u8, reg: Seq<u8>, len: usize) -> bool {
        match self {
            Op::Read { addr: a, reg: r, len: n } => a == addr && r@ == reg && n == len,
            _ => false,
        }
    }
}

/// The operation that writes `frames` to `addr`, each followed by `hold`
/// microseconds of quiet.
pub fn write_frames(addr: u8, frames: Vec<Vec<u8>>, hold: u64) -> (r: Op)
    ensures
        r.is_write(addr, frame_views(frames@), hold),
{
    Op::Write { addr, frames, hold }
}

/// The operation that writes `regval` to the peripheral at `addr`.
pub fn register_write<const N: usize>(addr: u8, regval: &RegValue<N>) -> (r: Op)
    ensures
        r.is_write(addr, seq![regval@], DELAY_TIME),
{
    let bytes = copy_bytes(regval.buffer());
    let mut frames: Vec<Vec<u8>> = Vec::new();
    frames.push(bytes);
    assert(frame_views(frames@) =~= seq![regval@]);
    Op::Write { addr, frames, hold: DELAY_TIME }
}

/// The operation that reads `len` bytes from register `reg` of the peripheral
/// at `addr`.
pub fn register_read(addr: u8, reg: &Reg, len: usize) -> (r: Op)
    ensures
        r.is_read(addr, reg@, len),
{
    Op::Read { addr, reg: *reg, len }
}

/// The register write of `payload` to register `reg`, built through a
/// register value of the payload's width.
fn int_frame(reg: &Reg, payload: &Vec<u8>) -> (r: Vec<u8>)
    requires
        valid_width(payload@.len()),
    ensures
        r@ == reg@ + payload@,
{
    let len = payload.len();
    let bytes = payload.as_slice();
    if len == 1 {
        let v = RegValue::<1>::new(reg).with_bytes(bytes);
        assert(v@ =~= reg@ + payload@);
        copy_bytes(v.buffer())
    } else if len == 2 {
        let v = RegValue::<2>::new(reg).with_bytes(bytes);
        assert(v@ =~= reg@ + payload@);
        copy_bytes(v.buffer())
    } else if len == 4 {
        let v = RegValue::<4>::new(reg).with_bytes(bytes);
        assert(v@ =~= reg@ + payload@);
        copy_bytes(v.buffer())
    } else {
        let v = RegValue::<8>::new(reg).with_bytes(bytes);
        assert(v@ =~= reg@ + payload@);
        copy_bytes(v.buffer())
    }
}

/// The operation that writes the unsigned `value` to the register `reg` of
/// `width` bytes, big-endian.
pub fn write_uint(addr: u8, reg: &Reg, value: u64, width: usize) -> (r: Op)
    requires
        valid_width(width as nat),
        value < pow256(width as nat),
    ensures
        r.is_write(addr, seq![reg@ + be_bytes(value as nat, width as nat)], DELAY_TIME),
{
    let payload = encode_be(value, width);
    let frame = int_frame(reg, &payload);
    let mut frames: Vec<Vec<u8>> = Vec::new();
    frames.push(frame);
    assert(frame_views(frames@) =~= seq![reg@ + be_bytes(value as nat, width as nat)]);
    Op::Write { addr, frames, hold: DELAY_TIME }
}

/// The operation that writes the signed `value` to the register `reg` of
/// `width` bytes, big-endian two's complement.
pub fn write_int(addr: u8, reg: &Reg, value: i64, width: usize) -> (r: Op)
    requires
        valid_width(width as nat),
        fits_signed(value as int, width as nat),
    ensures
        r.is_write(
            addr,
            seq![reg@ + be_bytes(twos_complement(value as int, width as nat), width as nat)],
            DELAY_TIME,
        ),
{
    let payload = encode_be_signed(value, width);
    let frame = int_frame(reg, &payload);
    let mut frames: Vec<Vec<u8>> = Vec::new();
    frames.push(frame);
    assert(frame_views(frames@) =~= seq![
        reg@ + be_bytes(twos_complement(value as int, width as nat), width as nat),
    ]);
    Op::Write { addr, frames, hold: DELAY_TIME }
}

pub fn write_u8(addr: u8, reg: &Reg, value: u8) -> (r: Op)
    ensures
        r.is_write(addr, seq![reg@ + be_bytes(value as nat, 1)], DELAY_TIME),
{
    proof {
        reveal_with_fuel(pow256, 2);
    }
    write_uint(addr, reg, value as u64, 1)
}

pub fn write_u16(addr: u8, reg: &Reg, value: u16) -> (r: Op)
    ensures
        r.is_write(addr, seq![reg@ + be_bytes(value as nat, 2)], DELAY_TIME),
{
    proof {
        reveal_with_fuel(pow256, 3);
    }
    write_uint(addr, reg, value as u64, 2)
}

pub fn write_u32(addr: u8, reg: &Reg, value: u32) -> (r: Op)
    ensures
        r.is_write(addr, seq![reg@ + be_bytes(value as nat, 4)], DELAY_TIME),
{
    proof {
        reveal_with_fuel(pow256, 5);
    }
    write_uint(addr, reg, value as u64, 4)
}

pub fn write_u64(addr: u8, reg: &Reg, value: u64) -> (r: Op)
    ensures
        r.is_write(addr, seq![reg@ + be_bytes(value as nat, 8)], DELAY_TIME),
{
    proof {
        reveal_with_fuel(pow256, 9);
    }
    write_uint(addr, reg, value, 8)
}

pub fn write_i8(addr: u8, reg: &Reg, value: i8) -> (r: Op)
    ensures
        r.is_write(addr, seq![reg@ + be_bytes(twos_complement(value as int, 1), 1)], DELAY_TIME),
{
    proof {
        reveal_with_fuel(pow256, 2);
    }
    write_int(addr, reg, value as i64, 1)
}

pub fn write_i16(addr: u8, reg: &Reg, value: i16) -> (r: Op)
    ensures
        r.is_write(addr, seq![reg@ + be_bytes(twos_complement(value as int, 2), 2)], DELAY_TIME),
{
    proof {
        reveal_with_fuel(pow256, 3);
    }
    write_int(addr, reg, value as i64, 2)
}

pub fn write_i32(addr: u8, reg: &Reg, value: i32) -> (r: Op)
    ensures
        r.is_write(addr, seq![reg@ + be_bytes(twos_complement(value as int, 4), 4)], DELAY_TIME),
{
    proof {
        reveal_with_fuel(pow256, 5);
    }
    write_int(addr, reg, value as i64, 4)
}

pub fn write_i64(addr: u8, reg: &Reg, value: i64) -> (r: Op)
    ensures
        r.is_write(addr, seq![reg@ + be_bytes(twos_complement(value as int, 8), 8)], DELAY_TIME),
{
    proof {
        reveal_with_fuel(pow256, 9);
    }
    write_int(addr, reg, value, 8)
}

/// The value of the bytes that a read of a 1-byte register returned.
pub fn read_u8(bytes: &[u8]) -> (r: u8)
    requires
        bytes@.len() == 1,
    ensures
        r == be_value(bytes@),
{
    proof {
        crate::codec::lemma_be_value_bound(bytes@);
        reveal_with_fuel(pow256, 2);
    }
    decode_be(bytes) as u8
}

/// The value of the bytes that a read of a 2-byte register returned.
pub fn read_u16(bytes: &[u8]) -> (r: u16)
    requires
        bytes@.len() == 2,
    ensures
        r == be_value(bytes@),
{
    proof {
        crate::codec::lemma_be_value_bound(bytes@);
        reveal_with_fuel(pow256, 3);
    }
    decode_be(bytes) as u16
}

/// The value of the bytes that a read of a 4-byte register returned.
pub fn read_u32(bytes: &[u8]) -> (r: u32)
    requires
        bytes@.len() == 4,
    ensures
        r == be_value(bytes@),
{
    proof {
        crate::codec::lemma_be_value_bound(bytes@);
        reveal_with_fuel(pow256, 5);
    }
    decode_be(bytes) as u32
}

/// The value of the bytes that a read of an 8-byte register returned.
pub fn read_u64(bytes: &[u8]) -> (r: u64)
    requires
        bytes@.len() == 8,
    ensures
        r == be_value(bytes@),
{
    decode_be(bytes)
}

/// The signed value of the bytes that a read of a 1-byte register returned.
pub fn read_i8(bytes: &[u8]) -> (r: i8)
    requires
        bytes@.len() == 1,
    ensures
        r == be_signed_value(bytes@),
{
    proof {
        crate::codec::lemma_be_value_bound(bytes@);
        reveal_with_fuel(pow256, 2);
    }
    decode_be_signed(bytes) as i8
}

/// The signed value of the bytes that a read of a 2-byte register returned.
pub fn read_i16(bytes: &[u8]) -> (r: i16)
    requires
        bytes@.len() == 2,
    ensures
        r == be_signed_value(bytes@),
{
    proof {
        crate::codec::lemma_be_value_bound(bytes@);
        reveal_with_fuel(pow256, 3);
    }
    decode_be_signed(bytes) as i16
}

/// The signed value of the bytes that a read of a 4-byte register returned.
pub fn read_i32(bytes: &[u8]) -> (r: i32)
    requires
        bytes@.len() == 4,
    ensures
        r == be_signed_value(bytes@),
{
    proof {
        crate::codec::lemma_be_value_bound(bytes@);
        reveal_with_fuel(pow256, 5);
    }
    decode_be_signed(bytes) as i32
}

/// The signed value of the bytes that a read of an 8-byte register returned.
pub fn read_i64(bytes: &[u8]) -> (r: i64)
    requires
        bytes@.len() == 8,
    ensures
        r == be_signed_value(bytes@),
{
    decode_be_signed(bytes)
}

/// After an operation that ends at `now` and asks for `d` microseconds of
/// quiet, an operation that starts before the recorded instant waits exactly
/// until it, and one that starts at or after it does not wait at all.
pub proof fn lemma_backoff(now: u64, d: u64, later: u64)
    ensures
        later < deadline(now, d) ==> gate_delay(deadline(now, d), later) > 0 && later + gate_delay(
            deadline(now, d),
            later,
        ) == deadline(now, d),
        later >= deadline(now, d) ==> gate_delay(deadline(now, d), later) == 0,
        d > 0 && now < u64::MAX ==> deadline(now, d) > now,
{
}

/// The instant `d` microseconds after `now`, saturating.
fn after(now: u64, d: u64) -> (r: u64)
    ensures
        r == deadline(now, d),
{
    if now > u64::MAX - d {
        u64::MAX
    } else {
        now + d
    }
}

fn copy_bytes(v: &[u8]) -> (r: Vec<u8>)
    ensures
        r@ == v@,
{
    let mut r: Vec<u8> = Vec::new();
    let mut i: usize = 0;
    while i < v.len()
        invariant
            i <= v@.len(),
            r@ == v@.subrange(0, i as int),
        decreases v@.len() - i,
    {
        r.push(v[i]);
        i = i + 1;
        assert(r@ =~= v@.subrange(0, i as int));
    }
    assert(r@ =~= v@);
    r
}

} // verus!
