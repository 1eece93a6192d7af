use vstd::prelude::*;

use crate::codec::{be_bytes, twos_complement};
use crate::common::Modules;
use crate::driver::{register_read, write_i32, write_u8, Op, DELAY_TIME};

verus! {

/// Function id of the register that enables the encoder interrupt.
pub const INT_SET: u8 = 0x10;

/// Function id of the register that disables the encoder interrupt.
pub const INT_CLR: u8 = 0x20;

/// Function id of the register that holds the position (32 bits, signed).
pub const POSITION: u8 = 0x30;

/// Function id of the register that holds the change of position since its
/// last read (32 bits, signed).
pub const DELTA: u8 = 0x40;

/// The read of the change of position since the last such read; its bytes
/// decode with `read_i32`.
pub fn delta(addr: u8) -> (r: Op)
    ensures
        r.is_read(addr, seq![Modules::Encoder.id(), DELTA], 4),
{
    register_read(addr, &Modules::Encoder.reg(DELTA), 4)
}

/// The read of the position; its bytes decode with `read_i32`.
pub fn position(addr: u8) -> (r: Op)
    ensures
        r.is_read(addr, seq![Modules::Encoder.id(), POSITION], 4),
{
    register_read(addr, &Modules::Encoder.reg(POSITION), 4)
}

/// The write that sets the position to `pos`.
pub fn set_position(addr: u8, pos: i32) -> (r: Op)
    ensures
        r.is_write(
            addr,
            seq![seq![Modules::Encoder.id(), POSITION] + be_bytes(twos_complement(pos as int, 4), 4)],
            DELAY_TIME,
        ),
{
    write_i32(addr, &Modules::Encoder.reg(POSITION), pos)
}

/// The write that enables the encoder interrupt.
pub fn enable_interrupt(addr: u8) -> (r: Op)
    ensures
        r.is_write(addr, seq![seq![Modules::Encoder.id(), INT_SET] + be_bytes(1, 1)], DELAY_TIME),
{
    write_u8(addr, &Modules::Encoder.reg(INT_SET), 1)
}

/// The write that disables the encoder interrupt.
pub fn disable_interrupt(addr: u8) -> (r: Op)
    ensures
        r.is_write(addr, seq![seq![Modules::Encoder.id(), INT_CLR] + be_bytes(1, 1)], DELAY_TIME),
{
    write_u8(addr, &Modules::Encoder.reg(INT_CLR), 1)
}

} // verus!
