use vstd::prelude::*;

pub mod codec;
pub mod common;
pub mod driver;
pub mod modules;
pub mod reg;

verus! {

/// The largest number of bytes that one bus write may carry on most hosts.
pub const DEFAULT_MAX_I2C_WRITE: u8 = 32;

/// What an operation on a peripheral can fail with; `E` is the bus's own error.
#[derive(Debug)]
pub enum SeesawError<E> {
    /// The bus reported an error; it is passed on unchanged.
    I2c(E),
    /// The peripheral reported a hardware id other than the expected one.
    InvalidHardwareId(u8),
}

} // verus!
