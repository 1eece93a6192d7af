use vstd::prelude::*;

use crate::SeesawError;

verus! {

/// A register address: the module id, then the function id.
pub type Reg = [u8; 2];

/// The id of the chip that runs the peripheral's firmware.
#[derive(Debug, Clone, Copy, PartialEq, Eq, Structural)]
pub enum HardwareId {
    ATTINY817,
    SAMD09,
}

impl HardwareId {
    /// The byte that the chip reports as its id.
    pub open spec fn code(self) -> u8 {
        match self {
            HardwareId::ATTINY817 => 0x87,
            HardwareId::SAMD09 => 0x55,
        }
    }
}

impl From<HardwareId> for u8 {
    fn from(value: HardwareId) -> (r: u8)
        ensures
            r == value.code(),
    {
        match value {
            HardwareId::ATTINY817 => 0x87,
            HardwareId::SAMD09 => 0x55,
        }
    }
}

impl vstd::std_specs::convert::FromSpecImpl<HardwareId> for u8 {
    open spec fn obeys_from_spec() -> bool {
        true
    }

    open spec fn from_spec(v: HardwareId) -> u8 {
        v.code()
    }
}

/// The register modules of the protocol; each module id is the first byte of
/// the addresses of its registers.
#[derive(Debug, Clone, Copy, PartialEq, Eq, Structural)]
pub enum Modules {
    Status,
    Gpio,
    Sercom0,
    Timer,
    Adc,
    Dac,
    Interrupt,
    Dap,
    Eeprom,
    Neopixel,
    Touch,
    Keypad,
    Encoder,
    Spectrum,
}

impl Modules {
    /// The module id on the wire.
    pub open spec fn id(self) -> u8 {
        match self {
            Modules::Status => 0x00,
            Modules::Gpio => 0x01,
            Modules::Sercom0 => 0x02,
            Modules::Timer => 0x08,
            Modules::Adc => 0x09,
            Modules::Dac => 0x0A,
            Modules::Interrupt => 0x0B,
            Modules::Dap => 0x0C,
            Modules::Eeprom => 0x0D,
            Modules::Neopixel => 0x0E,
            Modules::Touch => 0x0F,
            Modules::Keypad => 0x10,
            Modules::Encoder => 0x11,
            Modules::Spectrum => 0x12,
        }
    }

    pub fn into_u8(self) -> (r: u8)
        ensures
            r == self.id(),
    {
        match self {
            Modules::Status => 0x00,
            Modules::Gpio => 0x01,
            Modules::Sercom0 => 0x02,
            Modules::Timer => 0x08,
            Modules::Adc => 0x09,
            Modules::Dac => 0x0A,
            Modules::Interrupt => 0x0B,
            Modules::Dap => 0x0C,
            Modules::Eeprom => 0x0D,
            Modules::Neopixel => 0x0E,
            Modules::Touch => 0x0F,
            Modules::Keypad => 0x10,
            Modules::Encoder => 0x11,
            Modules::Spectrum => 0x12,
        }
    }

    /// The address of function `function` of this module.
    pub fn reg(self, function: u8) -> (r: Reg)
        ensures
            r@ == seq![self.id(), function],
    {
        let r: Reg = [self.into_u8(), function];
        assert(r@ =~= seq![self.id(), function]);
        r
    }
}

/// Checks the id that a peripheral reported against the expected chip.
pub fn check_hardware_id<E>(expected: HardwareId, id: u8) -> (r: Result<(), SeesawError<E>>)
    ensures
        id == expected.code() ==> r is Ok,
        id != expected.code() ==> r == Err::<(), SeesawError<E>>(SeesawError::InvalidHardwareId(id)),
{
    if id == u8::from(expected) {
        Ok(())
    } else {
        Err(SeesawError::InvalidHardwareId(id))
    }
}

} // verus!
