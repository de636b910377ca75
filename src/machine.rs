//! The target architecture of the ELF header.
use vstd::prelude::*;

verus! {

/// Target instruction set (`e_machine`).
#[derive(Copy, Clone, PartialEq, Eq, Structural, Debug)]
pub enum Machine {
    X86,
    AmdX86_64,
}

/// An `e_machine` code outside the supported set.
#[derive(Copy, Clone, PartialEq, Eq, Structural, Debug)]
pub enum Error {
    NotSupported,
}

/// The machine that `value` encodes, if any.
pub open spec fn machine_spec(value: u16) -> Result<Machine, Error> {
    if value == 0x03 {
        Ok(Machine::X86)
    } else if value == 0x3E {
        Ok(Machine::AmdX86_64)
    } else {
        Err(Error::NotSupported)
    }
}

/// The code that encodes `m`.
pub open spec fn machine_code(m: Machine) -> u16 {
    match m {
        Machine::X86 => 0x03,
        Machine::AmdX86_64 => 0x3E,
    }
}

impl TryFrom<u16> for Machine {
    type Error = Error;

    fn try_from(value: u16) -> (r: Result<Machine, Error>)
        ensures
            r == machine_spec(value),
    {
        match value {
            0x03 => Ok(Machine::X86),
            0x3E => Ok(Machine::AmdX86_64),
            _ => Err(Error::NotSupported),
        }
    }
}

impl vstd::std_specs::convert::TryFromSpecImpl<u16> for Machine {
    open spec fn obeys_try_from_spec() -> bool {
        true
    }

    open spec fn try_from_spec(v: u16) -> Result<Machine, Error> {
        machine_spec(v)
    }
}

} // verus!
