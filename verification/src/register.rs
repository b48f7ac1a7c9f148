//! The registers of the standard memory map that the driver knows by name.

use vstd::prelude::*;

verus! {

/// A register of the standard memory map. The device defines more than are
/// named here.
#[derive(Clone, Copy, Debug, PartialEq, Eq, Structural)]
#[non_exhaustive]
pub enum Registers {
    IdVer,
    PhyId,
    Capability,
}

impl Registers {
    /// The address of the register in the standard memory map.
    pub open spec fn spec_address(self) -> u16 {
        match self {
            Registers::IdVer => 0x00,
            Registers::PhyId => 0x01,
            Registers::Capability => 0x02,
        }
    }

    /// The address of the register in the standard memory map.
    #[verifier::when_used_as_spec(spec_address)]
    pub fn address(self) -> (address: u16)
        ensures
            address == self.spec_address(),
    {
        match self {
            Registers::IdVer => 0x00,
            Registers::PhyId => 0x01,
            Registers::Capability => 0x02,
        }
    }
}

} // verus!
