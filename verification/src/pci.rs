//! PCI configuration-space access, reduced to what can be computed: the
//! CF8 selector dword for a register, and the description of one planned
//! configuration write.  The firmware shell performs the actual port I/O.

use vstd::prelude::*;

verus! {

pub const PCI_CONFIGURATION_ADDRESS_PORT: u16 = 0xCF8;
pub const PCI_CONFIGURATION_DATA_PORT: u16 = 0xCFC;

/// One planned CF8/CFC configuration-space write: the register coordinates,
/// the value, and whether only a single byte is written on the data port.
#[derive(Clone, Copy, PartialEq, Eq, Structural, Debug)]
pub struct PciCf8Write {
    pub bus: u8,
    pub device: u8,
    pub fnc: u8,
    pub reg: u8,
    pub value: u32,
    pub byte_wide: bool,
}

/// The selector dword presented on the CF8 address port: enable bit 31, bus
/// in bits 16..24, device in bits 11..16, function in bits 8..11, and the
/// register offset with its low two bits cleared.
pub open spec fn spec_pci_cf8_address(bus: u8, device: u8, fnc: u8, reg: u8) -> u32 {
    ((bus as u32) << 16) | ((device as u32) << 11) | ((fnc as u32) << 8) | (((reg & 0xfc) as u32))
        | (1u32 << 31)
}

/// Builds the CF8 selector dword for one configuration register.
pub fn pci_cf8_address(bus: u8, device: u8, fnc: u8, reg: u8) -> (r: u32)
    ensures
        r == spec_pci_cf8_address(bus, device, fnc, reg),
{
    let data = (bus as u32) << 16;
    let data = data | (device as u32) << 11;
    let data = data | (fnc as u32) << 8;
    let data = data | ((reg & 0xfc) as u32);
    let data = data | 1u32 << 31;
    data
}

} // verus!
