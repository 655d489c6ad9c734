//! Static parameters of a concrete microcontroller model.

use vstd::prelude::*;

verus! {

/// Static parameters that distinguish one AVR device from another.
pub trait McuModel: Send {
    /// Size of the flash, in 16-bit words.
    fn flash_size() -> usize;

    /// Which bits of the `RAMPZ` register are implemented.
    fn rampz_mask() -> u8;

    /// Which bits of the `EIND` register are implemented.
    fn eind_mask() -> u8;
}

/// The ATmega2560 model.
pub struct Atmega2560;

impl McuModel for Atmega2560 {
    fn flash_size() -> (r: usize)
        ensures
            r == 131072,
    {
        128 * 1024
    }

    fn rampz_mask() -> (r: u8)
        ensures
            r == 0x03,
    {
        0x03
    }

    fn eind_mask() -> (r: u8)
        ensures
            r == 0x01,
    {
        0x01
    }
}

} // verus!
