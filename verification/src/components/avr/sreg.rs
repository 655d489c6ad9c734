//! The AVR status register, bit by bit.

use vstd::prelude::*;

use crate::pins::{spec_bit32, PinState};
use crate::vcd::builder::VcdModuleBuilder;
use crate::vcd::fillers::VcdFiller;
use crate::vcd::VcdTreeModule;

verus! {

/// The status register: eight independent flags in one byte.
#[derive(Debug, Clone, Copy, PartialEq, Eq, Structural)]
pub struct StatusRegister(pub u8);

/// The VCD name of status bit `i`, most significant first.
fn bit_name(i: usize) -> (r: &'static str)
    requires
        i < 8,
{
    match i {
        0 => "I",
        1 => "T",
        2 => "H",
        3 => "S",
        4 => "V",
        5 => "N",
        6 => "Z",
        _ => "C",
    }
}

impl StatusRegister {
    /// Reads flag bit `i`.
    pub fn bit(&self, i: u32) -> (r: bool)
        ensures
            r == spec_bit32(self.0 as u32, i as nat),
    {
        crate::pins::bit32(self.0 as u32, i)
    }

    /// Sets or clears flag bit `i`.
    pub fn set_bit(&mut self, i: u32, b: bool)
        requires
            i < 8,
        ensures
            final(self).0 == (if b {
                old(self).0 | (1u8 << i)
            } else {
                old(self).0 & !(1u8 << i)
            }),
    {
        if b {
            self.0 = self.0 | (1u8 << i);
        } else {
            self.0 = self.0 & !(1u8 << i);
        }
    }
}

impl VcdFiller for StatusRegister {
    fn is_signal() -> (r: bool)
        ensures
            r == false,
    {
        false
    }

    fn init_vcd_module(&self, builder: &mut VcdModuleBuilder) {
        let mut i: usize = 0;
        while i < 8
            decreases 8 - i,
        {
            builder.add_signal(bit_name(i), 1, PinState::Low);
            i = i + 1;
        }
    }

    fn fill_module(&self, module: &mut VcdTreeModule) -> (r: bool) {
        let mut r = false;
        let mut i: usize = 0;
        while i < 8
            invariant
                0 <= i <= 8,
            decreases 8 - i,
        {
            let changed = module.update_subsignal(i, self.bit((7 - i) as u32));
            r = r || changed;
            i = i + 1;
        }
        r
    }
}

} // verus!
