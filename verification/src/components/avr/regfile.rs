//! The general-purpose register file.

use vstd::prelude::*;

use crate::pins::PinState;
use crate::vcd::builder::VcdModuleBuilder;
use crate::vcd::fillers::VcdFiller;
use crate::vcd::VcdTreeModule;

verus! {

/// The 32 general-purpose registers.
pub struct RegisterFile {
    pub regs: Vec<u8>,
}

/// The VCD name of register `i`.
fn reg_name(i: usize) -> (r: &'static str)
    requires
        i < 32,
{
    match i {
        0 => "r0",
        1 => "r1",
        2 => "r2",
        3 => "r3",
        4 => "r4",
        5 => "r5",
        6 => "r6",
        7 => "r7",
        8 => "r8",
        9 => "r9",
        10 => "r10",
        11 => "r11",
        12 => "r12",
        13 => "r13",
        14 => "r14",
        15 => "r15",
        16 => "r16",
        17 => "r17",
        18 => "r18",
        19 => "r19",
        20 => "r20",
        21 => "r21",
        22 => "r22",
        23 => "r23",
        24 => "r24",
        25 => "r25",
        26 => "r26",
        27 => "r27",
        28 => "r28",
        29 => "r29",
        30 => "r30",
        31 => "r31",
        _ => "r0",
    }
}

impl RegisterFile {
    /// A register file with all 32 registers cleared.
    pub fn new() -> (r: RegisterFile)
        ensures
            r.regs@ =~= Seq::new(32, |i: int| 0u8),
    {
        let mut regs: Vec<u8> = Vec::new();
        let mut i: usize = 0;
        while i < 32
            invariant
                0 <= i <= 32,
                regs@ =~= Seq::new(i as nat, |j: int| 0u8),
            decreases 32 - i,
        {
            regs.push(0);
            proof {
                assert(regs@ =~= Seq::new((i + 1) as nat, |j: int| 0u8));
            }
            i = i + 1;
        }
        RegisterFile { regs }
    }

    /// Reads a register pair as a little-endian 16-bit value.
    pub fn read_u16(&self, i: usize) -> (r: u16)
        requires
            i + 1 < self.regs@.len(),
        ensures
            r == (self.regs@[i + 1] as u16) * 256 + self.regs@[i as int] as u16,
    {
        let n = self.regs.len();
        proof {
            assert(self.regs@.len() == n as int);
        }
        let hi = self.regs[i + 1] as u16;
        let lo = self.regs[i] as u16;
        proof {
            assert(((hi << 8u16) | lo) == hi * 256 + lo) by (bit_vector)
                requires
                    hi <= 255 && lo <= 255,
            ;
        }
        (hi << 8u16) | lo
    }

    /// Writes a 16-bit value into a register pair, low byte first.
    pub fn write_u16(&mut self, i: usize, val: u16)
        requires
            i + 1 < old(self).regs@.len(),
        ensures
            final(self).regs@ =~= old(self).regs@.update(i as int, (val & 0xff) as u8).update(
                i + 1,
                (val >> 8u16) as u8,
            ),
    {
        let n = self.regs.len();
        proof {
            assert(self.regs@.len() == n as int);
        }
        let lo: u8 = (val & 0xff) as u8;
        let hi: u8 = (val >> 8u16) as u8;
        self.regs.remove(i);
        self.regs.insert(i, lo);
        self.regs.remove(i + 1);
        self.regs.insert(i + 1, hi);
        proof {
            assert(final(self).regs@ =~= old(self).regs@.update(i as int, lo).update(
                i + 1,
                hi,
            ));
        }
    }
}

impl VcdFiller for RegisterFile {
    fn is_signal() -> (r: bool)
        ensures
            r == false,
    {
        false
    }

    fn init_vcd_module(&self, builder: &mut VcdModuleBuilder) {
        let mut i: usize = 0;
        while i < 32
            decreases 32 - i,
        {
            builder.add_signal(reg_name(i), 8, PinState::Low);
            i = i + 1;
        }
    }

    fn fill_module(&self, module: &mut VcdTreeModule) -> (r: bool) {
        let mut r = false;
        let mut i: usize = 0;
        while i < 32
            decreases 32 - i,
        {
            let v: u8 = if i < self.regs.len() {
                self.regs[i]
            } else {
                0
            };
            let changed = module.update_subsignal(i, v);
            r = r || changed;
            i = i + 1;
        }
        r
    }
}

} // verus!
