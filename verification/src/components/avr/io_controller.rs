//! Peripherals that sit behind the AVR input/output space.

pub mod gpio;
pub mod timer16;
