//! Building blocks of an AVR-style microcontroller component.

pub mod io_controller;
pub mod mcu_model;
pub mod regfile;
pub mod sreg;
