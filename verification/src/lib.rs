//! A cycle-accurate digital-hardware simulation kernel.
//!
//! A board holds components joined by wires carrying six-valued logic.
//! A global clock drives the simulation; every half-cycle each component
//! may read its input pins, mutate its own state and drive new values onto
//! its output pins.  Every signal transition is recorded as a
//! Value-Change-Dump (VCD) stream.

pub mod board;
pub mod component;
pub mod components;
pub mod mcu;
pub mod pins;
pub mod vcd;
