//! Reference components implementing the component contract.

pub mod avr;
pub mod led;
