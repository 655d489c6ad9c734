//! Helpers for modelling microcontroller cores.

pub mod avr;
