//! AVR-specific helpers.

pub mod bit_helpers;
