//! Core logic of a load-cell acquisition node.
//!
//! The node clocks 24-bit conversion results out of a bit-serial converter,
//! subtracts a zero offset learned at start-up and hands one line of text per
//! reading to a serial transport. Everything here is pure decision logic: the
//! caller owns the pins, the timer and the transport, carries out the
//! operations this crate asks for and reports back what it observed.

pub mod acquisition;
pub mod calibration;
pub mod clock;
pub mod config;
pub mod error;
pub mod gain;
pub mod report;
pub mod sample;
pub mod scheduler;
