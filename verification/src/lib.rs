//! Register transactions with the ADIN1110 single-pair Ethernet transceiver
//! over a full-duplex serial bus.
//!
//! A transaction reads or writes a run of 32-bit registers. It is one
//! exchange over the bus: a control header goes out, the device echoes it,
//! and the register words follow. [`header`] packs and unpacks the control
//! header, [`transaction`] lays out the buffer and reads what came back, and
//! [`driver`] runs a transaction over a [`transport`].

pub mod bits;
pub mod driver;
pub mod error;
pub mod header;
pub mod register;
pub mod transaction;
pub mod transport;
pub mod wire;

pub use driver::ADIN1110;
pub use error::Error;
