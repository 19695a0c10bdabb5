//! Driver core for a sub-GHz radio transceiver on a synchronous serial bus.
//!
//! The driver frames every register access, strobe and burst as one bus
//! transaction, converts physical quantities into register fields, selects
//! power-amplifier settings, and moves the radio between idle, receive and
//! transmit by polling its state. Every transaction the driver performs is
//! recorded in a ghost trace, over which its contracts say what went on the
//! wire: the bytes of each transaction, that the chip is released after each
//! one, and that an operation fails with a bus error exactly when the last
//! exchange it made failed. Waits on the chip are bounded by a poll limit.
use vstd::prelude::*;

pub mod bus;
pub mod config;
pub mod convert;
pub mod driver;
pub mod pa_table;
pub mod protocol;
pub mod settings;
pub mod status;

pub use driver::{Cc1101, Error};
pub use settings::{AddressFilter, Modulation, PacketLength, RadioMode, SyncMode};
pub use pa_table::PaColumn;

verus! {

/// Frequency of the reference crystal oscillator, in Hz.
pub const FXOSC: u64 = 26_000_000;

} // verus!
