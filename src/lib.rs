//! Driver for a daisy chain of MAX7219 LED display controllers on an SPI bus.
//!
//! Each operation becomes one register-write frame of two bytes per chip; a
//! chip that is not addressed receives the no-op packet.

use vstd::prelude::*;

pub mod error;
pub mod registers;
pub mod bus;
pub mod driver;

pub use error::Error;
pub use registers::{DecodeMode, Register};
pub use driver::Max7219;

verus! {

/// The longest chain that one driver can address.
pub const MAX_DISPLAYS: usize = 8;

/// The digit (row) registers of each chip.
pub const NUM_DIGITS: u8 = 8;

} // verus!
