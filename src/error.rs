//! Errors reported by the driver.

use vstd::prelude::*;

verus! {

/// The kind of failure an SPI device reports, as `embedded_hal` classifies it.
#[verifier::external_type_specification]
#[verifier::external_body]
pub struct ExSpiErrorKind(embedded_hal::spi::ErrorKind);

/// Why an operation was refused or did not complete.
#[derive(Clone, Copy, Debug, PartialEq, Eq)]
pub enum Error {
    /// The requested chain length is outside `1..=MAX_DISPLAYS`.
    InvalidDeviceCount,
    /// The device index is not below the configured chain length.
    InvalidDeviceIndex,
    /// The scan limit is outside `1..=8`.
    InvalidScanLimit,
    /// The intensity is above `0x0F`.
    InvalidIntensity,
    /// The digit index is above 7.
    InvalidDigit,
    /// The SPI device reported a failure while transmitting a frame; the
    /// device's own error, by kind.
    SpiError(embedded_hal::spi::ErrorKind),
}

} // verus!
