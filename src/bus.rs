//! The SPI device together with the record of every transfer made on it.

use embedded_hal::spi::SpiDevice;
use vstd::prelude::*;

use crate::error::Error;

verus! {

/// One transfer on the bus: the bytes handed to the device and what the
/// device reported.
pub type Transfer = (Seq<u8>, Result<(), Error>);

/// An SPI device and the log of every transfer made through it. Only
/// `write` extends the log.
pub struct Bus<S> {
    dev: S,
    log: Ghost<Seq<Transfer>>,
}

impl<S> Bus<S> {
    /// Every transfer made so far, oldest first.
    pub closed spec fn log(&self) -> Seq<Transfer> {
        self.log@
    }

    /// Takes ownership of the device; no transfer has been made yet.
    pub fn new(dev: S) -> (r: Self)
        ensures
            r.log() == Seq::<Transfer>::empty(),
    {
        Bus { dev, log: Ghost(Seq::empty()) }
    }
}

impl<S: SpiDevice> Bus<S> {
    /// Relies on `embedded_hal::spi::SpiDevice::write`: `bytes` go to the
    /// device in one transaction, and a failure is reported with the
    /// device's `ErrorKind`.
    #[verifier::external_body]
    pub(crate) fn write(&mut self, bytes: &[u8]) -> (r: Result<(), Error>)
        ensures
            final(self).log() == old(self).log().push((bytes@, r)),
            r matches Err(e) ==> e is SpiError,
    {
        self.dev.write(bytes).map_err(|e| Error::SpiError(embedded_hal::spi::Error::kind(&e)))
    }
}

} // verus!
