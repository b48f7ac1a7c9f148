//! The bus that carries a transaction to the device and back.

use vstd::prelude::*;

verus! {

/// A full-duplex byte exchange with the device.
///
/// Chip select, timeouts and retries are the transport's own business.
pub trait Transport {
    /// What the transport reports when an exchange fails.
    type Error;

    /// Sends the bytes of `buffer` and overwrites them in place with the
    /// bytes that arrived on the same clock cycles. The call blocks until
    /// the exchange is over.
    fn transfer(&mut self, buffer: &mut [u8]) -> Result<(), Self::Error>;
}

} // verus!
