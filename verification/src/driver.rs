//! The driver: register transactions over a transport that it owns.

use vstd::prelude::*;
use crate::error::Error;
use crate::header::ControlCommandHeader;
use crate::register::Registers;
use crate::transaction::{
    lemma_echo_accept,
    lemma_echo_reject,
    result_view,
    Operation,
    Request,
    Transaction,
};
use crate::transport::Transport;
use crate::wire::{be_bytes, words_bytes};

verus! {

/// The request that reads `register` alone from the standard memory map.
pub open spec fn register_read(register: Registers) -> Request {
    Request {
        op: Operation::Read,
        address: register.spec_address(),
        memmap: 0,
        registers: 1,
        payload: None,
    }
}

/// The one word of the outcome of a read of one register.
pub open spec fn single(outcome: Result<Seq<u32>, Error>) -> Result<u32, Error> {
    match outcome {
        Ok(words) => Ok(words[0]),
        Err(error) => Err(error),
    }
}

/// A read of one register that the device accepts gives the word that
/// follows the echoed header.
pub proof fn lemma_register_read_accepted(
    register: Registers,
    head: Seq<u8>,
    echo: ControlCommandHeader,
    value: u32,
)
    requires
        head.len() == 4,
        !echo@.hdrb,
    ensures
        single(
            register_read(register).outcome(true, head + echo.spec_to_bytes() + be_bytes(value)),
        ) == Ok::<u32, Error>(value),
{
    lemma_echo_accept(register_read(register), head, echo, seq![value]);
    assert(words_bytes(seq![value]) =~= be_bytes(value));
}

/// A read of one register that the device rejects fails with
/// [`Error::HeaderBadError`], whatever word follows the echoed header.
pub proof fn lemma_register_read_rejected(
    register: Registers,
    head: Seq<u8>,
    echo: ControlCommandHeader,
    value: u32,
)
    requires
        head.len() == 4,
        echo@.hdrb,
    ensures
        single(
            register_read(register).outcome(true, head + echo.spec_to_bytes() + be_bytes(value)),
        ) == Err::<u32, Error>(Error::HeaderBadError),
{
    lemma_echo_reject(register_read(register), head, echo, be_bytes(value));
}

/// The main driver for the transceiver.
///
/// The driver owns its transport, so that one transaction at a time is on
/// the bus. It keeps nothing from one call to the next: a call that failed
/// can be made again as it was.
pub struct ADIN1110<SPI> {
    spi: SPI,
}

impl<SPI: Transport> ADIN1110<SPI> {
    /// The transport that the driver owns.
    pub closed spec fn transport(self) -> SPI {
        self.spi
    }

    /// Create a new driver instance.
    pub fn new(spi: SPI) -> (driver: Self)
        ensures
            driver.transport() == spi,
    {
        Self { spi }
    }

    /// Carries out `transaction` in one exchange over the transport, and
    /// gives the words read (none for a write).
    ///
    /// The buffer handed to the transport is the frame of the request. What
    /// comes back is [`Request::outcome`] of what the transport reported and
    /// left in the buffer.
    pub fn execute(&mut self, transaction: &Transaction) -> (result: Result<Vec<u32>, Error>)
        ensures
            exists|delivered: bool, exchanged: Seq<u8>|
                result_view(result) == #[trigger] transaction@.outcome(delivered, exchanged),
            result matches Ok(words) ==> words@.len() == match transaction@.op {
                Operation::Read => transaction@.registers,
                Operation::Write => 0,
            },
            result matches Err(error) ==> error != Error::OtherError,
    {
        let mut buffer: Vec<u8> = transaction.buffer();
        let delivered: bool = self.spi.transfer(buffer.as_mut_slice()).is_ok();
        transaction.complete(delivered, buffer.as_slice())
    }

    /// Reads `register` from the standard memory map.
    pub fn read_register(&mut self, register: Registers) -> (value: Result<u32, Error>)
        ensures
            exists|delivered: bool, exchanged: Seq<u8>|
                value == single(#[trigger] register_read(register).outcome(delivered, exchanged)),
            value matches Err(error) ==> error != Error::OtherError,
    {
        let transaction = Transaction::new(Operation::Read, register.address(), 0, 1, None).unwrap();
        match self.execute(&transaction) {
            Ok(words) => Ok(words[0]),
            Err(error) => Err(error),
        }
    }

    /// Reads the identification and version register.
    pub fn get_idver(&mut self) -> (value: Result<u32, Error>)
        ensures
            exists|delivered: bool, exchanged: Seq<u8>|
                value == single(
                    #[trigger] register_read(Registers::IdVer).outcome(delivered, exchanged),
                ),
            value matches Err(error) ==> error != Error::OtherError,
    {
        self.read_register(Registers::IdVer)
    }

    /// Reads the PHY identification register.
    pub fn get_phyid(&mut self) -> (value: Result<u32, Error>)
        ensures
            exists|delivered: bool, exchanged: Seq<u8>|
                value == single(
                    #[trigger] register_read(Registers::PhyId).outcome(delivered, exchanged),
                ),
            value matches Err(error) ==> error != Error::OtherError,
    {
        self.read_register(Registers::PhyId)
    }

    /// Reads the capability register.
    pub fn get_capability(&mut self) -> (value: Result<u32, Error>)
        ensures
            exists|delivered: bool, exchanged: Seq<u8>|
                value == single(
                    #[trigger] register_read(Registers::Capability).outcome(delivered, exchanged),
                ),
            value matches Err(error) ==> error != Error::OtherError,
    {
        self.read_register(Registers::Capability)
    }
}

} // verus!
