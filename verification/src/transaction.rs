//! One register transaction: the request, the buffer that carries it over the
//! bus, and what the exchanged buffer says.
//!
//! The buffer of a transaction over `n` registers has `8 + 4 * n` bytes:
//!
//! | bytes          | sent                      | received               |
//! |----------------|---------------------------|------------------------|
//! | `0..4`         | the control header        | not looked at          |
//! | `4..8`         | zeros                     | the header, echoed     |
//! | `8..8 + 4 * n` | the words to write, zeros for a read | the words read, one register each |

use vstd::prelude::*;
use crate::error::Error;
use crate::bits::ones;
use crate::header::{
    lemma_odd_parity,
    lemma_pack_then_unpack,
    lemma_unpack_then_pack,
    ControlCommandHeader,
    HeaderFields,
};
use crate::wire::{
    be_bytes,
    bytes_words,
    lemma_words_round_trip,
    push_word,
    push_words,
    push_zeros,
    read_words,
    words_bytes,
    zeros,
};

verus! {

/// The most registers that one transaction can transfer: the length field
/// of the header holds the number of registers minus one in seven bits.
pub const MAX_REGISTERS: usize = 128;

/// The direction of a transaction.
#[derive(Clone, Copy, Debug, PartialEq, Eq, Structural)]
pub enum Operation {
    Read,
    Write,
}

/// What a transaction asks of the device: the model of [`Transaction`].
pub struct Request {
    pub op: Operation,
    /// The address of the first register.
    pub address: u16,
    pub memmap: u8,
    /// The number of registers to transfer.
    pub registers: nat,
    /// The words to write, one for each register; a read has none.
    pub payload: Option<Seq<u32>>,
}

impl Request {
    /// The request can be framed: it transfers 1 to 128 registers of a
    /// memory map below 16, a write brings one word for each register, and
    /// a read brings none.
    pub open spec fn valid(self) -> bool {
        &&& 1 <= self.registers <= MAX_REGISTERS
        &&& self.memmap < 16
        &&& match self.op {
            Operation::Read => self.payload is None,
            Operation::Write => self.payload matches Some(words) && words.len() == self.registers,
        }
    }

    /// The fields of the header that opens the transaction. The address
    /// stays fixed over the registers of a transfer.
    pub open spec fn header(self) -> HeaderFields {
        ControlCommandHeader::spec_encode(
            (self.registers - 1) as u8,
            self.address,
            self.memmap,
            true,
            self.op == Operation::Write,
        )
    }

    /// The number of bytes in the buffer of the transaction.
    pub open spec fn frame_len(self) -> nat {
        8 + 4 * self.registers
    }

    /// The buffer as it is sent.
    pub open spec fn frame(self) -> Seq<u8> {
        be_bytes(self.header().word() as u32) + zeros(4) + match self.payload {
            Some(words) => words_bytes(words),
            None => zeros(4 * self.registers),
        }
    }

    /// What the transaction gives once the transport has reported whether
    /// the exchange was `delivered` and left `exchanged` in the buffer.
    ///
    /// A failed exchange is an [`Error::IOError`] and so is a buffer of
    /// another size than was sent; the buffer is not looked at further. A
    /// header echoed with its header-bad flag set is an
    /// [`Error::HeaderBadError`], whatever follows it. Otherwise a read
    /// gives the words after the echo and a write gives none.
    pub open spec fn outcome(self, delivered: bool, exchanged: Seq<u8>) -> Result<Seq<u32>, Error> {
        if !delivered || exchanged.len() != self.frame_len() {
            Err(Error::IOError)
        } else if ControlCommandHeader::spec_from_bytes(exchanged.subrange(4, 8))@.hdrb {
            Err(Error::HeaderBadError)
        } else {
            match self.op {
                Operation::Read => Ok(bytes_words(exchanged.subrange(8, exchanged.len() as int))),
                Operation::Write => Ok(Seq::empty()),
            }
        }
    }
}

/// The request that the arguments of [`Transaction::new`] describe.
pub open spec fn request_of(
    op: Operation,
    address: u16,
    memmap: u8,
    registers: usize,
    payload: Option<Vec<u32>>,
) -> Request {
    Request {
        op,
        address,
        memmap,
        registers: registers as nat,
        payload: match payload {
            Some(words) => Some(words@),
            None => None,
        },
    }
}

/// A result with its words as a sequence.
pub open spec fn result_view(result: Result<Vec<u32>, Error>) -> Result<Seq<u32>, Error> {
    match result {
        Ok(words) => Ok(words@),
        Err(error) => Err(error),
    }
}

/// A request that can be framed. One that cannot is turned down when the
/// transaction is made, so that the size of the buffer and the length in its
/// header never disagree.
pub struct Transaction {
    op: Operation,
    address: u16,
    memmap: u8,
    registers: usize,
    payload: Option<Vec<u32>>,
}

impl View for Transaction {
    type V = Request;

    closed spec fn view(&self) -> Request {
        request_of(self.op, self.address, self.memmap, self.registers, self.payload)
    }
}

impl Transaction {
    #[verifier::type_invariant]
    spec fn framed(self) -> bool {
        self@.valid()
    }

    /// The transaction for a request, or `None` where the request cannot be
    /// framed: see [`Request::valid`].
    pub fn new(
        op: Operation,
        address: u16,
        memmap: u8,
        registers: usize,
        payload: Option<Vec<u32>>,
    ) -> (transaction: Option<Transaction>)
        ensures
            transaction is Some <==> request_of(op, address, memmap, registers, payload).valid(),
            transaction matches Some(made) ==> made@ == request_of(
                op,
                address,
                memmap,
                registers,
                payload,
            ),
    {
        if registers < 1 || registers > MAX_REGISTERS || memmap >= 16 {
            return None;
        }
        let fits: bool = match op {
            Operation::Read => payload.is_none(),
            Operation::Write => match &payload {
                Some(words) => words.len() == registers,
                None => false,
            },
        };
        if fits {
            Some(Transaction { op, address, memmap, registers, payload })
        } else {
            None
        }
    }

    /// The header that opens the transaction, with its parity bit
    /// calculated.
    pub fn header(&self) -> (header: ControlCommandHeader)
        ensures
            self@.valid(),
            header@ == self@.header(),
    {
        proof {
            use_type_invariant(self);
        }
        let wnr: bool = match self.op {
            Operation::Read => false,
            Operation::Write => true,
        };
        ControlCommandHeader::encode((self.registers - 1) as u8, self.address, self.memmap, true, wnr)
    }

    /// The buffer to hand to the transport.
    pub fn buffer(&self) -> (buffer: Vec<u8>)
        ensures
            self@.valid(),
            buffer@ == self@.frame(),
            buffer@.len() == self@.frame_len(),
    {
        proof {
            use_type_invariant(self);
        }
        let header = self.header();
        proof {
            lemma_unpack_then_pack(header.bits);
        }
        let mut buffer: Vec<u8> = Vec::with_capacity(8 + 4 * self.registers);
        push_word(&mut buffer, header.into_bits());
        push_zeros(&mut buffer, 4);
        match &self.payload {
            Some(words) => {
                push_words(&mut buffer, words.as_slice());
            },
            None => {
                push_zeros(&mut buffer, 4 * self.registers);
            },
        }
        assert(buffer@ =~= self@.frame());
        buffer
    }

    /// What the transaction gives once the transport has reported whether
    /// the exchange was `delivered` and left `exchanged` in the buffer: see
    /// [`Request::outcome`].
    pub fn complete(&self, delivered: bool, exchanged: &[u8]) -> (result: Result<Vec<u32>, Error>)
        ensures
            self@.valid(),
            result_view(result) == self@.outcome(delivered, exchanged@),
    {
        proof {
            use_type_invariant(self);
        }
        if !delivered || exchanged.len() != 8 + 4 * self.registers {
            return Err(Error::IOError);
        }
        let echoed: [u8; 4] = [exchanged[4], exchanged[5], exchanged[6], exchanged[7]];
        assert(echoed@ =~= exchanged@.subrange(4, 8));
        let echo = ControlCommandHeader::from_bytes(echoed);
        if !echo.received_header_is_ok() {
            return Err(Error::HeaderBadError);
        }
        match self.op {
            Operation::Read => Ok(read_words(&exchanged[8..exchanged.len()])),
            Operation::Write => Ok(Vec::new()),
        }
    }
}

/// The buffer of a request that can be framed has the size that goes with
/// its length field, and opens with the request's header: one register less
/// than the count in the length field, the address held fixed, the header-bad
/// flag clear, and an odd number of set bits.
pub proof fn lemma_frame_header(request: Request)
    requires
        request.valid(),
    ensures
        request.frame().len() == request.frame_len(),
        ControlCommandHeader::spec_from_bytes(request.frame().subrange(0, 4))@ == request.header(),
        request.header().length == request.registers - 1,
        request.header().address == request.address,
        request.header().memmap == request.memmap,
        request.header().aid,
        request.header().wnr == (request.op == Operation::Write),
        !request.header().hdrb,
        ones(ControlCommandHeader::spec_from_bytes(request.frame().subrange(0, 4)).bits) % 2 == 1,
{
    let plain = HeaderFields { parity: false, ..request.header() };
    assert(plain.with_odd_parity() == request.header());
    lemma_odd_parity(plain);
    let word: u32 = request.header().word() as u32;
    let header = ControlCommandHeader { bits: word };
    header.lemma_round_trip();
    assert(request.frame().subrange(0, 4) =~= header.spec_to_bytes());
    lemma_pack_then_unpack(request.header());
}

/// Where the transport reports failure the transaction fails with
/// [`Error::IOError`], whatever the buffer holds.
pub proof fn lemma_transport_failure(request: Request, exchanged: Seq<u8>)
    ensures
        request.outcome(false, exchanged) == Err::<Seq<u32>, Error>(Error::IOError),
{
}

/// Where the echoed header has its header-bad flag set the transaction fails
/// with [`Error::HeaderBadError`], whatever came before the echo and
/// whatever follows it.
pub proof fn lemma_echo_reject(
    request: Request,
    head: Seq<u8>,
    echo: ControlCommandHeader,
    rest: Seq<u8>,
)
    requires
        head.len() == 4,
        rest.len() == 4 * request.registers,
        echo@.hdrb,
    ensures
        request.outcome(true, head + echo.spec_to_bytes() + rest) == Err::<Seq<u32>, Error>(
            Error::HeaderBadError,
        ),
{
    let exchanged = head + echo.spec_to_bytes() + rest;
    echo.lemma_round_trip();
    assert(exchanged.subrange(4, 8) =~= echo.spec_to_bytes());
}

/// Where the echoed header has its header-bad flag clear the transaction
/// succeeds: a read gives exactly the words that follow the echo, a write
/// gives none.
pub proof fn lemma_echo_accept(
    request: Request,
    head: Seq<u8>,
    echo: ControlCommandHeader,
    words: Seq<u32>,
)
    requires
        head.len() == 4,
        words.len() == request.registers,
        !echo@.hdrb,
    ensures
        request.outcome(true, head + echo.spec_to_bytes() + words_bytes(words)) == Ok::<
            Seq<u32>,
            Error,
        >(
            match request.op {
                Operation::Read => words,
                Operation::Write => Seq::empty(),
            },
        ),
{
    let exchanged = head + echo.spec_to_bytes() + words_bytes(words);
    echo.lemma_round_trip();
    lemma_words_round_trip(words);
    assert(exchanged.subrange(4, 8) =~= echo.spec_to_bytes());
    assert(exchanged.subrange(8, exchanged.len() as int) =~= words_bytes(words));
}

} // verus!
