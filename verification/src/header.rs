//! The 32-bit control header that opens every register transaction.
//!
//! | bits   | field    | meaning                                         |
//! |--------|----------|-------------------------------------------------|
//! | 0      | parity   | makes the number of set bits in the header odd  |
//! | 1..8   | length   | number of registers to transfer, minus one      |
//! | 8..24  | address  | address of the first register                   |
//! | 24..28 | memmap   | memory map (0: standard, 1: MAC)                |
//! | 28     | aid      | address increment disable                       |
//! | 29     | wnr      | write, not read                                 |
//! | 30     | hdrb     | header bad: set by the device in its echo       |
//! | 31     | reserved | unused, sent as 0                               |
//!
//! On the wire the header travels most significant byte first.

use vstd::prelude::*;
use crate::bits::{count_ones, ones};
use crate::wire::{
    be_bytes,
    be_word,
    lemma_bytes_round_trip,
    lemma_word_round_trip,
    word_from_bytes,
    word_to_bytes,
};

verus! {

/// The bit of the parity field.
pub const PARITY: u32 = 0x0000_0001;

/// The bits of the length field.
pub const LENGTH: u32 = 0x0000_00fe;

/// The place of the lowest bit of the length field.
pub const LENGTH_SHIFT: u32 = 1;

/// The bits of the address field.
pub const ADDRESS: u32 = 0x00ff_ff00;

/// The place of the lowest bit of the address field.
pub const ADDRESS_SHIFT: u32 = 8;

/// The bits of the memory map field.
pub const MEMMAP: u32 = 0x0f00_0000;

/// The place of the lowest bit of the memory map field.
pub const MEMMAP_SHIFT: u32 = 24;

/// The bit of the address-increment-disable field.
pub const AID: u32 = 0x1000_0000;

/// The bit of the write-not-read field.
pub const WNR: u32 = 0x2000_0000;

/// The bit of the header-bad field.
pub const HDRB: u32 = 0x4000_0000;

/// The fields of a control header as plain values: the model of
/// [`ControlCommandHeader`].
pub struct HeaderFields {
    pub parity: bool,
    pub length: u8,
    pub address: u16,
    pub memmap: u8,
    pub aid: bool,
    pub wnr: bool,
    pub hdrb: bool,
    pub reserved: bool,
}

/// The value of a one-bit field.
pub open spec fn flag(set: bool) -> int {
    if set {
        1
    } else {
        0
    }
}

/// The parity field of `word`.
pub open spec fn parity_of(word: u32) -> bool {
    word % 2 == 1
}

/// The length field of `word`.
pub open spec fn length_of(word: u32) -> u8 {
    (word / 0x2 % 0x80) as u8
}

/// The address field of `word`.
pub open spec fn address_of(word: u32) -> u16 {
    (word / 0x100 % 0x1_0000) as u16
}

/// The memory map field of `word`.
pub open spec fn memmap_of(word: u32) -> u8 {
    (word / 0x100_0000 % 0x10) as u8
}

/// The address-increment-disable field of `word`.
pub open spec fn aid_of(word: u32) -> bool {
    word / 0x1000_0000 % 2 == 1
}

/// The write-not-read field of `word`.
pub open spec fn wnr_of(word: u32) -> bool {
    word / 0x2000_0000 % 2 == 1
}

/// The header-bad field of `word`.
pub open spec fn hdrb_of(word: u32) -> bool {
    word / 0x4000_0000 % 2 == 1
}

/// The reserved field of `word`.
pub open spec fn reserved_of(word: u32) -> bool {
    word / 0x8000_0000 % 2 == 1
}

impl HeaderFields {
    /// Every field fits its width.
    pub open spec fn wf(self) -> bool {
        self.length < 0x80 && self.memmap < 0x10
    }

    /// The fields that `word` carries.
    pub open spec fn of_word(word: u32) -> HeaderFields {
        HeaderFields {
            parity: parity_of(word),
            length: length_of(word),
            address: address_of(word),
            memmap: memmap_of(word),
            aid: aid_of(word),
            wnr: wnr_of(word),
            hdrb: hdrb_of(word),
            reserved: reserved_of(word),
        }
    }

    /// The word that carries these fields, each at its place.
    pub open spec fn word(self) -> int {
        flag(self.parity)
            + 0x2 * self.length
            + 0x100 * self.address
            + 0x100_0000 * self.memmap
            + 0x1000_0000 * flag(self.aid)
            + 0x2000_0000 * flag(self.wnr)
            + 0x4000_0000 * flag(self.hdrb)
            + 0x8000_0000 * flag(self.reserved)
    }

    /// The parity bit that gives the header an odd number of set bits: set
    /// exactly when the other 31 bits hold an even number of them.
    pub open spec fn odd_parity(self) -> bool {
        ones((self.word() / 2) as u32) % 2 == 0
    }

    /// These fields with the parity bit that makes the number of set bits
    /// odd.
    pub open spec fn with_odd_parity(self) -> HeaderFields {
        HeaderFields { parity: self.odd_parity(), ..self }
    }
}

/// Unpacking a word and packing the fields again gives the word back.
pub proof fn lemma_unpack_then_pack(word: u32)
    ensures
        HeaderFields::of_word(word).wf(),
        HeaderFields::of_word(word).word() == word,
{
    assert(word == word % 2
        + 0x2 * (word / 0x2 % 0x80)
        + 0x100 * (word / 0x100 % 0x1_0000)
        + 0x100_0000 * (word / 0x100_0000 % 0x10)
        + 0x1000_0000 * (word / 0x1000_0000 % 2)
        + 0x2000_0000 * (word / 0x2000_0000 % 2)
        + 0x4000_0000 * (word / 0x4000_0000 % 2)
        + 0x8000_0000 * (word / 0x8000_0000 % 2)) by (bit_vector);
}

/// Packing fields that fit their widths and unpacking the word gives the
/// fields back.
pub proof fn lemma_pack_then_unpack(fields: HeaderFields)
    requires
        fields.wf(),
    ensures
        0 <= fields.word() <= u32::MAX,
        HeaderFields::of_word(fields.word() as u32) == fields,
{
    let parity: u32 = flag(fields.parity) as u32;
    let length: u32 = fields.length as u32;
    let address: u32 = fields.address as u32;
    let memmap: u32 = fields.memmap as u32;
    let aid: u32 = flag(fields.aid) as u32;
    let wnr: u32 = flag(fields.wnr) as u32;
    let hdrb: u32 = flag(fields.hdrb) as u32;
    let reserved: u32 = flag(fields.reserved) as u32;
    let word: u32 = fields.word() as u32;
    assert(word % 2 == parity
        && word / 0x2 % 0x80 == length
        && word / 0x100 % 0x1_0000 == address
        && word / 0x100_0000 % 0x10 == memmap
        && word / 0x1000_0000 % 2 == aid
        && word / 0x2000_0000 % 2 == wnr
        && word / 0x4000_0000 % 2 == hdrb
        && word / 0x8000_0000 % 2 == reserved) by (bit_vector)
        requires
            parity <= 1,
            length < 0x80,
            address < 0x1_0000,
            memmap < 0x10,
            aid <= 1,
            wnr <= 1,
            hdrb <= 1,
            reserved <= 1,
            word == parity
                + 0x2 * length
                + 0x100 * address
                + 0x100_0000 * memmap
                + 0x1000_0000 * aid
                + 0x2000_0000 * wnr
                + 0x4000_0000 * hdrb
                + 0x8000_0000 * reserved,
    ;
}

/// Fields that fit their widths, given the parity bit that
/// [`HeaderFields::odd_parity`] names, pack into a word with an odd number
/// of set bits.
pub proof fn lemma_odd_parity(fields: HeaderFields)
    requires
        fields.wf(),
    ensures
        0 <= fields.with_odd_parity().word() <= u32::MAX,
        ones(fields.with_odd_parity().word() as u32) % 2 == 1,
{
    let sealed = fields.with_odd_parity();
    lemma_pack_then_unpack(sealed);
    let word: u32 = sealed.word() as u32;
    assert(sealed.word() / 2 == fields.word() / 2);
    assert(ones(word) == flag(sealed.parity) + ones(word / 2));
}

/// `word` with the one-bit field at `mask` set or cleared.
fn with_flag(word: u32, mask: u32, value: bool) -> (changed: u32)
    requires
        mask == PARITY || mask == AID || mask == WNR || mask == HDRB,
    ensures
        changed + mask * flag(word / mask % 2 == 1) == word + mask * flag(value),
{
    let changed: u32 = if value {
        word | mask
    } else {
        word & !mask
    };
    assert(changed + mask * (word / mask % 2) == word + mask * (if value {
        1u32
    } else {
        0u32
    })) by (bit_vector)
        requires
            mask == PARITY || mask == AID || mask == WNR || mask == HDRB,
            changed == if value {
                word | mask
            } else {
                word & !mask
            },
    ;
    changed
}

/// A control header, held as the 32-bit word that goes on the wire. Every
/// word is a header.
#[derive(Clone, Copy, Debug, PartialEq, Eq, Structural)]
pub struct ControlCommandHeader {
    pub bits: u32,
}

impl View for ControlCommandHeader {
    type V = HeaderFields;

    open spec fn view(&self) -> HeaderFields {
        HeaderFields::of_word(self.bits)
    }
}

impl ControlCommandHeader {
    /// The header with every field zero.
    pub fn new() -> (header: ControlCommandHeader)
        ensures
            header.bits == 0,
    {
        ControlCommandHeader { bits: 0 }
    }

    /// The header that `word` holds.
    pub fn from_bits(word: u32) -> (header: ControlCommandHeader)
        ensures
            header.bits == word,
    {
        ControlCommandHeader { bits: word }
    }

    /// The header as a 32-bit word.
    pub fn into_bits(self) -> (word: u32)
        ensures
            word == self.bits,
    {
        self.bits
    }

    /// The parity bit.
    pub fn parity(&self) -> (set: bool)
        ensures
            set == self@.parity,
    {
        let word: u32 = self.bits;
        assert((word & PARITY != 0) == parity_of(word)) by (bit_vector);
        word & PARITY != 0
    }

    /// The number of registers to transfer, minus one.
    pub fn length(&self) -> (length: u8)
        ensures
            length == self@.length,
    {
        let word: u32 = self.bits;
        assert((word & LENGTH) >> LENGTH_SHIFT == length_of(word)) by (bit_vector);
        ((word & LENGTH) >> LENGTH_SHIFT) as u8
    }

    /// The address of the first register.
    pub fn address(&self) -> (address: u16)
        ensures
            address == self@.address,
    {
        let word: u32 = self.bits;
        assert((word & ADDRESS) >> ADDRESS_SHIFT == address_of(word)) by (bit_vector);
        ((word & ADDRESS) >> ADDRESS_SHIFT) as u16
    }

    /// The memory map.
    pub fn memmap(&self) -> (memmap: u8)
        ensures
            memmap == self@.memmap,
    {
        let word: u32 = self.bits;
        assert((word & MEMMAP) >> MEMMAP_SHIFT == memmap_of(word)) by (bit_vector);
        ((word & MEMMAP) >> MEMMAP_SHIFT) as u8
    }

    /// Whether the address stays fixed over the registers of a transfer.
    pub fn aid(&self) -> (set: bool)
        ensures
            set == self@.aid,
    {
        let word: u32 = self.bits;
        assert((word & AID != 0) == aid_of(word)) by (bit_vector);
        word & AID != 0
    }

    /// Whether the transaction writes.
    pub fn wnr(&self) -> (set: bool)
        ensures
            set == self@.wnr,
    {
        let word: u32 = self.bits;
        assert((word & WNR != 0) == wnr_of(word)) by (bit_vector);
        word & WNR != 0
    }

    /// Whether the device has marked the header as bad.
    pub fn hdrb(&self) -> (set: bool)
        ensures
            set == self@.hdrb,
    {
        let word: u32 = self.bits;
        assert((word & HDRB != 0) == hdrb_of(word)) by (bit_vector);
        word & HDRB != 0
    }

    /// The header with the parity bit replaced.
    pub fn with_parity(self, value: bool) -> (header: ControlCommandHeader)
        ensures
            header@ == (HeaderFields { parity: value, ..self@ }),
    {
        let word: u32 = with_flag(self.bits, PARITY, value);
        proof {
            lemma_unpack_then_pack(self.bits);
            lemma_pack_then_unpack(HeaderFields { parity: value, ..self@ });
        }
        ControlCommandHeader { bits: word }
    }

    /// The header with the length field replaced by the low seven bits of
    /// `value`.
    pub fn with_length(self, value: u8) -> (header: ControlCommandHeader)
        ensures
            header@ == (HeaderFields { length: value % 0x80, ..self@ }),
    {
        let old_word: u32 = self.bits;
        let word: u32 = (old_word & !LENGTH) | (((value as u32) << LENGTH_SHIFT) & LENGTH);
        proof {
            assert(word + 0x2 * length_of(old_word) == old_word + 0x2 * (value % 0x80))
                by (bit_vector)
                requires
                    word == (old_word & !LENGTH) | (((value as u32) << LENGTH_SHIFT) & LENGTH),
            ;
            lemma_unpack_then_pack(old_word);
            lemma_pack_then_unpack(HeaderFields { length: value % 0x80, ..self@ });
        }
        ControlCommandHeader { bits: word }
    }

    /// The header with the address field replaced.
    pub fn with_address(self, value: u16) -> (header: ControlCommandHeader)
        ensures
            header@ == (HeaderFields { address: value, ..self@ }),
    {
        let old_word: u32 = self.bits;
        let word: u32 = (old_word & !ADDRESS) | ((value as u32) << ADDRESS_SHIFT);
        proof {
            assert(word + 0x100 * address_of(old_word) == old_word + 0x100 * value) by (bit_vector)
                requires
                    word == (old_word & !ADDRESS) | ((value as u32) << ADDRESS_SHIFT),
            ;
            lemma_unpack_then_pack(old_word);
            lemma_pack_then_unpack(HeaderFields { address: value, ..self@ });
        }
        ControlCommandHeader { bits: word }
    }

    /// The header with the memory map replaced by the low four bits of
    /// `value`.
    pub fn with_memmap(self, value: u8) -> (header: ControlCommandHeader)
        ensures
            header@ == (HeaderFields { memmap: value % 0x10, ..self@ }),
    {
        let old_word: u32 = self.bits;
        let word: u32 = (old_word & !MEMMAP) | (((value as u32) << MEMMAP_SHIFT) & MEMMAP);
        proof {
            assert(word + 0x100_0000 * memmap_of(old_word) == old_word + 0x100_0000 * (value % 0x10))
                by (bit_vector)
                requires
                    word == (old_word & !MEMMAP) | (((value as u32) << MEMMAP_SHIFT) & MEMMAP),
            ;
            lemma_unpack_then_pack(old_word);
            lemma_pack_then_unpack(HeaderFields { memmap: value % 0x10, ..self@ });
        }
        ControlCommandHeader { bits: word }
    }

    /// The header with the address increment disabled or enabled.
    pub fn with_aid(self, value: bool) -> (header: ControlCommandHeader)
        ensures
            header@ == (HeaderFields { aid: value, ..self@ }),
    {
        let word: u32 = with_flag(self.bits, AID, value);
        proof {
            lemma_unpack_then_pack(self.bits);
            lemma_pack_then_unpack(HeaderFields { aid: value, ..self@ });
        }
        ControlCommandHeader { bits: word }
    }

    /// The header with the direction replaced.
    pub fn with_wnr(self, value: bool) -> (header: ControlCommandHeader)
        ensures
            header@ == (HeaderFields { wnr: value, ..self@ }),
    {
        let word: u32 = with_flag(self.bits, WNR, value);
        proof {
            lemma_unpack_then_pack(self.bits);
            lemma_pack_then_unpack(HeaderFields { wnr: value, ..self@ });
        }
        ControlCommandHeader { bits: word }
    }

    /// The header with the header-bad flag replaced.
    pub fn with_hdrb(self, value: bool) -> (header: ControlCommandHeader)
        ensures
            header@ == (HeaderFields { hdrb: value, ..self@ }),
    {
        let word: u32 = with_flag(self.bits, HDRB, value);
        proof {
            lemma_unpack_then_pack(self.bits);
            lemma_pack_then_unpack(HeaderFields { hdrb: value, ..self@ });
        }
        ControlCommandHeader { bits: word }
    }

    /// Sets the parity bit so that the header has an odd number of set bits,
    /// whatever the bit held before, and returns the header. Every other
    /// field must have its final value by then.
    pub fn calculate_parity(&mut self) -> (header: ControlCommandHeader)
        ensures
            final(self)@ == old(self)@.with_odd_parity(),
            ones(final(self).bits) % 2 == 1,
            header == *final(self),
    {
        let word: u32 = self.bits;
        proof {
            lemma_unpack_then_pack(word);
            assert(word >> 1 == word / 2) by (bit_vector);
        }
        let even: bool = count_ones(word >> 1) % 2 == 0;
        let header = self.with_parity(even);
        proof {
            lemma_unpack_then_pack(header.bits);
            assert(ones(header.bits) == flag(even) + ones(header.bits / 2));
        }
        *self = header;
        header
    }

    /// Whether a header that the device echoed accepts the request: the
    /// header-bad flag is the only thing looked at.
    pub fn received_header_is_ok(&self) -> (ok: bool)
        ensures
            ok == !self@.hdrb,
    {
        !self.hdrb()
    }

    /// The fields of the header that [`ControlCommandHeader::encode`] builds.
    pub open spec fn spec_encode(length: u8, address: u16, memmap: u8, aid: bool, wnr: bool)
        -> HeaderFields {
        (HeaderFields {
            parity: false,
            length: length % 0x80,
            address,
            memmap: memmap % 0x10,
            aid,
            wnr,
            hdrb: false,
            reserved: false,
        }).with_odd_parity()
    }

    /// The header for a transfer of `length + 1` registers from `address` on,
    /// with its parity bit calculated. Of `length` the low seven bits count,
    /// of `memmap` the low four.
    pub fn encode(length: u8, address: u16, memmap: u8, aid: bool, wnr: bool) -> (header:
        ControlCommandHeader)
        ensures
            header@ == Self::spec_encode(length, address, memmap, aid, wnr),
            ones(header.bits) % 2 == 1,
    {
        let mut header = ControlCommandHeader::new().with_length(length).with_address(
            address,
        ).with_memmap(memmap).with_aid(aid).with_wnr(wnr);
        header.calculate_parity()
    }

    /// The header as it goes on the wire.
    pub open spec fn spec_to_bytes(self) -> Seq<u8> {
        be_bytes(self.bits)
    }

    /// The header that four bytes from the wire hold.
    pub open spec fn spec_from_bytes(bytes: Seq<u8>) -> ControlCommandHeader
        recommends
            bytes.len() == 4,
    {
        ControlCommandHeader { bits: be_word(bytes) }
    }

    /// The header as it goes on the wire: most significant byte first.
    pub fn to_bytes(self) -> (bytes: [u8; 4])
        ensures
            bytes@ == self.spec_to_bytes(),
    {
        word_to_bytes(self.bits)
    }

    /// The header that four bytes from the wire hold.
    pub fn from_bytes(bytes: [u8; 4]) -> (header: ControlCommandHeader)
        ensures
            header == Self::spec_from_bytes(bytes@),
    {
        ControlCommandHeader { bits: word_from_bytes(bytes) }
    }

    /// A header that went on the wire comes back from it unchanged.
    pub proof fn lemma_round_trip(self)
        ensures
            self.spec_to_bytes().len() == 4,
            Self::spec_from_bytes(self.spec_to_bytes()) == self,
    {
        lemma_word_round_trip(self.bits);
    }

    /// Four bytes that came from the wire as a header go back on it
    /// unchanged.
    pub proof fn lemma_bytes_round_trip(bytes: Seq<u8>)
        requires
            bytes.len() == 4,
        ensures
            Self::spec_from_bytes(bytes).spec_to_bytes() == bytes,
    {
        lemma_bytes_round_trip(bytes);
    }
}

impl Default for ControlCommandHeader {
    /// The header with every field zero.
    fn default() -> (header: ControlCommandHeader)
        ensures
            header.bits == 0,
    {
        ControlCommandHeader { bits: 0 }
    }
}

impl From<u32> for ControlCommandHeader {
    /// The header that `word` holds.
    fn from(word: u32) -> (header: ControlCommandHeader) {
        ControlCommandHeader { bits: word }
    }
}

impl vstd::std_specs::convert::FromSpecImpl<u32> for ControlCommandHeader {
    open spec fn obeys_from_spec() -> bool {
        true
    }

    open spec fn from_spec(word: u32) -> ControlCommandHeader {
        ControlCommandHeader { bits: word }
    }
}

impl From<ControlCommandHeader> for u32 {
    /// The header as a 32-bit word.
    fn from(header: ControlCommandHeader) -> (word: u32) {
        header.bits
    }
}

impl vstd::std_specs::convert::FromSpecImpl<ControlCommandHeader> for u32 {
    open spec fn obeys_from_spec() -> bool {
        true
    }

    open spec fn from_spec(header: ControlCommandHeader) -> u32 {
        header.bits
    }
}

} // verus!
