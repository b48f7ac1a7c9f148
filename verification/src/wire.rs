//! 32-bit words on the wire: four bytes each, most significant byte first.

use vstd::prelude::*;

verus! {

/// The four bytes that carry `word`.
pub open spec fn be_bytes(word: u32) -> Seq<u8> {
    seq![
        (word / 0x100_0000) as u8,
        (word / 0x1_0000 % 0x100) as u8,
        (word / 0x100 % 0x100) as u8,
        (word % 0x100) as u8,
    ]
}

/// The word that four bytes carry.
pub open spec fn be_word(bytes: Seq<u8>) -> u32
    recommends
        bytes.len() == 4,
{
    (bytes[0] * 0x100_0000 + bytes[1] * 0x1_0000 + bytes[2] * 0x100 + bytes[3]) as u32
}

/// The bytes that carry a sequence of words, one word after the other.
pub open spec fn words_bytes(words: Seq<u32>) -> Seq<u8> {
    Seq::new(4 * words.len(), |i: int| be_bytes(words[i / 4])[i % 4])
}

/// The words that a sequence of bytes carries, four bytes to a word; up to
/// three bytes at the end carry none.
pub open spec fn bytes_words(bytes: Seq<u8>) -> Seq<u32> {
    Seq::new(bytes.len() / 4, |k: int| be_word(bytes.subrange(4 * k, 4 * k + 4)))
}

/// `count` bytes that are all zero.
pub open spec fn zeros(count: nat) -> Seq<u8> {
    Seq::new(count, |i: int| 0u8)
}

/// A word is carried by four bytes, and they carry that word.
pub proof fn lemma_word_round_trip(word: u32)
    ensures
        be_bytes(word).len() == 4,
        be_word(be_bytes(word)) == word,
{
    assert((word / 0x100_0000) * 0x100_0000 + (word / 0x1_0000 % 0x100) * 0x1_0000 + (word / 0x100
        % 0x100) * 0x100 + word % 0x100 == word && word / 0x100_0000 < 0x100) by (bit_vector);
}

/// Four bytes carry a word, and it is carried by those bytes.
pub proof fn lemma_bytes_round_trip(bytes: Seq<u8>)
    requires
        bytes.len() == 4,
    ensures
        be_bytes(be_word(bytes)) == bytes,
{
    let b0: u8 = bytes[0];
    let b1: u8 = bytes[1];
    let b2: u8 = bytes[2];
    let b3: u8 = bytes[3];
    let word: u32 = be_word(bytes);
    assert(word / 0x100_0000 == b0 && word / 0x1_0000 % 0x100 == b1 && word / 0x100 % 0x100 == b2
        && word % 0x100 == b3) by (bit_vector)
        requires
            word == b0 * 0x100_0000 + b1 * 0x1_0000 + b2 * 0x100 + b3,
    ;
    assert(be_bytes(word) =~= bytes);
}

/// Words are carried by four bytes each, and those bytes carry the words.
pub proof fn lemma_words_round_trip(words: Seq<u32>)
    ensures
        words_bytes(words).len() == 4 * words.len(),
        bytes_words(words_bytes(words)) == words,
{
    let bytes = words_bytes(words);
    assert forall|k: int| 0 <= k < words.len() implies #[trigger] bytes_words(bytes)[k]
        == words[k] by {
        lemma_word_round_trip(words[k]);
        assert(bytes.subrange(4 * k, 4 * k + 4) =~= be_bytes(words[k]));
    }
    assert(bytes_words(bytes) =~= words);
}

/// Splits a word into the bytes that carry it.
pub fn word_to_bytes(word: u32) -> (bytes: [u8; 4])
    ensures
        bytes@ == be_bytes(word),
{
    assert(word >> 24 == word / 0x100_0000 && (word >> 16) & 0xff == word / 0x1_0000 % 0x100 && (word
        >> 8) & 0xff == word / 0x100 % 0x100 && word & 0xff == word % 0x100 && word >> 24 < 0x100)
        by (bit_vector);
    let bytes: [u8; 4] = [
        (word >> 24) as u8,
        ((word >> 16) & 0xff) as u8,
        ((word >> 8) & 0xff) as u8,
        (word & 0xff) as u8,
    ];
    assert(bytes@ =~= be_bytes(word));
    bytes
}

/// Joins four bytes into the word that they carry.
pub fn word_from_bytes(bytes: [u8; 4]) -> (word: u32)
    ensures
        word == be_word(bytes@),
{
    let b0: u8 = bytes[0];
    let b1: u8 = bytes[1];
    let b2: u8 = bytes[2];
    let b3: u8 = bytes[3];
    assert(((b0 as u32) << 24) | ((b1 as u32) << 16) | ((b2 as u32) << 8) | (b3 as u32) == b0
        * 0x100_0000 + b1 * 0x1_0000 + b2 * 0x100 + b3) by (bit_vector);
    ((b0 as u32) << 24) | ((b1 as u32) << 16) | ((b2 as u32) << 8) | (b3 as u32)
}

/// The bytes of one more word follow the bytes of the words before it.
pub proof fn lemma_words_bytes_push(words: Seq<u32>, word: u32)
    ensures
        words_bytes(words.push(word)) == words_bytes(words) + be_bytes(word),
{
    let longer = words_bytes(words.push(word));
    let joined = words_bytes(words) + be_bytes(word);
    assert(longer.len() == joined.len());
    assert forall|i: int| 0 <= i < longer.len() implies longer[i] == joined[i] by {
        if i >= 4 * words.len() {
            assert(i / 4 == words.len());
            assert(i % 4 == i - 4 * words.len());
        } else {
            assert(i / 4 < words.len());
        }
    }
    assert(longer =~= joined);
}

/// Appends the bytes that carry `word`.
pub fn push_word(buffer: &mut Vec<u8>, word: u32)
    ensures
        final(buffer)@ == old(buffer)@ + be_bytes(word),
{
    let bytes: [u8; 4] = word_to_bytes(word);
    buffer.push(bytes[0]);
    buffer.push(bytes[1]);
    buffer.push(bytes[2]);
    buffer.push(bytes[3]);
    assert(buffer@ =~= old(buffer)@ + be_bytes(word));
}

/// Appends the bytes that carry `words`, one word after the other.
pub fn push_words(buffer: &mut Vec<u8>, words: &[u32])
    ensures
        final(buffer)@ == old(buffer)@ + words_bytes(words@),
{
    let mut done: usize = 0;
    assert(buffer@ =~= old(buffer)@ + words_bytes(words@.subrange(0, 0)));
    while done < words.len()
        invariant
            done <= words@.len(),
            buffer@ == old(buffer)@ + words_bytes(words@.subrange(0, done as int)),
        decreases words@.len() - done,
    {
        proof {
            lemma_words_bytes_push(words@.subrange(0, done as int), words@[done as int]);
            assert(words@.subrange(0, done as int).push(words@[done as int]) =~= words@.subrange(
                0,
                done + 1,
            ));
        }
        push_word(buffer, words[done]);
        done = done + 1;
    }
    assert(words@.subrange(0, done as int) =~= words@);
}

/// Appends `count` bytes that are all zero.
pub fn push_zeros(buffer: &mut Vec<u8>, count: usize)
    ensures
        final(buffer)@ == old(buffer)@ + zeros(count as nat),
{
    let mut done: usize = 0;
    assert(buffer@ =~= old(buffer)@ + zeros(0));
    while done < count
        invariant
            done <= count,
            buffer@ == old(buffer)@ + zeros(done as nat),
        decreases count - done,
    {
        buffer.push(0u8);
        done = done + 1;
        assert(buffer@ =~= old(buffer)@ + zeros(done as nat));
    }
}

/// The words that `bytes` carry, four bytes to a word; up to three bytes at
/// the end carry none.
pub fn read_words(bytes: &[u8]) -> (words: Vec<u32>)
    ensures
        words@ == bytes_words(bytes@),
{
    let count: usize = bytes.len() / 4;
    let mut words: Vec<u32> = Vec::with_capacity(count);
    let mut done: usize = 0;
    while done < count
        invariant
            done <= count,
            4 * count <= bytes@.len() <= usize::MAX,
            words@.len() == done,
            forall|k: int|
                0 <= k < done ==> words@[k] == be_word(#[trigger] bytes@.subrange(4 * k, 4 * k + 4)),
        decreases count - done,
    {
        let at: usize = 4 * done;
        let group: [u8; 4] = [bytes[at], bytes[at + 1], bytes[at + 2], bytes[at + 3]];
        assert(group@ =~= bytes@.subrange(4 * done, 4 * done + 4));
        words.push(word_from_bytes(group));
        done = done + 1;
    }
    assert(words@ =~= bytes_words(bytes@));
    words
}

} // verus!
