//! Counting the set bits of a 32-bit word.

use vstd::prelude::*;

verus! {

/// The number of set bits in the binary representation of `word`.
pub open spec fn ones(word: u32) -> nat
    decreases word,
{
    if word == 0 {
        0
    } else {
        (word % 2) as nat + ones(word / 2)
    }
}

/// A word has at most as many set bits as its value.
pub proof fn lemma_ones_bounded(word: u32)
    ensures
        ones(word) <= word,
    decreases word,
{
    if word != 0 {
        lemma_ones_bounded(word / 2);
    }
}

/// Counts the set bits of `word`.
pub fn count_ones(word: u32) -> (count: u32)
    ensures
        count == ones(word),
{
    let mut count: u32 = 0;
    let mut rest: u32 = word;
    proof {
        lemma_ones_bounded(word);
    }
    while rest != 0
        invariant
            count + ones(rest) == ones(word),
            ones(word) <= u32::MAX,
        decreases rest,
    {
        count = count + rest % 2;
        rest = rest / 2;
    }
    count
}

} // verus!
