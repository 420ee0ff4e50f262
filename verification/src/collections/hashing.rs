//! The word hash of the lookup tables.
use vstd::prelude::*;

verus! {

/// The increment of the mixing generator.
pub const GOLDEN_GAMMA: u64 = 0x9e37_79b9_7f4a_7c15;

pub const MIX_FIRST: u64 = 0xbf58_476d_1ce4_e5b9;

pub const MIX_SECOND: u64 = 0x94d0_49bb_1331_11eb;

/// The bits of `value` turned left by 13 places.
pub open spec fn turned_left_13(value: u64) -> u64 {
    (value << 13) | (value >> 51)
}

/// The finalizer of the mixing generator.
pub open spec fn mixed(value: u64) -> u64 {
    let a = value.wrapping_add(GOLDEN_GAMMA);
    let b = (a ^ (a >> 30)).wrapping_mul(MIX_FIRST);
    let c = (b ^ (b >> 27)).wrapping_mul(MIX_SECOND);
    c ^ (c >> 31)
}

/// The state after one more word.
pub open spec fn absorbed(state: u64, word: u64) -> u64 {
    turned_left_13(state ^ mixed(word ^ state))
}

/// The state after the first `count` words.
pub open spec fn absorbed_all(words: Seq<u64>, count: int) -> u64
    decreases count,
{
    if count <= 0 {
        GOLDEN_GAMMA
    } else {
        absorbed(absorbed_all(words, count - 1), words[count - 1])
    }
}

/// The hash of a sequence of words.
pub open spec fn words_hash(words: Seq<u64>) -> u64 {
    mixed(absorbed_all(words, words.len() as int))
}

/// The two halves of `value` put on top of each other.
pub open spec fn folded(value: u128) -> u64 {
    ((value % 0x1_0000_0000_0000_0000) as u64) ^ ((value / 0x1_0000_0000_0000_0000) as u64)
}

pub fn splitmix64(value: u64) -> (r: u64)
    ensures
        r == mixed(value),
{
    let a: u64 = value.wrapping_add(GOLDEN_GAMMA);
    let b: u64 = (a ^ (a >> 30)).wrapping_mul(MIX_FIRST);
    let c: u64 = (b ^ (b >> 27)).wrapping_mul(MIX_SECOND);
    c ^ (c >> 31)
}

pub fn hash_words(words: &[u64]) -> (r: u64)
    ensures
        r == words_hash(words@),
{
    let mut state: u64 = GOLDEN_GAMMA;
    let mut i: usize = 0;
    while i < words.len()
        invariant
            i <= words.len(),
            state == absorbed_all(words@, i as int),
        decreases words.len() - i,
    {
        let stirred: u64 = state ^ splitmix64(words[i] ^ state);
        state = (stirred << 13) | (stirred >> 51);
        i = i + 1;
    }
    splitmix64(state)
}

pub fn fold_u128(value: u128) -> (r: u64)
    ensures
        r == folded(value),
{
    ((value % 0x1_0000_0000_0000_0000) as u64) ^ ((value / 0x1_0000_0000_0000_0000) as u64)
}

} // verus!
