//! The Internet checksum: the complement of the ones' complement sum.
use vstd::prelude::*;

use crate::bytes;

verus! {

/// The sum of the 16-bit words of `content`; a last byte without a partner is
/// the high half of its word.
pub open spec fn word_sum(content: Seq<u8>) -> int
    decreases content.len(),
{
    if content.len() == 0 {
        0
    } else if content.len() == 1 {
        content[0] * 0x100
    } else {
        bytes::read16(content[0], content[1]) + word_sum(content.skip(2))
    }
}

/// A sum with its carries added back in until it fits sixteen bits.
pub open spec fn carried(sum: int) -> int {
    if sum == 0 {
        0
    } else {
        (sum - 1) % 0xffff + 1
    }
}

/// The checksum of `content`.
pub open spec fn checksum_of(content: Seq<u8>) -> u16 {
    (0xffff - carried(word_sum(content))) as u16
}

proof fn lemma_word_sum_push_pair(content: Seq<u8>, high: u8, low: u8)
    requires
        content.len() % 2 == 0,
    ensures
        word_sum(content.push(high).push(low)) == word_sum(content) + bytes::read16(high, low),
    decreases content.len(),
{
    let longer = content.push(high).push(low);
    if content.len() == 0 {
        assert(longer.skip(2) =~= Seq::<u8>::empty());
        assert(word_sum(Seq::<u8>::empty()) == 0);
    } else {
        assert(longer.skip(2) =~= content.skip(2).push(high).push(low));
        lemma_word_sum_push_pair(content.skip(2), high, low);
    }
}

proof fn lemma_word_sum_push_last(content: Seq<u8>, last: u8)
    requires
        content.len() % 2 == 0,
    ensures
        word_sum(content.push(last)) == word_sum(content) + last * 0x100,
    decreases content.len(),
{
    if content.len() > 0 {
        assert(content.push(last).skip(2) =~= content.skip(2).push(last));
        lemma_word_sum_push_last(content.skip(2), last);
    }
}

/// Sums of words are not negative.
pub proof fn lemma_word_sum_nonnegative(content: Seq<u8>)
    ensures
        word_sum(content) >= 0,
    decreases content.len(),
{
    if content.len() > 1 {
        lemma_word_sum_nonnegative(content.skip(2));
    }
}

/// The carried sum after one more word.
fn add_word(sum: u32, word: u16) -> (r: u32)
    requires
        sum <= 0xffff,
    ensures
        r <= 0xffff,
        forall|total: int| total >= 0 && sum == #[trigger] carried(total) ==> r == carried(total + word),
{
    let next: u32 = sum + word as u32;
    if next > 0xffff {
        next - 0xffff
    } else {
        next
    }
}

pub fn internet_checksum(content: &[u8]) -> (r: u16)
    ensures
        r == checksum_of(content@),
{
    let mut sum: u32 = 0;
    let mut i: usize = 0;
    let len: usize = content.len();
    assert(content@.take(0) =~= Seq::<u8>::empty());
    while len - i >= 2
        invariant
            i <= len,
            len == content@.len(),
            i % 2 == 0,
            sum <= 0xffff,
            sum == carried(word_sum(content@.take(i as int))),
        decreases len - i,
    {
        let word: u16 = content[i] as u16 * 0x100 + content[i + 1] as u16;
        proof {
            let done = content@.take(i as int);
            lemma_word_sum_nonnegative(done);
            lemma_word_sum_push_pair(done, content@[i as int], content@[i + 1]);
            assert(content@.take(i + 2) =~= done.push(content@[i as int]).push(content@[i + 1]));
        }
        sum = add_word(sum, word);
        i = i + 2;
    }
    if i < len {
        proof {
            let done = content@.take(i as int);
            lemma_word_sum_nonnegative(done);
            lemma_word_sum_push_last(done, content@[i as int]);
            assert(content@ =~= done.push(content@[i as int]));
        }
        sum = add_word(sum, content[i] as u16 * 0x100);
    } else {
        assert(content@.take(i as int) =~= content@);
    }
    (0xffff - sum) as u16
}

/// All parts, one behind the other.
pub open spec fn joined(parts: Seq<Vec<u8>>) -> Seq<u8>
    decreases parts.len(),
{
    if parts.len() == 0 {
        Seq::empty()
    } else {
        joined(parts.drop_last()) + parts.last()@
    }
}

/// The checksum of all parts, one behind the other.
pub fn internet_checksum_parts(parts: &[Vec<u8>]) -> (r: u16)
    ensures
        r == checksum_of(joined(parts@)),
{
    let mut content: Vec<u8> = Vec::new();
    let mut i: usize = 0;
    assert(parts@.take(0) =~= Seq::<Vec<u8>>::empty());
    while i < parts.len()
        invariant
            i <= parts@.len(),
            content@ == joined(parts@.take(i as int)),
        decreases parts@.len() - i,
    {
        bytes::push_bytes(&mut content, parts[i].as_slice());
        i = i + 1;
        assert(parts@.take(i as int).drop_last() =~= parts@.take(i - 1));
    }
    assert(parts@.take(i as int) =~= parts@);
    internet_checksum(content.as_slice())
}

/// `content` with a word written at `at`.
pub open spec fn with_word(content: Seq<u8>, at: int, word: u16) -> Seq<u8> {
    content.update(at, bytes::be16(word)[0]).update(at + 1, bytes::be16(word)[1])
}

proof fn lemma_word_sum_with_word(content: Seq<u8>, at: int, word: u16)
    requires
        0 <= at,
        at + 2 <= content.len(),
        at % 2 == 0,
        content[at] == 0,
        content[at + 1] == 0,
    ensures
        word_sum(with_word(content, at, word)) == word_sum(content) + word,
    decreases content.len(),
{
    let changed = with_word(content, at, word);
    if at == 0 {
        bytes::be16_round_trip(word);
        assert(changed.skip(2) =~= content.skip(2));
    } else {
        assert(changed.skip(2) =~= with_word(content.skip(2), at - 2, word));
        assert(changed[0] == content[0] && changed[1] == content[1]);
        lemma_word_sum_with_word(content.skip(2), at - 2, word);
    }
}

/// Content whose checksum was written into the word that was zero while it was
/// computed has the checksum zero: that is how the receiver checks it.
pub proof fn written_checksum_validates(content: Seq<u8>, at: int)
    requires
        0 <= at,
        at + 2 <= content.len(),
        at % 2 == 0,
        content[at] == 0,
        content[at + 1] == 0,
    ensures
        checksum_of(with_word(content, at, checksum_of(content))) == 0,
{
    lemma_word_sum_with_word(content, at, checksum_of(content));
    lemma_word_sum_nonnegative(content);
    let sum = word_sum(content);
    let check = checksum_of(content);
    assert(check == 0xffff - carried(sum));
    assert(carried(sum + check) == 0xffff);
}

/// The sum over a content is the sum over its two parts, where the first of them
/// fills whole words.
pub proof fn word_sum_of_two(first: Seq<u8>, second: Seq<u8>)
    requires
        first.len() % 2 == 0,
    ensures
        word_sum(first + second) == word_sum(first) + word_sum(second),
    decreases first.len(),
{
    if first.len() == 0 {
        assert(first + second =~= second);
    } else {
        assert((first + second).skip(2) =~= first.skip(2) + second);
        word_sum_of_two(first.skip(2), second);
    }
}

} // verus!
