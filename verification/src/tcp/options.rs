//! The options of a segment header.
use vstd::prelude::*;

use crate::bytes;
use crate::bytes::be_u16;
use crate::tcp::types;
use crate::tcp::types::TcpCapabilities;

verus! {

pub const TCP_OPTION_EOL: u8 = 0;

pub const TCP_OPTION_NOP: u8 = 1;

pub const TCP_OPTION_MSS: u8 = 2;

pub const TCP_OPTION_MSS_LEN: usize = 4;

/// A whole option with a length byte starts at `at`.
pub open spec fn whole_option(options: Seq<u8>, at: int) -> bool {
    &&& at + 1 < options.len()
    &&& options[at + 1] >= 2
    &&& at + options[at + 1] <= options.len()
}

/// The segment size that the options from `at` on announce, or `found` where
/// they announce none. A list ends where it says so, and where it is broken.
pub open spec fn announced_segment_size(options: Seq<u8>, at: int, found: Option<u16>) -> Option<
    u16,
>
    decreases options.len() - at,
{
    if at < 0 || at >= options.len() || options[at] == TCP_OPTION_EOL {
        found
    } else if options[at] == TCP_OPTION_NOP {
        announced_segment_size(options, at + 1, found)
    } else if !whole_option(options, at) {
        found
    } else if options[at] == TCP_OPTION_MSS && options[at + 1] == TCP_OPTION_MSS_LEN {
        announced_segment_size(
            options,
            at + 4,
            Some(bytes::read16(options[at + 2], options[at + 3])),
        )
    } else {
        announced_segment_size(options, at + options[at + 1], found)
    }
}

/// What the options of a header offer. Of several segment sizes the last counts.
pub fn tcp_capabilities_from_options(options: &[u8]) -> (r: TcpCapabilities)
    ensures
        r == (TcpCapabilities {
            max_segment_size: announced_segment_size(options@, 0, None),
            ..types::no_capabilities()
        }),
{
    let mut max_segment_size: Option<u16> = None;
    let mut index: usize = 0;
    let count: usize = options.len();
    while index < count
        invariant_except_break
            announced_segment_size(options@, index as int, max_segment_size)
                == announced_segment_size(options@, 0, None),
        invariant
            count == options@.len(),
            index <= count,
        ensures
            max_segment_size == announced_segment_size(options@, 0, None),
        decreases count - index,
    {
        let kind: u8 = options[index];
        if kind == TCP_OPTION_EOL {
            break ;
        }
        if kind == TCP_OPTION_NOP {
            index = index + 1;
        } else {
            if count - index < 2 {
                break ;
            }
            let len: usize = options[index + 1] as usize;
            if len < 2 || len > count - index {
                break ;
            }
            if kind == TCP_OPTION_MSS && len == TCP_OPTION_MSS_LEN {
                max_segment_size = Some(be_u16(options, index + 2));
            }
            index = index + len;
        }
    }
    TcpCapabilities { max_segment_size, ..TcpCapabilities::default() }
}

proof fn lemma_shifted(before: Seq<u8>, options: Seq<u8>, at: int, found: Option<u16>)
    requires
        0 <= at <= options.len(),
    ensures
        announced_segment_size(before + options, before.len() + at, found)
            == announced_segment_size(options, at, found),
    decreases options.len() - at,
{
    let whole = before + options;
    let there = before.len() + at;
    if at < options.len() {
        assert(whole[there] == options[at]);
        if at + 1 < options.len() {
            assert(whole[there + 1] == options[at + 1]);
        }
        if options[at] == TCP_OPTION_EOL {
        } else if options[at] == TCP_OPTION_NOP {
            lemma_shifted(before, options, at + 1, found);
        } else if whole_option(options, at) {
            assert(whole_option(whole, there));
            if options[at] == TCP_OPTION_MSS && options[at + 1] == TCP_OPTION_MSS_LEN {
                assert(whole[there + 2] == options[at + 2]);
                assert(whole[there + 3] == options[at + 3]);
                lemma_shifted(
                    before,
                    options,
                    at + 4,
                    Some(bytes::read16(options[at + 2], options[at + 3])),
                );
            } else {
                lemma_shifted(before, options, at + options[at + 1], found);
            }
        } else {
            assert(!whole_option(whole, there));
        }
    }
}

/// Padding is passed over, and the end of the list ends it.
pub proof fn padding_is_passed_over(options: Seq<u8>, found: Option<u16>)
    ensures
        announced_segment_size(seq![1u8] + options, 0, found) == announced_segment_size(
            options,
            0,
            found,
        ),
        announced_segment_size(seq![0u8] + options, 0, found) == found,
        announced_segment_size(Seq::<u8>::empty(), 0, found) == found,
{
    let padded = seq![1u8] + options;
    assert(padded[0] == 1);
    lemma_shifted(seq![1u8], options, 0, found);
    assert((seq![0u8] + options)[0] == 0);
}

/// A segment size is read high byte first, and a later one counts instead of it.
pub proof fn segment_size_is_read(high: u8, low: u8, options: Seq<u8>, found: Option<u16>)
    ensures
        announced_segment_size(seq![2u8, 4u8, high, low] + options, 0, found)
            == announced_segment_size(options, 0, Some((256 * high + low) as u16)),
{
    let option = seq![2u8, 4u8, high, low];
    let whole = option + options;
    assert(whole[0] == 2 && whole[1] == 4 && whole[2] == high && whole[3] == low);
    assert(whole_option(whole, 0));
    lemma_shifted(option, options, 0, Some(bytes::read16(high, low)));
}

/// Another option is passed over by its length; one that does not fit ends the list.
pub proof fn other_options_are_passed_over(
    option: Seq<u8>,
    options: Seq<u8>,
    found: Option<u16>,
)
    requires
        option.len() >= 2,
        option[0] > 2,
    ensures
        option[1] == option.len() ==> announced_segment_size(option + options, 0, found)
            == announced_segment_size(options, 0, found),
        option[1] < 2 || option[1] > option.len() ==> announced_segment_size(option, 0, found)
            == found,
{
    let whole = option + options;
    assert(whole[0] == option[0] && whole[1] == option[1]);
    if option[1] == option.len() {
        assert(whole_option(whole, 0));
        lemma_shifted(option, options, 0, found);
    }
}

} // verus!
