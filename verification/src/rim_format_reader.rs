//! The reader of paper tapes in RIM format.
//!
//! A tape is a sequence of bytes, each one line of holes. A byte with its top
//! bit set is leader or trailer and means nothing. Of the other bytes the low
//! six bits count. A byte with its second bit set starts a group of four: the
//! first two bytes of the group are the high and low half of an absolute
//! address, the last two the high and low half of the word to store there.
//! Bytes that stand outside a group are passed over, and a group that a new
//! start cuts short stores nothing.

use crate::memory::words;
use crate::unsigned_integer_12::lemma_word_bound;
use crate::unsigned_integer_12::u12;
use crate::unsigned_integer_12::wrap12;
use vstd::prelude::*;

verus! {

/// The bit that marks a byte of leader or trailer.
pub const LEADER_TRAILER_CODE: u8 = 0b1000_0000;

/// The bit that marks the first byte of a pair of address and content.
pub const START_ADDRESS_CONTENT_PAIR: u8 = 0b0100_0000;

/// The bits of a byte that carry data.
pub const DATA_MASK: u8 = 0b0011_1111;

/// The longest tape that is read, in bytes.
pub const TAPE_LIMIT: usize = 4095;

/// Whether a byte is leader or trailer.
pub open spec fn is_leader(byte: u8) -> bool {
    byte >= 128
}

/// Whether a byte starts a pair of address and content.
pub open spec fn starts_pair(byte: u8) -> bool {
    64 <= byte < 128
}

/// The six data bits of a byte.
pub open spec fn sextet(byte: u8) -> int {
    byte as int % 64
}

/// The word that two halves make, the high half first.
pub open spec fn joined(high: int, low: int) -> int {
    wrap12(high * 64 + low)
}

/// Where the reader stands on a tape: what memory holds so far, and the data
/// of the group that is open, none if no group is open.
pub struct Reading {
    pub cells: Seq<int>,
    pub pending: Seq<int>,
}

/// The reader's state before the first byte of a tape.
pub open spec fn reading_from(cells: Seq<int>) -> Reading {
    Reading { cells, pending: Seq::empty() }
}

/// The reader's state after one more byte.
pub open spec fn read_byte(before: Reading, byte: u8) -> Reading {
    if is_leader(byte) {
        before
    } else if starts_pair(byte) {
        Reading { cells: before.cells, pending: seq![sextet(byte)] }
    } else if before.pending.len() == 0 {
        before
    } else {
        let group = before.pending.push(sextet(byte));
        if group.len() >= 4 {
            Reading {
                cells: before.cells.update(joined(group[0], group[1]), joined(group[2], group[3])),
                pending: Seq::empty(),
            }
        } else {
            Reading { cells: before.cells, pending: group }
        }
    }
}

/// The reader's state after a whole tape, byte by byte from `start`.
pub open spec fn read_tape(tape: Seq<u8>, start: Reading) -> Reading
    decreases tape.len(),
{
    if tape.len() == 0 {
        start
    } else {
        read_byte(read_tape(tape.drop_last(), start), tape.last())
    }
}

/// What memory holds after `tape` has been read into `cells`.
pub open spec fn loaded(tape: Seq<u8>, cells: Seq<int>) -> Seq<int> {
    read_tape(tape, reading_from(cells)).cells
}

/// Two halves of six bits each make the word that has the high half shifted
/// left by six places and the low half in the bits so freed.
pub proof fn lemma_joined_is_concatenation(high: u8, low: u8)
    requires
        high < 64,
        low < 64,
    ensures
        joined(high as int, low as int) == ((high as u16) << 6 | (low as u16)),
{
    assert(high * 64 + low == ((high as u16) << 6 | (low as u16)) && high * 64 + low < 4096)
        by (bit_vector)
        requires
            high < 64,
            low < 64,
    ;
}

/// Leader and trailer mean nothing: a tape and the same tape without its
/// bytes of leader and trailer leave the reader in the same state.
pub proof fn lemma_leader_ignored(tape: Seq<u8>, start: Reading)
    ensures
        read_tape(tape, start) == read_tape(tape.filter(|byte: u8| !is_leader(byte)), start),
    decreases tape.len(),
{
    reveal(Seq::filter);
    if tape.len() > 0 {
        lemma_leader_ignored(tape.drop_last(), start);
        let kept = tape.drop_last().filter(|byte: u8| !is_leader(byte));
        if !is_leader(tape.last()) {
            assert(kept.push(tape.last()).drop_last() =~= kept);
        }
    }
}

/// A tape of leader alone stores nothing.
pub proof fn lemma_leader_alone(tape: Seq<u8>, cells: Seq<int>)
    requires
        forall|i: int| 0 <= i < tape.len() ==> is_leader(#[trigger] tape[i]),
    ensures
        loaded(tape, cells) == cells,
        read_tape(tape, reading_from(cells)) == reading_from(cells),
    decreases tape.len(),
{
    if tape.len() > 0 {
        lemma_leader_alone(tape.drop_last(), cells);
    }
}

/// A start byte and the three data bytes after it store exactly one word:
/// memory changes at the address that the first two bytes make, to the word
/// that the last two make, and nowhere else; no group stays open.
pub proof fn lemma_pair_written(first: u8, second: u8, third: u8, fourth: u8, cells: Seq<int>)
    requires
        starts_pair(first),
        second < 64,
        third < 64,
        fourth < 64,
    ensures
        read_tape(seq![first, second, third, fourth], reading_from(cells)) == reading_from(
            cells.update(sextet(first) * 64 + second, third * 64 + fourth),
        ),
        loaded(seq![first, second, third, fourth], cells) == cells.update(
            sextet(first) * 64 + second,
            third * 64 + fourth,
        ),
{
    let tape = seq![first, second, third, fourth];
    let start = reading_from(cells);
    let three = tape.drop_last();
    let two = three.drop_last();
    let one = two.drop_last();
    assert(one.drop_last().len() == 0);
    assert(read_tape(one.drop_last(), start) == start);
    let after_one = read_tape(one, start);
    assert(after_one.pending =~= seq![sextet(first)]);
    let after_two = read_tape(two, start);
    assert(after_two.pending =~= seq![sextet(first), second as int]);
    let after_three = read_tape(three, start);
    assert(after_three.pending =~= seq![sextet(first), second as int, third as int]);
    let group = after_three.pending.push(sextet(fourth));
    assert(group.len() == 4);
}

/// The reader of tapes in RIM format.
pub struct RimFormat {}

impl RimFormat {
    /// Makes the address and the content out of the four bytes of a group.
    pub fn process_address_content_pair(data: &[u8; 4]) -> (pair: [u12; 2])
        ensures
            pair[0]@ == joined(data[0] as int, data[1] as int),
            pair[1]@ == joined(data[2] as int, data[3] as int),
    {
        let high: u16 = data[0] as u16;
        let mut address: u16 = high << 6;
        assert(address == high * 64) by (bit_vector)
            requires
                address == high << 6,
                high < 256,
        ;
        address += data[1] as u16;
        let high: u16 = data[2] as u16;
        let mut content: u16 = high << 6;
        assert(content == high * 64) by (bit_vector)
            requires
                content == high << 6,
                high < 256,
        ;
        content += data[3] as u16;
        [u12::from(address), u12::from(content)]
    }

    /// Reads a tape, given as the bytes of its file, into `buf`: each group
    /// of the tape stores its word at its address, in the order of the tape,
    /// a later group over an earlier one.
    pub fn load_from_file(data: &[u8], buf: &mut [u12; 4096])
        requires
            data@.len() <= TAPE_LIMIT,
        ensures
            words(*final(buf)) == loaded(data@, words(*old(buf))),
    {
        broadcast use lemma_word_bound;

        let mut buffer: [u8; 4] = [0;4];
        let mut buffer_counter: usize = 0;
        let mut i: usize = 0;
        assert(data@.take(0) =~= Seq::<u8>::empty());
        while i < data.len()
            invariant
                i <= data@.len(),
                buffer_counter <= 3,
                words(*buf) == read_tape(data@.take(i as int), reading_from(words(*old(buf)))).cells,
                read_tape(data@.take(i as int), reading_from(words(*old(buf)))).pending.len()
                    == buffer_counter,
                forall|j: int|
                    0 <= j < buffer_counter ==> read_tape(
                        data@.take(i as int),
                        reading_from(words(*old(buf))),
                    ).pending[j] == #[trigger] buffer[j],
                forall|j: int| 0 <= j < buffer_counter ==> #[trigger] buffer[j] < 64,
            decreases data@.len() - i,
        {
            let byte: u8 = data[i];
            proof {
                assert(data@.take(i + 1).drop_last() =~= data@.take(i as int));
                assert(data@.take(i + 1).last() == byte);
                assert((byte & LEADER_TRAILER_CODE == LEADER_TRAILER_CODE) == (byte >= 128))
                    by (bit_vector);
                assert(byte < 128 ==> ((byte & START_ADDRESS_CONTENT_PAIR
                    == START_ADDRESS_CONTENT_PAIR) == (64 <= byte))) by (bit_vector);
                assert(byte & DATA_MASK == byte % 64) by (bit_vector);
            }
            let ghost before = read_tape(data@.take(i as int), reading_from(words(*old(buf))));
            i += 1;
            if byte & LEADER_TRAILER_CODE == LEADER_TRAILER_CODE {
                continue ;
            }
            if byte & START_ADDRESS_CONTENT_PAIR == START_ADDRESS_CONTENT_PAIR {
                buffer_counter = 0;
            } else if buffer_counter == 0 {
                continue ;
            }
            buffer[buffer_counter] = byte & DATA_MASK;
            buffer_counter += 1;
            if buffer_counter == 4 {
                let pair: [u12; 2] = RimFormat::process_address_content_pair(&buffer);
                let address: u12 = pair[0];
                let content: u12 = pair[1];
                buf[usize::from(address)] = content;
                buffer_counter = 0;
                proof {
                    let group = before.pending.push(sextet(byte));
                    assert(group[0] == buffer[0] && group[1] == buffer[1] && group[2] == buffer[2]
                        && group[3] == buffer[3]);
                    assert(words(*buf) =~= before.cells.update(address@, content@));
                }
            } else {
                proof {
                    let after = read_byte(before, byte);
                    assert(after.pending.len() == buffer_counter);
                    assert forall|j: int| 0 <= j < buffer_counter implies after.pending[j]
                        == #[trigger] buffer[j] by {}
                }
            }
        }
        assert(data@.take(i as int) =~= data@);
    }
}

} // verus!
