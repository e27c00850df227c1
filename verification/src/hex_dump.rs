//! Memory rendered as text, for diagnostics.
//!
//! The text starts with the line `Memory:`. Each following line shows 32
//! words: the address of the first of them in hexadecimal, and then each word
//! as three hexadecimal digits followed by a space.

use crate::memory::lemma_memory_well_formed;
use crate::memory::Memory;
use crate::unsigned_integer_12::lemma_word_bound;
use crate::unsigned_integer_12::u12;
use vstd::prelude::*;
use vstd::string::StringExecFns;

verus! {

/// The number of words on one line.
pub const CHUNK_SIZE: usize = 32;

/// The hexadecimal digit, in lower case, for a number from 0 to 15.
pub open spec fn hex_digit(digit: int) -> char {
    if digit == 0 {
        '0'
    } else if digit == 1 {
        '1'
    } else if digit == 2 {
        '2'
    } else if digit == 3 {
        '3'
    } else if digit == 4 {
        '4'
    } else if digit == 5 {
        '5'
    } else if digit == 6 {
        '6'
    } else if digit == 7 {
        '7'
    } else if digit == 8 {
        '8'
    } else if digit == 9 {
        '9'
    } else if digit == 10 {
        'a'
    } else if digit == 11 {
        'b'
    } else if digit == 12 {
        'c'
    } else if digit == 13 {
        'd'
    } else if digit == 14 {
        'e'
    } else {
        'f'
    }
}

/// A number in hexadecimal, with no more digits than it needs.
pub open spec fn hex_number(number: int) -> Seq<char>
    decreases number,
{
    if number < 16 {
        seq![hex_digit(number)]
    } else {
        hex_number(number / 16).push(hex_digit(number % 16))
    }
}

/// A word as three hexadecimal digits and a space.
pub open spec fn word_text(word: int) -> Seq<char> {
    seq![hex_digit(word / 256), hex_digit(word / 16 % 16), hex_digit(word % 16), ' ']
}

/// The first `count` words of the line that starts at the address `from`.
pub open spec fn words_text(cells: Seq<int>, from: int, count: int) -> Seq<char>
    decreases count,
{
    if count <= 0 {
        Seq::empty()
    } else {
        words_text(cells, from, count - 1) + word_text(cells[from + count - 1])
    }
}

/// What stands on a line before its words, the line break before it
/// included.
pub open spec fn line_start(from: int) -> Seq<char> {
    "\nAddress: "@ + "0x"@ + hex_number(from) + ", Data: "@
}

/// The first `count` lines of words.
pub open spec fn lines_text(cells: Seq<int>, count: int) -> Seq<char>
    decreases count,
{
    if count <= 0 {
        Seq::empty()
    } else {
        lines_text(cells, count - 1) + line_start((count - 1) * 32) + words_text(
            cells,
            (count - 1) * 32,
            32,
        )
    }
}

/// The whole of memory as text.
pub open spec fn dump_text(cells: Seq<int>) -> Seq<char> {
    "Memory:"@ + lines_text(cells, 128) + "\n"@
}

/// The text of one hexadecimal digit.
fn hex_digit_text(digit: u16) -> (text: &'static str)
    requires
        digit < 16,
    ensures
        text@ == seq![hex_digit(digit as int)],
{
    proof {
        reveal_strlit("0");
        reveal_strlit("1");
        reveal_strlit("2");
        reveal_strlit("3");
        reveal_strlit("4");
        reveal_strlit("5");
        reveal_strlit("6");
        reveal_strlit("7");
        reveal_strlit("8");
        reveal_strlit("9");
        reveal_strlit("a");
        reveal_strlit("b");
        reveal_strlit("c");
        reveal_strlit("d");
        reveal_strlit("e");
        reveal_strlit("f");
    }
    let text: &'static str = if digit == 0 {
        "0"
    } else if digit == 1 {
        "1"
    } else if digit == 2 {
        "2"
    } else if digit == 3 {
        "3"
    } else if digit == 4 {
        "4"
    } else if digit == 5 {
        "5"
    } else if digit == 6 {
        "6"
    } else if digit == 7 {
        "7"
    } else if digit == 8 {
        "8"
    } else if digit == 9 {
        "9"
    } else if digit == 10 {
        "a"
    } else if digit == 11 {
        "b"
    } else if digit == 12 {
        "c"
    } else if digit == 13 {
        "d"
    } else if digit == 14 {
        "e"
    } else {
        "f"
    };
    assert(text@ =~= seq![hex_digit(digit as int)]);
    text
}

/// Appends a number below 4096 in hexadecimal, with no more digits than it
/// needs.
fn append_hex_number(out: &mut String, number: u16)
    requires
        number < 4096,
    ensures
        final(out)@ == old(out)@ + hex_number(number as int),
{
    reveal_with_fuel(hex_number, 3);
    if number >= 256 {
        out.append(hex_digit_text(number / 256));
    }
    if number >= 16 {
        out.append(hex_digit_text(number / 16 % 16));
    }
    out.append(hex_digit_text(number % 16));
    assert(out@ =~= old(out)@ + hex_number(number as int));
}

/// Appends a word as three hexadecimal digits and a space.
fn append_word(out: &mut String, word: u12)
    ensures
        final(out)@ == old(out)@ + word_text(word@),
{
    broadcast use lemma_word_bound;

    let number: u16 = u16::from(word);
    proof {
        reveal_strlit(" ");
    }
    out.append(hex_digit_text(number / 256));
    out.append(hex_digit_text(number / 16 % 16));
    out.append(hex_digit_text(number % 16));
    out.append(" ");
    assert(out@ =~= old(out)@ + word_text(word@));
}

impl Memory {
    /// The whole of memory as text: the line `Memory:`, and then 128 lines
    /// of 32 words each.
    pub fn hex_dump(&self) -> (text: String)
        ensures
            text@ == dump_text(self@),
    {
        broadcast use lemma_memory_well_formed;

        let mut out: String = String::new();
        out.append("Memory:");
        let mut count: usize = 0;
        assert(out@ =~= "Memory:"@ + lines_text(self@, 0));
        while count < 4096
            invariant
                count <= 4096,
                count % 32 == 0,
                out@ == "Memory:"@ + lines_text(self@, count as int / 32),
            decreases 4096 - count,
        {
            let ghost before = out@;
            out.append("\nAddress: ");
            out.append("0x");
            append_hex_number(&mut out, count as u16);
            out.append(", Data: ");
            let mut offset: usize = 0;
            assert(out@ =~= before + line_start(count as int) + words_text(self@, count as int, 0));
            while offset < CHUNK_SIZE
                invariant
                    offset <= CHUNK_SIZE,
                    count + CHUNK_SIZE <= 4096,
                    out@ == before + line_start(count as int) + words_text(
                        self@,
                        count as int,
                        offset as int,
                    ),
                decreases CHUNK_SIZE - offset,
            {
                let word: u12 = self.get(u12::from(count + offset));
                append_word(&mut out, word);
                offset += 1;
            }
            count += CHUNK_SIZE;
            assert(out@ =~= "Memory:"@ + lines_text(self@, count as int / 32)) by {
                assert((count as int / 32 - 1) * 32 == count - 32);
            }
        }
        out.append("\n");
        out
    }
}

} // verus!
