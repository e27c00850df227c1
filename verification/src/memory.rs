//! Core memory and the addressing unit.
//!
//! Memory is 4096 words. Cell 0 is at once ordinary memory and the program
//! counter. An instruction carries seven address bits; the addressing unit
//! turns them into an absolute address, through the current page or page 0,
//! directly or through a pointer cell. A pointer cell at the octal addresses
//! 10 to 17 counts up by one each time an address is taken through it.

use crate::consts::PC_ADDRESS;
use crate::unsigned_integer_12::lemma_word_bound;
use crate::unsigned_integer_12::u12;
use crate::unsigned_integer_12::wrap12;
use std::ops::Index;
use std::ops::IndexMut;
use vstd::arithmetic::power2::lemma2_to64;
use vstd::prelude::*;

verus! {

/// The number of words in a page.
pub const PAGE_SIZE: u16 = 128;

/// The first of the cells that count up when an address is taken through them.
pub const AUTOINDEX_FIRST: u16 = 0o10;

/// The last of the cells that count up when an address is taken through them.
pub const AUTOINDEX_LAST: u16 = 0o17;

/// The numbers that a block of words holds, cell by cell.
pub open spec fn words(block: [u12; 4096]) -> Seq<int> {
    Seq::new(4096, |i: int| block[i]@)
}

/// Whether `cells` can be the content of memory: 4096 cells of twelve bits.
pub open spec fn well_formed(cells: Seq<int>) -> bool {
    &&& cells.len() == 4096
    &&& forall|i: int| 0 <= i < 4096 ==> 0 <= #[trigger] cells[i] < 4096
}

/// Whether an address taken through the cell at `address` makes it count up.
pub open spec fn is_autoindex(address: int) -> bool {
    0o10 <= address <= 0o17
}

/// The page that the program counter stands in: its five high bits.
pub open spec fn current_page(cells: Seq<int>) -> int {
    cells[0] / 128
}

/// The address of the first word of the current page.
pub open spec fn page_address(cells: Seq<int>) -> int {
    current_page(cells) * 128
}

/// Memory after the cell at `address` has counted up by one, wrapping at 4096.
pub open spec fn incremented(cells: Seq<int>, address: int) -> Seq<int> {
    cells.update(address, wrap12(cells[address] + 1))
}

/// Memory after an address has been taken through the cell at `address`.
pub open spec fn autoindexed(cells: Seq<int>, address: int) -> Seq<int> {
    if is_autoindex(address) {
        incremented(cells, address)
    } else {
        cells
    }
}

/// The cell that the seven low bits of `address` name, on page 0 or on the
/// current page.
pub open spec fn named_cell(cells: Seq<int>, address: int, zero_page: bool) -> int {
    if zero_page {
        address % 128
    } else {
        page_address(cells) + address % 128
    }
}

/// The absolute address that an address field stands for: the named cell
/// itself, or, with indirect addressing, what the named cell holds.
pub open spec fn absolute_address(
    cells: Seq<int>,
    address: int,
    indirect: bool,
    zero_page: bool,
) -> int {
    if indirect {
        cells[named_cell(cells, address, zero_page)]
    } else {
        named_cell(cells, address, zero_page)
    }
}

/// Memory after the address field has been resolved: with indirect
/// addressing the named cell has served as a pointer.
pub open spec fn resolved(cells: Seq<int>, address: int, indirect: bool, zero_page: bool) -> Seq<
    int,
> {
    if indirect {
        autoindexed(cells, named_cell(cells, address, zero_page))
    } else {
        cells
    }
}

/// The bit of an instruction word that asks for indirect addressing.
pub open spec fn indirect_addressing(instruction: int) -> bool {
    instruction / 256 % 2 == 1
}

/// The bit of an instruction word that selects page 0 over the current page.
pub open spec fn addressing_page_0(instruction: int) -> bool {
    instruction / 128 % 2 == 1
}

/// The absolute address of the operand of an instruction word.
pub open spec fn operand_address(cells: Seq<int>, instruction: int) -> int {
    absolute_address(
        cells,
        instruction,
        indirect_addressing(instruction),
        addressing_page_0(instruction),
    )
}

/// Memory after the operand of an instruction word has been found.
pub open spec fn operand_resolved(cells: Seq<int>, instruction: int) -> Seq<int> {
    resolved(
        cells,
        instruction,
        indirect_addressing(instruction),
        addressing_page_0(instruction),
    )
}

/// An absolute address is always an address of memory, and resolving it
/// leaves memory well formed.
pub proof fn lemma_resolution_in_range(
    cells: Seq<int>,
    address: int,
    indirect: bool,
    zero_page: bool,
)
    requires
        well_formed(cells),
    ensures
        0 <= named_cell(cells, address, zero_page) < 4096,
        0 <= absolute_address(cells, address, indirect, zero_page) < 4096,
        well_formed(resolved(cells, address, indirect, zero_page)),
{
    let pc = cells[0];
    assert(0 <= pc / 128 <= 31);
    assert(0 <= address % 128 < 128);
}

/// The 4096 words of core memory. Its view is what the cells hold, by address.
#[derive(Debug)]
pub struct Memory {
    memory: [u12; 4096],
}

impl View for Memory {
    type V = Seq<int>;

    closed spec fn view(&self) -> Seq<int> {
        words(self.memory)
    }
}

/// Memory always has 4096 cells of twelve bits.
pub broadcast proof fn lemma_memory_well_formed(memory: Memory)
    ensures
        well_formed(#[trigger] memory@),
{
    broadcast use lemma_word_bound;

}

impl vstd::std_specs::core::IndexSpecImpl<u12> for Memory {
    open spec fn index_req(&self, index: &u12) -> bool {
        true
    }
}

impl Index<u12> for Memory {
    type Output = u12;

    /// The cell at `index`.
    fn index(&self, index: u12) -> (word: &u12)
        ensures
            word@ == self@[index@],
    {
        broadcast use lemma_word_bound;

        &self.memory[usize::from(index)]
    }
}

impl IndexMut<u12> for Memory {
    /// The cell at `index`, to be written.
    fn index_mut(&mut self, index: u12) -> (word: &mut u12)
        ensures
            word@ == old(self)@[index@],
            final(self)@ == old(self)@.update(index@, final(word)@),
    {
        broadcast use lemma_word_bound;

        &mut self.memory[usize::from(index)]
    }
}

impl Memory {
    /// Memory that holds the words of `buf`.
    pub fn default(buf: [u12; 4096]) -> (memory: Memory)
        ensures
            memory@ == words(buf),
    {
        Memory { memory: buf }
    }

    /// The word at `address`, with no side effect.
    pub fn get(&self, address: u12) -> (word: u12)
        ensures
            word@ == self@[address@],
    {
        broadcast use lemma_word_bound;

        self.memory[usize::from(address)]
    }

    /// Writes `value` at `address`.
    pub fn set(&mut self, address: u12, value: u12)
        ensures
            final(self)@ == old(self)@.update(address@, value@),
    {
        broadcast use lemma_word_bound;

        self.memory[usize::from(address)] = value;
        assert(self@ =~= old(self)@.update(address@, value@));
    }

    /// The page that the program counter stands in, from 0 to 31.
    pub fn get_current_page(&self) -> (page: u12)
        ensures
            page@ == current_page(self@),
            0 <= page@ < 32,
    {
        broadcast use lemma_word_bound;

        let mask: u12 = u12::from(0b1111_1000_0000u16);
        let program_counter: u12 = self.get(u12::from(PC_ADDRESS));
        let result: u12 = program_counter & mask;
        let result: u12 = result >> u12::from(7u16);
        proof {
            lemma2_to64();
            let pc: u16 = program_counter.bits();
            assert(0b1111_1000_0000u16 & 0xFFF == 0b1111_1000_0000u16) by (bit_vector);
            assert((pc & 0b1111_1000_0000u16) / 128 == pc / 128 && pc / 128 < 32) by (bit_vector)
                requires
                    pc < 4096,
            ;
            assert(7u16 & 0xFFF == 7) by (bit_vector);
        }
        result
    }

    /// The address of the first word of the current page.
    pub fn get_page_address(&self) -> (address: u12)
        ensures
            address@ == page_address(self@),
    {
        let cur_page: u12 = self.get_current_page();
        proof {
            assert(128u16 & 0xFFF == 128) by (bit_vector);
        }
        cur_page * u12::from(PAGE_SIZE)
    }

    /// Takes an address through the cell at `address`: returns what the cell
    /// holds, and then, if it is one of the cells at the octal addresses 10
    /// to 17, makes it count up by one.
    pub fn autoindex(&mut self, address: u12) -> (word: u12)
        ensures
            word@ == old(self)@[address@],
            final(self)@ == autoindexed(old(self)@, address@),
    {
        let result: u12 = self.get(address);
        let place: u16 = u16::from(address);
        if place >= AUTOINDEX_FIRST && place <= AUTOINDEX_LAST {
            proof {
                assert(1u16 & 0xFFF == 1) by (bit_vector);
            }
            self.set(address, result + u12::from(1u16));
        }
        result
    }

    /// The absolute address (not the content) that the seven low bits of
    /// `address` stand for.
    ///
    /// With `zero_page` they name a cell of page 0, otherwise a cell of the
    /// current page. Without `indirect` that cell is the result. With
    /// `indirect` the cell is a pointer: the result is what it holds, and the
    /// pointer counts up afterwards if it is one of the cells at the octal
    /// addresses 10 to 17.
    pub fn get_absolute_address(&mut self, address: u12, indirect: bool, zero_page: bool) -> (absolute: u12)
        ensures
            absolute@ == absolute_address(old(self)@, address@, indirect, zero_page),
            final(self)@ == resolved(old(self)@, address@, indirect, zero_page),
    {
        broadcast use lemma_word_bound, lemma_memory_well_formed;

        let mask: u12 = u12::from(0b0000_0111_1111u16);
        let field: u12 = address & mask;
        proof {
            let a: u16 = address.bits();
            assert(0b0000_0111_1111u16 & 0xFFF == 0b0000_0111_1111u16) by (bit_vector);
            assert(a & 0b0000_0111_1111u16 == a % 128) by (bit_vector);
            lemma_resolution_in_range(self@, address@, indirect, zero_page);
        }
        match zero_page {
            true => match indirect {
                false => field,
                true => self.autoindex(field),
            },
            false => {
                let page_address: u12 = self.get_page_address();
                match indirect {
                    false => page_address + field,
                    true => self.autoindex(page_address + field),
                }
            },
        }
    }

    /// Whether an instruction word asks for indirect addressing.
    pub fn get_indirect_addressing(instruction: u12) -> (indirect: bool)
        ensures
            indirect == indirect_addressing(instruction@),
    {
        broadcast use lemma_word_bound;

        let indirect_mask: u12 = u12::from(0b0001_0000_0000u16);
        let selected: u16 = u16::from(indirect_mask & instruction);
        proof {
            let w: u16 = instruction.bits();
            assert(0b0001_0000_0000u16 & 0xFFF == 0b0001_0000_0000u16) by (bit_vector);
            assert((0b0001_0000_0000u16 & w > 0) == (w / 256 % 2 == 1)) by (bit_vector);
        }
        selected > 0
    }

    /// Whether an instruction word addresses page 0 and not the current page.
    pub fn get_addressing_page_0(instruction: u12) -> (zero_page: bool)
        ensures
            zero_page == addressing_page_0(instruction@),
    {
        broadcast use lemma_word_bound;

        let page_0_or_current_page_mask: u12 = u12::from(0b0000_1000_0000u16);
        let selected: u16 = u16::from(page_0_or_current_page_mask & instruction);
        proof {
            let w: u16 = instruction.bits();
            assert(0b0000_1000_0000u16 & 0xFFF == 0b0000_1000_0000u16) by (bit_vector);
            assert((0b0000_1000_0000u16 & w > 0) == (w / 128 % 2 == 1)) by (bit_vector);
        }
        selected > 0
    }

    /// Finds the operand of an instruction word, makes it count up by one,
    /// and returns what it then holds.
    pub fn load_and_increment(&mut self, instruction: u12) -> (word: u12)
        ensures
            final(self)@ == incremented(
                operand_resolved(old(self)@, instruction@),
                operand_address(old(self)@, instruction@),
            ),
            word@ == final(self)@[operand_address(old(self)@, instruction@)],
    {
        broadcast use lemma_word_bound, lemma_memory_well_formed;

        let indirect: bool = Memory::get_indirect_addressing(instruction);
        let zero_page: bool = Memory::get_addressing_page_0(instruction);
        let address: u12 = self.get_absolute_address(instruction, indirect, zero_page);
        proof {
            assert(1u16 & 0xFFF == 1) by (bit_vector);
        }
        let result: u12 = self.get(address) + u12::from(1u16);
        self.set(address, result);
        result
    }

    /// Finds the operand of an instruction word and returns what it holds.
    pub fn load(&mut self, instruction: u12) -> (word: u12)
        ensures
            final(self)@ == operand_resolved(old(self)@, instruction@),
            word@ == final(self)@[operand_address(old(self)@, instruction@)],
    {
        let indirect: bool = Memory::get_indirect_addressing(instruction);
        let zero_page: bool = Memory::get_addressing_page_0(instruction);
        let address: u12 = self.get_absolute_address(instruction, indirect, zero_page);
        self.get(address)
    }

    /// Finds the operand of an instruction word, as `load` does, and then
    /// writes `value` there.
    pub fn set_value(&mut self, instruction: u12, value: u12)
        ensures
            final(self)@ == operand_resolved(old(self)@, instruction@).update(
                operand_address(old(self)@, instruction@),
                value@,
            ),
    {
        let indirect: bool = Memory::get_indirect_addressing(instruction);
        let zero_page: bool = Memory::get_addressing_page_0(instruction);
        let abs_address: u12 = self.get_absolute_address(instruction, indirect, zero_page);
        self.set(abs_address, value);
    }

    /// Makes the program counter, cell 0, count up by one.
    pub fn increment_pc_counter(&mut self)
        ensures
            final(self)@ == incremented(old(self)@, 0),
    {
        let pc: u12 = u12::from(PC_ADDRESS);
        proof {
            assert(1u16 & 0xFFF == 1) by (bit_vector);
            assert(0u16 & 0xFFF == 0) by (bit_vector);
        }
        let next: u12 = self.get(pc) + u12::from(1u16);
        self.set(pc, next);
    }
}

} // verus!
