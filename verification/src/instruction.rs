//! The instruction decoder and the memory reference instructions.
//!
//! Bits are numbered as on the machine's panel, bit 0 being the most
//! significant of the twelve. Bits 0 to 2 of an instruction word are the
//! operation code, bit 3 asks for indirect addressing, bit 4 selects page 0
//! over the current page, and bits 5 to 11, the seven low bits of the word,
//! are the address.

use crate::consts::CYCLE_TIME_NS;
use crate::memory::addressing_page_0;
use crate::memory::incremented;
use crate::memory::indirect_addressing;
use crate::memory::is_autoindex;
use crate::memory::lemma_resolution_in_range;
use crate::memory::named_cell;
use crate::memory::operand_address;
use crate::memory::operand_resolved;
use crate::memory::well_formed;
use crate::memory::Memory;
use crate::registers::RegisterFile;
use crate::registers::Registers;
use crate::unsigned_integer_12::lemma_of_view;
use crate::unsigned_integer_12::lemma_word_bound;
use crate::unsigned_integer_12::u12;
use crate::unsigned_integer_12::wrap12;
use vstd::prelude::*;
use vstd::std_specs::convert::FromSpecImpl;

verus! {

/// The eight operation codes, in the order of their numbers from 0 to 7.
#[derive(Copy, Clone, Debug, PartialEq, Eq, Structural)]
pub enum OpCode {
    AND,
    TAD,
    ISZ,
    DCA,
    JMS,
    JMP,
    IOT,
    OPERATE,
}

/// The number of the operation code of an instruction word: its three high
/// bits.
pub open spec fn opcode_number(instruction: int) -> int {
    instruction / 512 % 8
}

/// The operation code with the given number.
pub open spec fn opcode_numbered(number: int) -> OpCode {
    if number == 0 {
        OpCode::AND
    } else if number == 1 {
        OpCode::TAD
    } else if number == 2 {
        OpCode::ISZ
    } else if number == 3 {
        OpCode::DCA
    } else if number == 4 {
        OpCode::JMS
    } else if number == 5 {
        OpCode::JMP
    } else if number == 6 {
        OpCode::IOT
    } else {
        OpCode::OPERATE
    }
}

/// The operation code of an instruction word.
pub open spec fn opcode_of(instruction: int) -> OpCode {
    opcode_numbered(opcode_number(instruction))
}

impl OpCode {
    /// The number of the operation code, from 0 to 7.
    pub open spec fn number(self) -> int {
        match self {
            OpCode::AND => 0,
            OpCode::TAD => 1,
            OpCode::ISZ => 2,
            OpCode::DCA => 3,
            OpCode::JMS => 4,
            OpCode::JMP => 5,
            OpCode::IOT => 6,
            OpCode::OPERATE => 7,
        }
    }

    /// The number of the operation code, from 0 to 7.
    pub fn to_number(self) -> (number: u8)
        ensures
            number == self.number(),
    {
        match self {
            OpCode::AND => 0,
            OpCode::TAD => 1,
            OpCode::ISZ => 2,
            OpCode::DCA => 3,
            OpCode::JMS => 4,
            OpCode::JMP => 5,
            OpCode::IOT => 6,
            OpCode::OPERATE => 7,
        }
    }

    /// The operation code of an instruction word. Every word has one.
    pub fn decode(instruction: u12) -> (opcode: OpCode)
        ensures
            opcode == opcode_of(instruction@),
            opcode.number() == instruction@ / 512,
    {
        broadcast use lemma_word_bound;

        let number: u16 = u16::from(instruction >> u12::from(9u16));
        proof {
            vstd::arithmetic::power2::lemma2_to64();
            assert(9u16 & 0xFFF == 9) by (bit_vector);
            assert(0 <= instruction@ / 512 < 8);
        }
        if number == 0 {
            OpCode::AND
        } else if number == 1 {
            OpCode::TAD
        } else if number == 2 {
            OpCode::ISZ
        } else if number == 3 {
            OpCode::DCA
        } else if number == 4 {
            OpCode::JMS
        } else if number == 5 {
            OpCode::JMP
        } else if number == 6 {
            OpCode::IOT
        } else {
            OpCode::OPERATE
        }
    }
}

/// Numbering the operation codes and decoding a number are inverse to each
/// other: each of the eight numbers stands for one code.
pub proof fn lemma_opcode_numbers(opcode: OpCode, number: int)
    ensures
        opcode_numbered(opcode.number()) == opcode,
        0 <= opcode.number() < 8,
        0 <= number < 8 ==> opcode_numbered(number).number() == number,
{
}

/// An instruction word taken apart.
#[derive(Copy, Clone, Debug, PartialEq, Eq, Structural)]
pub struct Instruction {
    /// The operation code.
    pub opcode: OpCode,
    /// The seven address bits.
    pub address: u12,
    /// Whether the address names a pointer to the operand.
    pub indirect_addressing: bool,
    /// Whether the address is on page 0 and not on the current page.
    pub page_0: bool,
}

/// Whether `instruction` is what `word` says when taken apart.
pub open spec fn decodes(word: int, instruction: Instruction) -> bool {
    &&& instruction.opcode == opcode_of(word)
    &&& instruction.address@ == word % 128
    &&& instruction.indirect_addressing == indirect_addressing(word)
    &&& instruction.page_0 == addressing_page_0(word)
}

impl From<u12> for Instruction {
    /// Takes an instruction word apart. This never fails.
    fn from(word: u12) -> (instruction: Instruction)
        ensures
            decodes(word@, instruction),
    {
        broadcast use lemma_word_bound, lemma_of_view;

        let mask: u12 = u12::from(0b0000_0111_1111u16);
        proof {
            let w: u16 = word.bits();
            assert(0b0000_0111_1111u16 & 0xFFF == 0b0000_0111_1111u16) by (bit_vector);
            assert(w & 0b0000_0111_1111u16 == w % 128) by (bit_vector);
        }
        Instruction {
            opcode: OpCode::decode(word),
            address: word & mask,
            indirect_addressing: Memory::get_indirect_addressing(word),
            page_0: Memory::get_addressing_page_0(word),
        }
    }
}

impl FromSpecImpl<u12> for Instruction {
    open spec fn obeys_from_spec() -> bool {
        true
    }

    open spec fn from_spec(word: u12) -> Instruction {
        Instruction {
            opcode: opcode_of(word@),
            address: u12::of((word.bits() & 0b0000_0111_1111u16) as int),
            indirect_addressing: indirect_addressing(word@),
            page_0: addressing_page_0(word@),
        }
    }
}

impl Instruction {
    /// The operation code of the instruction.
    pub fn get_opcode(&self) -> (opcode: OpCode)
        ensures
            opcode == self.opcode,
    {
        self.opcode
    }
}

/// What the operand of an instruction word holds once it has been found.
pub open spec fn operand(cells: Seq<int>, instruction: int) -> int {
    operand_resolved(cells, instruction)[operand_address(cells, instruction)]
}

/// The bits that two words have in common.
pub open spec fn common_bits(a: int, b: int) -> int {
    (a as u16 & b as u16) as int
}

/// Memory after an increment-and-skip on the operand of `instruction`: the
/// operand has counted up by one, and if that made it zero, the program
/// counter has counted up by one as well.
pub open spec fn index_and_skip(cells: Seq<int>, instruction: int) -> Seq<int> {
    let counted = incremented(
        operand_resolved(cells, instruction),
        operand_address(cells, instruction),
    );
    if counted[operand_address(cells, instruction)] == 0 {
        incremented(counted, 0)
    } else {
        counted
    }
}

/// Memory after the accumulator has been deposited in the operand of
/// `instruction`.
pub open spec fn deposited(cells: Seq<int>, instruction: int, accumulator: int) -> Seq<int> {
    operand_resolved(cells, instruction).update(operand_address(cells, instruction), accumulator)
}

/// The accumulator after an instruction word has been carried out under the
/// operation code `opcode`. Only the four memory reference instructions AND,
/// TAD, ISZ and DCA do anything.
pub open spec fn executed_accumulator(
    opcode: OpCode,
    instruction: int,
    accumulator: int,
    cells: Seq<int>,
) -> int {
    match opcode {
        OpCode::AND => common_bits(operand(cells, instruction), accumulator),
        OpCode::TAD => wrap12(operand(cells, instruction) + accumulator),
        OpCode::DCA => 0,
        _ => accumulator,
    }
}

/// Memory after an instruction word has been carried out under the operation
/// code `opcode`. Only the four memory reference instructions AND, TAD, ISZ
/// and DCA do anything.
pub open spec fn executed_memory(
    opcode: OpCode,
    instruction: int,
    accumulator: int,
    cells: Seq<int>,
) -> Seq<int> {
    match opcode {
        OpCode::AND => operand_resolved(cells, instruction),
        OpCode::TAD => operand_resolved(cells, instruction),
        OpCode::ISZ => index_and_skip(cells, instruction),
        OpCode::DCA => deposited(cells, instruction, accumulator),
        _ => cells,
    }
}

/// Whether the operand of `instruction` is reached through a pointer that
/// counts up and that points at itself: finding such an operand changes it.
pub open spec fn operand_is_own_pointer(cells: Seq<int>, instruction: int) -> bool {
    let pointer = named_cell(cells, instruction, addressing_page_0(instruction));
    indirect_addressing(instruction) && is_autoindex(pointer) && cells[pointer] == pointer
}

/// Finding an operand changes memory at most in the pointer that led to it,
/// and the operand itself only if it is its own pointer.
pub proof fn lemma_operand_kept(cells: Seq<int>, instruction: int)
    requires
        well_formed(cells),
    ensures
        well_formed(operand_resolved(cells, instruction)),
        0 <= operand_address(cells, instruction) < 4096,
        !indirect_addressing(instruction) ==> operand_resolved(cells, instruction) == cells,
        forall|i: int|
            0 <= i < 4096 && i != named_cell(cells, instruction, addressing_page_0(instruction))
                ==> #[trigger] operand_resolved(cells, instruction)[i] == cells[i],
        !operand_is_own_pointer(cells, instruction) ==> operand(cells, instruction)
            == cells[operand_address(cells, instruction)],
{
    lemma_resolution_in_range(
        cells,
        instruction,
        indirect_addressing(instruction),
        addressing_page_0(instruction),
    );
}

/// An instruction that works on the accumulator and one word of memory.
pub trait MemoryReferenceInstruction {
    /// The accumulator after the instruction, from the accumulator and the
    /// memory before it.
    spec fn accumulator_after(&self, accumulator: int, cells: Seq<int>) -> int;

    /// Memory after the instruction, from the accumulator and the memory
    /// before it.
    spec fn memory_after(&self, accumulator: int, cells: Seq<int>) -> Seq<int>;

    /// Carries the instruction out. Of the registers only the accumulator can
    /// change.
    fn execute(&self, registers: &mut Registers, memory: &mut Memory)
        ensures
            final(registers)@ == (RegisterFile {
                ac: self.accumulator_after(old(registers)@.ac, old(memory)@),
                ..old(registers)@
            }),
            final(memory)@ == self.memory_after(old(registers)@.ac, old(memory)@),
    ;

    /// The time that the instruction takes, in nanoseconds: three cycles.
    fn duration_ns(&self) -> (time: u32)
        ensures
            time == 3 * CYCLE_TIME_NS,
    ;
}

/// Logical AND. The operand and the accumulator are combined bit by bit; the
/// result is left in the accumulator, whose former content is lost. The
/// operand is unchanged.
#[derive(Copy, Clone, Debug, PartialEq, Eq, Structural)]
pub struct InstrAnd(u12);

impl InstrAnd {
    /// The instruction that `word` encodes, taken as a logical AND.
    pub fn new(word: u12) -> (instruction: InstrAnd)
        ensures
            instruction.word() == word@,
    {
        InstrAnd(word)
    }

    /// The instruction word.
    pub closed spec fn word(&self) -> int {
        self.0@
    }
}

impl MemoryReferenceInstruction for InstrAnd {
    open spec fn accumulator_after(&self, accumulator: int, cells: Seq<int>) -> int {
        common_bits(operand(cells, self.word()), accumulator)
    }

    open spec fn memory_after(&self, accumulator: int, cells: Seq<int>) -> Seq<int> {
        operand_resolved(cells, self.word())
    }

    fn execute(&self, registers: &mut Registers, memory: &mut Memory) {
        broadcast use lemma_word_bound;

        let accumulator: u12 = registers.hardware_registers.AC;
        let y: u12 = memory.load(self.0);
        let result: u12 = y & accumulator;
        registers.hardware_registers.AC = result;
    }

    fn duration_ns(&self) -> (time: u32) {
        3 * CYCLE_TIME_NS
    }
}

/// Two's complement add. The operand is added to the accumulator, wrapping
/// at 4096; the result is left in the accumulator, whose former content is
/// lost. The operand is unchanged. The carry out of the accumulator is not
/// wired to the link: the link stays as it was.
#[derive(Copy, Clone, Debug, PartialEq, Eq, Structural)]
pub struct InstrTad(u12);

impl InstrTad {
    /// The instruction that `word` encodes, taken as a two's complement add.
    pub fn new(word: u12) -> (instruction: InstrTad)
        ensures
            instruction.word() == word@,
    {
        InstrTad(word)
    }

    /// The instruction word.
    pub closed spec fn word(&self) -> int {
        self.0@
    }
}

impl MemoryReferenceInstruction for InstrTad {
    open spec fn accumulator_after(&self, accumulator: int, cells: Seq<int>) -> int {
        wrap12(operand(cells, self.word()) + accumulator)
    }

    open spec fn memory_after(&self, accumulator: int, cells: Seq<int>) -> Seq<int> {
        operand_resolved(cells, self.word())
    }

    fn execute(&self, registers: &mut Registers, memory: &mut Memory) {
        let accumulator: u12 = registers.hardware_registers.AC;
        let y: u12 = memory.load(self.0);
        let result: u12 = y + accumulator;
        registers.hardware_registers.AC = result;
    }

    fn duration_ns(&self) -> (time: u32) {
        3 * CYCLE_TIME_NS
    }
}

/// Index and skip if zero. The operand counts up by one, wrapping at 4096.
/// If it is then zero, the next instruction is skipped: the program counter
/// counts up once more. The accumulator is unaffected.
#[derive(Copy, Clone, Debug, PartialEq, Eq, Structural)]
pub struct InstrIsz(u12);

impl InstrIsz {
    /// The instruction that `word` encodes, taken as an index and skip.
    pub fn new(word: u12) -> (instruction: InstrIsz)
        ensures
            instruction.word() == word@,
    {
        InstrIsz(word)
    }

    /// The instruction word.
    pub closed spec fn word(&self) -> int {
        self.0@
    }
}

impl MemoryReferenceInstruction for InstrIsz {
    open spec fn accumulator_after(&self, accumulator: int, cells: Seq<int>) -> int {
        accumulator
    }

    open spec fn memory_after(&self, accumulator: int, cells: Seq<int>) -> Seq<int> {
        index_and_skip(cells, self.word())
    }

    fn execute(&self, registers: &mut Registers, memory: &mut Memory) {
        let y: u12 = memory.load_and_increment(self.0);
        if u16::from(y) == 0 {
            memory.increment_pc_counter();
        }
    }

    fn duration_ns(&self) -> (time: u32) {
        3 * CYCLE_TIME_NS
    }
}

/// Deposit and clear the accumulator. The accumulator is stored in the
/// operand, whose former content is lost, and is then cleared.
#[derive(Copy, Clone, Debug, PartialEq, Eq, Structural)]
pub struct InstrDca(u12);

impl InstrDca {
    /// The instruction that `word` encodes, taken as a deposit and clear.
    pub fn new(word: u12) -> (instruction: InstrDca)
        ensures
            instruction.word() == word@,
    {
        InstrDca(word)
    }

    /// The instruction word.
    pub closed spec fn word(&self) -> int {
        self.0@
    }
}

impl MemoryReferenceInstruction for InstrDca {
    open spec fn accumulator_after(&self, accumulator: int, cells: Seq<int>) -> int {
        0
    }

    open spec fn memory_after(&self, accumulator: int, cells: Seq<int>) -> Seq<int> {
        deposited(cells, self.word(), accumulator)
    }

    fn execute(&self, registers: &mut Registers, memory: &mut Memory)
        ensures
            final(registers)@.ac == 0,
            final(memory)@[operand_address(old(memory)@, self.word())] == old(registers)@.ac,
    {
        broadcast use lemma_word_bound, crate::memory::lemma_memory_well_formed;

        proof {
            lemma_resolution_in_range(
                memory@,
                self.word(),
                indirect_addressing(self.word()),
                addressing_page_0(self.word()),
            );
        }
        memory.set_value(self.0, registers.hardware_registers.AC);
        registers.hardware_registers.AC = u12::from(0u16);
    }

    fn duration_ns(&self) -> (time: u32) {
        3 * CYCLE_TIME_NS
    }
}

/// AND leaves its operand as it found it, unless the operand is its own
/// pointer.
pub proof fn lemma_and_keeps_operand(instruction: InstrAnd, accumulator: int, cells: Seq<int>)
    requires
        well_formed(cells),
        !operand_is_own_pointer(cells, instruction.word()),
    ensures
        instruction.memory_after(accumulator, cells)[operand_address(cells, instruction.word())]
            == cells[operand_address(cells, instruction.word())],
{
    lemma_operand_kept(cells, instruction.word());
}

/// TAD leaves its operand as it found it, unless the operand is its own
/// pointer.
pub proof fn lemma_tad_keeps_operand(instruction: InstrTad, accumulator: int, cells: Seq<int>)
    requires
        well_formed(cells),
        !operand_is_own_pointer(cells, instruction.word()),
    ensures
        instruction.memory_after(accumulator, cells)[operand_address(cells, instruction.word())]
            == cells[operand_address(cells, instruction.word())],
{
    lemma_operand_kept(cells, instruction.word());
}

/// ISZ on an operand other than the program counter: the operand ends one
/// higher than the instruction found it, wrapping from 4095 to 0, and the
/// program counter counts up exactly if the operand wrapped.
pub proof fn lemma_isz_counts(instruction: InstrIsz, accumulator: int, cells: Seq<int>)
    requires
        well_formed(cells),
        operand_address(cells, instruction.word()) != 0,
    ensures
        ({
            let target = operand_address(cells, instruction.word());
            let found = operand(cells, instruction.word());
            let after = instruction.memory_after(accumulator, cells);
            &&& after[target] == wrap12(found + 1)
            &&& found == 4095 ==> after[target] == 0 && after[0] == wrap12(cells[0] + 1)
            &&& found != 4095 ==> after[target] == found + 1 && after[0] == cells[0]
        }),
{
    lemma_operand_kept(cells, instruction.word());
}

/// ISZ on a cell that holds 4095, other than the program counter, sets the
/// cell to 0 and makes the program counter count up once more.
pub proof fn lemma_isz_wraps_and_skips(instruction: InstrIsz, accumulator: int, cells: Seq<int>)
    requires
        well_formed(cells),
        operand_address(cells, instruction.word()) != 0,
        cells[operand_address(cells, instruction.word())] == 4095,
    ensures
        instruction.memory_after(accumulator, cells)[operand_address(cells, instruction.word())]
            == 0,
        instruction.memory_after(accumulator, cells)[0] == wrap12(cells[0] + 1),
{
    lemma_operand_kept(cells, instruction.word());
    lemma_isz_counts(instruction, accumulator, cells);
}

/// ISZ on a cell that holds less than 4095, and that is neither the program
/// counter nor its own pointer, sets the cell one higher and leaves the
/// program counter as it was.
pub proof fn lemma_isz_counts_without_skip(
    instruction: InstrIsz,
    accumulator: int,
    cells: Seq<int>,
)
    requires
        well_formed(cells),
        operand_address(cells, instruction.word()) != 0,
        !operand_is_own_pointer(cells, instruction.word()),
        cells[operand_address(cells, instruction.word())] != 4095,
    ensures
        instruction.memory_after(accumulator, cells)[operand_address(cells, instruction.word())]
            == cells[operand_address(cells, instruction.word())] + 1,
        instruction.memory_after(accumulator, cells)[0] == cells[0],
{
    lemma_operand_kept(cells, instruction.word());
    lemma_isz_counts(instruction, accumulator, cells);
}

/// DCA leaves zero in the accumulator and the former accumulator in its
/// operand.
pub proof fn lemma_dca_deposits(instruction: InstrDca, accumulator: int, cells: Seq<int>)
    requires
        well_formed(cells),
    ensures
        instruction.accumulator_after(accumulator, cells) == 0,
        instruction.memory_after(accumulator, cells)[operand_address(cells, instruction.word())]
            == accumulator,
{
    lemma_operand_kept(cells, instruction.word());
}

} // verus!
