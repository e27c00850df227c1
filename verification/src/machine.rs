//! The machine as a whole and its cycle state machine.
//!
//! One instruction takes several cycles. The program counter cycle reads the
//! program counter from cell 0 into the memory buffer, makes it count up by
//! one, and writes it back. The fetch cycle reads the instruction at that
//! address into the memory buffer and its operation code into the
//! instruction register. An instruction with direct addressing is carried
//! out in the first execute cycle. One with indirect addressing passes
//! through a defer cycle and the first execute cycle and is carried out in
//! the second execute cycle. Then the next program counter cycle follows.

use crate::consts::PC_ADDRESS;
use crate::instruction::decodes;
use crate::instruction::executed_accumulator;
use crate::instruction::executed_memory;
use crate::instruction::opcode_number;
use crate::instruction::opcode_of;
use crate::instruction::InstrAnd;
use crate::instruction::InstrDca;
use crate::instruction::InstrIsz;
use crate::instruction::InstrTad;
use crate::instruction::Instruction;
use crate::instruction::MemoryReferenceInstruction;
use crate::instruction::OpCode;
use crate::memory::indirect_addressing;
use crate::memory::lemma_memory_well_formed;
use crate::memory::words;
use crate::memory::Memory;
use crate::registers::cleared;
use crate::registers::RegisterFile;
use crate::registers::Registers;
use crate::unsigned_integer_12::lemma_mask_is_residue;
use crate::unsigned_integer_12::lemma_word_bound;
use crate::unsigned_integer_12::u12;
use crate::unsigned_integer_12::wrap12;
use vstd::prelude::*;

verus! {

/// The phase of the instruction cycle that the next step carries out.
#[derive(Copy, Clone, Debug, PartialEq, Eq, Structural)]
pub enum CycleState {
    ProgramCounter,
    Fetch,
    Execute1,
    Execute2,
    Defer,
    Break,
}

impl CycleState {
    /// The phase in which the machine starts: the program counter cycle.
    pub fn default() -> (state: CycleState)
        ensures
            state == CycleState::ProgramCounter,
    {
        CycleState::ProgramCounter
    }
}

/// The state of the machine as numbers: its registers, what memory holds,
/// and the phase that comes next.
pub struct MachineModel {
    pub registers: RegisterFile,
    pub cells: Seq<int>,
    pub phase: CycleState,
}

/// The whole machine: registers, memory, and the phase that comes next.
#[derive(Debug)]
pub struct MachineState {
    pub registers: Registers,
    pub memory: Memory,
    pub state: CycleState,
}

impl View for MachineState {
    type V = MachineModel;

    open spec fn view(&self) -> MachineModel {
        MachineModel { registers: self.registers@, cells: self.memory@, phase: self.state }
    }
}

/// The machine after the program counter has been read into the memory
/// buffer, counted up by one there, and written back to cell 0.
pub open spec fn program_counter_loaded(machine: MachineModel) -> MachineModel {
    let next = wrap12(machine.cells[0] + 1);
    MachineModel {
        registers: RegisterFile { mb: next, ..machine.registers },
        cells: machine.cells.update(0, next),
        phase: machine.phase,
    }
}

/// The machine after the instruction at the address in the memory buffer has
/// been read: the memory buffer holds the instruction word, the instruction
/// register its operation code, and the next phase is the defer cycle if the
/// instruction asks for indirect addressing and the first execute cycle if
/// not.
pub open spec fn fetched(machine: MachineModel) -> MachineModel {
    let word = machine.cells[machine.registers.mb];
    MachineModel {
        registers: RegisterFile { mb: word, ir: opcode_number(word), ..machine.registers },
        cells: machine.cells,
        phase: if indirect_addressing(word) {
            CycleState::Defer
        } else {
            CycleState::Execute1
        },
    }
}

/// The machine after the instruction in the memory buffer has been carried
/// out; the next phase is the program counter cycle.
pub open spec fn executed(machine: MachineModel) -> MachineModel {
    let word = machine.registers.mb;
    MachineModel {
        registers: RegisterFile {
            ac: executed_accumulator(opcode_of(word), word, machine.registers.ac, machine.cells),
            ..machine.registers
        },
        cells: executed_memory(opcode_of(word), word, machine.registers.ac, machine.cells),
        phase: CycleState::ProgramCounter,
    }
}

/// The machine one cycle later.
pub open spec fn cycled(machine: MachineModel) -> MachineModel {
    match machine.phase {
        CycleState::ProgramCounter => MachineModel {
            phase: CycleState::Fetch,
            ..program_counter_loaded(machine)
        },
        CycleState::Fetch => fetched(machine),
        CycleState::Defer => MachineModel { phase: CycleState::Execute1, ..machine },
        CycleState::Execute1 => if indirect_addressing(machine.registers.mb) {
            MachineModel { phase: CycleState::Execute2, ..machine }
        } else {
            executed(machine)
        },
        CycleState::Execute2 => executed(machine),
        CycleState::Break => machine,
    }
}

/// The order of the phases. After a program counter cycle comes a fetch
/// cycle. An instruction with direct addressing is then carried out in the
/// first execute cycle, three cycles in all. One with indirect addressing
/// passes through the defer cycle and the first execute cycle, which change
/// nothing, and is carried out in the second execute cycle, five cycles in
/// all. Either way the program counter cycle is next.
pub proof fn lemma_instruction_cycle(machine: MachineModel)
    requires
        machine.phase == CycleState::ProgramCounter,
    ensures
        cycled(machine).phase == CycleState::Fetch,
        ({
            let after_fetch = cycled(cycled(machine));
            let word = after_fetch.registers.mb;
            &&& word == machine.cells.update(0, wrap12(machine.cells[0] + 1))[wrap12(
                machine.cells[0] + 1,
            )]
            &&& !indirect_addressing(word) ==> {
                &&& after_fetch.phase == CycleState::Execute1
                &&& cycled(after_fetch) == executed(after_fetch)
            }
            &&& indirect_addressing(word) ==> {
                &&& after_fetch.phase == CycleState::Defer
                &&& cycled(after_fetch) == (MachineModel {
                    phase: CycleState::Execute1,
                    ..after_fetch
                })
                &&& cycled(cycled(after_fetch)) == (MachineModel {
                    phase: CycleState::Execute2,
                    ..after_fetch
                })
                &&& cycled(cycled(cycled(after_fetch))) == executed(after_fetch)
            }
            &&& executed(after_fetch).phase == CycleState::ProgramCounter
        }),
{
}

/// A machine in the break phase stays as it is.
pub proof fn lemma_break_is_final(machine: MachineModel)
    requires
        machine.phase == CycleState::Break,
    ensures
        cycled(machine) == machine,
{
}

/// The cells 0, 1 and 2 of memory are not registers of their own but serve
/// as such: the program counter, the place where it is saved on an
/// interrupt, and the address of the interrupt routine. This type only
/// gathers the functions that work on them.
pub struct PseudoRegisters {}

impl PseudoRegisters {
    /// Reads the program counter into the memory buffer, makes it count up
    /// by one there, and writes it back. `instruction` is the instruction
    /// carried out before, if there was one. What follows an instruction of
    /// the operate group is not defined here, so there must not be one.
    pub fn load_pc(state: &mut MachineState, instruction: Option<Instruction>)
        requires
            instruction matches Some(previous) ==> previous.opcode != OpCode::OPERATE,
        ensures
            final(state)@ == program_counter_loaded(old(state)@),
    {
        proof {
            lemma_mask_is_residue(PC_ADDRESS);
            lemma_mask_is_residue(1u16);
        }
        state.registers.hardware_registers.MB = state.memory.get(u12::from(PC_ADDRESS));
        state.registers.hardware_registers.MB = state.registers.hardware_registers.MB + u12::from(
            1u16,
        );
        state.memory.set(u12::from(PC_ADDRESS), state.registers.hardware_registers.MB);
    }

    /// Writes `value` into the program counter.
    pub fn set_pc(state: &mut MachineState, value: u12)
        ensures
            final(state)@ == (MachineModel {
                cells: old(state)@.cells.update(0, value@),
                ..old(state)@
            }),
    {
        proof {
            lemma_mask_is_residue(PC_ADDRESS);
        }
        state.memory.set(u12::from(PC_ADDRESS), value);
    }
}

impl MachineState {
    /// The machine as it is switched on: the registers all zero, memory
    /// holding the words of `buf`, and the program counter cycle next.
    pub fn default(buf: [u12; 4096]) -> (machine: MachineState)
        ensures
            machine@ == (MachineModel {
                registers: cleared(),
                cells: words(buf),
                phase: CycleState::ProgramCounter,
            }),
    {
        let memory: Memory = Memory::default(buf);
        MachineState { registers: Registers::default(), memory: memory, state: CycleState::default() }
    }

    /// Overwrites the whole of memory with `bytes`, each cut to twelve bits.
    pub fn flash(&mut self, bytes: [u16; 4096])
        ensures
            final(self)@.cells == Seq::new(4096, |i: int| bytes[i] as int % 4096),
            final(self)@.registers == old(self)@.registers,
            final(self)@.phase == old(self)@.phase,
    {
        broadcast use lemma_memory_well_formed;

        let mut i: usize = 0;
        while i < 4096
            invariant
                i <= 4096,
                self.memory@.len() == 4096,
                self.registers == old(self).registers,
                self.state == old(self).state,
                forall|j: int| 0 <= j < i ==> self.memory@[j] == bytes[j] as int % 4096,
            decreases 4096 - i,
        {
            self.memory.set(u12::from(i), u12::from(bytes[i]));
            i += 1;
        }
        assert(self.memory@ =~= Seq::new(4096, |i: int| bytes[i] as int % 4096));
    }

    /// Writes the bytes of a file into memory from address 0 on, one byte to
    /// a word. The file must fit: it holds at most 4095 bytes.
    pub fn flash_from_file(&mut self, data: &[u8])
        requires
            data@.len() <= 4095,
        ensures
            final(self)@.cells == Seq::new(
                4096,
                |i: int|
                    if i < data@.len() {
                        data@[i] as int
                    } else {
                        old(self)@.cells[i]
                    },
            ),
            final(self)@.registers == old(self)@.registers,
            final(self)@.phase == old(self)@.phase,
    {
        broadcast use lemma_memory_well_formed;

        let mut index: usize = 0;
        while index < data.len()
            invariant
                index <= data@.len() <= 4095,
                self.memory@.len() == 4096,
                self.registers == old(self).registers,
                self.state == old(self).state,
                forall|j: int| 0 <= j < index ==> self.memory@[j] == data@[j] as int,
                forall|j: int| index <= j < 4096 ==> self.memory@[j] == old(self).memory@[j],
            decreases data@.len() - index,
        {
            self.memory.set(u12::from(index), u12::from(&data[index]));
            index += 1;
        }
        assert(self.memory@ =~= Seq::new(
            4096,
            |i: int|
                if i < data@.len() {
                    data@[i] as int
                } else {
                    old(self)@.cells[i]
                },
        ));
    }

    /// Sets the address at which the program starts: `address`, cut to
    /// twelve bits, is written into the program counter.
    pub fn set_initial_start_address(&mut self, address: usize)
        ensures
            final(self)@ == (MachineModel {
                cells: old(self)@.cells.update(0, address as int % 4096),
                ..old(self)@
            }),
    {
        PseudoRegisters::set_pc(self, u12::from(address));
    }

    /// One pulse to the external devices. No device is attached, and a pulse
    /// changes nothing in the machine.
    pub fn step_event(&mut self)
        ensures
            *final(self) == *old(self),
    {
    }

    /// Carries out the phase that is next and moves on to the phase after it.
    pub fn step_cycle(&mut self)
        ensures
            final(self)@ == cycled(old(self)@),
    {
        broadcast use lemma_word_bound, lemma_memory_well_formed;

        match self.state {
            CycleState::ProgramCounter => {
                PseudoRegisters::load_pc(self, None);
                self.state = CycleState::Fetch;
            },
            CycleState::Fetch => {
                let word: u12 = self.memory.get(self.registers.hardware_registers.MB);
                let instruction: Instruction = Instruction::from(word);
                self.registers.hardware_registers.MB = word;
                self.registers.hardware_registers.IR = instruction.get_opcode().to_number();
                if instruction.indirect_addressing {
                    self.state = CycleState::Defer;
                } else {
                    self.state = CycleState::Execute1;
                }
            },
            CycleState::Defer => {
                self.state = CycleState::Execute1;
            },
            CycleState::Execute1 => {
                if Memory::get_indirect_addressing(self.registers.hardware_registers.MB) {
                    self.state = CycleState::Execute2;
                } else {
                    self.execute();
                }
            },
            CycleState::Execute2 => {
                self.execute();
            },
            CycleState::Break => {},
        }
    }

    /// Carries out the instruction in the memory buffer. The program counter
    /// cycle is next.
    fn execute(&mut self)
        ensures
            final(self)@ == executed(old(self)@),
    {
        let word: u12 = self.registers.hardware_registers.MB;
        match OpCode::decode(word) {
            OpCode::AND => InstrAnd::new(word).execute(&mut self.registers, &mut self.memory),
            OpCode::TAD => InstrTad::new(word).execute(&mut self.registers, &mut self.memory),
            OpCode::ISZ => InstrIsz::new(word).execute(&mut self.registers, &mut self.memory),
            OpCode::DCA => InstrDca::new(word).execute(&mut self.registers, &mut self.memory),
            _ => {},
        }
        self.state = CycleState::ProgramCounter;
    }

    /// Starts the program: carries out a program counter cycle and reads
    /// the instruction that the program counter then points at. Returns the
    /// instruction word and the word taken apart.
    pub fn start_program(&mut self) -> (current: (u12, Instruction))
        ensures
            final(self)@ == program_counter_loaded(old(self)@),
            current.0@ == final(self)@.cells[final(self)@.registers.mb],
            decodes(current.0@, current.1),
    {
        PseudoRegisters::load_pc(self, None);
        let mb: u12 = self.registers.hardware_registers.MB;
        let current_instr: u12 = self.memory.get(mb);
        let instr: Instruction = Instruction::from(current_instr);
        (current_instr, instr)
    }
}

} // verus!
