use pdp5_emulator::consts::CYCLE_TIME_NS;
use pdp5_emulator::consts::EVENT_TIME_NS;
use pdp5_emulator::consts::PC_ADDRESS;
use pdp5_emulator::instruction::InstrAnd;
use pdp5_emulator::instruction::InstrDca;
use pdp5_emulator::instruction::InstrIsz;
use pdp5_emulator::instruction::InstrTad;
use pdp5_emulator::instruction::Instruction;
use pdp5_emulator::instruction::MemoryReferenceInstruction;
use pdp5_emulator::instruction::OpCode;
use pdp5_emulator::memory::Memory;
use pdp5_emulator::registers::HWRegisters;
use pdp5_emulator::registers::Registers;
use pdp5_emulator::unsigned_integer_12::u12;

const IND: u16 = 0b0001_0000_0000;
const P0: u16 = 0b0000_1000_0000;

fn machine_parts() -> (Registers, Memory) {
    (Registers::default(), Memory::default([0.into(); 4096]))
}

fn peek(mem: &Memory, address: u16) -> u16 {
    u16::from(mem.get(u12::from(address)))
}

fn poke(mem: &mut Memory, address: u16, value: u16) {
    mem.set(u12::from(address), u12::from(value));
}

#[test]
fn constants_have_their_values() {
    assert_eq!(PC_ADDRESS, 0);
    assert_eq!(EVENT_TIME_NS, 1000);
    assert_eq!(CYCLE_TIME_NS, 6000);
}

#[test]
fn registers_start_at_zero() {
    let registers = Registers::default();
    assert_eq!(registers.hardware_registers, HWRegisters::default());
    let hw = registers.hardware_registers;
    assert_eq!(hw.AC, u12::from(0));
    assert_eq!(hw.L, 0);
    assert_eq!(hw.MB, u12::from(0));
    assert_eq!(hw.MA, u12::from(0));
    assert_eq!(hw.IR, 0);
    assert_eq!(hw.SR, u12::from(0));
}

#[test]
fn every_three_bit_pattern_has_an_opcode() {
    let expected = [
        OpCode::AND,
        OpCode::TAD,
        OpCode::ISZ,
        OpCode::DCA,
        OpCode::JMS,
        OpCode::JMP,
        OpCode::IOT,
        OpCode::OPERATE,
    ];
    for number in 0u16..8 {
        for low in [0u16, 1, 0o177, 0o377, 0o777] {
            let word = u12::from(number << 9 | low);
            assert_eq!(OpCode::decode(word), expected[number as usize]);
            assert_eq!(Instruction::from(word).get_opcode(), expected[number as usize]);
            assert_eq!(OpCode::decode(word).to_number(), number as u8);
        }
    }
}

#[test]
fn decoder_takes_every_word_apart() {
    for raw in 0u16..4096 {
        let instruction = Instruction::from(u12::from(raw));
        assert_eq!(instruction.opcode.to_number() as u16, raw >> 9);
        assert_eq!(u16::from(instruction.address), raw & 0o177);
        assert_eq!(instruction.indirect_addressing, raw & IND != 0);
        assert_eq!(instruction.page_0, raw & P0 != 0);
    }
}

#[test]
fn decoder_on_one_word() {
    // TAD, indirect, page 0, address octal 17.
    let instruction = Instruction::from(u12::from(0o1617u16));
    assert_eq!(
        instruction,
        Instruction {
            opcode: OpCode::TAD,
            address: u12::from(0o17u16),
            indirect_addressing: true,
            page_0: true,
        }
    );
    // OPERATE with all other bits clear.
    let instruction = Instruction::from(u12::from(0o7000u16));
    assert_eq!(instruction.opcode, OpCode::OPERATE);
    assert_eq!(instruction.address, u12::from(0));
    assert!(!instruction.indirect_addressing);
    assert!(!instruction.page_0);
}

#[test]
fn and_masks_the_accumulator_with_the_operand() {
    let (mut registers, mut memory) = machine_parts();
    registers.hardware_registers.AC = u12::from(0b1111_0000_1100u16);
    poke(&mut memory, 0o20, 0b1010_1010_1010);
    InstrAnd::new(u12::from(P0 | 0o20)).execute(&mut registers, &mut memory);
    assert_eq!(registers.hardware_registers.AC, u12::from(0b1010_0000_1000u16));
    assert_eq!(peek(&memory, 0o20), 0b1010_1010_1010);
}

#[test]
fn tad_adds_the_operand_to_the_accumulator() {
    let (mut registers, mut memory) = machine_parts();
    registers.hardware_registers.AC = u12::from(40u16);
    poke(&mut memory, 0o20, 2);
    InstrTad::new(u12::from(0o1000 | P0 | 0o20)).execute(&mut registers, &mut memory);
    assert_eq!(registers.hardware_registers.AC, u12::from(42u16));
    assert_eq!(peek(&memory, 0o20), 2);
}

#[test]
fn tad_wraps_and_leaves_the_link() {
    let (mut registers, mut memory) = machine_parts();
    registers.hardware_registers.AC = u12::from(4095u16);
    registers.hardware_registers.L = 1;
    poke(&mut memory, 0o20, 3);
    InstrTad::new(u12::from(0o1000 | P0 | 0o20)).execute(&mut registers, &mut memory);
    assert_eq!(registers.hardware_registers.AC, u12::from(2u16));
    assert_eq!(registers.hardware_registers.L, 1);
    registers.hardware_registers.L = 0;
    registers.hardware_registers.AC = u12::from(4095u16);
    InstrTad::new(u12::from(0o1000 | P0 | 0o20)).execute(&mut registers, &mut memory);
    assert_eq!(registers.hardware_registers.L, 0);
}

#[test]
fn and_and_tad_change_only_the_accumulator() {
    for word in [P0 | 0o20, 0o20, IND | P0 | 0o20, IND | 0o20] {
        let (mut registers, mut memory) = machine_parts();
        poke(&mut memory, 0, 0o0400);
        poke(&mut memory, 0o20, 0o0300);
        poke(&mut memory, 0o0420, 0o0301);
        poke(&mut memory, 0o0300, 0o1234);
        poke(&mut memory, 0o0301, 0o4321);
        registers.hardware_registers.AC = u12::from(0o7070u16);
        registers.hardware_registers.L = 1;
        registers.hardware_registers.MB = u12::from(1);
        registers.hardware_registers.MA = u12::from(2);
        registers.hardware_registers.IR = 3;
        registers.hardware_registers.SR = u12::from(4);
        let before: Vec<u16> = (0u16..4096).map(|a| peek(&memory, a)).collect();
        InstrAnd::new(u12::from(word)).execute(&mut registers, &mut memory);
        InstrTad::new(u12::from(0o1000 | word)).execute(&mut registers, &mut memory);
        let after: Vec<u16> = (0u16..4096).map(|a| peek(&memory, a)).collect();
        assert_eq!(before, after);
        let hw = registers.hardware_registers;
        assert_eq!((hw.L, hw.MB, hw.MA, hw.IR, hw.SR), (1, u12::from(1), u12::from(2), 3, u12::from(4)));
    }
}

#[test]
fn and_through_an_autoindex_cell_counts_only_the_pointer_up() {
    let (mut registers, mut memory) = machine_parts();
    registers.hardware_registers.AC = u12::from(0o7777u16);
    poke(&mut memory, 0o10, 0o0300);
    poke(&mut memory, 0o0300, 0o1234);
    InstrAnd::new(u12::from(IND | P0 | 0o10)).execute(&mut registers, &mut memory);
    assert_eq!(registers.hardware_registers.AC, u12::from(0o1234u16));
    assert_eq!(peek(&memory, 0o10), 0o0301);
    assert_eq!(peek(&memory, 0o0300), 0o1234);
}

#[test]
fn and_on_a_pointer_that_points_at_itself_finds_it_counted_up() {
    let (mut registers, mut memory) = machine_parts();
    registers.hardware_registers.AC = u12::from(0o7777u16);
    poke(&mut memory, 0o10, 0o10);
    InstrAnd::new(u12::from(IND | P0 | 0o10)).execute(&mut registers, &mut memory);
    assert_eq!(registers.hardware_registers.AC, u12::from(0o11u16));
    assert_eq!(peek(&memory, 0o10), 0o11);
}

#[test]
fn isz_on_4095_wraps_to_zero_and_skips() {
    let (mut registers, mut memory) = machine_parts();
    registers.hardware_registers.AC = u12::from(0o1234u16);
    poke(&mut memory, 0, 0o0200);
    poke(&mut memory, 0o20, 4095);
    InstrIsz::new(u12::from(0o2000 | P0 | 0o20)).execute(&mut registers, &mut memory);
    assert_eq!(peek(&memory, 0o20), 0);
    assert_eq!(peek(&memory, 0), 0o0201);
    assert_eq!(registers.hardware_registers.AC, u12::from(0o1234u16));
}

#[test]
fn isz_on_5_counts_to_6_and_does_not_skip() {
    let (mut registers, mut memory) = machine_parts();
    registers.hardware_registers.AC = u12::from(0o1234u16);
    poke(&mut memory, 0, 0o0200);
    poke(&mut memory, 0o20, 5);
    InstrIsz::new(u12::from(0o2000 | P0 | 0o20)).execute(&mut registers, &mut memory);
    assert_eq!(peek(&memory, 0o20), 6);
    assert_eq!(peek(&memory, 0), 0o0200);
    assert_eq!(registers.hardware_registers.AC, u12::from(0o1234u16));
}

#[test]
fn isz_on_the_current_page_and_through_a_pointer() {
    let (mut registers, mut memory) = machine_parts();
    poke(&mut memory, 0, 0o0400);
    poke(&mut memory, 0o0420, 4095);
    InstrIsz::new(u12::from(0o2000 | 0o20)).execute(&mut registers, &mut memory);
    assert_eq!(peek(&memory, 0o0420), 0);
    assert_eq!(peek(&memory, 0), 0o0401);
    poke(&mut memory, 0o13, 0o0300);
    poke(&mut memory, 0o0300, 4094);
    InstrIsz::new(u12::from(0o2000 | IND | P0 | 0o13)).execute(&mut registers, &mut memory);
    assert_eq!(peek(&memory, 0o0300), 4095);
    assert_eq!(peek(&memory, 0o13), 0o0301);
    assert_eq!(peek(&memory, 0), 0o0401);
}

#[test]
fn isz_on_the_program_counter_itself() {
    let (mut registers, mut memory) = machine_parts();
    poke(&mut memory, 0, 4095);
    InstrIsz::new(u12::from(0o2000 | P0)).execute(&mut registers, &mut memory);
    // The counter wraps to zero and then counts up for the skip.
    assert_eq!(peek(&memory, 0), 1);
}

#[test]
fn dca_deposits_the_accumulator_and_clears_it() {
    for word in [P0 | 0o20, 0o20, IND | P0 | 0o20, IND | 0o20, IND | P0 | 0o10] {
        for accumulator in [0u16, 1, 0o1234, 4095] {
            let (mut registers, mut memory) = machine_parts();
            poke(&mut memory, 0, 0o0400);
            poke(&mut memory, 0o20, 0o0300);
            poke(&mut memory, 0o0420, 0o0301);
            poke(&mut memory, 0o10, 0o0302);
            poke(&mut memory, 0o0300, 0o7777);
            registers.hardware_registers.AC = u12::from(accumulator);
            let target = if word & IND != 0 {
                if word & P0 != 0 {
                    peek(&memory, word & 0o177)
                } else {
                    peek(&memory, 0o0400 + (word & 0o177))
                }
            } else if word & P0 != 0 {
                word & 0o177
            } else {
                0o0400 + (word & 0o177)
            };
            InstrDca::new(u12::from(0o3000 | word)).execute(&mut registers, &mut memory);
            assert_eq!(registers.hardware_registers.AC, u12::from(0));
            assert_eq!(peek(&memory, target), accumulator);
        }
    }
}

#[test]
fn dca_on_one_cell() {
    let (mut registers, mut memory) = machine_parts();
    registers.hardware_registers.AC = u12::from(0o1234u16);
    poke(&mut memory, 0o20, 0o7777);
    InstrDca::new(u12::from(0o3000 | P0 | 0o20)).execute(&mut registers, &mut memory);
    assert_eq!(peek(&memory, 0o20), 0o1234);
    assert_eq!(registers.hardware_registers.AC, u12::from(0));
}

#[test]
fn dca_through_an_autoindex_cell_stores_at_the_address_it_held() {
    let (mut registers, mut memory) = machine_parts();
    registers.hardware_registers.AC = u12::from(0o1234u16);
    poke(&mut memory, 0o10, 0o0302);
    InstrDca::new(u12::from(0o3000 | IND | P0 | 0o10)).execute(&mut registers, &mut memory);
    assert_eq!(peek(&memory, 0o0302), 0o1234);
    assert_eq!(peek(&memory, 0o10), 0o0303);
    assert_eq!(peek(&memory, 0o0303), 0);
}

#[test]
fn each_instruction_takes_three_cycles() {
    let word = u12::from(0);
    assert_eq!(InstrAnd::new(word).duration_ns(), 18_000);
    assert_eq!(InstrTad::new(word).duration_ns(), 18_000);
    assert_eq!(InstrIsz::new(word).duration_ns(), 18_000);
    assert_eq!(InstrDca::new(word).duration_ns(), 3 * CYCLE_TIME_NS);
}
