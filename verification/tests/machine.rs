use pdp5_emulator::instruction::Instruction;
use pdp5_emulator::instruction::OpCode;
use pdp5_emulator::machine::CycleState;
use pdp5_emulator::machine::MachineState;
use pdp5_emulator::machine::PseudoRegisters;
use pdp5_emulator::registers::Registers;
use pdp5_emulator::unsigned_integer_12::u12;

const IND: u16 = 0b0001_0000_0000;
const P0: u16 = 0b0000_1000_0000;

fn machine() -> MachineState {
    MachineState::default([0.into(); 4096])
}

fn peek(machine: &MachineState, address: u16) -> u16 {
    u16::from(machine.memory.get(u12::from(address)))
}

fn poke(machine: &mut MachineState, address: u16, value: u16) {
    machine.memory.set(u12::from(address), u12::from(value));
}

fn cells(machine: &MachineState) -> Vec<u16> {
    (0u16..4096).map(|address| peek(machine, address)).collect()
}

#[test]
fn machine_starts_cleared_in_the_program_counter_cycle() {
    let mut buf: [u12; 4096] = [0.into(); 4096];
    buf[7] = u12::from(0o1234);
    let machine = MachineState::default(buf);
    assert_eq!(machine.registers, Registers::default());
    assert_eq!(machine.state, CycleState::ProgramCounter);
    assert_eq!(CycleState::default(), CycleState::ProgramCounter);
    assert_eq!(peek(&machine, 7), 0o1234);
    assert_eq!(cells(&machine).iter().filter(|word| **word != 0).count(), 1);
}

#[test]
fn flash_overwrites_all_of_memory() {
    let mut machine = machine();
    poke(&mut machine, 9, 0o7777);
    machine.registers.hardware_registers.AC = u12::from(5);
    machine.state = CycleState::Defer;
    let mut bytes: [u16; 4096] = [0; 4096];
    for (i, word) in bytes.iter_mut().enumerate() {
        *word = (i as u16).wrapping_mul(17);
    }
    bytes[3] = u16::MAX;
    bytes[4] = 4096;
    machine.flash(bytes);
    for i in 0..4096usize {
        assert_eq!(peek(&machine, i as u16), bytes[i] & 0xFFF);
    }
    assert_eq!(peek(&machine, 3), 4095);
    assert_eq!(peek(&machine, 4), 0);
    assert_eq!(peek(&machine, 9), 153);
    assert_eq!(machine.registers.hardware_registers.AC, u12::from(5));
    assert_eq!(machine.state, CycleState::Defer);
}

#[test]
fn flash_from_file_writes_a_byte_to_a_word() {
    let mut machine = machine();
    poke(&mut machine, 2, 0o7777);
    poke(&mut machine, 3, 0o1234);
    poke(&mut machine, 4095, 0o4321);
    machine.flash_from_file(&[255, 0, 7]);
    assert_eq!(peek(&machine, 0), 255);
    assert_eq!(peek(&machine, 1), 0);
    assert_eq!(peek(&machine, 2), 7);
    assert_eq!(peek(&machine, 3), 0o1234);
    assert_eq!(peek(&machine, 4095), 0o4321);
    machine.flash_from_file(&[]);
    assert_eq!(peek(&machine, 0), 255);
}

#[test]
fn flash_from_file_takes_4095_bytes() {
    let mut machine = machine();
    poke(&mut machine, 4095, 0o4321);
    let data: Vec<u8> = (0..4095usize).map(|i| (i % 251) as u8).collect();
    machine.flash_from_file(&data);
    for i in 0..4095usize {
        assert_eq!(peek(&machine, i as u16), (i % 251) as u16);
    }
    assert_eq!(peek(&machine, 4095), 0o4321);
}

#[test]
fn start_address_goes_into_the_program_counter() {
    let mut machine = machine();
    machine.set_initial_start_address(0o07600);
    assert_eq!(peek(&machine, 0), 0o7600);
    machine.set_initial_start_address(4096 + 5);
    assert_eq!(peek(&machine, 0), 5);
    assert_eq!(machine.state, CycleState::ProgramCounter);
    assert_eq!(machine.registers, Registers::default());
}

#[test]
fn set_pc_writes_cell_0() {
    let mut machine = machine();
    PseudoRegisters::set_pc(&mut machine, u12::from(0o200));
    assert_eq!(peek(&machine, 0), 0o200);
    assert_eq!(cells(&machine).iter().filter(|word| **word != 0).count(), 1);
}

#[test]
fn load_pc_counts_the_program_counter_up_through_the_memory_buffer() {
    let mut machine = machine();
    poke(&mut machine, 0, 0o0177);
    PseudoRegisters::load_pc(&mut machine, None);
    assert_eq!(machine.registers.hardware_registers.MB, u12::from(0o0200));
    assert_eq!(peek(&machine, 0), 0o0200);
    let previous = Instruction::from(u12::from(0o1020));
    assert_eq!(previous.opcode, OpCode::TAD);
    PseudoRegisters::load_pc(&mut machine, Some(previous));
    assert_eq!(machine.registers.hardware_registers.MB, u12::from(0o0201));
    assert_eq!(peek(&machine, 0), 0o0201);
    assert_eq!(machine.state, CycleState::ProgramCounter);
}

#[test]
fn load_pc_wraps_at_the_end_of_memory() {
    let mut machine = machine();
    poke(&mut machine, 0, 4095);
    PseudoRegisters::load_pc(&mut machine, None);
    assert_eq!(machine.registers.hardware_registers.MB, u12::from(0));
    assert_eq!(peek(&machine, 0), 0);
}

#[test]
fn step_event_changes_nothing() {
    let mut machine = machine();
    poke(&mut machine, 0, 0o0200);
    poke(&mut machine, 0o0201, 0o1020);
    machine.registers.hardware_registers.AC = u12::from(9);
    machine.state = CycleState::Fetch;
    let before = cells(&machine);
    machine.step_event();
    assert_eq!(cells(&machine), before);
    assert_eq!(machine.registers.hardware_registers.AC, u12::from(9));
    assert_eq!(machine.state, CycleState::Fetch);
}

#[test]
fn direct_instruction_takes_three_cycles() {
    let mut machine = machine();
    // At octal 201: TAD on page 0, cell octal 20.
    poke(&mut machine, 0, 0o0200);
    poke(&mut machine, 0o0201, 0o1000 | P0 | 0o20);
    poke(&mut machine, 0o20, 42);
    machine.registers.hardware_registers.AC = u12::from(8);

    machine.step_cycle();
    assert_eq!(machine.state, CycleState::Fetch);
    assert_eq!(peek(&machine, 0), 0o0201);
    assert_eq!(machine.registers.hardware_registers.MB, u12::from(0o0201));

    machine.step_cycle();
    assert_eq!(machine.state, CycleState::Execute1);
    assert_eq!(machine.registers.hardware_registers.MB, u12::from(0o1000 | P0 | 0o20));
    assert_eq!(machine.registers.hardware_registers.IR, 1);
    assert_eq!(machine.registers.hardware_registers.AC, u12::from(8));

    machine.step_cycle();
    assert_eq!(machine.state, CycleState::ProgramCounter);
    assert_eq!(machine.registers.hardware_registers.AC, u12::from(50));
    assert_eq!(peek(&machine, 0o20), 42);
    assert_eq!(peek(&machine, 0), 0o0201);
}

#[test]
fn indirect_instruction_passes_through_defer_and_both_execute_cycles() {
    let mut machine = machine();
    // At octal 201: DCA through the pointer in cell octal 10 of page 0.
    poke(&mut machine, 0, 0o0200);
    poke(&mut machine, 0o0201, 0o3000 | IND | P0 | 0o10);
    poke(&mut machine, 0o10, 0o0300);
    machine.registers.hardware_registers.AC = u12::from(0o1234);

    machine.step_cycle();
    assert_eq!(machine.state, CycleState::Fetch);
    machine.step_cycle();
    assert_eq!(machine.state, CycleState::Defer);
    assert_eq!(machine.registers.hardware_registers.IR, 3);
    machine.step_cycle();
    assert_eq!(machine.state, CycleState::Execute1);
    machine.step_cycle();
    assert_eq!(machine.state, CycleState::Execute2);
    assert_eq!(peek(&machine, 0o0300), 0);
    assert_eq!(peek(&machine, 0o10), 0o0300);
    assert_eq!(machine.registers.hardware_registers.AC, u12::from(0o1234));
    machine.step_cycle();
    assert_eq!(machine.state, CycleState::ProgramCounter);
    assert_eq!(peek(&machine, 0o0300), 0o1234);
    assert_eq!(peek(&machine, 0o10), 0o0301);
    assert_eq!(machine.registers.hardware_registers.AC, u12::from(0));
}

#[test]
fn program_of_three_instructions_runs() {
    let mut machine = machine();
    // 0201: TAD 20 (page 0); 0202: ISZ 21 (page 0), which skips; 0203: not
    // reached; 0204: DCA 22 (page 0).
    poke(&mut machine, 0, 0o0200);
    poke(&mut machine, 0o0201, 0o1000 | P0 | 0o20);
    poke(&mut machine, 0o0202, 0o2000 | P0 | 0o21);
    poke(&mut machine, 0o0203, 0o1000 | P0 | 0o20);
    poke(&mut machine, 0o0204, 0o3000 | P0 | 0o22);
    poke(&mut machine, 0o20, 0o0123);
    poke(&mut machine, 0o21, 4095);
    for _ in 0..9 {
        machine.step_cycle();
    }
    assert_eq!(machine.state, CycleState::ProgramCounter);
    assert_eq!(peek(&machine, 0), 0o0204);
    assert_eq!(peek(&machine, 0o21), 0);
    assert_eq!(peek(&machine, 0o22), 0o0123);
    assert_eq!(machine.registers.hardware_registers.AC, u12::from(0));
    assert_eq!(machine.registers.hardware_registers.IR, 3);
}

#[test]
fn instructions_outside_the_memory_reference_set_do_nothing() {
    for opcode in [4u16, 5, 6, 7] {
        let mut machine = machine();
        poke(&mut machine, 0, 0o0200);
        poke(&mut machine, 0o0201, opcode << 9 | P0 | 0o20);
        poke(&mut machine, 0o20, 0o0300);
        machine.registers.hardware_registers.AC = u12::from(0o1234);
        machine.step_cycle();
        machine.step_cycle();
        assert_eq!(machine.state, CycleState::Execute1);
        assert_eq!(machine.registers.hardware_registers.IR as u16, opcode);
        let before = cells(&machine);
        machine.step_cycle();
        assert_eq!(machine.state, CycleState::ProgramCounter);
        assert_eq!(cells(&machine), before);
        assert_eq!(machine.registers.hardware_registers.AC, u12::from(0o1234));
    }
}

#[test]
fn break_stays_break() {
    let mut machine = machine();
    poke(&mut machine, 0, 0o0200);
    machine.state = CycleState::Break;
    let before = cells(&machine);
    machine.step_cycle();
    assert_eq!(machine.state, CycleState::Break);
    assert_eq!(cells(&machine), before);
    assert_eq!(machine.registers, Registers::default());
}

#[test]
fn start_program_reads_the_first_instruction() {
    let mut machine = machine();
    machine.set_initial_start_address(0o0177);
    poke(&mut machine, 0o0200, 0o3000 | IND | 0o15);
    let (word, instruction) = machine.start_program();
    assert_eq!(word, u12::from(0o3000 | IND | 0o15));
    assert_eq!(
        instruction,
        Instruction {
            opcode: OpCode::DCA,
            address: u12::from(0o15),
            indirect_addressing: true,
            page_0: false,
        }
    );
    assert_eq!(peek(&machine, 0), 0o0200);
    assert_eq!(machine.registers.hardware_registers.MB, u12::from(0o0200));
    assert_eq!(machine.state, CycleState::ProgramCounter);
}
