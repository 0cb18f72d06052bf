use oxidation_core::cpu::CpuError;
use oxidation_core::instructions::codec::encode;
use oxidation_core::instructions::enums::{Instruction, OpCode};
use oxidation_core::instructions::instruction_impl::{AddRegReg, ArgumentTypes, Instruction as _};
use oxidation_core::memory::MemoryError;
use oxidation_core::registers::{RegisterValue, Registers};
use oxidation_core::security_context::SecurityContext;
use oxidation_core::virtual_machine::VirtualMachine;

fn ac(vm: &VirtualMachine) -> RegisterValue {
    vm.cpu.registers.get_register_value(Registers::AC, SecurityContext::User).unwrap()
}

#[test]
fn runs_a_loaded_program_to_halt() {
    let mut vm = VirtualMachine::new(64, 4, false);
    let program = encode(&vec![
        Instruction::NOP(),
        Instruction::AddLitReg(5, Registers::R1),
        Instruction::HLT(),
        Instruction::AddLitReg(9, Registers::R1),
    ]);
    assert_eq!(vm.load_program(&program), Ok(2));
    assert_eq!(vm.cpu.exec_mem_seq_id(), 2);
    assert_eq!(vm.run(), Ok(true));
    assert!(vm.cpu.is_halted());
    assert_eq!(ac(&vm), RegisterValue::I32(5));
    assert_eq!(vm.cpu.instruction_pointer(), 11);
    assert_eq!(vm.run(), Ok(true));
    assert_eq!(vm.cpu.instruction_pointer(), 11);
}

#[test]
fn program_end_halts() {
    let mut vm = VirtualMachine::new(64, 4, false);
    let program = encode(&vec![Instruction::AddLitReg(-3, Registers::R2)]);
    vm.load_program(&program).unwrap();
    assert_eq!(vm.run(), Ok(true));
    assert_eq!(ac(&vm), RegisterValue::I32(-3));
}

#[test]
fn bad_record_halts_with_error() {
    let mut vm = VirtualMachine::new(64, 4, false);
    vm.load_program(&vec![0, 0, 3, 0]).unwrap();
    assert_eq!(vm.run(), Err(CpuError::UnknownOpcode));
    assert!(vm.cpu.is_halted());
    assert_eq!(vm.cpu.instruction_pointer(), 2);
}

#[test]
fn truncated_program_halts_with_error() {
    let mut vm = VirtualMachine::new(64, 4, false);
    vm.load_program(&vec![11, 0, 1]).unwrap();
    assert_eq!(vm.run(), Err(CpuError::UnexpectedEndOfStream));
}

#[test]
fn run_before_loading_fails() {
    let mut vm = VirtualMachine::new(64, 4, true);
    assert!(vm.cpu_can_swap_regions);
    assert_eq!(vm.run(), Err(CpuError::SequenceNotSet));
    assert_eq!(ac(&vm), RegisterValue::I32(0));
}

#[test]
fn program_must_fit_before_the_stack() {
    let mut vm = VirtualMachine::new(4, 4, false);
    assert_eq!(vm.load_program(&vec![0; 5]), Err(MemoryError::OutOfBounds));
    assert_eq!(vm.load_program(&Vec::new()), Err(MemoryError::OutOfBounds));
    assert_eq!(vm.cpu.exec_mem_seq_id(), -1);
    assert_eq!(vm.memory.len(), 20);
}

#[test]
fn vm_run_test_and_initialize() {
    let mut vm = VirtualMachine::new(64, 4, false);
    assert_eq!(vm.run_test(), Ok(false));
    assert_eq!(ac(&vm), RegisterValue::I32(123));
    vm.initialize();
    assert!(!vm.cpu.is_halted());
}

#[test]
fn disassembles_instructions() {
    assert_eq!(Instruction::AddLitReg(123, Registers::R1).to_string(), "add 7B, R1");
    assert_eq!(Instruction::AddLitReg(5, Registers::AC).to_string(), "add 05, AC");
    assert_eq!(Instruction::AddLitReg(0, Registers::R2).to_string(), "add 00, R2");
    assert_eq!(Instruction::AddLitReg(4096, Registers::R3).to_string(), "add 1000, R3");
    assert_eq!(Instruction::AddLitReg(-1, Registers::FL).to_string(), "add FFFFFFFF, FL");
    assert_eq!(Instruction::NOP().to_string(), "nop");
    assert_eq!(Instruction::HLT().to_string(), "hlt");
}

#[test]
fn opcode_tags() {
    assert_eq!(OpCode::Subroutine.code(), -2);
    assert_eq!(OpCode::Label.code(), -1);
    assert_eq!(OpCode::NOP.code(), 0);
    assert_eq!(OpCode::AddLitReg.code(), 11);
    assert_eq!(OpCode::Out.code(), 53);
    assert_eq!(OpCode::Hlt.code(), 32767);
    assert_eq!(OpCode::from_code(11), Some(OpCode::AddLitReg));
    assert_eq!(OpCode::from_code(54), None);
    assert!(OpCode::Label.is_pseudo());
    assert!(!OpCode::Hlt.is_pseudo());
    assert_eq!(Instruction::HLT().opcode(), OpCode::Hlt);
}

#[test]
fn add_reg_reg_description() {
    let d = AddRegReg::new();
    assert!(d.output_literals_as_hex);
    assert_eq!(d.argument_types, vec![ArgumentTypes::Register, ArgumentTypes::Register]);
    assert_eq!(d.op_code, OpCode::AddRegReg);
    assert_eq!(d.to_string(), "add");
    assert_eq!(AddRegReg::get_security_context(), SecurityContext::User);
}
