use oxidation_core::cpu::{CpuError, RegisterCollection, CPU};
use oxidation_core::instructions::enums::Instruction;
use oxidation_core::instructions::implementations::add_lit_reg;
use oxidation_core::memory::Memory;
use oxidation_core::registers::{Register, RegisterValue, Registers};
use oxidation_core::security_context::{AccessFlags, SecurityContext};

fn value(cpu: &CPU, id: Registers) -> RegisterValue {
    cpu.registers.get_register_value(id, SecurityContext::System).unwrap()
}

#[test]
fn new_bank_has_every_register_zeroed() {
    let bank = RegisterCollection::new();
    assert_eq!(bank.registers.len(), 10);
    for i in 0..10u8 {
        let id = Registers::from_index(i).unwrap();
        assert_eq!(bank.get_register_value(id, SecurityContext::User), Ok(RegisterValue::I32(0)));
        assert_eq!(bank.get_register_ref(id).unwrap().id_of(), id);
    }
}

#[test]
fn add_lit_reg_writes_the_accumulator() {
    let mut cpu = CPU::new();
    assert_eq!(cpu.execute(Instruction::AddLitReg(123, Registers::R1)), Ok(false));
    assert_eq!(value(&cpu, Registers::AC), RegisterValue::I32(123));
    assert_eq!(value(&cpu, Registers::R1), RegisterValue::I32(0));
    assert!(!cpu.is_halted());
}

#[test]
fn add_lit_reg_adds_the_register_value() {
    let mut cpu = CPU::new();
    cpu.registers
        .set_register_value(Registers::R4, RegisterValue::I32(-23), SecurityContext::User)
        .unwrap();
    assert_eq!(add_lit_reg(&mut cpu, 100, Registers::R4), Ok(false));
    assert_eq!(value(&cpu, Registers::AC), RegisterValue::I32(77));
}

#[test]
fn add_lit_reg_wraps_on_overflow() {
    let mut cpu = CPU::new();
    cpu.registers
        .set_register_value(Registers::R2, RegisterValue::I32(i32::MAX), SecurityContext::User)
        .unwrap();
    assert_eq!(cpu.execute(Instruction::AddLitReg(1, Registers::R2)), Ok(false));
    assert_eq!(value(&cpu, Registers::AC), RegisterValue::I32(i32::MIN));
}

#[test]
fn add_lit_reg_rejects_a_float() {
    let mut cpu = CPU::new();
    cpu.registers
        .set_register_value(Registers::R1, RegisterValue::F32(1.5f32.to_bits()), SecurityContext::User)
        .unwrap();
    cpu.registers
        .set_register_value(Registers::AC, RegisterValue::I32(9), SecurityContext::User)
        .unwrap();
    assert_eq!(
        cpu.execute(Instruction::AddLitReg(1, Registers::R1)),
        Err(CpuError::InvalidRegisterValueType)
    );
    assert_eq!(value(&cpu, Registers::AC), RegisterValue::I32(9));
    assert!(cpu.is_halted());
}

#[test]
fn add_lit_reg_rejects_other_integer_widths() {
    let mut cpu = CPU::new();
    cpu.registers
        .set_register_value(Registers::R1, RegisterValue::I64(5), SecurityContext::User)
        .unwrap();
    assert_eq!(
        cpu.execute(Instruction::AddLitReg(1, Registers::R1)),
        Err(CpuError::InvalidRegisterValueType)
    );
}

#[test]
fn add_lit_reg_on_unreadable_register_fails() {
    let mut cpu = CPU::new();
    let r1 = cpu.registers.get_register_mut_ref(Registers::R1).unwrap();
    *r1 = Register::new(AccessFlags::private_read(), Registers::R1, RegisterValue::I32(1));
    assert_eq!(
        cpu.execute(Instruction::AddLitReg(1, Registers::R1)),
        Err(CpuError::RegisterAccessViolation)
    );
    assert_eq!(value(&cpu, Registers::AC), RegisterValue::I32(0));
}

#[test]
fn halt_always_halts() {
    let mut cpu = CPU::new();
    cpu.registers
        .set_register_value(Registers::R7, RegisterValue::I16(3), SecurityContext::User)
        .unwrap();
    assert_eq!(cpu.execute(Instruction::HLT()), Ok(true));
    assert!(cpu.is_halted());
    assert_eq!(value(&cpu, Registers::R7), RegisterValue::I16(3));
}

#[test]
fn nop_changes_nothing() {
    let mut cpu = CPU::new();
    assert_eq!(cpu.execute(Instruction::NOP()), Ok(false));
    assert!(!cpu.is_halted());
    assert_eq!(value(&cpu, Registers::AC), RegisterValue::I32(0));
}

#[test]
fn run_without_program_fails() {
    let memory = Memory::new(100, 4);
    let mut cpu = CPU::new();
    cpu.registers
        .set_register_value(Registers::R1, RegisterValue::I32(42), SecurityContext::User)
        .unwrap();
    assert_eq!(cpu.exec_mem_seq_id(), -1);
    assert_eq!(cpu.run(&memory), Err(CpuError::SequenceNotSet));
    assert_eq!(value(&cpu, Registers::R1), RegisterValue::I32(42));
    assert!(!cpu.is_halted());
}

#[test]
fn run_with_missing_region_fails() {
    let memory = Memory::new(100, 4);
    let mut cpu = CPU::new();
    cpu.set_exec_region(5);
    assert_eq!(cpu.run(&memory), Err(CpuError::OutOfBounds));
    assert!(cpu.is_halted());
}

#[test]
fn initialize_clears_halt_and_is_idempotent() {
    let mut cpu = CPU::new();
    cpu.execute(Instruction::HLT()).unwrap();
    cpu.initialize();
    assert!(!cpu.is_halted());
    assert_eq!(cpu.instruction_pointer(), 0);
    cpu.initialize();
    assert!(!cpu.is_halted());
    assert_eq!(cpu.exec_mem_seq_id(), -1);
}

#[test]
fn run_test_adds_to_r1() {
    let mut cpu = CPU::new();
    assert_eq!(cpu.run_test(), Ok(false));
    assert_eq!(value(&cpu, Registers::AC), RegisterValue::I32(123));
}

#[test]
fn missing_register_is_reported() {
    let mut bank = RegisterCollection { registers: Vec::new() };
    assert_eq!(
        bank.get_register_value(Registers::R1, SecurityContext::System),
        Err(CpuError::InvalidRegisterId)
    );
    assert_eq!(
        bank.set_register_value(Registers::R1, RegisterValue::I32(1), SecurityContext::System),
        Err(CpuError::InvalidRegisterId)
    );
    assert!(bank.get_register_ref(Registers::FL).is_err());
    assert!(bank.get_register_value_ref(Registers::FL, SecurityContext::User).is_err());
}

#[test]
fn read_only_register_in_bank_rejects_write() {
    let mut bank = RegisterCollection {
        registers: vec![Register::new(AccessFlags::read(), Registers::R1, RegisterValue::I32(7))],
    };
    assert_eq!(
        bank.set_register_value(Registers::R1, RegisterValue::I32(8), SecurityContext::User),
        Err(CpuError::RegisterAccessViolation)
    );
    assert_eq!(
        bank.set_register_value(Registers::R1, RegisterValue::I32(8), SecurityContext::System),
        Err(CpuError::RegisterAccessViolation)
    );
    assert_eq!(
        bank.get_register_value_ref(Registers::R1, SecurityContext::User),
        Ok(&RegisterValue::I32(7))
    );
}
