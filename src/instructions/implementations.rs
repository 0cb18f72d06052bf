use crate::cpu::{spec_add_lit_reg, CpuError, CPU};
use crate::registers::{RegisterValue, Registers};
use crate::security_context::SecurityContext;
use vstd::prelude::*;

verus! {

/// Handler of `AddLitReg`: reads `reg` under `User`, which must hold a
/// 32-bit integer, and writes `imm + value` (wrapping on overflow) into `AC`
/// under `User`. Never asks to halt; on an error no register changes.
pub fn add_lit_reg(cpu: &mut CPU, imm: i32, reg: Registers) -> (r: Result<bool, CpuError>)
    ensures
        (final(cpu).bank(), r) == spec_add_lit_reg(old(cpu).bank(), imm, reg),
        final(cpu).control() == old(cpu).control(),
{
    let val = match cpu.registers.get_register_value(reg, SecurityContext::User) {
        Err(e) => {
            return Err(e);
        },
        Ok(val) => val,
    };
    match val {
        RegisterValue::I32(x) => {
            match cpu.registers.set_register_value(
                Registers::AC,
                RegisterValue::I32(imm.wrapping_add(x)),
                SecurityContext::User,
            ) {
                Err(e) => Err(e),
                Ok(_) => Ok(false),
            }
        },
        _ => Err(CpuError::InvalidRegisterValueType),
    }
}

} // verus!
