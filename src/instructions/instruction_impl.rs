//! Descriptions of instruction kinds: operand shapes, opcode, mnemonic and
//! the privilege that they run under.

use crate::instructions::enums::OpCode;
use crate::security_context::SecurityContext;
use vstd::prelude::*;

verus! {

/// Kind of an operand value.
#[derive(Debug, Clone, Copy, PartialEq, Eq, Structural)]
pub enum ArgumentTypes {
    /// A 16-bit integer value.
    Int16,
    /// A 32-bit integer value.
    Int32,
    /// A 64-bit integer value (long).
    Int64,
    /// A floating point value.
    Float,
    /// A register identifier.
    Register,
    /// A string.
    String,
    /// An instruction size hint identifier.
    InstructionSizeHint,
}

/// How an operand refers to its value.
#[derive(Debug, Clone, Copy, PartialEq, Eq, Structural)]
pub enum ArgumentRefTypes {
    /// The argument is a register identifier.
    Register,
    /// The argument is a literal integer.
    LiteralInteger,
    /// The argument is a literal float.
    LiteralFloat,
    /// The argument is a register pointer.
    RegisterPointer,
    /// The argument is a literal pointer.
    LiteralPointer,
    /// The argument is an expression.
    Expression,
    /// The argument is a string.
    String,
    /// An argument indicating the size of the instruction.
    InstructionSizeHint,
}

/// What every instruction description offers.
pub trait Instruction {
    /// The privilege that the instruction's handler runs under.
    fn get_security_context() -> SecurityContext;

    /// The instruction's mnemonic.
    fn to_string(&self) -> String;
}

/// Description of `AddRegReg`: adds two registers, the sum going to the
/// accumulator.
pub struct AddRegReg {
    pub output_literals_as_hex: bool,
    pub argument_types: Vec<ArgumentTypes>,
    pub argument_ref_types: Vec<ArgumentRefTypes>,
    pub op_code: OpCode,
    pub asm_name: String,
}

impl AddRegReg {
    pub fn new() -> (r: Self)
        ensures
            r.output_literals_as_hex,
            r.argument_types@ == seq![ArgumentTypes::Register, ArgumentTypes::Register],
            r.argument_ref_types@ == seq![ArgumentRefTypes::Register, ArgumentRefTypes::Register],
            r.op_code == OpCode::AddRegReg,
            r.asm_name@ == seq!['a', 'd', 'd'],
    {
        proof {
            reveal_strlit("add");
        }
        let r = Self {
            output_literals_as_hex: true,
            argument_types: vec![ArgumentTypes::Register, ArgumentTypes::Register],
            argument_ref_types: vec![ArgumentRefTypes::Register, ArgumentRefTypes::Register],
            op_code: OpCode::AddRegReg,
            asm_name: String::from_str("add"),
        };
        assert(r.asm_name@ =~= seq!['a', 'd', 'd']);
        r
    }
}

impl Instruction for AddRegReg {
    fn get_security_context() -> SecurityContext {
        SecurityContext::User
    }

    fn to_string(&self) -> String {
        self.asm_name.clone()
    }
}

} // verus!
