use crate::registers::Registers;
use vstd::prelude::*;

verus! {

/// Kind of an operand value.
#[derive(Debug, Clone, Copy, PartialEq, Eq, Structural)]
pub enum ArgumentTypes {
    /// A 16-bit integer value.
    ImmediateInt16,
    /// A 32-bit integer value.
    ImmediateInt32,
    /// A 64-bit integer value (long).
    ImmediateInt64,
    /// A floating point value.
    ImmediateFloat,
    /// A register identifier.
    Register,
    /// A string.
    String,
    /// An instruction size hint identifier.
    InstructionSizeHint,
}

/// How an operand refers to its value.
#[derive(Debug, Clone, Copy, PartialEq, Eq, Structural)]
pub enum ArgumentRefTypes {
    /// The argument is a register identifier.
    Register,
    /// The argument is a literal (immediate) integer.
    ImmediateInteger,
    /// The argument is a literal (immediate) float.
    ImmediateFloat,
    /// The argument is a register pointer.
    RegisterPointer,
    /// The argument is a literal (immediate) pointer.
    ImmediatePointer,
    /// The argument is a string.
    String,
    /// An argument indicating the size of the instruction.
    InstructionSizeHint,
}

/// Size of the data that an instruction works on.
#[derive(Debug, Clone, Copy, PartialEq, Eq, Structural)]
pub enum InstructionSizeHint {
    /// 1 byte.
    Byte,
    /// 4 bytes.
    Word,
    /// 8 bytes.
    DWord,
}

/// One instruction of the machine, with its operands.
#[derive(Debug, Clone, Copy, PartialEq, Eq, Structural)]
pub enum Instruction {
    /// No operation.
    NOP(),
    /// Adds a literal to the value of a register; the sum goes to `AC`.
    AddLitReg(i32, Registers),
    /// Halts the machine.
    HLT(),
}

/// The stable integer tag of each instruction kind.
#[derive(Debug, Clone, Copy, PartialEq, Eq, Structural)]
pub enum OpCode {
    /// Pseudo-opcode that marks a subroutine's position; never emitted.
    Subroutine,
    /// Pseudo-opcode that marks a label's position; never emitted.
    Label,
    /// No operation.
    NOP,
    MovLitReg,
    MovRegReg,
    MovRegMem,
    MovMemReg,
    MovLitMem,
    MovRegPtrReg,
    MovHRegPtrReg,
    MovLitOffReg,
    Swap,
    AddRegReg,
    /// Add a literal to a register; the sum goes to the accumulator.
    AddLitReg,
    SubLitReg,
    SubRegLit,
    SubRegReg,
    IncReg,
    DegReg,
    MulLitReg,
    MulRegReg,
    ModLitReg,
    MocRegLit,
    MocRegReg,
    Bit,
    LsfRegLit,
    LsfRegReg,
    RsfRegLit,
    RsfRegReg,
    AndRegLit,
    AndRegReg,
    OrRegLit,
    OrRegReg,
    XorRegLit,
    XorRegReg,
    Not,
    JmpNotEq,
    JneReg,
    JeqReg,
    JeqLit,
    JltReg,
    JltLit,
    JgtReg,
    JgtLit,
    JleReg,
    JleLit,
    JgeReg,
    JgeLit,
    PshLit,
    PshReg,
    Pop,
    CalLit,
    CalReg,
    Ret,
    Pushl,
    Out,
    /// Halt the machine. Its tag lies far from the others, so that the table can grow.
    Hlt,
}

/// Tag of `NOP`.
pub const NOP_CODE: i16 = 0;

/// Tag of `AddLitReg`.
pub const ADD_LIT_REG_CODE: i16 = 11;

/// Tag of `Hlt`.
pub const HLT_CODE: i16 = 32767;

impl OpCode {
    /// The tag of the opcode.
    pub open spec fn spec_code(self) -> i16 {
        match self {
            OpCode::Subroutine => -2i16,
            OpCode::Label => -1i16,
            OpCode::NOP => 0,
            OpCode::MovLitReg => 1,
            OpCode::MovRegReg => 2,
            OpCode::MovRegMem => 3,
            OpCode::MovMemReg => 4,
            OpCode::MovLitMem => 5,
            OpCode::MovRegPtrReg => 6,
            OpCode::MovHRegPtrReg => 7,
            OpCode::MovLitOffReg => 8,
            OpCode::Swap => 9,
            OpCode::AddRegReg => 10,
            OpCode::AddLitReg => 11,
            OpCode::SubLitReg => 12,
            OpCode::SubRegLit => 13,
            OpCode::SubRegReg => 14,
            OpCode::IncReg => 15,
            OpCode::DegReg => 16,
            OpCode::MulLitReg => 17,
            OpCode::MulRegReg => 18,
            OpCode::ModLitReg => 19,
            OpCode::MocRegLit => 20,
            OpCode::MocRegReg => 21,
            OpCode::Bit => 22,
            OpCode::LsfRegLit => 23,
            OpCode::LsfRegReg => 24,
            OpCode::RsfRegLit => 25,
            OpCode::RsfRegReg => 26,
            OpCode::AndRegLit => 27,
            OpCode::AndRegReg => 28,
            OpCode::OrRegLit => 29,
            OpCode::OrRegReg => 30,
            OpCode::XorRegLit => 31,
            OpCode::XorRegReg => 32,
            OpCode::Not => 33,
            OpCode::JmpNotEq => 34,
            OpCode::JneReg => 35,
            OpCode::JeqReg => 36,
            OpCode::JeqLit => 37,
            OpCode::JltReg => 38,
            OpCode::JltLit => 39,
            OpCode::JgtReg => 40,
            OpCode::JgtLit => 41,
            OpCode::JleReg => 42,
            OpCode::JleLit => 43,
            OpCode::JgeReg => 44,
            OpCode::JgeLit => 45,
            OpCode::PshLit => 46,
            OpCode::PshReg => 47,
            OpCode::Pop => 48,
            OpCode::CalLit => 49,
            OpCode::CalReg => 50,
            OpCode::Ret => 51,
            OpCode::Pushl => 52,
            OpCode::Out => 53,
            OpCode::Hlt => 32767,
        }
    }

    /// The tag of the opcode.
    pub fn code(&self) -> (r: i16)
        ensures
            r == self.spec_code(),
    {
        match self {
            OpCode::Subroutine => -2i16,
            OpCode::Label => -1i16,
            OpCode::NOP => 0,
            OpCode::MovLitReg => 1,
            OpCode::MovRegReg => 2,
            OpCode::MovRegMem => 3,
            OpCode::MovMemReg => 4,
            OpCode::MovLitMem => 5,
            OpCode::MovRegPtrReg => 6,
            OpCode::MovHRegPtrReg => 7,
            OpCode::MovLitOffReg => 8,
            OpCode::Swap => 9,
            OpCode::AddRegReg => 10,
            OpCode::AddLitReg => 11,
            OpCode::SubLitReg => 12,
            OpCode::SubRegLit => 13,
            OpCode::SubRegReg => 14,
            OpCode::IncReg => 15,
            OpCode::DegReg => 16,
            OpCode::MulLitReg => 17,
            OpCode::MulRegReg => 18,
            OpCode::ModLitReg => 19,
            OpCode::MocRegLit => 20,
            OpCode::MocRegReg => 21,
            OpCode::Bit => 22,
            OpCode::LsfRegLit => 23,
            OpCode::LsfRegReg => 24,
            OpCode::RsfRegLit => 25,
            OpCode::RsfRegReg => 26,
            OpCode::AndRegLit => 27,
            OpCode::AndRegReg => 28,
            OpCode::OrRegLit => 29,
            OpCode::OrRegReg => 30,
            OpCode::XorRegLit => 31,
            OpCode::XorRegReg => 32,
            OpCode::Not => 33,
            OpCode::JmpNotEq => 34,
            OpCode::JneReg => 35,
            OpCode::JeqReg => 36,
            OpCode::JeqLit => 37,
            OpCode::JltReg => 38,
            OpCode::JltLit => 39,
            OpCode::JgtReg => 40,
            OpCode::JgtLit => 41,
            OpCode::JleReg => 42,
            OpCode::JleLit => 43,
            OpCode::JgeReg => 44,
            OpCode::JgeLit => 45,
            OpCode::PshLit => 46,
            OpCode::PshReg => 47,
            OpCode::Pop => 48,
            OpCode::CalLit => 49,
            OpCode::CalReg => 50,
            OpCode::Ret => 51,
            OpCode::Pushl => 52,
            OpCode::Out => 53,
            OpCode::Hlt => 32767,
        }
    }

    /// The opcode with tag `code`, if there is one.
    pub fn from_code(code: i16) -> (r: Option<OpCode>)
        ensures
            r is Some ==> r->0.spec_code() == code,
            r is None ==> forall|op: OpCode| op.spec_code() != code,
    {
        match code {
            -2 => Some(OpCode::Subroutine),
            -1 => Some(OpCode::Label),
            0 => Some(OpCode::NOP),
            1 => Some(OpCode::MovLitReg),
            2 => Some(OpCode::MovRegReg),
            3 => Some(OpCode::MovRegMem),
            4 => Some(OpCode::MovMemReg),
            5 => Some(OpCode::MovLitMem),
            6 => Some(OpCode::MovRegPtrReg),
            7 => Some(OpCode::MovHRegPtrReg),
            8 => Some(OpCode::MovLitOffReg),
            9 => Some(OpCode::Swap),
            10 => Some(OpCode::AddRegReg),
            11 => Some(OpCode::AddLitReg),
            12 => Some(OpCode::SubLitReg),
            13 => Some(OpCode::SubRegLit),
            14 => Some(OpCode::SubRegReg),
            15 => Some(OpCode::IncReg),
            16 => Some(OpCode::DegReg),
            17 => Some(OpCode::MulLitReg),
            18 => Some(OpCode::MulRegReg),
            19 => Some(OpCode::ModLitReg),
            20 => Some(OpCode::MocRegLit),
            21 => Some(OpCode::MocRegReg),
            22 => Some(OpCode::Bit),
            23 => Some(OpCode::LsfRegLit),
            24 => Some(OpCode::LsfRegReg),
            25 => Some(OpCode::RsfRegLit),
            26 => Some(OpCode::RsfRegReg),
            27 => Some(OpCode::AndRegLit),
            28 => Some(OpCode::AndRegReg),
            29 => Some(OpCode::OrRegLit),
            30 => Some(OpCode::OrRegReg),
            31 => Some(OpCode::XorRegLit),
            32 => Some(OpCode::XorRegReg),
            33 => Some(OpCode::Not),
            34 => Some(OpCode::JmpNotEq),
            35 => Some(OpCode::JneReg),
            36 => Some(OpCode::JeqReg),
            37 => Some(OpCode::JeqLit),
            38 => Some(OpCode::JltReg),
            39 => Some(OpCode::JltLit),
            40 => Some(OpCode::JgtReg),
            41 => Some(OpCode::JgtLit),
            42 => Some(OpCode::JleReg),
            43 => Some(OpCode::JleLit),
            44 => Some(OpCode::JgeReg),
            45 => Some(OpCode::JgeLit),
            46 => Some(OpCode::PshLit),
            47 => Some(OpCode::PshReg),
            48 => Some(OpCode::Pop),
            49 => Some(OpCode::CalLit),
            50 => Some(OpCode::CalReg),
            51 => Some(OpCode::Ret),
            52 => Some(OpCode::Pushl),
            53 => Some(OpCode::Out),
            32767 => Some(OpCode::Hlt),
            _ => None,
        }
    }

    /// Whether the opcode is an assembler-only marker that never appears in
    /// a program image.
    pub fn is_pseudo(&self) -> (r: bool)
        ensures
            r == (self.spec_code() < 0),
    {
        matches!(self, OpCode::Subroutine | OpCode::Label)
    }
}

/// Upper-case hexadecimal digit of `d`, for `d < 16`.
pub open spec fn hex_digit(d: nat) -> char {
    if d == 0 {
        '0'
    } else if d == 1 {
        '1'
    } else if d == 2 {
        '2'
    } else if d == 3 {
        '3'
    } else if d == 4 {
        '4'
    } else if d == 5 {
        '5'
    } else if d == 6 {
        '6'
    } else if d == 7 {
        '7'
    } else if d == 8 {
        '8'
    } else if d == 9 {
        '9'
    } else if d == 10 {
        'A'
    } else if d == 11 {
        'B'
    } else if d == 12 {
        'C'
    } else if d == 13 {
        'D'
    } else if d == 14 {
        'E'
    } else {
        'F'
    }
}

/// Upper-case hexadecimal digits of `n`, without leading zeros.
pub open spec fn hex_of(n: nat) -> Seq<char>
    decreases n,
{
    if n < 16 {
        seq![hex_digit(n)]
    } else {
        hex_of(n / 16).push(hex_digit(n % 16))
    }
}

/// Upper-case hexadecimal digits of `n`, zero-padded to at least two.
pub open spec fn hex_padded(n: nat) -> Seq<char> {
    if n < 16 {
        seq!['0', hex_digit(n)]
    } else {
        hex_of(n)
    }
}

fn hex_digit_str(d: u32) -> (r: &'static str)
    requires
        d < 16,
    ensures
        r@ == seq![hex_digit(d as nat)],
{
    proof {
        reveal_strlit("0");
        reveal_strlit("1");
        reveal_strlit("2");
        reveal_strlit("3");
        reveal_strlit("4");
        reveal_strlit("5");
        reveal_strlit("6");
        reveal_strlit("7");
        reveal_strlit("8");
        reveal_strlit("9");
        reveal_strlit("A");
        reveal_strlit("B");
        reveal_strlit("C");
        reveal_strlit("D");
        reveal_strlit("E");
        reveal_strlit("F");
    }
    match d {
        0 => "0",
        1 => "1",
        2 => "2",
        3 => "3",
        4 => "4",
        5 => "5",
        6 => "6",
        7 => "7",
        8 => "8",
        9 => "9",
        10 => "A",
        11 => "B",
        12 => "C",
        13 => "D",
        14 => "E",
        _ => "F",
    }
}

fn push_hex(out: &mut String, n: u32)
    ensures
        final(out)@ == old(out)@ + hex_of(n as nat),
    decreases n,
{
    if n >= 16 {
        push_hex(out, n / 16);
    }
    out.append(hex_digit_str(n % 16));
    assert(final(out)@ =~= old(out)@ + hex_of(n as nat));
}

impl Instruction {
    /// The instruction as assembly text: the mnemonic, then the operands
    /// separated by commas; a literal in upper-case hexadecimal, at least two
    /// digits wide (a negative one as its 32-bit two's complement), a
    /// register by its name.
    pub open spec fn spec_text(self) -> Seq<char> {
        match self {
            Instruction::NOP() => seq!['n', 'o', 'p'],
            Instruction::AddLitReg(lit, reg) => seq!['a', 'd', 'd', ' '] + hex_padded(lit as u32 as nat)
                + seq![',', ' '] + reg.spec_name(),
            Instruction::HLT() => seq!['h', 'l', 't'],
        }
    }

    /// The instruction as assembly text, such as `add 7B, R1`.
    pub fn to_string(&self) -> (r: String)
        ensures
            r@ == self.spec_text(),
    {
        proof {
            reveal_strlit("nop");
            reveal_strlit("hlt");
            reveal_strlit("add ");
            reveal_strlit("0");
            reveal_strlit(", ");
        }
        match self {
            Instruction::NOP() => String::from_str("nop"),
            Instruction::AddLitReg(lit, reg) => {
                let mut out = String::from_str("add ");
                let n = *lit as u32;
                if n < 16 {
                    out.append("0");
                }
                push_hex(&mut out, n);
                out.append(", ");
                let name = reg.to_string();
                out.append(name.as_str());
                assert(out@ =~= self.spec_text());
                out
            },
            Instruction::HLT() => String::from_str("hlt"),
        }
    }
}

impl Instruction {
    /// The opcode of the instruction.
    pub open spec fn spec_opcode(self) -> OpCode {
        match self {
            Instruction::NOP() => OpCode::NOP,
            Instruction::AddLitReg(_, _) => OpCode::AddLitReg,
            Instruction::HLT() => OpCode::Hlt,
        }
    }

    pub fn opcode(&self) -> (r: OpCode)
        ensures
            r == self.spec_opcode(),
    {
        match self {
            Instruction::NOP() => OpCode::NOP,
            Instruction::AddLitReg(_, _) => OpCode::AddLitReg,
            Instruction::HLT() => OpCode::Hlt,
        }
    }
}

} // verus!
