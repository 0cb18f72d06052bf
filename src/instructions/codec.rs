//! The binary program image: a concatenation of instruction records with no
//! header, length prefix or checksum. Each record is the opcode tag as a
//! little-endian `i16`, followed by the operands of that opcode:
//!
//! - `NOP`, `Hlt`: nothing;
//! - `AddLitReg`: the literal as a little-endian `i32`, then the register's
//!   index as one byte.

use crate::instructions::enums::{Instruction, OpCode, ADD_LIT_REG_CODE, HLT_CODE, NOP_CODE};
use crate::registers::{lemma_index_round_trip, Registers};
use vstd::prelude::*;

verus! {

/// Error of decoding a program image.
#[derive(Debug, Clone, Copy, PartialEq, Eq, Structural)]
pub enum DecodeError {
    /// A tag names no instruction that the machine supports.
    UnknownOpcode,
    /// The image ends inside a record.
    UnexpectedEndOfStream,
    /// A register operand holds no register index.
    InvalidRegisterId,
}

/// Little-endian bytes of an `i16`.
pub open spec fn le_i16(x: i16) -> Seq<u8> {
    seq![((x as u16) & 0xff) as u8, ((x as u16) >> 8u16) as u8]
}

/// The `i16` with little-endian bytes `b0`, `b1`.
pub open spec fn i16_of_le(b0: u8, b1: u8) -> i16 {
    (((b1 as u16) << 8u16) | (b0 as u16)) as i16
}

/// Little-endian bytes of an `i32`.
pub open spec fn le_i32(x: i32) -> Seq<u8> {
    seq![
        ((x as u32) & 0xff) as u8,
        (((x as u32) >> 8u32) & 0xff) as u8,
        (((x as u32) >> 16u32) & 0xff) as u8,
        ((x as u32) >> 24u32) as u8,
    ]
}

/// The `i32` with little-endian bytes `b0` to `b3`.
pub open spec fn i32_of_le(b0: u8, b1: u8, b2: u8, b3: u8) -> i32 {
    (((b3 as u32) << 24u32) | ((b2 as u32) << 16u32) | ((b1 as u32) << 8u32) | (b0 as u32)) as i32
}

/// The record of one instruction.
pub open spec fn spec_encode_instruction(ins: Instruction) -> Seq<u8> {
    match ins {
        Instruction::NOP() => le_i16(OpCode::NOP.spec_code()),
        Instruction::AddLitReg(lit, reg) => le_i16(OpCode::AddLitReg.spec_code()) + le_i32(lit)
            + seq![reg.spec_index()],
        Instruction::HLT() => le_i16(OpCode::Hlt.spec_code()),
    }
}

/// The image of a sequence of instructions: their records, one after another.
pub open spec fn spec_encode(s: Seq<Instruction>) -> Seq<u8>
    decreases s.len(),
{
    if s.len() == 0 {
        Seq::empty()
    } else {
        spec_encode(s.drop_last()) + spec_encode_instruction(s.last())
    }
}

/// The instruction whose record starts `b`, with the record's length.
pub open spec fn spec_decode_instruction(b: Seq<u8>) -> Result<(Instruction, nat), DecodeError> {
    if b.len() < 2 {
        Err(DecodeError::UnexpectedEndOfStream)
    } else {
        let tag = i16_of_le(b[0], b[1]);
        if tag == NOP_CODE {
            Ok((Instruction::NOP(), 2))
        } else if tag == HLT_CODE {
            Ok((Instruction::HLT(), 2))
        } else if tag == ADD_LIT_REG_CODE {
            if b.len() < 7 {
                Err(DecodeError::UnexpectedEndOfStream)
            } else {
                match Registers::spec_from_index(b[6]) {
                    Some(reg) => Ok((Instruction::AddLitReg(i32_of_le(b[2], b[3], b[4], b[5]), reg), 7)),
                    None => Err(DecodeError::InvalidRegisterId),
                }
            }
        } else {
            Err(DecodeError::UnknownOpcode)
        }
    }
}

/// The instructions of an image, or the error of its first bad record.
pub open spec fn spec_decode(b: Seq<u8>) -> Result<Seq<Instruction>, DecodeError>
    decreases b.len(),
{
    if b.len() == 0 {
        Ok(Seq::empty())
    } else {
        match spec_decode_instruction(b) {
            Err(e) => Err(e),
            Ok((ins, n)) => if 0 < n <= b.len() {
                match spec_decode(b.skip(n as int)) {
                    Ok(rest) => Ok(seq![ins] + rest),
                    Err(e) => Err(e),
                }
            } else {
                Err(DecodeError::UnexpectedEndOfStream)
            },
        }
    }
}

proof fn lemma_i16_bytes(x: i16, b0: u8, b1: u8)
    ensures
        i16_of_le(le_i16(x)[0], le_i16(x)[1]) == x,
        le_i16(i16_of_le(b0, b1)) == seq![b0, b1],
{
    assert(((((((x as u16) >> 8u16) as u8) as u16) << 8u16) | ((((x as u16) & 0xff) as u8) as u16)) as i16 == x) by (bit_vector);
    let y = i16_of_le(b0, b1);
    assert(((((((b1 as u16) << 8u16) | (b0 as u16)) as i16) as u16) & 0xff) as u8 == b0) by (bit_vector);
    assert(((((((b1 as u16) << 8u16) | (b0 as u16)) as i16) as u16) >> 8u16) as u8 == b1) by (bit_vector);
    assert(le_i16(y) =~= seq![b0, b1]);
}

proof fn lemma_i32_bytes(x: i32, b0: u8, b1: u8, b2: u8, b3: u8)
    ensures
        i32_of_le(le_i32(x)[0], le_i32(x)[1], le_i32(x)[2], le_i32(x)[3]) == x,
        le_i32(i32_of_le(b0, b1, b2, b3)) == seq![b0, b1, b2, b3],
{
    assert((((((((x as u32) >> 24u32) as u8) as u32) << 24u32) | ((((((x as u32) >> 16u32) & 0xff) as u8) as u32) << 16u32) | ((((((x as u32) >> 8u32) & 0xff) as u8) as u32) << 8u32) | ((((x as u32) & 0xff) as u8) as u32)) as i32) == x) by (bit_vector);
    let y = i32_of_le(b0, b1, b2, b3);
    assert(((((((b3 as u32) << 24u32) | ((b2 as u32) << 16u32) | ((b1 as u32) << 8u32) | (b0 as u32)) as i32) as u32) & 0xff) as u8 == b0) by (bit_vector);
    assert((((((((b3 as u32) << 24u32) | ((b2 as u32) << 16u32) | ((b1 as u32) << 8u32) | (b0 as u32)) as i32) as u32) >> 8u32) & 0xff) as u8 == b1) by (bit_vector);
    assert((((((((b3 as u32) << 24u32) | ((b2 as u32) << 16u32) | ((b1 as u32) << 8u32) | (b0 as u32)) as i32) as u32) >> 16u32) & 0xff) as u8 == b2) by (bit_vector);
    assert(((((((b3 as u32) << 24u32) | ((b2 as u32) << 16u32) | ((b1 as u32) << 8u32) | (b0 as u32)) as i32) as u32) >> 24u32) as u8 == b3) by (bit_vector);
    assert(le_i32(y) =~= seq![b0, b1, b2, b3]);
}

fn push_i16(out: &mut Vec<u8>, x: i16)
    ensures
        final(out)@ == old(out)@ + le_i16(x),
{
    let u = x as u16;
    out.push((u & 0xff) as u8);
    out.push((u >> 8u16) as u8);
    assert(final(out)@ =~= old(out)@ + le_i16(x));
}

fn push_i32(out: &mut Vec<u8>, x: i32)
    ensures
        final(out)@ == old(out)@ + le_i32(x),
{
    let u = x as u32;
    out.push((u & 0xff) as u8);
    out.push(((u >> 8u32) & 0xff) as u8);
    out.push(((u >> 16u32) & 0xff) as u8);
    out.push((u >> 24u32) as u8);
    assert(final(out)@ =~= old(out)@ + le_i32(x));
}

/// Appends the record of `ins` to `out`.
pub fn encode_instruction_into(ins: &Instruction, out: &mut Vec<u8>)
    ensures
        final(out)@ == old(out)@ + spec_encode_instruction(*ins),
{
    match ins {
        Instruction::NOP() => push_i16(out, OpCode::NOP.code()),
        Instruction::AddLitReg(lit, reg) => {
            push_i16(out, OpCode::AddLitReg.code());
            push_i32(out, *lit);
            out.push(reg.index());
            assert(final(out)@ =~= old(out)@ + spec_encode_instruction(*ins));
        },
        Instruction::HLT() => push_i16(out, OpCode::Hlt.code()),
    }
}

/// The record of one instruction.
pub fn encode_instruction(ins: &Instruction) -> (r: Vec<u8>)
    ensures
        r@ == spec_encode_instruction(*ins),
{
    let mut out: Vec<u8> = Vec::new();
    encode_instruction_into(ins, &mut out);
    assert(out@ =~= spec_encode_instruction(*ins));
    out
}

/// The program image of a sequence of instructions.
pub fn encode(instructions: &Vec<Instruction>) -> (r: Vec<u8>)
    ensures
        r@ == spec_encode(instructions@),
{
    let mut out: Vec<u8> = Vec::new();
    let mut i: usize = 0;
    while i < instructions.len()
        invariant
            i <= instructions@.len(),
            out@ == spec_encode(instructions@.take(i as int)),
        decreases instructions@.len() - i,
    {
        encode_instruction_into(&instructions[i], &mut out);
        assert(instructions@.take(i + 1).drop_last() =~= instructions@.take(i as int));
        i += 1;
    }
    assert(instructions@.take(i as int) =~= instructions@);
    out
}

/// The instruction whose record starts at `pos`, with the record's length.
pub fn decode_instruction(
    bytes: &Vec<u8>,
    pos: usize,
) -> (r: Result<(Instruction, usize), DecodeError>)
    requires
        pos <= bytes@.len(),
    ensures
        match spec_decode_instruction(bytes@.skip(pos as int)) {
            Ok((ins, n)) => r == Ok::<(Instruction, usize), DecodeError>((ins, n as usize)),
            Err(e) => r == Err::<(Instruction, usize), DecodeError>(e),
        },
{
    let ghost b = bytes@.skip(pos as int);
    let left = bytes.len() - pos;
    if left < 2 {
        return Err(DecodeError::UnexpectedEndOfStream);
    }
    assert(b[0] == bytes@[pos as int] && b[1] == bytes@[pos + 1]);
    let tag = (((bytes[pos + 1] as u16) << 8u16) | (bytes[pos] as u16)) as i16;
    if tag == NOP_CODE {
        Ok((Instruction::NOP(), 2))
    } else if tag == HLT_CODE {
        Ok((Instruction::HLT(), 2))
    } else if tag == ADD_LIT_REG_CODE {
        if left < 7 {
            return Err(DecodeError::UnexpectedEndOfStream);
        }
        assert(b[2] == bytes@[pos + 2] && b[3] == bytes@[pos + 3] && b[4] == bytes@[pos + 4]
            && b[5] == bytes@[pos + 5] && b[6] == bytes@[pos + 6]);
        let lit = (((bytes[pos + 5] as u32) << 24u32) | ((bytes[pos + 4] as u32) << 16u32) | ((
        bytes[pos + 3] as u32) << 8u32) | (bytes[pos + 2] as u32)) as i32;
        match Registers::from_index(bytes[pos + 6]) {
            Some(reg) => Ok((Instruction::AddLitReg(lit, reg), 7)),
            None => Err(DecodeError::InvalidRegisterId),
        }
    } else {
        Err(DecodeError::UnknownOpcode)
    }
}

/// The instructions of a program image, or the error of its first bad
/// record; no instruction is handed out from an image that fails.
pub fn decode(bytes: &Vec<u8>) -> (r: Result<Vec<Instruction>, DecodeError>)
    ensures
        match spec_decode(bytes@) {
            Ok(s) => r is Ok && r->Ok_0@ == s,
            Err(e) => r == Err::<Vec<Instruction>, DecodeError>(e),
        },
{
    let mut out: Vec<Instruction> = Vec::new();
    let mut pos: usize = 0;
    proof {
        assert(bytes@.skip(0) =~= bytes@);
        if let Ok(rest) = spec_decode(bytes@) {
            assert(out@ + rest =~= rest);
        }
    }
    while pos < bytes.len()
        invariant
            pos <= bytes@.len(),
            spec_decode(bytes@) == match spec_decode(bytes@.skip(pos as int)) {
                Ok(rest) => Ok::<Seq<Instruction>, DecodeError>(out@ + rest),
                Err(e) => Err(e),
            },
        decreases bytes@.len() - pos,
    {
        let ghost b = bytes@.skip(pos as int);
        match decode_instruction(bytes, pos) {
            Err(e) => {
                return Err(e);
            },
            Ok((ins, n)) => {
                proof {
                    assert(b.skip(n as int) =~= bytes@.skip(pos + n));
                    match spec_decode(b.skip(n as int)) {
                        Ok(rest) => {
                            assert(out@ + (seq![ins] + rest) =~= out@.push(ins) + rest);
                        },
                        Err(e) => {},
                    }
                }
                out.push(ins);
                pos = pos + n;
            },
        }
    }
    proof {
        assert(bytes@.skip(pos as int) =~= Seq::<u8>::empty());
        assert(out@ + Seq::<Instruction>::empty() =~= out@);
    }
    Ok(out)
}

/// Decoding the record of an instruction, with anything after it, gives
/// back that instruction and the record's length.
pub proof fn lemma_decode_encode_instruction(ins: Instruction, rest: Seq<u8>)
    ensures
        spec_decode_instruction(spec_encode_instruction(ins) + rest) == Ok::<(Instruction, nat), DecodeError>(
            (ins, spec_encode_instruction(ins).len()),
        ),
        2 <= spec_encode_instruction(ins).len(),
{
    let b = spec_encode_instruction(ins) + rest;
    match ins {
        Instruction::NOP() => {
            lemma_i16_bytes(NOP_CODE, 0, 0);
        },
        Instruction::HLT() => {
            lemma_i16_bytes(HLT_CODE, 0, 0);
        },
        Instruction::AddLitReg(lit, reg) => {
            lemma_i16_bytes(ADD_LIT_REG_CODE, 0, 0);
            lemma_i32_bytes(lit, 0, 0, 0, 0);
            lemma_index_round_trip(reg, 0);
            assert(b[2] == le_i32(lit)[0]);
            assert(b[3] == le_i32(lit)[1]);
            assert(b[4] == le_i32(lit)[2]);
            assert(b[5] == le_i32(lit)[3]);
            assert(b[6] == reg.spec_index());
        },
    }
}

/// A record that decodes is the record of the instruction that it gives.
pub proof fn lemma_encode_decode_instruction(b: Seq<u8>)
    requires
        spec_decode_instruction(b) is Ok,
    ensures
        spec_decode_instruction(b)->Ok_0.1 <= b.len(),
        spec_encode_instruction(spec_decode_instruction(b)->Ok_0.0) == b.take(
            spec_decode_instruction(b)->Ok_0.1 as int,
        ),
{
    let (ins, n) = spec_decode_instruction(b)->Ok_0;
    lemma_i16_bytes(0, b[0], b[1]);
    match ins {
        Instruction::AddLitReg(lit, reg) => {
            lemma_i32_bytes(0, b[2], b[3], b[4], b[5]);
            lemma_index_round_trip(reg, b[6]);
            assert(spec_encode_instruction(ins) =~= b.take(7));
        },
        _ => {
            assert(spec_encode_instruction(ins) =~= b.take(2));
        },
    }
}

proof fn lemma_encode_concat(a: Seq<Instruction>, c: Seq<Instruction>)
    ensures
        spec_encode(a + c) == spec_encode(a) + spec_encode(c),
    decreases c.len(),
{
    if c.len() == 0 {
        assert(a + c =~= a);
        assert(spec_encode(a) + spec_encode(c) =~= spec_encode(a));
    } else {
        lemma_encode_concat(a, c.drop_last());
        assert((a + c).drop_last() =~= a + c.drop_last());
        assert(spec_encode(a + c) =~= spec_encode(a) + spec_encode(c));
    }
}

proof fn lemma_encode_first(s: Seq<Instruction>)
    requires
        s.len() > 0,
    ensures
        spec_encode(s) == spec_encode_instruction(s[0]) + spec_encode(s.drop_first()),
{
    lemma_encode_concat(seq![s[0]], s.drop_first());
    assert(seq![s[0]] + s.drop_first() =~= s);
    assert(seq![s[0]].drop_last() =~= Seq::<Instruction>::empty());
    reveal_with_fuel(spec_encode, 2);
    assert(spec_encode(seq![s[0]]) =~= spec_encode_instruction(s[0]));
}

/// Decoding the image of a sequence of instructions gives back that sequence.
pub proof fn lemma_decode_encode(s: Seq<Instruction>)
    ensures
        spec_decode(spec_encode(s)) == Ok::<Seq<Instruction>, DecodeError>(s),
    decreases s.len(),
{
    if s.len() == 0 {
        assert(s =~= Seq::<Instruction>::empty());
        assert(spec_encode(s) =~= Seq::<u8>::empty());
    } else {
        lemma_encode_first(s);
        let head = spec_encode_instruction(s[0]);
        let tail = spec_encode(s.drop_first());
        let b = head + tail;
        lemma_decode_encode_instruction(s[0], tail);
        lemma_decode_encode(s.drop_first());
        assert(b.skip(head.len() as int) =~= tail);
        assert(spec_decode_instruction(b) == Ok::<(Instruction, nat), DecodeError>((s[0], head.len())));
        assert(spec_decode(b) == Ok::<Seq<Instruction>, DecodeError>(seq![s[0]] + s.drop_first()));
        assert(seq![s[0]] + s.drop_first() =~= s);
    }
}

/// An image that decodes is the image of the sequence that it gives.
pub proof fn lemma_encode_decode(b: Seq<u8>)
    requires
        spec_decode(b) is Ok,
    ensures
        spec_encode(spec_decode(b)->Ok_0) == b,
    decreases b.len(),
{
    if b.len() == 0 {
        assert(spec_encode(Seq::empty()) =~= b);
    } else {
        let (ins, n) = spec_decode_instruction(b)->Ok_0;
        let rest = spec_decode(b.skip(n as int))->Ok_0;
        lemma_encode_decode_instruction(b);
        lemma_encode_decode(b.skip(n as int));
        let s = seq![ins] + rest;
        assert(s.drop_first() =~= rest);
        assert(s[0] == ins);
        lemma_encode_first(s);
        assert(b.take(n as int) + b.skip(n as int) =~= b);
    }
}

/// The bytes of the tags of the supported opcodes.
pub proof fn lemma_tag_bytes()
    ensures
        le_i16(NOP_CODE) == seq![0u8, 0u8],
        le_i16(ADD_LIT_REG_CODE) == seq![11u8, 0u8],
        le_i16(HLT_CODE) == seq![0xffu8, 0x7fu8],
{
    assert(((0i16 as u16) & 0xff) as u8 == 0u8 && ((0i16 as u16) >> 8u16) as u8 == 0u8) by (bit_vector);
    assert(((11i16 as u16) & 0xff) as u8 == 11u8 && ((11i16 as u16) >> 8u16) as u8 == 0u8) by (bit_vector);
    assert(((32767i16 as u16) & 0xff) as u8 == 0xffu8 && ((32767i16 as u16) >> 8u16) as u8 == 0x7fu8) by (bit_vector);
    assert(le_i16(NOP_CODE) =~= seq![0u8, 0u8]);
    assert(le_i16(ADD_LIT_REG_CODE) =~= seq![11u8, 0u8]);
    assert(le_i16(HLT_CODE) =~= seq![0xffu8, 0x7fu8]);
}

/// An image that starts with the tag of `AddLitReg` and ends before its
/// operands are complete fails to decode, for want of bytes.
pub proof fn lemma_truncated_add_lit_reg(b: Seq<u8>)
    requires
        2 <= b.len() < 7,
        b[0] == le_i16(ADD_LIT_REG_CODE)[0],
        b[1] == le_i16(ADD_LIT_REG_CODE)[1],
    ensures
        spec_decode(b) == Err::<Seq<Instruction>, DecodeError>(DecodeError::UnexpectedEndOfStream),
{
    lemma_i16_bytes(ADD_LIT_REG_CODE, 0, 0);
}

} // verus!
