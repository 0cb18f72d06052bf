use oxidation_core::instructions::codec::{decode, decode_instruction, encode, encode_instruction, DecodeError};
use oxidation_core::instructions::enums::Instruction;
use oxidation_core::registers::Registers;

#[test]
fn encodes_each_opcode_exactly() {
    assert_eq!(encode_instruction(&Instruction::NOP()), vec![0, 0]);
    assert_eq!(encode_instruction(&Instruction::HLT()), vec![0xFF, 0x7F]);
    assert_eq!(
        encode_instruction(&Instruction::AddLitReg(123, Registers::R1)),
        vec![11, 0, 123, 0, 0, 0, 0]
    );
    assert_eq!(
        encode_instruction(&Instruction::AddLitReg(-2, Registers::AC)),
        vec![11, 0, 0xFE, 0xFF, 0xFF, 0xFF, 8]
    );
}

#[test]
fn decode_inverts_encode_for_each_opcode() {
    for ins in [
        Instruction::NOP(),
        Instruction::HLT(),
        Instruction::AddLitReg(123, Registers::R1),
        Instruction::AddLitReg(i32::MIN, Registers::FL),
        Instruction::AddLitReg(0x1234_5678, Registers::R8),
    ] {
        let bytes = encode_instruction(&ins);
        assert_eq!(decode(&bytes), Ok(vec![ins]));
        assert_eq!(decode_instruction(&bytes, 0), Ok((ins, bytes.len())));
    }
}

#[test]
fn decode_inverts_encode_for_a_program() {
    let program = vec![
        Instruction::NOP(),
        Instruction::AddLitReg(7, Registers::R3),
        Instruction::AddLitReg(-100, Registers::R2),
        Instruction::HLT(),
    ];
    let bytes = encode(&program);
    assert_eq!(bytes.len(), 2 + 7 + 7 + 2);
    assert_eq!(decode(&bytes), Ok(program));
}

#[test]
fn encode_inverts_decode() {
    let bytes: Vec<u8> = vec![11, 0, 1, 2, 3, 4, 5, 0xFF, 0x7F, 0, 0];
    let program = decode(&bytes).unwrap();
    assert_eq!(program.len(), 3);
    assert_eq!(program[0], Instruction::AddLitReg(0x0403_0201, Registers::R6));
    assert_eq!(encode(&program), bytes);
}

#[test]
fn decode_of_empty_image_is_empty() {
    assert_eq!(decode(&Vec::new()), Ok(Vec::new()));
    assert_eq!(encode(&Vec::new()), Vec::<u8>::new());
}

#[test]
fn truncated_add_lit_reg_fails() {
    assert_eq!(decode(&vec![11, 0]), Err(DecodeError::UnexpectedEndOfStream));
    assert_eq!(decode(&vec![11, 0, 1, 2, 3, 4]), Err(DecodeError::UnexpectedEndOfStream));
    assert_eq!(decode_instruction(&vec![11, 0], 0), Err(DecodeError::UnexpectedEndOfStream));
}

#[test]
fn half_a_tag_fails() {
    assert_eq!(decode(&vec![0]), Err(DecodeError::UnexpectedEndOfStream));
    assert_eq!(decode(&vec![0, 0, 0]), Err(DecodeError::UnexpectedEndOfStream));
}

#[test]
fn unknown_tag_fails() {
    assert_eq!(decode(&vec![1, 0]), Err(DecodeError::UnknownOpcode));
    assert_eq!(decode(&vec![0xFE, 0xFF]), Err(DecodeError::UnknownOpcode));
    assert_eq!(decode(&vec![0, 0, 10, 0]), Err(DecodeError::UnknownOpcode));
}

#[test]
fn bad_register_index_fails() {
    assert_eq!(decode(&vec![11, 0, 1, 0, 0, 0, 10]), Err(DecodeError::InvalidRegisterId));
}

#[test]
fn decode_instruction_at_offset() {
    let bytes = vec![0, 0, 11, 0, 5, 0, 0, 0, 9];
    assert_eq!(decode_instruction(&bytes, 0), Ok((Instruction::NOP(), 2)));
    assert_eq!(
        decode_instruction(&bytes, 2),
        Ok((Instruction::AddLitReg(5, Registers::FL), 7))
    );
}
