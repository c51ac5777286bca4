use jvm_common::error::InstructionErr;
use jvm_common::instruction::{Instruction, Opcode};
use jvm_common::utils::cursor::CursorError;

#[test]
fn decodes_instructions_with_operands() {
    let code = vec![
        0x2A, // aload_0
        0xB7, 0x00, 0x01, // invokespecial #1
        0x12, 0x07, // ldc #7
        0xA7, 0xFF, 0xFD, // goto -3
        0x19, 0x04, // aload 4
        0xB1, // return
    ];
    let instrs = Instruction::new_instruction_set(&code).unwrap();
    assert_eq!(
        instrs,
        vec![
            Instruction::Aload0,
            Instruction::Invokespecial(1),
            Instruction::Ldc(7),
            Instruction::Goto(-3),
            Instruction::Aload(4),
            Instruction::Return,
        ]
    );
    let total: usize = instrs.iter().map(|i| i.byte_size() as usize).sum();
    assert_eq!(total, code.len());
}

#[test]
fn decode_errors() {
    assert_eq!(
        Instruction::new_instruction_set(&vec![0x2A, 0x00]),
        Err(InstructionErr::UnsupportedOpCode(0x00))
    );
    assert_eq!(
        Instruction::new_instruction_set(&vec![0x2A, 0xB2, 0x01]),
        Err(InstructionErr::Cursor(CursorError::UnexpectedEof))
    );
    assert_eq!(Instruction::new_instruction_set(&vec![]), Ok(vec![]));
}

#[test]
fn byte_sizes() {
    assert_eq!(Instruction::Ldc(1).byte_size(), 2);
    assert_eq!(Instruction::IfIcmpge(5).byte_size(), 3);
    assert_eq!(Instruction::Ladd.byte_size(), 1);
}

#[test]
fn opcode_codes_round_trip() {
    for b in 0u8..=255 {
        if let Ok(op) = Opcode::try_from(b) {
            assert_eq!(op.code(), b);
        }
    }
    assert_eq!(Opcode::try_from(0xBFu8).map(|o| o.code()), Ok(0xBF));
    assert_eq!(Opcode::try_from(0xFFu8).map(|o| o.code()), Err(0xFF));
}
