use koto_core::bytecode::{bytecode_to_string, Bytecode, Instruction, InstructionReader, Op, ReadError};

fn read_all(bytes: &Bytecode) -> Vec<Instruction> {
    let mut reader = InstructionReader::new(bytes);
    let mut result = Vec::new();
    while let Some(instruction) = reader.next() {
        result.push(instruction);
    }
    result
}

#[test]
fn ops_are_their_bytes() {
    assert_eq!(Op::Copy.to_byte(), 0);
    assert_eq!(Op::Debug.to_byte(), 57);
    assert_eq!(u8::from(Op::LoadNumberLong), 7);
    assert_eq!(Op::from_byte(43), Some(Op::Jump));
    assert_eq!(Op::from_byte(58), None);
    assert_eq!(Op::from_byte(255), None);
    for byte in 0..58u8 {
        assert_eq!(Op::from_byte(byte).unwrap().to_byte(), byte);
    }
}

#[test]
fn constant_index_255_is_short_and_256_is_long() {
    let mut short = Vec::new();
    Instruction::LoadNumber { register: 3, constant: 255 }.write(&mut short);
    assert_eq!(short, vec![Op::LoadNumber.to_byte(), 3, 255]);

    let mut long = Vec::new();
    Instruction::LoadNumber { register: 3, constant: 256 }.write(&mut long);
    assert_eq!(long, vec![Op::LoadNumberLong.to_byte(), 3, 0, 1, 0, 0]);

    assert_eq!(read_all(&short), vec![Instruction::LoadNumber { register: 3, constant: 255 }]);
    assert_eq!(read_all(&long), vec![Instruction::LoadNumber { register: 3, constant: 256 }]);
}

#[test]
fn long_constants_are_little_endian() {
    let mut bytes = Vec::new();
    Instruction::SetGlobal { global: 0x0403_0201, source: 9 }.write(&mut bytes);
    assert_eq!(bytes, vec![Op::SetGlobalLong.to_byte(), 1, 2, 3, 4, 9]);
    let mut bytes = Vec::new();
    Instruction::Debug { register: 1, constant: 7 }.write(&mut bytes);
    assert_eq!(bytes, vec![Op::Debug.to_byte(), 1, 7, 0, 0, 0]);
    assert_eq!(read_all(&bytes), vec![Instruction::Debug { register: 1, constant: 7 }]);
}

#[test]
fn jump_offsets_at_the_limits_round_trip() {
    for offset in [32767i16, -32767, -32768, 0, 1, -1] {
        for instruction in [
            Instruction::Jump { offset },
            Instruction::JumpTrue { register: 7, offset },
            Instruction::JumpFalse { register: 8, offset },
            Instruction::IteratorNext { output: 1, iterator: 2, jump_offset: offset },
        ] {
            let mut bytes = Vec::new();
            instruction.write(&mut bytes);
            assert_eq!(read_all(&bytes), vec![instruction]);
        }
    }
    let mut bytes = Vec::new();
    Instruction::Jump { offset: 32767 }.write(&mut bytes);
    assert_eq!(bytes, vec![Op::Jump.to_byte(), 0xff, 0x7f]);
    let mut bytes = Vec::new();
    Instruction::Jump { offset: -32767 }.write(&mut bytes);
    assert_eq!(bytes, vec![Op::Jump.to_byte(), 0x01, 0x80]);
    let mut bytes = Vec::new();
    Instruction::JumpBack { offset: 65535 }.write(&mut bytes);
    assert_eq!(read_all(&bytes), vec![Instruction::JumpBack { offset: 65535 }]);
}

#[test]
fn a_program_is_read_back() {
    let program = vec![
        Instruction::LoadNumber { register: 0, constant: 0 },
        Instruction::LoadNumber { register: 1, constant: 70000 },
        Instruction::Add { register: 2, lhs: 0, rhs: 1 },
        Instruction::Function { register: 3, arg_count: 2, capture_count: 1, size: 300 },
        Instruction::Capture { function: 3, target: 0, source: 2 },
        Instruction::CallChild { function: 3, parent: 4, arg: 5, arg_count: 2 },
        Instruction::MakeList { register: 6, size_hint: 1000 },
        Instruction::Return { register: 2 },
    ];
    let mut bytes = Vec::new();
    for instruction in &program {
        instruction.write(&mut bytes);
    }
    assert_eq!(read_all(&bytes), program);
}

#[test]
fn truncated_bytecode_is_reported() {
    let bytes = vec![Op::Copy.to_byte(), 1];
    let mut reader = InstructionReader::new(&bytes);
    assert_eq!(reader.next(), Some(Instruction::Error(ReadError::Truncated(Op::Copy))));
    assert_eq!(reader.ip, 2);
    assert_eq!(reader.next(), None);
    assert_eq!(reader.next(), None);
}

#[test]
fn unknown_operation_is_reported() {
    let bytes = vec![Op::SetTrue.to_byte(), 1, 200, 0, 0];
    assert_eq!(
        read_all(&bytes),
        vec![
            Instruction::SetTrue { register: 1 },
            Instruction::Error(ReadError::UnknownOp(200)),
        ]
    );
}

#[test]
fn empty_bytecode_has_no_instructions() {
    let bytes = Vec::new();
    assert_eq!(read_all(&bytes), vec![]);
    assert_eq!(bytecode_to_string(&bytes), "");
}

#[test]
fn listing_shows_offsets_and_operands() {
    let mut bytes = Vec::new();
    Instruction::LoadNumber { register: 0, constant: 300 }.write(&mut bytes);
    Instruction::Jump { offset: -5 }.write(&mut bytes);
    Instruction::Return { register: 0 }.write(&mut bytes);
    bytes.push(99);
    assert_eq!(
        bytecode_to_string(&bytes),
        "0\tLoadNumber\tregister: 0\tconstant: 300\n\
         6\tJump\toffset: -5\n\
         9\tReturn\tregister: 0\n\
         11\tError\tunknown operation: 99\n"
    );
    assert_eq!(
        bytecode_to_string(&vec![Op::MapAccess.to_byte()]),
        "0\tError\tincomplete: MapAccess\n"
    );
}
