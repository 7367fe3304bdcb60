use koto_core::bytecode::{bytecode_to_string, ChunkBuilder, Instruction, InstructionReader, SpanEntry, Chunk};
use koto_core::constant_pool::{Constant, ConstantPoolBuilder};
use koto_core::error::{Position, Span};

fn span(line: usize) -> Span {
    Span { start: Position { line, column: 0 }, end: Position { line, column: 9 } }
}

#[test]
fn every_instruction_is_covered_by_its_span() {
    let mut builder = ChunkBuilder::new();
    let one = builder.add_number(1.0f64.to_bits());
    let two = builder.add_number(2.0f64.to_bits());
    assert_eq!(builder.add_number(1.0f64.to_bits()), one);
    let name = builder.add_string("x");
    let program = vec![
        (Instruction::LoadNumber { register: 0, constant: one }, span(1)),
        (Instruction::LoadNumber { register: 1, constant: two }, span(1)),
        (Instruction::Add { register: 2, lhs: 0, rhs: 1 }, span(1)),
        (Instruction::SetGlobal { global: name, source: 2 }, span(1)),
        (Instruction::LoadGlobal { register: 0, constant: name }, span(2)),
        (Instruction::Return { register: 0 }, span(2)),
    ];
    for (instruction, span) in &program {
        builder.push_instruction(*instruction, *span);
    }
    let chunk = builder.build();
    assert_eq!(
        chunk.spans,
        vec![SpanEntry { ip: 0, span: span(1) }, SpanEntry { ip: 13, span: span(2) }]
    );
    let mut reader = InstructionReader::new(&chunk.bytes);
    let mut ip = reader.ip;
    let mut read = vec![];
    while let Some(instruction) = reader.next() {
        read.push((instruction, chunk.span_at(ip).expect("an instruction without a span")));
        ip = reader.ip;
    }
    assert_eq!(read, program);
    assert_eq!(chunk.constants.get(one), Some(Constant::Number(1.0f64.to_bits())));
    assert_eq!(chunk.constants.get_str(name), "x");
    assert_eq!(chunk.constants.len(), 3);
    assert_eq!(
        bytecode_to_string(&chunk.bytes),
        "0\tLoadNumber\tregister: 0\tconstant: 0\n\
         3\tLoadNumber\tregister: 1\tconstant: 1\n\
         6\tAdd\tregister: 2\tlhs: 0\trhs: 1\n\
         10\tSetGlobal\tglobal: 2\tsource: 2\n\
         13\tLoadGlobal\tregister: 0\tconstant: 2\n\
         16\tReturn\tregister: 0\n"
    );
}

#[test]
fn spans_are_found_by_offset() {
    let chunk = Chunk::new(
        vec![],
        ConstantPoolBuilder::new().build(),
        vec![
            SpanEntry { ip: 2, span: span(1) },
            SpanEntry { ip: 5, span: span(2) },
            SpanEntry { ip: 9, span: span(3) },
        ],
    );
    assert_eq!(chunk.span_at(0), None);
    assert_eq!(chunk.span_at(1), None);
    assert_eq!(chunk.span_at(2), Some(span(1)));
    assert_eq!(chunk.span_at(4), Some(span(1)));
    assert_eq!(chunk.span_at(5), Some(span(2)));
    assert_eq!(chunk.span_at(8), Some(span(2)));
    assert_eq!(chunk.span_at(9), Some(span(3)));
    assert_eq!(chunk.span_at(usize::MAX), Some(span(3)));
    let empty = Chunk::new(vec![], ConstantPoolBuilder::new().build(), vec![]);
    assert_eq!(empty.span_at(0), None);
}
