//! The instructions that bytecode is made of: an operation with its operands.
//!
//! An operand of one byte is written as it is. Wider operands are written
//! least significant byte first; a jump offset is a signed number of 16 bits in
//! two's complement. An operation that takes the index of a constant has a
//! short form, with one byte for the index, and a long form with four.

use crate::bytecode::op::Op;
use crate::text::{decimal, push_decimal, push_signed_decimal, signed_decimal};
use vstd::prelude::*;
use vstd::string::*;

verus! {

/// Why bytes could not be read as an instruction.
#[derive(Clone, Copy, Debug, PartialEq, Eq, Structural)]
pub enum ReadError {
    /// The byte stands for no operation.
    UnknownOp(u8),
    /// The bytecode ends before the operation's last operand.
    Truncated(Op),
}

/// An operation with its operands, as it is read from bytecode. An index of
/// a constant is held in 32 bits, whichever form it was written in.
#[allow(inconsistent_fields)]
#[derive(Clone, Copy, Debug, PartialEq, Eq, Structural)]
pub enum Instruction {
    /// What a reader yields in place of an instruction that it could not read.
    Error(ReadError),
    Copy { target: u8, source: u8 },
    DeepCopy { target: u8, source: u8 },
    SetEmpty { register: u8 },
    SetTrue { register: u8 },
    SetFalse { register: u8 },
    Return { register: u8 },
    LoadNumber { register: u8, constant: u32 },
    LoadString { register: u8, constant: u32 },
    LoadGlobal { register: u8, constant: u32 },
    SetGlobal { global: u32, source: u8 },
    MakeList { register: u8, size_hint: u32 },
    MakeMap { register: u8, size_hint: u32 },
    MakeVec4 { register: u8, count: u8, element: u8 },
    MakeIterator { register: u8, range: u8 },
    Function { register: u8, arg_count: u8, capture_count: u8, size: u16 },
    InstanceFunction { register: u8, arg_count: u8, capture_count: u8, size: u16 },
    Capture { function: u8, target: u8, source: u8 },
    LoadCapture { register: u8, capture: u8 },
    SetCapture { capture: u8, source: u8 },
    Range { register: u8, start: u8, end: u8 },
    RangeInclusive { register: u8, start: u8, end: u8 },
    RangeTo { register: u8, end: u8 },
    RangeToInclusive { register: u8, end: u8 },
    RangeFrom { register: u8, start: u8 },
    RangeFull { register: u8 },
    Negate { register: u8, source: u8 },
    Add { register: u8, lhs: u8, rhs: u8 },
    Subtract { register: u8, lhs: u8, rhs: u8 },
    Multiply { register: u8, lhs: u8, rhs: u8 },
    Divide { register: u8, lhs: u8, rhs: u8 },
    Modulo { register: u8, lhs: u8, rhs: u8 },
    Less { register: u8, lhs: u8, rhs: u8 },
    LessOrEqual { register: u8, lhs: u8, rhs: u8 },
    Greater { register: u8, lhs: u8, rhs: u8 },
    GreaterOrEqual { register: u8, lhs: u8, rhs: u8 },
    Equal { register: u8, lhs: u8, rhs: u8 },
    NotEqual { register: u8, lhs: u8, rhs: u8 },
    Jump { offset: i16 },
    JumpTrue { register: u8, offset: i16 },
    JumpFalse { register: u8, offset: i16 },
    JumpBack { offset: u16 },
    JumpBackFalse { offset: u16 },
    Call { function: u8, arg: u8, arg_count: u8 },
    CallChild { function: u8, parent: u8, arg: u8, arg_count: u8 },
    IteratorNext { output: u8, iterator: u8, jump_offset: i16 },
    ExpressionIndex { register: u8, multi_expression: u8, index: u8 },
    ListPush { list: u8, value: u8 },
    ListUpdate { list: u8, index: u8, value: u8 },
    ListIndex { register: u8, list: u8, index: u8 },
    MapInsert { map: u8, key: u8, value: u8 },
    MapAccess { register: u8, map: u8, key: u8 },
    Debug { register: u8, constant: u32 },
}

/// The number that two bytes stand for, least significant first.
pub open spec fn le16(b0: u8, b1: u8) -> u16 {
    (b0 as int + 256 * (b1 as int)) as u16
}

/// The number that four bytes stand for, least significant first.
pub open spec fn le32(b0: u8, b1: u8, b2: u8, b3: u8) -> u32 {
    (b0 as int + 256 * (b1 as int) + 65536 * (b2 as int) + 16777216 * (b3 as int)) as u32
}

/// The signed number that 16 bits stand for in two's complement.
pub open spec fn signed16(bits: u16) -> i16 {
    if bits < 32768 {
        bits as i16
    } else {
        (bits as int - 65536) as i16
    }
}

/// The 16 bits that stand for a signed number in two's complement.
pub open spec fn unsigned16(n: i16) -> u16 {
    if n >= 0 {
        n as u16
    } else {
        (n as int + 65536) as u16
    }
}

/// The two bytes of a number, least significant first.
pub open spec fn bytes16(n: u16) -> Seq<u8> {
    seq![(n % 256) as u8, (n / 256) as u8]
}

/// The four bytes of a number, least significant first.
pub open spec fn bytes32(n: u32) -> Seq<u8> {
    seq![
        (n % 256) as u8,
        ((n / 256) % 256) as u8,
        ((n / 65536) % 256) as u8,
        (n / 16777216) as u8,
    ]
}

impl Instruction {
    /// The instruction that an operation makes with its operand bytes `o`.
    pub open spec fn decode(op: Op, o: Seq<u8>) -> Instruction
        recommends
            o.len() == op.operand_len(),
    {
        match op {
            Op::Copy => Instruction::Copy { target: o[0], source: o[1] },
            Op::DeepCopy => Instruction::DeepCopy { target: o[0], source: o[1] },
            Op::SetEmpty => Instruction::SetEmpty { register: o[0] },
            Op::SetTrue => Instruction::SetTrue { register: o[0] },
            Op::SetFalse => Instruction::SetFalse { register: o[0] },
            Op::Return => Instruction::Return { register: o[0] },
            Op::LoadNumber => Instruction::LoadNumber { register: o[0], constant: o[1] as u32 },
            Op::LoadNumberLong => Instruction::LoadNumber { register: o[0], constant: le32(o[1], o[2], o[3], o[4]) },
            Op::LoadString => Instruction::LoadString { register: o[0], constant: o[1] as u32 },
            Op::LoadStringLong => Instruction::LoadString { register: o[0], constant: le32(o[1], o[2], o[3], o[4]) },
            Op::LoadGlobal => Instruction::LoadGlobal { register: o[0], constant: o[1] as u32 },
            Op::LoadGlobalLong => Instruction::LoadGlobal { register: o[0], constant: le32(o[1], o[2], o[3], o[4]) },
            Op::SetGlobal => Instruction::SetGlobal { global: o[0] as u32, source: o[1] },
            Op::SetGlobalLong => Instruction::SetGlobal { global: le32(o[0], o[1], o[2], o[3]), source: o[4] },
            Op::MakeList => Instruction::MakeList { register: o[0], size_hint: o[1] as u32 },
            Op::MakeListLong => Instruction::MakeList { register: o[0], size_hint: le32(o[1], o[2], o[3], o[4]) },
            Op::MakeMap => Instruction::MakeMap { register: o[0], size_hint: o[1] as u32 },
            Op::MakeMapLong => Instruction::MakeMap { register: o[0], size_hint: le32(o[1], o[2], o[3], o[4]) },
            Op::MakeVec4 => Instruction::MakeVec4 { register: o[0], count: o[1], element: o[2] },
            Op::MakeIterator => Instruction::MakeIterator { register: o[0], range: o[1] },
            Op::Function => Instruction::Function { register: o[0], arg_count: o[1], capture_count: o[2], size: le16(o[3], o[4]) },
            Op::InstanceFunction => Instruction::InstanceFunction { register: o[0], arg_count: o[1], capture_count: o[2], size: le16(o[3], o[4]) },
            Op::Capture => Instruction::Capture { function: o[0], target: o[1], source: o[2] },
            Op::LoadCapture => Instruction::LoadCapture { register: o[0], capture: o[1] },
            Op::SetCapture => Instruction::SetCapture { capture: o[0], source: o[1] },
            Op::Range => Instruction::Range { register: o[0], start: o[1], end: o[2] },
            Op::RangeInclusive => Instruction::RangeInclusive { register: o[0], start: o[1], end: o[2] },
            Op::RangeTo => Instruction::RangeTo { register: o[0], end: o[1] },
            Op::RangeToInclusive => Instruction::RangeToInclusive { register: o[0], end: o[1] },
            Op::RangeFrom => Instruction::RangeFrom { register: o[0], start: o[1] },
            Op::RangeFull => Instruction::RangeFull { register: o[0] },
            Op::Negate => Instruction::Negate { register: o[0], source: o[1] },
            Op::Add => Instruction::Add { register: o[0], lhs: o[1], rhs: o[2] },
            Op::Subtract => Instruction::Subtract { register: o[0], lhs: o[1], rhs: o[2] },
            Op::Multiply => Instruction::Multiply { register: o[0], lhs: o[1], rhs: o[2] },
            Op::Divide => Instruction::Divide { register: o[0], lhs: o[1], rhs: o[2] },
            Op::Modulo => Instruction::Modulo { register: o[0], lhs: o[1], rhs: o[2] },
            Op::Less => Instruction::Less { register: o[0], lhs: o[1], rhs: o[2] },
            Op::LessOrEqual => Instruction::LessOrEqual { register: o[0], lhs: o[1], rhs: o[2] },
            Op::Greater => Instruction::Greater { register: o[0], lhs: o[1], rhs: o[2] },
            Op::GreaterOrEqual => Instruction::GreaterOrEqual { register: o[0], lhs: o[1], rhs: o[2] },
            Op::Equal => Instruction::Equal { register: o[0], lhs: o[1], rhs: o[2] },
            Op::NotEqual => Instruction::NotEqual { register: o[0], lhs: o[1], rhs: o[2] },
            Op::Jump => Instruction::Jump { offset: signed16(le16(o[0], o[1])) },
            Op::JumpTrue => Instruction::JumpTrue { register: o[0], offset: signed16(le16(o[1], o[2])) },
            Op::JumpFalse => Instruction::JumpFalse { register: o[0], offset: signed16(le16(o[1], o[2])) },
            Op::JumpBack => Instruction::JumpBack { offset: le16(o[0], o[1]) },
            Op::JumpBackFalse => Instruction::JumpBackFalse { offset: le16(o[0], o[1]) },
            Op::Call => Instruction::Call { function: o[0], arg: o[1], arg_count: o[2] },
            Op::CallChild => Instruction::CallChild { function: o[0], parent: o[1], arg: o[2], arg_count: o[3] },
            Op::IteratorNext => Instruction::IteratorNext { output: o[0], iterator: o[1], jump_offset: signed16(le16(o[2], o[3])) },
            Op::ExpressionIndex => Instruction::ExpressionIndex { register: o[0], multi_expression: o[1], index: o[2] },
            Op::ListPush => Instruction::ListPush { list: o[0], value: o[1] },
            Op::ListUpdate => Instruction::ListUpdate { list: o[0], index: o[1], value: o[2] },
            Op::ListIndex => Instruction::ListIndex { register: o[0], list: o[1], index: o[2] },
            Op::MapInsert => Instruction::MapInsert { map: o[0], key: o[1], value: o[2] },
            Op::MapAccess => Instruction::MapAccess { register: o[0], map: o[1], key: o[2] },
            Op::Debug => Instruction::Debug { register: o[0], constant: le32(o[1], o[2], o[3], o[4]) },
        }
    }

    /// The operation that the instruction is written with: the short form
    /// where the index of the constant is at most 255, else the long form.
    pub open spec fn op(self) -> Op
        recommends
            !(self is Error),
    {
        match self {
            Instruction::Error(_) => Op::Copy,
            Instruction::Copy { .. } => Op::Copy,
            Instruction::DeepCopy { .. } => Op::DeepCopy,
            Instruction::SetEmpty { .. } => Op::SetEmpty,
            Instruction::SetTrue { .. } => Op::SetTrue,
            Instruction::SetFalse { .. } => Op::SetFalse,
            Instruction::Return { .. } => Op::Return,
            Instruction::LoadNumber { constant, .. } => if constant <= 255 {
                Op::LoadNumber
            } else {
                Op::LoadNumberLong
            },
            Instruction::LoadString { constant, .. } => if constant <= 255 {
                Op::LoadString
            } else {
                Op::LoadStringLong
            },
            Instruction::LoadGlobal { constant, .. } => if constant <= 255 {
                Op::LoadGlobal
            } else {
                Op::LoadGlobalLong
            },
            Instruction::SetGlobal { global, .. } => if global <= 255 {
                Op::SetGlobal
            } else {
                Op::SetGlobalLong
            },
            Instruction::MakeList { size_hint, .. } => if size_hint <= 255 {
                Op::MakeList
            } else {
                Op::MakeListLong
            },
            Instruction::MakeMap { size_hint, .. } => if size_hint <= 255 {
                Op::MakeMap
            } else {
                Op::MakeMapLong
            },
            Instruction::MakeVec4 { .. } => Op::MakeVec4,
            Instruction::MakeIterator { .. } => Op::MakeIterator,
            Instruction::Function { .. } => Op::Function,
            Instruction::InstanceFunction { .. } => Op::InstanceFunction,
            Instruction::Capture { .. } => Op::Capture,
            Instruction::LoadCapture { .. } => Op::LoadCapture,
            Instruction::SetCapture { .. } => Op::SetCapture,
            Instruction::Range { .. } => Op::Range,
            Instruction::RangeInclusive { .. } => Op::RangeInclusive,
            Instruction::RangeTo { .. } => Op::RangeTo,
            Instruction::RangeToInclusive { .. } => Op::RangeToInclusive,
            Instruction::RangeFrom { .. } => Op::RangeFrom,
            Instruction::RangeFull { .. } => Op::RangeFull,
            Instruction::Negate { .. } => Op::Negate,
            Instruction::Add { .. } => Op::Add,
            Instruction::Subtract { .. } => Op::Subtract,
            Instruction::Multiply { .. } => Op::Multiply,
            Instruction::Divide { .. } => Op::Divide,
            Instruction::Modulo { .. } => Op::Modulo,
            Instruction::Less { .. } => Op::Less,
            Instruction::LessOrEqual { .. } => Op::LessOrEqual,
            Instruction::Greater { .. } => Op::Greater,
            Instruction::GreaterOrEqual { .. } => Op::GreaterOrEqual,
            Instruction::Equal { .. } => Op::Equal,
            Instruction::NotEqual { .. } => Op::NotEqual,
            Instruction::Jump { .. } => Op::Jump,
            Instruction::JumpTrue { .. } => Op::JumpTrue,
            Instruction::JumpFalse { .. } => Op::JumpFalse,
            Instruction::JumpBack { .. } => Op::JumpBack,
            Instruction::JumpBackFalse { .. } => Op::JumpBackFalse,
            Instruction::Call { .. } => Op::Call,
            Instruction::CallChild { .. } => Op::CallChild,
            Instruction::IteratorNext { .. } => Op::IteratorNext,
            Instruction::ExpressionIndex { .. } => Op::ExpressionIndex,
            Instruction::ListPush { .. } => Op::ListPush,
            Instruction::ListUpdate { .. } => Op::ListUpdate,
            Instruction::ListIndex { .. } => Op::ListIndex,
            Instruction::MapInsert { .. } => Op::MapInsert,
            Instruction::MapAccess { .. } => Op::MapAccess,
            Instruction::Debug { .. } => Op::Debug,
        }
    }

    /// The operand bytes that the instruction is written with.
    pub open spec fn operands(self) -> Seq<u8>
        recommends
            !(self is Error),
    {
        match self {
            Instruction::Error(_) => seq![],
            Instruction::Copy { target, source } => seq![target] + seq![source],
            Instruction::DeepCopy { target, source } => seq![target] + seq![source],
            Instruction::SetEmpty { register } => seq![register],
            Instruction::SetTrue { register } => seq![register],
            Instruction::SetFalse { register } => seq![register],
            Instruction::Return { register } => seq![register],
            Instruction::LoadNumber { register, constant } => seq![register] + (if constant <= 255 {
                seq![constant as u8]
            } else {
                bytes32(constant)
            }),
            Instruction::LoadString { register, constant } => seq![register] + (if constant <= 255 {
                seq![constant as u8]
            } else {
                bytes32(constant)
            }),
            Instruction::LoadGlobal { register, constant } => seq![register] + (if constant <= 255 {
                seq![constant as u8]
            } else {
                bytes32(constant)
            }),
            Instruction::SetGlobal { global, source } => (if global <= 255 {
                seq![global as u8]
            } else {
                bytes32(global)
            }) + seq![source],
            Instruction::MakeList { register, size_hint } => seq![register] + (if size_hint <= 255 {
                seq![size_hint as u8]
            } else {
                bytes32(size_hint)
            }),
            Instruction::MakeMap { register, size_hint } => seq![register] + (if size_hint <= 255 {
                seq![size_hint as u8]
            } else {
                bytes32(size_hint)
            }),
            Instruction::MakeVec4 { register, count, element } => seq![register] + seq![count] + seq![element],
            Instruction::MakeIterator { register, range } => seq![register] + seq![range],
            Instruction::Function { register, arg_count, capture_count, size } => seq![register] + seq![arg_count] + seq![capture_count] + bytes16(size),
            Instruction::InstanceFunction { register, arg_count, capture_count, size } => seq![register] + seq![arg_count] + seq![capture_count] + bytes16(size),
            Instruction::Capture { function, target, source } => seq![function] + seq![target] + seq![source],
            Instruction::LoadCapture { register, capture } => seq![register] + seq![capture],
            Instruction::SetCapture { capture, source } => seq![capture] + seq![source],
            Instruction::Range { register, start, end } => seq![register] + seq![start] + seq![end],
            Instruction::RangeInclusive { register, start, end } => seq![register] + seq![start] + seq![end],
            Instruction::RangeTo { register, end } => seq![register] + seq![end],
            Instruction::RangeToInclusive { register, end } => seq![register] + seq![end],
            Instruction::RangeFrom { register, start } => seq![register] + seq![start],
            Instruction::RangeFull { register } => seq![register],
            Instruction::Negate { register, source } => seq![register] + seq![source],
            Instruction::Add { register, lhs, rhs } => seq![register] + seq![lhs] + seq![rhs],
            Instruction::Subtract { register, lhs, rhs } => seq![register] + seq![lhs] + seq![rhs],
            Instruction::Multiply { register, lhs, rhs } => seq![register] + seq![lhs] + seq![rhs],
            Instruction::Divide { register, lhs, rhs } => seq![register] + seq![lhs] + seq![rhs],
            Instruction::Modulo { register, lhs, rhs } => seq![register] + seq![lhs] + seq![rhs],
            Instruction::Less { register, lhs, rhs } => seq![register] + seq![lhs] + seq![rhs],
            Instruction::LessOrEqual { register, lhs, rhs } => seq![register] + seq![lhs] + seq![rhs],
            Instruction::Greater { register, lhs, rhs } => seq![register] + seq![lhs] + seq![rhs],
            Instruction::GreaterOrEqual { register, lhs, rhs } => seq![register] + seq![lhs] + seq![rhs],
            Instruction::Equal { register, lhs, rhs } => seq![register] + seq![lhs] + seq![rhs],
            Instruction::NotEqual { register, lhs, rhs } => seq![register] + seq![lhs] + seq![rhs],
            Instruction::Jump { offset } => bytes16(unsigned16(offset)),
            Instruction::JumpTrue { register, offset } => seq![register] + bytes16(unsigned16(offset)),
            Instruction::JumpFalse { register, offset } => seq![register] + bytes16(unsigned16(offset)),
            Instruction::JumpBack { offset } => bytes16(offset),
            Instruction::JumpBackFalse { offset } => bytes16(offset),
            Instruction::Call { function, arg, arg_count } => seq![function] + seq![arg] + seq![arg_count],
            Instruction::CallChild { function, parent, arg, arg_count } => seq![function] + seq![parent] + seq![arg] + seq![arg_count],
            Instruction::IteratorNext { output, iterator, jump_offset } => seq![output] + seq![iterator] + bytes16(unsigned16(jump_offset)),
            Instruction::ExpressionIndex { register, multi_expression, index } => seq![register] + seq![multi_expression] + seq![index],
            Instruction::ListPush { list, value } => seq![list] + seq![value],
            Instruction::ListUpdate { list, index, value } => seq![list] + seq![index] + seq![value],
            Instruction::ListIndex { register, list, index } => seq![register] + seq![list] + seq![index],
            Instruction::MapInsert { map, key, value } => seq![map] + seq![key] + seq![value],
            Instruction::MapAccess { register, map, key } => seq![register] + seq![map] + seq![key],
            Instruction::Debug { register, constant } => seq![register] + bytes32(constant),
        }
    }

    /// The bytes that the instruction is written as: its operation, then its operands.
    pub open spec fn encoding(self) -> Seq<u8>
        recommends
            !(self is Error),
    {
        seq![self.op().byte()] + self.operands()
    }

    /// The instruction as a line of a listing: the operation's name, then
    /// each operand behind a tab, as its name, a colon and its value.
    pub open spec fn text(self) -> Seq<char> {
        match self {
            Instruction::Error(ReadError::UnknownOp(byte)) => "Error\tunknown operation: "@ + decimal(
                byte as nat,
            ),
            Instruction::Error(ReadError::Truncated(op)) => "Error\tincomplete: "@ + op.name(),
            Instruction::Copy { target, source } => "Copy"@ + "\ttarget: "@ + decimal(target as nat) + "\tsource: "@ + decimal(source as nat),
            Instruction::DeepCopy { target, source } => "DeepCopy"@ + "\ttarget: "@ + decimal(target as nat) + "\tsource: "@ + decimal(source as nat),
            Instruction::SetEmpty { register } => "SetEmpty"@ + "\tregister: "@ + decimal(register as nat),
            Instruction::SetTrue { register } => "SetTrue"@ + "\tregister: "@ + decimal(register as nat),
            Instruction::SetFalse { register } => "SetFalse"@ + "\tregister: "@ + decimal(register as nat),
            Instruction::Return { register } => "Return"@ + "\tregister: "@ + decimal(register as nat),
            Instruction::LoadNumber { register, constant } => "LoadNumber"@ + "\tregister: "@ + decimal(register as nat) + "\tconstant: "@ + decimal(constant as nat),
            Instruction::LoadString { register, constant } => "LoadString"@ + "\tregister: "@ + decimal(register as nat) + "\tconstant: "@ + decimal(constant as nat),
            Instruction::LoadGlobal { register, constant } => "LoadGlobal"@ + "\tregister: "@ + decimal(register as nat) + "\tconstant: "@ + decimal(constant as nat),
            Instruction::SetGlobal { global, source } => "SetGlobal"@ + "\tglobal: "@ + decimal(global as nat) + "\tsource: "@ + decimal(source as nat),
            Instruction::MakeList { register, size_hint } => "MakeList"@ + "\tregister: "@ + decimal(register as nat) + "\tsize_hint: "@ + decimal(size_hint as nat),
            Instruction::MakeMap { register, size_hint } => "MakeMap"@ + "\tregister: "@ + decimal(register as nat) + "\tsize_hint: "@ + decimal(size_hint as nat),
            Instruction::MakeVec4 { register, count, element } => "MakeVec4"@ + "\tregister: "@ + decimal(register as nat) + "\tcount: "@ + decimal(count as nat) + "\telement: "@ + decimal(element as nat),
            Instruction::MakeIterator { register, range } => "MakeIterator"@ + "\tregister: "@ + decimal(register as nat) + "\trange: "@ + decimal(range as nat),
            Instruction::Function { register, arg_count, capture_count, size } => "Function"@ + "\tregister: "@ + decimal(register as nat) + "\targ_count: "@ + decimal(arg_count as nat) + "\tcapture_count: "@ + decimal(capture_count as nat) + "\tsize: "@ + decimal(size as nat),
            Instruction::InstanceFunction { register, arg_count, capture_count, size } => "InstanceFunction"@ + "\tregister: "@ + decimal(register as nat) + "\targ_count: "@ + decimal(arg_count as nat) + "\tcapture_count: "@ + decimal(capture_count as nat) + "\tsize: "@ + decimal(size as nat),
            Instruction::Capture { function, target, source } => "Capture"@ + "\tfunction: "@ + decimal(function as nat) + "\ttarget: "@ + decimal(target as nat) + "\tsource: "@ + decimal(source as nat),
            Instruction::LoadCapture { register, capture } => "LoadCapture"@ + "\tregister: "@ + decimal(register as nat) + "\tcapture: "@ + decimal(capture as nat),
            Instruction::SetCapture { capture, source } => "SetCapture"@ + "\tcapture: "@ + decimal(capture as nat) + "\tsource: "@ + decimal(source as nat),
            Instruction::Range { register, start, end } => "Range"@ + "\tregister: "@ + decimal(register as nat) + "\tstart: "@ + decimal(start as nat) + "\tend: "@ + decimal(end as nat),
            Instruction::RangeInclusive { register, start, end } => "RangeInclusive"@ + "\tregister: "@ + decimal(register as nat) + "\tstart: "@ + decimal(start as nat) + "\tend: "@ + decimal(end as nat),
            Instruction::RangeTo { register, end } => "RangeTo"@ + "\tregister: "@ + decimal(register as nat) + "\tend: "@ + decimal(end as nat),
            Instruction::RangeToInclusive { register, end } => "RangeToInclusive"@ + "\tregister: "@ + decimal(register as nat) + "\tend: "@ + decimal(end as nat),
            Instruction::RangeFrom { register, start } => "RangeFrom"@ + "\tregister: "@ + decimal(register as nat) + "\tstart: "@ + decimal(start as nat),
            Instruction::RangeFull { register } => "RangeFull"@ + "\tregister: "@ + decimal(register as nat),
            Instruction::Negate { register, source } => "Negate"@ + "\tregister: "@ + decimal(register as nat) + "\tsource: "@ + decimal(source as nat),
            Instruction::Add { register, lhs, rhs } => "Add"@ + "\tregister: "@ + decimal(register as nat) + "\tlhs: "@ + decimal(lhs as nat) + "\trhs: "@ + decimal(rhs as nat),
            Instruction::Subtract { register, lhs, rhs } => "Subtract"@ + "\tregister: "@ + decimal(register as nat) + "\tlhs: "@ + decimal(lhs as nat) + "\trhs: "@ + decimal(rhs as nat),
            Instruction::Multiply { register, lhs, rhs } => "Multiply"@ + "\tregister: "@ + decimal(register as nat) + "\tlhs: "@ + decimal(lhs as nat) + "\trhs: "@ + decimal(rhs as nat),
            Instruction::Divide { register, lhs, rhs } => "Divide"@ + "\tregister: "@ + decimal(register as nat) + "\tlhs: "@ + decimal(lhs as nat) + "\trhs: "@ + decimal(rhs as nat),
            Instruction::Modulo { register, lhs, rhs } => "Modulo"@ + "\tregister: "@ + decimal(register as nat) + "\tlhs: "@ + decimal(lhs as nat) + "\trhs: "@ + decimal(rhs as nat),
            Instruction::Less { register, lhs, rhs } => "Less"@ + "\tregister: "@ + decimal(register as nat) + "\tlhs: "@ + decimal(lhs as nat) + "\trhs: "@ + decimal(rhs as nat),
            Instruction::LessOrEqual { register, lhs, rhs } => "LessOrEqual"@ + "\tregister: "@ + decimal(register as nat) + "\tlhs: "@ + decimal(lhs as nat) + "\trhs: "@ + decimal(rhs as nat),
            Instruction::Greater { register, lhs, rhs } => "Greater"@ + "\tregister: "@ + decimal(register as nat) + "\tlhs: "@ + decimal(lhs as nat) + "\trhs: "@ + decimal(rhs as nat),
            Instruction::GreaterOrEqual { register, lhs, rhs } => "GreaterOrEqual"@ + "\tregister: "@ + decimal(register as nat) + "\tlhs: "@ + decimal(lhs as nat) + "\trhs: "@ + decimal(rhs as nat),
            Instruction::Equal { register, lhs, rhs } => "Equal"@ + "\tregister: "@ + decimal(register as nat) + "\tlhs: "@ + decimal(lhs as nat) + "\trhs: "@ + decimal(rhs as nat),
            Instruction::NotEqual { register, lhs, rhs } => "NotEqual"@ + "\tregister: "@ + decimal(register as nat) + "\tlhs: "@ + decimal(lhs as nat) + "\trhs: "@ + decimal(rhs as nat),
            Instruction::Jump { offset } => "Jump"@ + "\toffset: "@ + signed_decimal(offset as int),
            Instruction::JumpTrue { register, offset } => "JumpTrue"@ + "\tregister: "@ + decimal(register as nat) + "\toffset: "@ + signed_decimal(offset as int),
            Instruction::JumpFalse { register, offset } => "JumpFalse"@ + "\tregister: "@ + decimal(register as nat) + "\toffset: "@ + signed_decimal(offset as int),
            Instruction::JumpBack { offset } => "JumpBack"@ + "\toffset: "@ + decimal(offset as nat),
            Instruction::JumpBackFalse { offset } => "JumpBackFalse"@ + "\toffset: "@ + decimal(offset as nat),
            Instruction::Call { function, arg, arg_count } => "Call"@ + "\tfunction: "@ + decimal(function as nat) + "\targ: "@ + decimal(arg as nat) + "\targ_count: "@ + decimal(arg_count as nat),
            Instruction::CallChild { function, parent, arg, arg_count } => "CallChild"@ + "\tfunction: "@ + decimal(function as nat) + "\tparent: "@ + decimal(parent as nat) + "\targ: "@ + decimal(arg as nat) + "\targ_count: "@ + decimal(arg_count as nat),
            Instruction::IteratorNext { output, iterator, jump_offset } => "IteratorNext"@ + "\toutput: "@ + decimal(output as nat) + "\titerator: "@ + decimal(iterator as nat) + "\tjump_offset: "@ + signed_decimal(jump_offset as int),
            Instruction::ExpressionIndex { register, multi_expression, index } => "ExpressionIndex"@ + "\tregister: "@ + decimal(register as nat) + "\tmulti_expression: "@ + decimal(multi_expression as nat) + "\tindex: "@ + decimal(index as nat),
            Instruction::ListPush { list, value } => "ListPush"@ + "\tlist: "@ + decimal(list as nat) + "\tvalue: "@ + decimal(value as nat),
            Instruction::ListUpdate { list, index, value } => "ListUpdate"@ + "\tlist: "@ + decimal(list as nat) + "\tindex: "@ + decimal(index as nat) + "\tvalue: "@ + decimal(value as nat),
            Instruction::ListIndex { register, list, index } => "ListIndex"@ + "\tregister: "@ + decimal(register as nat) + "\tlist: "@ + decimal(list as nat) + "\tindex: "@ + decimal(index as nat),
            Instruction::MapInsert { map, key, value } => "MapInsert"@ + "\tmap: "@ + decimal(map as nat) + "\tkey: "@ + decimal(key as nat) + "\tvalue: "@ + decimal(value as nat),
            Instruction::MapAccess { register, map, key } => "MapAccess"@ + "\tregister: "@ + decimal(register as nat) + "\tmap: "@ + decimal(map as nat) + "\tkey: "@ + decimal(key as nat),
            Instruction::Debug { register, constant } => "Debug"@ + "\tregister: "@ + decimal(register as nat) + "\tconstant: "@ + decimal(constant as nat),
        }
    }

    /// Reads the operands of `op` that stand in `bytes` from `at` on.
    pub fn read(op: Op, bytes: &[u8], at: usize) -> (instruction: Instruction)
        requires
            at + op.operand_len() <= bytes@.len(),
        ensures
            instruction == Instruction::decode(
                op,
                bytes@.subrange(at as int, at + op.operand_len()),
            ),
    {
        let ghost o = bytes@.subrange(at as int, at + op.operand_len());
        assert(forall|k: int| 0 <= k < op.operand_len() ==> o[k] == bytes@[at + k]);
        match op {
            Op::Copy => Instruction::Copy { target: bytes[at], source: bytes[at + 1] },
            Op::DeepCopy => Instruction::DeepCopy { target: bytes[at], source: bytes[at + 1] },
            Op::SetEmpty => Instruction::SetEmpty { register: bytes[at] },
            Op::SetTrue => Instruction::SetTrue { register: bytes[at] },
            Op::SetFalse => Instruction::SetFalse { register: bytes[at] },
            Op::Return => Instruction::Return { register: bytes[at] },
            Op::LoadNumber => Instruction::LoadNumber { register: bytes[at], constant: bytes[at + 1] as u32 },
            Op::LoadNumberLong => Instruction::LoadNumber { register: bytes[at], constant: read32(bytes[at + 1], bytes[at + 2], bytes[at + 3], bytes[at + 4]) },
            Op::LoadString => Instruction::LoadString { register: bytes[at], constant: bytes[at + 1] as u32 },
            Op::LoadStringLong => Instruction::LoadString { register: bytes[at], constant: read32(bytes[at + 1], bytes[at + 2], bytes[at + 3], bytes[at + 4]) },
            Op::LoadGlobal => Instruction::LoadGlobal { register: bytes[at], constant: bytes[at + 1] as u32 },
            Op::LoadGlobalLong => Instruction::LoadGlobal { register: bytes[at], constant: read32(bytes[at + 1], bytes[at + 2], bytes[at + 3], bytes[at + 4]) },
            Op::SetGlobal => Instruction::SetGlobal { global: bytes[at] as u32, source: bytes[at + 1] },
            Op::SetGlobalLong => Instruction::SetGlobal { global: read32(bytes[at], bytes[at + 1], bytes[at + 2], bytes[at + 3]), source: bytes[at + 4] },
            Op::MakeList => Instruction::MakeList { register: bytes[at], size_hint: bytes[at + 1] as u32 },
            Op::MakeListLong => Instruction::MakeList { register: bytes[at], size_hint: read32(bytes[at + 1], bytes[at + 2], bytes[at + 3], bytes[at + 4]) },
            Op::MakeMap => Instruction::MakeMap { register: bytes[at], size_hint: bytes[at + 1] as u32 },
            Op::MakeMapLong => Instruction::MakeMap { register: bytes[at], size_hint: read32(bytes[at + 1], bytes[at + 2], bytes[at + 3], bytes[at + 4]) },
            Op::MakeVec4 => Instruction::MakeVec4 { register: bytes[at], count: bytes[at + 1], element: bytes[at + 2] },
            Op::MakeIterator => Instruction::MakeIterator { register: bytes[at], range: bytes[at + 1] },
            Op::Function => Instruction::Function { register: bytes[at], arg_count: bytes[at + 1], capture_count: bytes[at + 2], size: read16(bytes[at + 3], bytes[at + 4]) },
            Op::InstanceFunction => Instruction::InstanceFunction { register: bytes[at], arg_count: bytes[at + 1], capture_count: bytes[at + 2], size: read16(bytes[at + 3], bytes[at + 4]) },
            Op::Capture => Instruction::Capture { function: bytes[at], target: bytes[at + 1], source: bytes[at + 2] },
            Op::LoadCapture => Instruction::LoadCapture { register: bytes[at], capture: bytes[at + 1] },
            Op::SetCapture => Instruction::SetCapture { capture: bytes[at], source: bytes[at + 1] },
            Op::Range => Instruction::Range { register: bytes[at], start: bytes[at + 1], end: bytes[at + 2] },
            Op::RangeInclusive => Instruction::RangeInclusive { register: bytes[at], start: bytes[at + 1], end: bytes[at + 2] },
            Op::RangeTo => Instruction::RangeTo { register: bytes[at], end: bytes[at + 1] },
            Op::RangeToInclusive => Instruction::RangeToInclusive { register: bytes[at], end: bytes[at + 1] },
            Op::RangeFrom => Instruction::RangeFrom { register: bytes[at], start: bytes[at + 1] },
            Op::RangeFull => Instruction::RangeFull { register: bytes[at] },
            Op::Negate => Instruction::Negate { register: bytes[at], source: bytes[at + 1] },
            Op::Add => Instruction::Add { register: bytes[at], lhs: bytes[at + 1], rhs: bytes[at + 2] },
            Op::Subtract => Instruction::Subtract { register: bytes[at], lhs: bytes[at + 1], rhs: bytes[at + 2] },
            Op::Multiply => Instruction::Multiply { register: bytes[at], lhs: bytes[at + 1], rhs: bytes[at + 2] },
            Op::Divide => Instruction::Divide { register: bytes[at], lhs: bytes[at + 1], rhs: bytes[at + 2] },
            Op::Modulo => Instruction::Modulo { register: bytes[at], lhs: bytes[at + 1], rhs: bytes[at + 2] },
            Op::Less => Instruction::Less { register: bytes[at], lhs: bytes[at + 1], rhs: bytes[at + 2] },
            Op::LessOrEqual => Instruction::LessOrEqual { register: bytes[at], lhs: bytes[at + 1], rhs: bytes[at + 2] },
            Op::Greater => Instruction::Greater { register: bytes[at], lhs: bytes[at + 1], rhs: bytes[at + 2] },
            Op::GreaterOrEqual => Instruction::GreaterOrEqual { register: bytes[at], lhs: bytes[at + 1], rhs: bytes[at + 2] },
            Op::Equal => Instruction::Equal { register: bytes[at], lhs: bytes[at + 1], rhs: bytes[at + 2] },
            Op::NotEqual => Instruction::NotEqual { register: bytes[at], lhs: bytes[at + 1], rhs: bytes[at + 2] },
            Op::Jump => Instruction::Jump { offset: to_signed16(read16(bytes[at], bytes[at + 1])) },
            Op::JumpTrue => Instruction::JumpTrue { register: bytes[at], offset: to_signed16(read16(bytes[at + 1], bytes[at + 2])) },
            Op::JumpFalse => Instruction::JumpFalse { register: bytes[at], offset: to_signed16(read16(bytes[at + 1], bytes[at + 2])) },
            Op::JumpBack => Instruction::JumpBack { offset: read16(bytes[at], bytes[at + 1]) },
            Op::JumpBackFalse => Instruction::JumpBackFalse { offset: read16(bytes[at], bytes[at + 1]) },
            Op::Call => Instruction::Call { function: bytes[at], arg: bytes[at + 1], arg_count: bytes[at + 2] },
            Op::CallChild => Instruction::CallChild { function: bytes[at], parent: bytes[at + 1], arg: bytes[at + 2], arg_count: bytes[at + 3] },
            Op::IteratorNext => Instruction::IteratorNext { output: bytes[at], iterator: bytes[at + 1], jump_offset: to_signed16(read16(bytes[at + 2], bytes[at + 3])) },
            Op::ExpressionIndex => Instruction::ExpressionIndex { register: bytes[at], multi_expression: bytes[at + 1], index: bytes[at + 2] },
            Op::ListPush => Instruction::ListPush { list: bytes[at], value: bytes[at + 1] },
            Op::ListUpdate => Instruction::ListUpdate { list: bytes[at], index: bytes[at + 1], value: bytes[at + 2] },
            Op::ListIndex => Instruction::ListIndex { register: bytes[at], list: bytes[at + 1], index: bytes[at + 2] },
            Op::MapInsert => Instruction::MapInsert { map: bytes[at], key: bytes[at + 1], value: bytes[at + 2] },
            Op::MapAccess => Instruction::MapAccess { register: bytes[at], map: bytes[at + 1], key: bytes[at + 2] },
            Op::Debug => Instruction::Debug { register: bytes[at], constant: read32(bytes[at + 1], bytes[at + 2], bytes[at + 3], bytes[at + 4]) },
        }
    }

    /// Appends the instruction to `bytes`.
    pub fn write(&self, bytes: &mut Vec<u8>)
        requires
            !(self is Error),
        ensures
            final(bytes)@ == old(bytes)@ + self.encoding(),
    {
        match *self {
            Instruction::Error(_) => {},
            Instruction::Copy { target, source } => {
                bytes.push(Op::Copy.to_byte());
                bytes.push(target);
                bytes.push(source);
            },
            Instruction::DeepCopy { target, source } => {
                bytes.push(Op::DeepCopy.to_byte());
                bytes.push(target);
                bytes.push(source);
            },
            Instruction::SetEmpty { register } => {
                bytes.push(Op::SetEmpty.to_byte());
                bytes.push(register);
            },
            Instruction::SetTrue { register } => {
                bytes.push(Op::SetTrue.to_byte());
                bytes.push(register);
            },
            Instruction::SetFalse { register } => {
                bytes.push(Op::SetFalse.to_byte());
                bytes.push(register);
            },
            Instruction::Return { register } => {
                bytes.push(Op::Return.to_byte());
                bytes.push(register);
            },
            Instruction::LoadNumber { register, constant } => {
if constant <= 255 {
                    bytes.push(Op::LoadNumber.to_byte());
                    bytes.push(register);
                    bytes.push(constant as u8);
                } else {
                    bytes.push(Op::LoadNumberLong.to_byte());
                    bytes.push(register);
                    write32(bytes, constant);
                }
            },
            Instruction::LoadString { register, constant } => {
if constant <= 255 {
                    bytes.push(Op::LoadString.to_byte());
                    bytes.push(register);
                    bytes.push(constant as u8);
                } else {
                    bytes.push(Op::LoadStringLong.to_byte());
                    bytes.push(register);
                    write32(bytes, constant);
                }
            },
            Instruction::LoadGlobal { register, constant } => {
if constant <= 255 {
                    bytes.push(Op::LoadGlobal.to_byte());
                    bytes.push(register);
                    bytes.push(constant as u8);
                } else {
                    bytes.push(Op::LoadGlobalLong.to_byte());
                    bytes.push(register);
                    write32(bytes, constant);
                }
            },
            Instruction::SetGlobal { global, source } => {
if global <= 255 {
                    bytes.push(Op::SetGlobal.to_byte());
                    bytes.push(global as u8);
                    bytes.push(source);
                } else {
                    bytes.push(Op::SetGlobalLong.to_byte());
                    write32(bytes, global);
                    bytes.push(source);
                }
            },
            Instruction::MakeList { register, size_hint } => {
if size_hint <= 255 {
                    bytes.push(Op::MakeList.to_byte());
                    bytes.push(register);
                    bytes.push(size_hint as u8);
                } else {
                    bytes.push(Op::MakeListLong.to_byte());
                    bytes.push(register);
                    write32(bytes, size_hint);
                }
            },
            Instruction::MakeMap { register, size_hint } => {
if size_hint <= 255 {
                    bytes.push(Op::MakeMap.to_byte());
                    bytes.push(register);
                    bytes.push(size_hint as u8);
                } else {
                    bytes.push(Op::MakeMapLong.to_byte());
                    bytes.push(register);
                    write32(bytes, size_hint);
                }
            },
            Instruction::MakeVec4 { register, count, element } => {
                bytes.push(Op::MakeVec4.to_byte());
                bytes.push(register);
                bytes.push(count);
                bytes.push(element);
            },
            Instruction::MakeIterator { register, range } => {
                bytes.push(Op::MakeIterator.to_byte());
                bytes.push(register);
                bytes.push(range);
            },
            Instruction::Function { register, arg_count, capture_count, size } => {
                bytes.push(Op::Function.to_byte());
                bytes.push(register);
                bytes.push(arg_count);
                bytes.push(capture_count);
                write16(bytes, size);
            },
            Instruction::InstanceFunction { register, arg_count, capture_count, size } => {
                bytes.push(Op::InstanceFunction.to_byte());
                bytes.push(register);
                bytes.push(arg_count);
                bytes.push(capture_count);
                write16(bytes, size);
            },
            Instruction::Capture { function, target, source } => {
                bytes.push(Op::Capture.to_byte());
                bytes.push(function);
                bytes.push(target);
                bytes.push(source);
            },
            Instruction::LoadCapture { register, capture } => {
                bytes.push(Op::LoadCapture.to_byte());
                bytes.push(register);
                bytes.push(capture);
            },
            Instruction::SetCapture { capture, source } => {
                bytes.push(Op::SetCapture.to_byte());
                bytes.push(capture);
                bytes.push(source);
            },
            Instruction::Range { register, start, end } => {
                bytes.push(Op::Range.to_byte());
                bytes.push(register);
                bytes.push(start);
                bytes.push(end);
            },
            Instruction::RangeInclusive { register, start, end } => {
                bytes.push(Op::RangeInclusive.to_byte());
                bytes.push(register);
                bytes.push(start);
                bytes.push(end);
            },
            Instruction::RangeTo { register, end } => {
                bytes.push(Op::RangeTo.to_byte());
                bytes.push(register);
                bytes.push(end);
            },
            Instruction::RangeToInclusive { register, end } => {
                bytes.push(Op::RangeToInclusive.to_byte());
                bytes.push(register);
                bytes.push(end);
            },
            Instruction::RangeFrom { register, start } => {
                bytes.push(Op::RangeFrom.to_byte());
                bytes.push(register);
                bytes.push(start);
            },
            Instruction::RangeFull { register } => {
                bytes.push(Op::RangeFull.to_byte());
                bytes.push(register);
            },
            Instruction::Negate { register, source } => {
                bytes.push(Op::Negate.to_byte());
                bytes.push(register);
                bytes.push(source);
            },
            Instruction::Add { register, lhs, rhs } => {
                bytes.push(Op::Add.to_byte());
                bytes.push(register);
                bytes.push(lhs);
                bytes.push(rhs);
            },
            Instruction::Subtract { register, lhs, rhs } => {
                bytes.push(Op::Subtract.to_byte());
                bytes.push(register);
                bytes.push(lhs);
                bytes.push(rhs);
            },
            Instruction::Multiply { register, lhs, rhs } => {
                bytes.push(Op::Multiply.to_byte());
                bytes.push(register);
                bytes.push(lhs);
                bytes.push(rhs);
            },
            Instruction::Divide { register, lhs, rhs } => {
                bytes.push(Op::Divide.to_byte());
                bytes.push(register);
                bytes.push(lhs);
                bytes.push(rhs);
            },
            Instruction::Modulo { register, lhs, rhs } => {
                bytes.push(Op::Modulo.to_byte());
                bytes.push(register);
                bytes.push(lhs);
                bytes.push(rhs);
            },
            Instruction::Less { register, lhs, rhs } => {
                bytes.push(Op::Less.to_byte());
                bytes.push(register);
                bytes.push(lhs);
                bytes.push(rhs);
            },
            Instruction::LessOrEqual { register, lhs, rhs } => {
                bytes.push(Op::LessOrEqual.to_byte());
                bytes.push(register);
                bytes.push(lhs);
                bytes.push(rhs);
            },
            Instruction::Greater { register, lhs, rhs } => {
                bytes.push(Op::Greater.to_byte());
                bytes.push(register);
                bytes.push(lhs);
                bytes.push(rhs);
            },
            Instruction::GreaterOrEqual { register, lhs, rhs } => {
                bytes.push(Op::GreaterOrEqual.to_byte());
                bytes.push(register);
                bytes.push(lhs);
                bytes.push(rhs);
            },
            Instruction::Equal { register, lhs, rhs } => {
                bytes.push(Op::Equal.to_byte());
                bytes.push(register);
                bytes.push(lhs);
                bytes.push(rhs);
            },
            Instruction::NotEqual { register, lhs, rhs } => {
                bytes.push(Op::NotEqual.to_byte());
                bytes.push(register);
                bytes.push(lhs);
                bytes.push(rhs);
            },
            Instruction::Jump { offset } => {
                bytes.push(Op::Jump.to_byte());
                write16(bytes, to_unsigned16(offset));
            },
            Instruction::JumpTrue { register, offset } => {
                bytes.push(Op::JumpTrue.to_byte());
                bytes.push(register);
                write16(bytes, to_unsigned16(offset));
            },
            Instruction::JumpFalse { register, offset } => {
                bytes.push(Op::JumpFalse.to_byte());
                bytes.push(register);
                write16(bytes, to_unsigned16(offset));
            },
            Instruction::JumpBack { offset } => {
                bytes.push(Op::JumpBack.to_byte());
                write16(bytes, offset);
            },
            Instruction::JumpBackFalse { offset } => {
                bytes.push(Op::JumpBackFalse.to_byte());
                write16(bytes, offset);
            },
            Instruction::Call { function, arg, arg_count } => {
                bytes.push(Op::Call.to_byte());
                bytes.push(function);
                bytes.push(arg);
                bytes.push(arg_count);
            },
            Instruction::CallChild { function, parent, arg, arg_count } => {
                bytes.push(Op::CallChild.to_byte());
                bytes.push(function);
                bytes.push(parent);
                bytes.push(arg);
                bytes.push(arg_count);
            },
            Instruction::IteratorNext { output, iterator, jump_offset } => {
                bytes.push(Op::IteratorNext.to_byte());
                bytes.push(output);
                bytes.push(iterator);
                write16(bytes, to_unsigned16(jump_offset));
            },
            Instruction::ExpressionIndex { register, multi_expression, index } => {
                bytes.push(Op::ExpressionIndex.to_byte());
                bytes.push(register);
                bytes.push(multi_expression);
                bytes.push(index);
            },
            Instruction::ListPush { list, value } => {
                bytes.push(Op::ListPush.to_byte());
                bytes.push(list);
                bytes.push(value);
            },
            Instruction::ListUpdate { list, index, value } => {
                bytes.push(Op::ListUpdate.to_byte());
                bytes.push(list);
                bytes.push(index);
                bytes.push(value);
            },
            Instruction::ListIndex { register, list, index } => {
                bytes.push(Op::ListIndex.to_byte());
                bytes.push(register);
                bytes.push(list);
                bytes.push(index);
            },
            Instruction::MapInsert { map, key, value } => {
                bytes.push(Op::MapInsert.to_byte());
                bytes.push(map);
                bytes.push(key);
                bytes.push(value);
            },
            Instruction::MapAccess { register, map, key } => {
                bytes.push(Op::MapAccess.to_byte());
                bytes.push(register);
                bytes.push(map);
                bytes.push(key);
            },
            Instruction::Debug { register, constant } => {
                bytes.push(Op::Debug.to_byte());
                bytes.push(register);
                write32(bytes, constant);
            },
        }
        assert(bytes@ =~= old(bytes)@ + self.encoding());
    }

    /// The instruction as a line of a listing.
    pub fn to_string(&self) -> (text: String)
        ensures
            text@ == self.text(),
    {
        let mut text = String::new();
        match *self {
            Instruction::Error(ReadError::UnknownOp(byte)) => {
                text.append("Error\tunknown operation: ");
                push_decimal(&mut text, byte as u64);
            },
            Instruction::Error(ReadError::Truncated(op)) => {
                text.append("Error\tincomplete: ");
                text.append(op.name_text());
            },
            Instruction::Copy { target, source } => {
                text.append("Copy");
                text.append("\ttarget: ");
                push_decimal(&mut text, target as u64);
                text.append("\tsource: ");
                push_decimal(&mut text, source as u64);
            },
            Instruction::DeepCopy { target, source } => {
                text.append("DeepCopy");
                text.append("\ttarget: ");
                push_decimal(&mut text, target as u64);
                text.append("\tsource: ");
                push_decimal(&mut text, source as u64);
            },
            Instruction::SetEmpty { register } => {
                text.append("SetEmpty");
                text.append("\tregister: ");
                push_decimal(&mut text, register as u64);
            },
            Instruction::SetTrue { register } => {
                text.append("SetTrue");
                text.append("\tregister: ");
                push_decimal(&mut text, register as u64);
            },
            Instruction::SetFalse { register } => {
                text.append("SetFalse");
                text.append("\tregister: ");
                push_decimal(&mut text, register as u64);
            },
            Instruction::Return { register } => {
                text.append("Return");
                text.append("\tregister: ");
                push_decimal(&mut text, register as u64);
            },
            Instruction::LoadNumber { register, constant } => {
                text.append("LoadNumber");
                text.append("\tregister: ");
                push_decimal(&mut text, register as u64);
                text.append("\tconstant: ");
                push_decimal(&mut text, constant as u64);
            },
            Instruction::LoadString { register, constant } => {
                text.append("LoadString");
                text.append("\tregister: ");
                push_decimal(&mut text, register as u64);
                text.append("\tconstant: ");
                push_decimal(&mut text, constant as u64);
            },
            Instruction::LoadGlobal { register, constant } => {
                text.append("LoadGlobal");
                text.append("\tregister: ");
                push_decimal(&mut text, register as u64);
                text.append("\tconstant: ");
                push_decimal(&mut text, constant as u64);
            },
            Instruction::SetGlobal { global, source } => {
                text.append("SetGlobal");
                text.append("\tglobal: ");
                push_decimal(&mut text, global as u64);
                text.append("\tsource: ");
                push_decimal(&mut text, source as u64);
            },
            Instruction::MakeList { register, size_hint } => {
                text.append("MakeList");
                text.append("\tregister: ");
                push_decimal(&mut text, register as u64);
                text.append("\tsize_hint: ");
                push_decimal(&mut text, size_hint as u64);
            },
            Instruction::MakeMap { register, size_hint } => {
                text.append("MakeMap");
                text.append("\tregister: ");
                push_decimal(&mut text, register as u64);
                text.append("\tsize_hint: ");
                push_decimal(&mut text, size_hint as u64);
            },
            Instruction::MakeVec4 { register, count, element } => {
                text.append("MakeVec4");
                text.append("\tregister: ");
                push_decimal(&mut text, register as u64);
                text.append("\tcount: ");
                push_decimal(&mut text, count as u64);
                text.append("\telement: ");
                push_decimal(&mut text, element as u64);
            },
            Instruction::MakeIterator { register, range } => {
                text.append("MakeIterator");
                text.append("\tregister: ");
                push_decimal(&mut text, register as u64);
                text.append("\trange: ");
                push_decimal(&mut text, range as u64);
            },
            Instruction::Function { register, arg_count, capture_count, size } => {
                text.append("Function");
                text.append("\tregister: ");
                push_decimal(&mut text, register as u64);
                text.append("\targ_count: ");
                push_decimal(&mut text, arg_count as u64);
                text.append("\tcapture_count: ");
                push_decimal(&mut text, capture_count as u64);
                text.append("\tsize: ");
                push_decimal(&mut text, size as u64);
            },
            Instruction::InstanceFunction { register, arg_count, capture_count, size } => {
                text.append("InstanceFunction");
                text.append("\tregister: ");
                push_decimal(&mut text, register as u64);
                text.append("\targ_count: ");
                push_decimal(&mut text, arg_count as u64);
                text.append("\tcapture_count: ");
                push_decimal(&mut text, capture_count as u64);
                text.append("\tsize: ");
                push_decimal(&mut text, size as u64);
            },
            Instruction::Capture { function, target, source } => {
                text.append("Capture");
                text.append("\tfunction: ");
                push_decimal(&mut text, function as u64);
                text.append("\ttarget: ");
                push_decimal(&mut text, target as u64);
                text.append("\tsource: ");
                push_decimal(&mut text, source as u64);
            },
            Instruction::LoadCapture { register, capture } => {
                text.append("LoadCapture");
                text.append("\tregister: ");
                push_decimal(&mut text, register as u64);
                text.append("\tcapture: ");
                push_decimal(&mut text, capture as u64);
            },
            Instruction::SetCapture { capture, source } => {
                text.append("SetCapture");
                text.append("\tcapture: ");
                push_decimal(&mut text, capture as u64);
                text.append("\tsource: ");
                push_decimal(&mut text, source as u64);
            },
            Instruction::Range { register, start, end } => {
                text.append("Range");
                text.append("\tregister: ");
                push_decimal(&mut text, register as u64);
                text.append("\tstart: ");
                push_decimal(&mut text, start as u64);
                text.append("\tend: ");
                push_decimal(&mut text, end as u64);
            },
            Instruction::RangeInclusive { register, start, end } => {
                text.append("RangeInclusive");
                text.append("\tregister: ");
                push_decimal(&mut text, register as u64);
                text.append("\tstart: ");
                push_decimal(&mut text, start as u64);
                text.append("\tend: ");
                push_decimal(&mut text, end as u64);
            },
            Instruction::RangeTo { register, end } => {
                text.append("RangeTo");
                text.append("\tregister: ");
                push_decimal(&mut text, register as u64);
                text.append("\tend: ");
                push_decimal(&mut text, end as u64);
            },
            Instruction::RangeToInclusive { register, end } => {
                text.append("RangeToInclusive");
                text.append("\tregister: ");
                push_decimal(&mut text, register as u64);
                text.append("\tend: ");
                push_decimal(&mut text, end as u64);
            },
            Instruction::RangeFrom { register, start } => {
                text.append("RangeFrom");
                text.append("\tregister: ");
                push_decimal(&mut text, register as u64);
                text.append("\tstart: ");
                push_decimal(&mut text, start as u64);
            },
            Instruction::RangeFull { register } => {
                text.append("RangeFull");
                text.append("\tregister: ");
                push_decimal(&mut text, register as u64);
            },
            Instruction::Negate { register, source } => {
                text.append("Negate");
                text.append("\tregister: ");
                push_decimal(&mut text, register as u64);
                text.append("\tsource: ");
                push_decimal(&mut text, source as u64);
            },
            Instruction::Add { register, lhs, rhs } => {
                text.append("Add");
                text.append("\tregister: ");
                push_decimal(&mut text, register as u64);
                text.append("\tlhs: ");
                push_decimal(&mut text, lhs as u64);
                text.append("\trhs: ");
                push_decimal(&mut text, rhs as u64);
            },
            Instruction::Subtract { register, lhs, rhs } => {
                text.append("Subtract");
                text.append("\tregister: ");
                push_decimal(&mut text, register as u64);
                text.append("\tlhs: ");
                push_decimal(&mut text, lhs as u64);
                text.append("\trhs: ");
                push_decimal(&mut text, rhs as u64);
            },
            Instruction::Multiply { register, lhs, rhs } => {
                text.append("Multiply");
                text.append("\tregister: ");
                push_decimal(&mut text, register as u64);
                text.append("\tlhs: ");
                push_decimal(&mut text, lhs as u64);
                text.append("\trhs: ");
                push_decimal(&mut text, rhs as u64);
            },
            Instruction::Divide { register, lhs, rhs } => {
                text.append("Divide");
                text.append("\tregister: ");
                push_decimal(&mut text, register as u64);
                text.append("\tlhs: ");
                push_decimal(&mut text, lhs as u64);
                text.append("\trhs: ");
                push_decimal(&mut text, rhs as u64);
            },
            Instruction::Modulo { register, lhs, rhs } => {
                text.append("Modulo");
                text.append("\tregister: ");
                push_decimal(&mut text, register as u64);
                text.append("\tlhs: ");
                push_decimal(&mut text, lhs as u64);
                text.append("\trhs: ");
                push_decimal(&mut text, rhs as u64);
            },
            Instruction::Less { register, lhs, rhs } => {
                text.append("Less");
                text.append("\tregister: ");
                push_decimal(&mut text, register as u64);
                text.append("\tlhs: ");
                push_decimal(&mut text, lhs as u64);
                text.append("\trhs: ");
                push_decimal(&mut text, rhs as u64);
            },
            Instruction::LessOrEqual { register, lhs, rhs } => {
                text.append("LessOrEqual");
                text.append("\tregister: ");
                push_decimal(&mut text, register as u64);
                text.append("\tlhs: ");
                push_decimal(&mut text, lhs as u64);
                text.append("\trhs: ");
                push_decimal(&mut text, rhs as u64);
            },
            Instruction::Greater { register, lhs, rhs } => {
                text.append("Greater");
                text.append("\tregister: ");
                push_decimal(&mut text, register as u64);
                text.append("\tlhs: ");
                push_decimal(&mut text, lhs as u64);
                text.append("\trhs: ");
                push_decimal(&mut text, rhs as u64);
            },
            Instruction::GreaterOrEqual { register, lhs, rhs } => {
                text.append("GreaterOrEqual");
                text.append("\tregister: ");
                push_decimal(&mut text, register as u64);
                text.append("\tlhs: ");
                push_decimal(&mut text, lhs as u64);
                text.append("\trhs: ");
                push_decimal(&mut text, rhs as u64);
            },
            Instruction::Equal { register, lhs, rhs } => {
                text.append("Equal");
                text.append("\tregister: ");
                push_decimal(&mut text, register as u64);
                text.append("\tlhs: ");
                push_decimal(&mut text, lhs as u64);
                text.append("\trhs: ");
                push_decimal(&mut text, rhs as u64);
            },
            Instruction::NotEqual { register, lhs, rhs } => {
                text.append("NotEqual");
                text.append("\tregister: ");
                push_decimal(&mut text, register as u64);
                text.append("\tlhs: ");
                push_decimal(&mut text, lhs as u64);
                text.append("\trhs: ");
                push_decimal(&mut text, rhs as u64);
            },
            Instruction::Jump { offset } => {
                text.append("Jump");
                text.append("\toffset: ");
                push_signed_decimal(&mut text, offset as i64);
            },
            Instruction::JumpTrue { register, offset } => {
                text.append("JumpTrue");
                text.append("\tregister: ");
                push_decimal(&mut text, register as u64);
                text.append("\toffset: ");
                push_signed_decimal(&mut text, offset as i64);
            },
            Instruction::JumpFalse { register, offset } => {
                text.append("JumpFalse");
                text.append("\tregister: ");
                push_decimal(&mut text, register as u64);
                text.append("\toffset: ");
                push_signed_decimal(&mut text, offset as i64);
            },
            Instruction::JumpBack { offset } => {
                text.append("JumpBack");
                text.append("\toffset: ");
                push_decimal(&mut text, offset as u64);
            },
            Instruction::JumpBackFalse { offset } => {
                text.append("JumpBackFalse");
                text.append("\toffset: ");
                push_decimal(&mut text, offset as u64);
            },
            Instruction::Call { function, arg, arg_count } => {
                text.append("Call");
                text.append("\tfunction: ");
                push_decimal(&mut text, function as u64);
                text.append("\targ: ");
                push_decimal(&mut text, arg as u64);
                text.append("\targ_count: ");
                push_decimal(&mut text, arg_count as u64);
            },
            Instruction::CallChild { function, parent, arg, arg_count } => {
                text.append("CallChild");
                text.append("\tfunction: ");
                push_decimal(&mut text, function as u64);
                text.append("\tparent: ");
                push_decimal(&mut text, parent as u64);
                text.append("\targ: ");
                push_decimal(&mut text, arg as u64);
                text.append("\targ_count: ");
                push_decimal(&mut text, arg_count as u64);
            },
            Instruction::IteratorNext { output, iterator, jump_offset } => {
                text.append("IteratorNext");
                text.append("\toutput: ");
                push_decimal(&mut text, output as u64);
                text.append("\titerator: ");
                push_decimal(&mut text, iterator as u64);
                text.append("\tjump_offset: ");
                push_signed_decimal(&mut text, jump_offset as i64);
            },
            Instruction::ExpressionIndex { register, multi_expression, index } => {
                text.append("ExpressionIndex");
                text.append("\tregister: ");
                push_decimal(&mut text, register as u64);
                text.append("\tmulti_expression: ");
                push_decimal(&mut text, multi_expression as u64);
                text.append("\tindex: ");
                push_decimal(&mut text, index as u64);
            },
            Instruction::ListPush { list, value } => {
                text.append("ListPush");
                text.append("\tlist: ");
                push_decimal(&mut text, list as u64);
                text.append("\tvalue: ");
                push_decimal(&mut text, value as u64);
            },
            Instruction::ListUpdate { list, index, value } => {
                text.append("ListUpdate");
                text.append("\tlist: ");
                push_decimal(&mut text, list as u64);
                text.append("\tindex: ");
                push_decimal(&mut text, index as u64);
                text.append("\tvalue: ");
                push_decimal(&mut text, value as u64);
            },
            Instruction::ListIndex { register, list, index } => {
                text.append("ListIndex");
                text.append("\tregister: ");
                push_decimal(&mut text, register as u64);
                text.append("\tlist: ");
                push_decimal(&mut text, list as u64);
                text.append("\tindex: ");
                push_decimal(&mut text, index as u64);
            },
            Instruction::MapInsert { map, key, value } => {
                text.append("MapInsert");
                text.append("\tmap: ");
                push_decimal(&mut text, map as u64);
                text.append("\tkey: ");
                push_decimal(&mut text, key as u64);
                text.append("\tvalue: ");
                push_decimal(&mut text, value as u64);
            },
            Instruction::MapAccess { register, map, key } => {
                text.append("MapAccess");
                text.append("\tregister: ");
                push_decimal(&mut text, register as u64);
                text.append("\tmap: ");
                push_decimal(&mut text, map as u64);
                text.append("\tkey: ");
                push_decimal(&mut text, key as u64);
            },
            Instruction::Debug { register, constant } => {
                text.append("Debug");
                text.append("\tregister: ");
                push_decimal(&mut text, register as u64);
                text.append("\tconstant: ");
                push_decimal(&mut text, constant as u64);
            },
        }
        assert(text@ =~= self.text());
        text
    }

    /// An instruction is read back from the bytes that it is written as,
    /// whatever its operands: a constant's index in the short form as in the
    /// long one, and every jump offset of 16 bits.
    pub proof fn lemma_decode_encoding(self)
        requires
            !(self is Error),
        ensures
            self.operands().len() == self.op().operand_len(),
            Instruction::decode(self.op(), self.operands()) == self,
    {
        match self {
            Instruction::Error(_) => {},
            Instruction::Copy { target, source } => {
            },
            Instruction::DeepCopy { target, source } => {
            },
            Instruction::SetEmpty { register } => {
            },
            Instruction::SetTrue { register } => {
            },
            Instruction::SetFalse { register } => {
            },
            Instruction::Return { register } => {
            },
            Instruction::LoadNumber { register, constant } => {
                lemma_bytes32(constant);
            },
            Instruction::LoadString { register, constant } => {
                lemma_bytes32(constant);
            },
            Instruction::LoadGlobal { register, constant } => {
                lemma_bytes32(constant);
            },
            Instruction::SetGlobal { global, source } => {
                lemma_bytes32(global);
            },
            Instruction::MakeList { register, size_hint } => {
                lemma_bytes32(size_hint);
            },
            Instruction::MakeMap { register, size_hint } => {
                lemma_bytes32(size_hint);
            },
            Instruction::MakeVec4 { register, count, element } => {
            },
            Instruction::MakeIterator { register, range } => {
            },
            Instruction::Function { register, arg_count, capture_count, size } => {
                lemma_bytes16(size);
            },
            Instruction::InstanceFunction { register, arg_count, capture_count, size } => {
                lemma_bytes16(size);
            },
            Instruction::Capture { function, target, source } => {
            },
            Instruction::LoadCapture { register, capture } => {
            },
            Instruction::SetCapture { capture, source } => {
            },
            Instruction::Range { register, start, end } => {
            },
            Instruction::RangeInclusive { register, start, end } => {
            },
            Instruction::RangeTo { register, end } => {
            },
            Instruction::RangeToInclusive { register, end } => {
            },
            Instruction::RangeFrom { register, start } => {
            },
            Instruction::RangeFull { register } => {
            },
            Instruction::Negate { register, source } => {
            },
            Instruction::Add { register, lhs, rhs } => {
            },
            Instruction::Subtract { register, lhs, rhs } => {
            },
            Instruction::Multiply { register, lhs, rhs } => {
            },
            Instruction::Divide { register, lhs, rhs } => {
            },
            Instruction::Modulo { register, lhs, rhs } => {
            },
            Instruction::Less { register, lhs, rhs } => {
            },
            Instruction::LessOrEqual { register, lhs, rhs } => {
            },
            Instruction::Greater { register, lhs, rhs } => {
            },
            Instruction::GreaterOrEqual { register, lhs, rhs } => {
            },
            Instruction::Equal { register, lhs, rhs } => {
            },
            Instruction::NotEqual { register, lhs, rhs } => {
            },
            Instruction::Jump { offset } => {
                lemma_bytes16(unsigned16(offset));
            },
            Instruction::JumpTrue { register, offset } => {
                lemma_bytes16(unsigned16(offset));
            },
            Instruction::JumpFalse { register, offset } => {
                lemma_bytes16(unsigned16(offset));
            },
            Instruction::JumpBack { offset } => {
                lemma_bytes16(offset);
            },
            Instruction::JumpBackFalse { offset } => {
                lemma_bytes16(offset);
            },
            Instruction::Call { function, arg, arg_count } => {
            },
            Instruction::CallChild { function, parent, arg, arg_count } => {
            },
            Instruction::IteratorNext { output, iterator, jump_offset } => {
                lemma_bytes16(unsigned16(jump_offset));
            },
            Instruction::ExpressionIndex { register, multi_expression, index } => {
            },
            Instruction::ListPush { list, value } => {
            },
            Instruction::ListUpdate { list, index, value } => {
            },
            Instruction::ListIndex { register, list, index } => {
            },
            Instruction::MapInsert { map, key, value } => {
            },
            Instruction::MapAccess { register, map, key } => {
            },
            Instruction::Debug { register, constant } => {
                lemma_bytes32(constant);
            },
        }
    }
}

impl Instruction {
    /// The index of a constant is written in one byte where it is at most
    /// 255, else in four bytes; the instruction that is read back is the same
    /// in both forms.
    pub proof fn lemma_short_and_long_form(register: u8, constant: u32)
        ensures
            ({
                let load = Instruction::LoadNumber { register, constant };
                &&& load.op() == if constant <= 255 {
                    Op::LoadNumber
                } else {
                    Op::LoadNumberLong
                }
                &&& load.encoding().len() == if constant <= 255 {
                    3int
                } else {
                    6int
                }
                &&& Instruction::decode(load.op(), load.operands()) == load
            }),
    {
        (Instruction::LoadNumber { register, constant }).lemma_decode_encoding();
    }

    /// Every jump offset of 16 bits, forwards or backwards, is read back as
    /// it was written.
    pub proof fn lemma_jump_offsets(offset: i16, distance: u16)
        ensures
            Instruction::decode(Op::Jump, (Instruction::Jump { offset }).operands())
                == (Instruction::Jump { offset }),
            Instruction::decode(
                Op::JumpBack,
                (Instruction::JumpBack { offset: distance }).operands(),
            ) == (Instruction::JumpBack { offset: distance }),
    {
        (Instruction::Jump { offset }).lemma_decode_encoding();
        (Instruction::JumpBack { offset: distance }).lemma_decode_encoding();
    }
}

/// Two bytes written for a number stand for that number.
proof fn lemma_bytes16(n: u16)
    ensures
        le16(bytes16(n)[0], bytes16(n)[1]) == n,
        signed16(unsigned16(signed16(n))) == signed16(n),
        unsigned16(signed16(n)) == n,
{
}

/// Four bytes written for a number stand for that number.
proof fn lemma_bytes32(n: u32)
    ensures
        le32(bytes32(n)[0], bytes32(n)[1], bytes32(n)[2], bytes32(n)[3]) == n,
        n <= 255 ==> (n as u8) as u32 == n,
{
}

fn read16(b0: u8, b1: u8) -> (n: u16)
    ensures
        n == le16(b0, b1),
{
    b0 as u16 + 256 * (b1 as u16)
}

fn read32(b0: u8, b1: u8, b2: u8, b3: u8) -> (n: u32)
    ensures
        n == le32(b0, b1, b2, b3),
{
    b0 as u32 + 256 * (b1 as u32) + 65536 * (b2 as u32) + 16777216 * (b3 as u32)
}

fn to_signed16(bits: u16) -> (n: i16)
    ensures
        n == signed16(bits),
{
    if bits < 32768 {
        bits as i16
    } else {
        (bits as i32 - 65536) as i16
    }
}

fn to_unsigned16(n: i16) -> (bits: u16)
    ensures
        bits == unsigned16(n),
{
    if n >= 0 {
        n as u16
    } else {
        (n as i32 + 65536) as u16
    }
}

fn write16(bytes: &mut Vec<u8>, n: u16)
    ensures
        final(bytes)@ == old(bytes)@ + bytes16(n),
{
    bytes.push((n % 256) as u8);
    bytes.push((n / 256) as u8);
    assert(bytes@ =~= old(bytes)@ + bytes16(n));
}

fn write32(bytes: &mut Vec<u8>, n: u32)
    ensures
        final(bytes)@ == old(bytes)@ + bytes32(n),
{
    bytes.push((n % 256) as u8);
    bytes.push(((n / 256) % 256) as u8);
    bytes.push(((n / 65536) % 256) as u8);
    bytes.push((n / 16777216) as u8);
    assert(bytes@ =~= old(bytes)@ + bytes32(n));
}

} // verus!
