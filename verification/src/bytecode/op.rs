//! The operations of the virtual machine. Each is one byte in the bytecode,
//! followed by its operands.

use vstd::prelude::*;
use vstd::std_specs::convert::FromSpecImpl;

verus! {

/// The operations, in the order of their bytes. Behind each stand its operands;
/// one that is wider than a byte has its width in bytes in brackets.
#[derive(Clone, Copy, Debug, PartialEq, Eq, Structural)]
pub enum Op {
    Copy, // target, source
    DeepCopy, // target, source
    SetEmpty, // register
    SetTrue, // register
    SetFalse, // register
    Return, // register
    LoadNumber, // register, constant
    LoadNumberLong, // register, constant[4]
    LoadString, // register, constant
    LoadStringLong, // register, constant[4]
    LoadGlobal, // register, constant
    LoadGlobalLong, // register, constant[4]
    SetGlobal, // global, source
    SetGlobalLong, // global[4], source
    MakeList, // register, size hint
    MakeListLong, // register, size hint[4]
    MakeMap, // register, size hint
    MakeMapLong, // register, size hint[4]
    MakeVec4, // register, element count, first element
    MakeIterator, // register, range
    Function, // register, arg count, capture count, size[2]
    InstanceFunction, // register, arg count, capture count, size[2]
    Capture, // function, target, source
    LoadCapture, // register, capture
    SetCapture, // capture, source
    Range, // register, start, end
    RangeInclusive, // register, start, end
    RangeTo, // register, end
    RangeToInclusive, // register, end
    RangeFrom, // register, start
    RangeFull, // register
    Negate, // register, source
    Add, // result, lhs, rhs
    Subtract, // result, lhs, rhs
    Multiply, // result, lhs, rhs
    Divide, // result, lhs, rhs
    Modulo, // result, lhs, rhs
    Less, // result, lhs, rhs
    LessOrEqual, // result, lhs, rhs
    Greater, // result, lhs, rhs
    GreaterOrEqual, // result, lhs, rhs
    Equal, // result, lhs, rhs
    NotEqual, // result, lhs, rhs
    Jump, // offset[2]
    JumpTrue, // condition, offset[2]
    JumpFalse, // condition, offset[2]
    JumpBack, // offset[2]
    JumpBackFalse, // offset[2]
    Call, // function, arg, arg count
    CallChild, // function, parent, arg, arg count
    IteratorNext, // output, iterator, jump offset[2]
    ExpressionIndex, // register, multi_expression, index
    ListPush, // list, value
    ListUpdate, // list, index, value
    ListIndex, // register, list, index
    MapInsert, // map, key, value
    MapAccess, // register, map, key
    Debug, // register, constant[4]
}

/// How many operations there are: the bytes below this number stand for one.
pub const OP_COUNT: u8 = 58;

impl Op {
    /// The byte that stands for the operation in the bytecode.
    pub open spec fn byte(self) -> u8 {
        match self {
            Op::Copy => 0,
            Op::DeepCopy => 1,
            Op::SetEmpty => 2,
            Op::SetTrue => 3,
            Op::SetFalse => 4,
            Op::Return => 5,
            Op::LoadNumber => 6,
            Op::LoadNumberLong => 7,
            Op::LoadString => 8,
            Op::LoadStringLong => 9,
            Op::LoadGlobal => 10,
            Op::LoadGlobalLong => 11,
            Op::SetGlobal => 12,
            Op::SetGlobalLong => 13,
            Op::MakeList => 14,
            Op::MakeListLong => 15,
            Op::MakeMap => 16,
            Op::MakeMapLong => 17,
            Op::MakeVec4 => 18,
            Op::MakeIterator => 19,
            Op::Function => 20,
            Op::InstanceFunction => 21,
            Op::Capture => 22,
            Op::LoadCapture => 23,
            Op::SetCapture => 24,
            Op::Range => 25,
            Op::RangeInclusive => 26,
            Op::RangeTo => 27,
            Op::RangeToInclusive => 28,
            Op::RangeFrom => 29,
            Op::RangeFull => 30,
            Op::Negate => 31,
            Op::Add => 32,
            Op::Subtract => 33,
            Op::Multiply => 34,
            Op::Divide => 35,
            Op::Modulo => 36,
            Op::Less => 37,
            Op::LessOrEqual => 38,
            Op::Greater => 39,
            Op::GreaterOrEqual => 40,
            Op::Equal => 41,
            Op::NotEqual => 42,
            Op::Jump => 43,
            Op::JumpTrue => 44,
            Op::JumpFalse => 45,
            Op::JumpBack => 46,
            Op::JumpBackFalse => 47,
            Op::Call => 48,
            Op::CallChild => 49,
            Op::IteratorNext => 50,
            Op::ExpressionIndex => 51,
            Op::ListPush => 52,
            Op::ListUpdate => 53,
            Op::ListIndex => 54,
            Op::MapInsert => 55,
            Op::MapAccess => 56,
            Op::Debug => 57,
        }
    }

    /// The operation that a byte stands for, if it stands for one.
    pub open spec fn of_byte(byte: u8) -> Option<Op> {
        match byte {
            0u8 => Some(Op::Copy),
            1u8 => Some(Op::DeepCopy),
            2u8 => Some(Op::SetEmpty),
            3u8 => Some(Op::SetTrue),
            4u8 => Some(Op::SetFalse),
            5u8 => Some(Op::Return),
            6u8 => Some(Op::LoadNumber),
            7u8 => Some(Op::LoadNumberLong),
            8u8 => Some(Op::LoadString),
            9u8 => Some(Op::LoadStringLong),
            10u8 => Some(Op::LoadGlobal),
            11u8 => Some(Op::LoadGlobalLong),
            12u8 => Some(Op::SetGlobal),
            13u8 => Some(Op::SetGlobalLong),
            14u8 => Some(Op::MakeList),
            15u8 => Some(Op::MakeListLong),
            16u8 => Some(Op::MakeMap),
            17u8 => Some(Op::MakeMapLong),
            18u8 => Some(Op::MakeVec4),
            19u8 => Some(Op::MakeIterator),
            20u8 => Some(Op::Function),
            21u8 => Some(Op::InstanceFunction),
            22u8 => Some(Op::Capture),
            23u8 => Some(Op::LoadCapture),
            24u8 => Some(Op::SetCapture),
            25u8 => Some(Op::Range),
            26u8 => Some(Op::RangeInclusive),
            27u8 => Some(Op::RangeTo),
            28u8 => Some(Op::RangeToInclusive),
            29u8 => Some(Op::RangeFrom),
            30u8 => Some(Op::RangeFull),
            31u8 => Some(Op::Negate),
            32u8 => Some(Op::Add),
            33u8 => Some(Op::Subtract),
            34u8 => Some(Op::Multiply),
            35u8 => Some(Op::Divide),
            36u8 => Some(Op::Modulo),
            37u8 => Some(Op::Less),
            38u8 => Some(Op::LessOrEqual),
            39u8 => Some(Op::Greater),
            40u8 => Some(Op::GreaterOrEqual),
            41u8 => Some(Op::Equal),
            42u8 => Some(Op::NotEqual),
            43u8 => Some(Op::Jump),
            44u8 => Some(Op::JumpTrue),
            45u8 => Some(Op::JumpFalse),
            46u8 => Some(Op::JumpBack),
            47u8 => Some(Op::JumpBackFalse),
            48u8 => Some(Op::Call),
            49u8 => Some(Op::CallChild),
            50u8 => Some(Op::IteratorNext),
            51u8 => Some(Op::ExpressionIndex),
            52u8 => Some(Op::ListPush),
            53u8 => Some(Op::ListUpdate),
            54u8 => Some(Op::ListIndex),
            55u8 => Some(Op::MapInsert),
            56u8 => Some(Op::MapAccess),
            57u8 => Some(Op::Debug),
            _ => None,
        }
    }

    /// The number of operand bytes that follow the operation's byte.
    pub open spec fn operand_len(self) -> nat {
        match self {
            Op::Copy => 2,
            Op::DeepCopy => 2,
            Op::SetEmpty => 1,
            Op::SetTrue => 1,
            Op::SetFalse => 1,
            Op::Return => 1,
            Op::LoadNumber => 2,
            Op::LoadNumberLong => 5,
            Op::LoadString => 2,
            Op::LoadStringLong => 5,
            Op::LoadGlobal => 2,
            Op::LoadGlobalLong => 5,
            Op::SetGlobal => 2,
            Op::SetGlobalLong => 5,
            Op::MakeList => 2,
            Op::MakeListLong => 5,
            Op::MakeMap => 2,
            Op::MakeMapLong => 5,
            Op::MakeVec4 => 3,
            Op::MakeIterator => 2,
            Op::Function => 5,
            Op::InstanceFunction => 5,
            Op::Capture => 3,
            Op::LoadCapture => 2,
            Op::SetCapture => 2,
            Op::Range => 3,
            Op::RangeInclusive => 3,
            Op::RangeTo => 2,
            Op::RangeToInclusive => 2,
            Op::RangeFrom => 2,
            Op::RangeFull => 1,
            Op::Negate => 2,
            Op::Add => 3,
            Op::Subtract => 3,
            Op::Multiply => 3,
            Op::Divide => 3,
            Op::Modulo => 3,
            Op::Less => 3,
            Op::LessOrEqual => 3,
            Op::Greater => 3,
            Op::GreaterOrEqual => 3,
            Op::Equal => 3,
            Op::NotEqual => 3,
            Op::Jump => 2,
            Op::JumpTrue => 3,
            Op::JumpFalse => 3,
            Op::JumpBack => 2,
            Op::JumpBackFalse => 2,
            Op::Call => 3,
            Op::CallChild => 4,
            Op::IteratorNext => 4,
            Op::ExpressionIndex => 3,
            Op::ListPush => 2,
            Op::ListUpdate => 3,
            Op::ListIndex => 3,
            Op::MapInsert => 3,
            Op::MapAccess => 3,
            Op::Debug => 5,
        }
    }

    /// Each operation is the one that its byte stands for, and the bytes that
    /// stand for an operation are those below `OP_COUNT`.
    pub proof fn lemma_byte_round_trip(self)
        ensures
            Op::of_byte(self.byte()) == Some(self),
            self.byte() < OP_COUNT,
    {
    }

    /// A byte stands for at most one operation, whose byte it is.
    pub proof fn lemma_of_byte(byte: u8)
        ensures
            Op::of_byte(byte) is Some <==> byte < OP_COUNT,
            Op::of_byte(byte) is Some ==> Op::of_byte(byte)->Some_0.byte() == byte,
    {
    }

    pub fn from_byte(byte: u8) -> (op: Option<Op>)
        ensures
            op == Op::of_byte(byte),
    {
        match byte {
            0u8 => Some(Op::Copy),
            1u8 => Some(Op::DeepCopy),
            2u8 => Some(Op::SetEmpty),
            3u8 => Some(Op::SetTrue),
            4u8 => Some(Op::SetFalse),
            5u8 => Some(Op::Return),
            6u8 => Some(Op::LoadNumber),
            7u8 => Some(Op::LoadNumberLong),
            8u8 => Some(Op::LoadString),
            9u8 => Some(Op::LoadStringLong),
            10u8 => Some(Op::LoadGlobal),
            11u8 => Some(Op::LoadGlobalLong),
            12u8 => Some(Op::SetGlobal),
            13u8 => Some(Op::SetGlobalLong),
            14u8 => Some(Op::MakeList),
            15u8 => Some(Op::MakeListLong),
            16u8 => Some(Op::MakeMap),
            17u8 => Some(Op::MakeMapLong),
            18u8 => Some(Op::MakeVec4),
            19u8 => Some(Op::MakeIterator),
            20u8 => Some(Op::Function),
            21u8 => Some(Op::InstanceFunction),
            22u8 => Some(Op::Capture),
            23u8 => Some(Op::LoadCapture),
            24u8 => Some(Op::SetCapture),
            25u8 => Some(Op::Range),
            26u8 => Some(Op::RangeInclusive),
            27u8 => Some(Op::RangeTo),
            28u8 => Some(Op::RangeToInclusive),
            29u8 => Some(Op::RangeFrom),
            30u8 => Some(Op::RangeFull),
            31u8 => Some(Op::Negate),
            32u8 => Some(Op::Add),
            33u8 => Some(Op::Subtract),
            34u8 => Some(Op::Multiply),
            35u8 => Some(Op::Divide),
            36u8 => Some(Op::Modulo),
            37u8 => Some(Op::Less),
            38u8 => Some(Op::LessOrEqual),
            39u8 => Some(Op::Greater),
            40u8 => Some(Op::GreaterOrEqual),
            41u8 => Some(Op::Equal),
            42u8 => Some(Op::NotEqual),
            43u8 => Some(Op::Jump),
            44u8 => Some(Op::JumpTrue),
            45u8 => Some(Op::JumpFalse),
            46u8 => Some(Op::JumpBack),
            47u8 => Some(Op::JumpBackFalse),
            48u8 => Some(Op::Call),
            49u8 => Some(Op::CallChild),
            50u8 => Some(Op::IteratorNext),
            51u8 => Some(Op::ExpressionIndex),
            52u8 => Some(Op::ListPush),
            53u8 => Some(Op::ListUpdate),
            54u8 => Some(Op::ListIndex),
            55u8 => Some(Op::MapInsert),
            56u8 => Some(Op::MapAccess),
            57u8 => Some(Op::Debug),
            _ => None,
        }
    }

    pub fn to_byte(self) -> (byte: u8)
        ensures
            byte == self.byte(),
    {
        match self {
            Op::Copy => 0,
            Op::DeepCopy => 1,
            Op::SetEmpty => 2,
            Op::SetTrue => 3,
            Op::SetFalse => 4,
            Op::Return => 5,
            Op::LoadNumber => 6,
            Op::LoadNumberLong => 7,
            Op::LoadString => 8,
            Op::LoadStringLong => 9,
            Op::LoadGlobal => 10,
            Op::LoadGlobalLong => 11,
            Op::SetGlobal => 12,
            Op::SetGlobalLong => 13,
            Op::MakeList => 14,
            Op::MakeListLong => 15,
            Op::MakeMap => 16,
            Op::MakeMapLong => 17,
            Op::MakeVec4 => 18,
            Op::MakeIterator => 19,
            Op::Function => 20,
            Op::InstanceFunction => 21,
            Op::Capture => 22,
            Op::LoadCapture => 23,
            Op::SetCapture => 24,
            Op::Range => 25,
            Op::RangeInclusive => 26,
            Op::RangeTo => 27,
            Op::RangeToInclusive => 28,
            Op::RangeFrom => 29,
            Op::RangeFull => 30,
            Op::Negate => 31,
            Op::Add => 32,
            Op::Subtract => 33,
            Op::Multiply => 34,
            Op::Divide => 35,
            Op::Modulo => 36,
            Op::Less => 37,
            Op::LessOrEqual => 38,
            Op::Greater => 39,
            Op::GreaterOrEqual => 40,
            Op::Equal => 41,
            Op::NotEqual => 42,
            Op::Jump => 43,
            Op::JumpTrue => 44,
            Op::JumpFalse => 45,
            Op::JumpBack => 46,
            Op::JumpBackFalse => 47,
            Op::Call => 48,
            Op::CallChild => 49,
            Op::IteratorNext => 50,
            Op::ExpressionIndex => 51,
            Op::ListPush => 52,
            Op::ListUpdate => 53,
            Op::ListIndex => 54,
            Op::MapInsert => 55,
            Op::MapAccess => 56,
            Op::Debug => 57,
        }
    }

    pub fn operand_count(self) -> (n: usize)
        ensures
            n == self.operand_len(),
            n <= 5,
    {
        match self {
            Op::Copy => 2,
            Op::DeepCopy => 2,
            Op::SetEmpty => 1,
            Op::SetTrue => 1,
            Op::SetFalse => 1,
            Op::Return => 1,
            Op::LoadNumber => 2,
            Op::LoadNumberLong => 5,
            Op::LoadString => 2,
            Op::LoadStringLong => 5,
            Op::LoadGlobal => 2,
            Op::LoadGlobalLong => 5,
            Op::SetGlobal => 2,
            Op::SetGlobalLong => 5,
            Op::MakeList => 2,
            Op::MakeListLong => 5,
            Op::MakeMap => 2,
            Op::MakeMapLong => 5,
            Op::MakeVec4 => 3,
            Op::MakeIterator => 2,
            Op::Function => 5,
            Op::InstanceFunction => 5,
            Op::Capture => 3,
            Op::LoadCapture => 2,
            Op::SetCapture => 2,
            Op::Range => 3,
            Op::RangeInclusive => 3,
            Op::RangeTo => 2,
            Op::RangeToInclusive => 2,
            Op::RangeFrom => 2,
            Op::RangeFull => 1,
            Op::Negate => 2,
            Op::Add => 3,
            Op::Subtract => 3,
            Op::Multiply => 3,
            Op::Divide => 3,
            Op::Modulo => 3,
            Op::Less => 3,
            Op::LessOrEqual => 3,
            Op::Greater => 3,
            Op::GreaterOrEqual => 3,
            Op::Equal => 3,
            Op::NotEqual => 3,
            Op::Jump => 2,
            Op::JumpTrue => 3,
            Op::JumpFalse => 3,
            Op::JumpBack => 2,
            Op::JumpBackFalse => 2,
            Op::Call => 3,
            Op::CallChild => 4,
            Op::IteratorNext => 4,
            Op::ExpressionIndex => 3,
            Op::ListPush => 2,
            Op::ListUpdate => 3,
            Op::ListIndex => 3,
            Op::MapInsert => 3,
            Op::MapAccess => 3,
            Op::Debug => 5,
        }
    }

    /// The operation's name as it is written in a listing.
    pub open spec fn name(self) -> Seq<char> {
        match self {
            Op::Copy => "Copy"@,
            Op::DeepCopy => "DeepCopy"@,
            Op::SetEmpty => "SetEmpty"@,
            Op::SetTrue => "SetTrue"@,
            Op::SetFalse => "SetFalse"@,
            Op::Return => "Return"@,
            Op::LoadNumber => "LoadNumber"@,
            Op::LoadNumberLong => "LoadNumberLong"@,
            Op::LoadString => "LoadString"@,
            Op::LoadStringLong => "LoadStringLong"@,
            Op::LoadGlobal => "LoadGlobal"@,
            Op::LoadGlobalLong => "LoadGlobalLong"@,
            Op::SetGlobal => "SetGlobal"@,
            Op::SetGlobalLong => "SetGlobalLong"@,
            Op::MakeList => "MakeList"@,
            Op::MakeListLong => "MakeListLong"@,
            Op::MakeMap => "MakeMap"@,
            Op::MakeMapLong => "MakeMapLong"@,
            Op::MakeVec4 => "MakeVec4"@,
            Op::MakeIterator => "MakeIterator"@,
            Op::Function => "Function"@,
            Op::InstanceFunction => "InstanceFunction"@,
            Op::Capture => "Capture"@,
            Op::LoadCapture => "LoadCapture"@,
            Op::SetCapture => "SetCapture"@,
            Op::Range => "Range"@,
            Op::RangeInclusive => "RangeInclusive"@,
            Op::RangeTo => "RangeTo"@,
            Op::RangeToInclusive => "RangeToInclusive"@,
            Op::RangeFrom => "RangeFrom"@,
            Op::RangeFull => "RangeFull"@,
            Op::Negate => "Negate"@,
            Op::Add => "Add"@,
            Op::Subtract => "Subtract"@,
            Op::Multiply => "Multiply"@,
            Op::Divide => "Divide"@,
            Op::Modulo => "Modulo"@,
            Op::Less => "Less"@,
            Op::LessOrEqual => "LessOrEqual"@,
            Op::Greater => "Greater"@,
            Op::GreaterOrEqual => "GreaterOrEqual"@,
            Op::Equal => "Equal"@,
            Op::NotEqual => "NotEqual"@,
            Op::Jump => "Jump"@,
            Op::JumpTrue => "JumpTrue"@,
            Op::JumpFalse => "JumpFalse"@,
            Op::JumpBack => "JumpBack"@,
            Op::JumpBackFalse => "JumpBackFalse"@,
            Op::Call => "Call"@,
            Op::CallChild => "CallChild"@,
            Op::IteratorNext => "IteratorNext"@,
            Op::ExpressionIndex => "ExpressionIndex"@,
            Op::ListPush => "ListPush"@,
            Op::ListUpdate => "ListUpdate"@,
            Op::ListIndex => "ListIndex"@,
            Op::MapInsert => "MapInsert"@,
            Op::MapAccess => "MapAccess"@,
            Op::Debug => "Debug"@,
        }
    }

    pub fn name_text(self) -> (text: &'static str)
        ensures
            text@ == self.name(),
    {
        match self {
            Op::Copy => "Copy",
            Op::DeepCopy => "DeepCopy",
            Op::SetEmpty => "SetEmpty",
            Op::SetTrue => "SetTrue",
            Op::SetFalse => "SetFalse",
            Op::Return => "Return",
            Op::LoadNumber => "LoadNumber",
            Op::LoadNumberLong => "LoadNumberLong",
            Op::LoadString => "LoadString",
            Op::LoadStringLong => "LoadStringLong",
            Op::LoadGlobal => "LoadGlobal",
            Op::LoadGlobalLong => "LoadGlobalLong",
            Op::SetGlobal => "SetGlobal",
            Op::SetGlobalLong => "SetGlobalLong",
            Op::MakeList => "MakeList",
            Op::MakeListLong => "MakeListLong",
            Op::MakeMap => "MakeMap",
            Op::MakeMapLong => "MakeMapLong",
            Op::MakeVec4 => "MakeVec4",
            Op::MakeIterator => "MakeIterator",
            Op::Function => "Function",
            Op::InstanceFunction => "InstanceFunction",
            Op::Capture => "Capture",
            Op::LoadCapture => "LoadCapture",
            Op::SetCapture => "SetCapture",
            Op::Range => "Range",
            Op::RangeInclusive => "RangeInclusive",
            Op::RangeTo => "RangeTo",
            Op::RangeToInclusive => "RangeToInclusive",
            Op::RangeFrom => "RangeFrom",
            Op::RangeFull => "RangeFull",
            Op::Negate => "Negate",
            Op::Add => "Add",
            Op::Subtract => "Subtract",
            Op::Multiply => "Multiply",
            Op::Divide => "Divide",
            Op::Modulo => "Modulo",
            Op::Less => "Less",
            Op::LessOrEqual => "LessOrEqual",
            Op::Greater => "Greater",
            Op::GreaterOrEqual => "GreaterOrEqual",
            Op::Equal => "Equal",
            Op::NotEqual => "NotEqual",
            Op::Jump => "Jump",
            Op::JumpTrue => "JumpTrue",
            Op::JumpFalse => "JumpFalse",
            Op::JumpBack => "JumpBack",
            Op::JumpBackFalse => "JumpBackFalse",
            Op::Call => "Call",
            Op::CallChild => "CallChild",
            Op::IteratorNext => "IteratorNext",
            Op::ExpressionIndex => "ExpressionIndex",
            Op::ListPush => "ListPush",
            Op::ListUpdate => "ListUpdate",
            Op::ListIndex => "ListIndex",
            Op::MapInsert => "MapInsert",
            Op::MapAccess => "MapAccess",
            Op::Debug => "Debug",
        }
    }
}

impl From<Op> for u8 {
    fn from(op: Op) -> (byte: u8) {
        op.to_byte()
    }
}

impl FromSpecImpl<Op> for u8 {
    open spec fn obeys_from_spec() -> bool {
        true
    }

    open spec fn from_spec(op: Op) -> u8 {
        op.byte()
    }
}

} // verus!
