//! Reading bytecode instruction by instruction, and listing it.

use crate::bytecode::instruction::{Instruction, ReadError};
use crate::bytecode::op::Op;
use crate::text::{decimal, push_decimal};
use vstd::prelude::*;
use vstd::string::*;

verus! {

/// The bytes of a compiled unit.
pub type Bytecode = Vec<u8>;

/// What is read from `bytes` at the offset `ip`: nothing at the end of the
/// bytes, else an instruction and the offset behind it. Where the byte at `ip`
/// stands for no operation, or the bytes end before the last operand, the
/// instruction is an error and the offset behind it is the end of the bytes.
pub open spec fn decode_at(bytes: Seq<u8>, ip: int) -> Option<(Instruction, int)> {
    if ip < 0 || ip >= bytes.len() {
        None
    } else {
        match Op::of_byte(bytes[ip]) {
            None => Some((Instruction::Error(ReadError::UnknownOp(bytes[ip])), bytes.len() as int)),
            Some(op) => {
                let end = ip + 1 + op.operand_len();
                if end > bytes.len() {
                    Some((Instruction::Error(ReadError::Truncated(op)), bytes.len() as int))
                } else {
                    Some((Instruction::decode(op, bytes.subrange(ip + 1, end)), end))
                }
            },
        }
    }
}

/// The instructions that are read from `bytes` from the offset `ip` on, in order.
pub open spec fn decode_all(bytes: Seq<u8>, ip: int) -> Seq<Instruction>
    decreases bytes.len() - ip,
{
    match decode_at(bytes, ip) {
        None => seq![],
        Some((instruction, next)) => seq![instruction] + decode_all(bytes, next),
    }
}

/// The listing of `bytes` from the offset `ip` on: for each instruction a line
/// with its offset, a tab and the instruction.
pub open spec fn listing(bytes: Seq<u8>, ip: int) -> Seq<char>
    decreases bytes.len() - ip,
{
    match decode_at(bytes, ip) {
        None => seq![],
        Some((instruction, next)) => decimal(ip as nat) + "\t"@ + instruction.text() + "\n"@
            + listing(bytes, next),
    }
}

/// A forward-only decoder of bytecode.
pub struct InstructionReader<'a> {
    /// The bytes that are read.
    pub bytes: &'a [u8],
    /// The offset of the instruction that is read next.
    pub ip: usize,
}

impl<'a> InstructionReader<'a> {
    pub fn new(bytes: &'a Bytecode) -> (reader: Self)
        ensures
            reader.bytes@ == bytes@,
            reader.ip == 0,
    {
        Self { bytes: bytes.as_slice(), ip: 0 }
    }

    /// The instruction at `ip`, behind which `ip` then stands; `None` at the end.
    /// Once an error was read, nothing more is.
    pub fn next(&mut self) -> (result: Option<Instruction>)
        ensures
            final(self).bytes@ == old(self).bytes@,
            match decode_at(old(self).bytes@, old(self).ip as int) {
                None => result is None && final(self).ip == old(self).ip,
                Some((instruction, next)) => result == Some(instruction) && final(self).ip == next,
            },
    {
        let len = self.bytes.len();
        if self.ip >= len {
            return None;
        }
        let byte = self.bytes[self.ip];
        match Op::from_byte(byte) {
            None => {
                self.ip = len;
                Some(Instruction::Error(ReadError::UnknownOp(byte)))
            },
            Some(op) => {
                let n = op.operand_count();
                if n > len - self.ip - 1 {
                    self.ip = len;
                    Some(Instruction::Error(ReadError::Truncated(op)))
                } else {
                    let at = self.ip + 1;
                    let instruction = Instruction::read(op, self.bytes, at);
                    self.ip = at + n;
                    Some(instruction)
                }
            },
        }
    }
}

/// What is read at an offset ends behind that offset, within the bytes.
pub proof fn lemma_decode_advances(bytes: Seq<u8>, ip: int)
    requires
        decode_at(bytes, ip) is Some,
    ensures
        ip < decode_at(bytes, ip)->Some_0.1 <= bytes.len(),
{
}

/// An instruction that was written is read back: where the bytes of
/// `instruction` stand behind `before`, it is read at the offset
/// `before.len()`, and the next is read right behind it.
pub proof fn lemma_read_back(before: Seq<u8>, instruction: Instruction, after: Seq<u8>)
    requires
        !(instruction is Error),
    ensures
        decode_at(before + instruction.encoding() + after, before.len() as int) == Some(
            (instruction, (before.len() + instruction.encoding().len()) as int),
        ),
{
    let bytes = before + instruction.encoding() + after;
    let ip = before.len() as int;
    let op = instruction.op();
    instruction.lemma_decode_encoding();
    op.lemma_byte_round_trip();
    assert(bytes[ip] == op.byte());
    assert(bytes.subrange(ip + 1, ip + 1 + op.operand_len()) =~= instruction.operands());
}

/// The listing of `bytecode`: for each instruction a line with its offset, a
/// tab and the instruction.
pub fn bytecode_to_string(bytecode: &Bytecode) -> (result: String)
    ensures
        result@ == listing(bytecode@, 0),
{
    let mut result = String::new();
    let mut reader = InstructionReader::new(bytecode);
    let mut ip = reader.ip;
    loop
        invariant
            reader.bytes@ == bytecode@,
            ip == reader.ip,
            result@ + listing(bytecode@, ip as int) == listing(bytecode@, 0),
        decreases bytecode@.len() - reader.ip,
    {
        proof {
            if decode_at(bytecode@, ip as int) is Some {
                lemma_decode_advances(bytecode@, ip as int);
            }
        }
        let ghost before = result@;
        match reader.next() {
            None => {
                assert(result@ + Seq::<char>::empty() =~= result@);
                return result;
            },
            Some(instruction) => {
                push_decimal(&mut result, ip as u64);
                result.append("\t");
                let line = instruction.to_string();
                result.append(line.as_str());
                result.append("\n");
                proof {
                    let rest = listing(bytecode@, reader.ip as int);
                    assert(result@ + rest =~= before + (decimal(ip as nat) + "\t"@
                        + instruction.text() + "\n"@ + rest));
                }
                ip = reader.ip;
            },
        }
    }
}

} // verus!
