//! Putting a chunk together, instruction by instruction.
//!
//! Each instruction is written with the stretch of source text that it came
//! from. The span table gets an entry wherever that stretch changes, so that
//! every instruction is covered by the entry of its own stretch.

use crate::bytecode::chunk::{covering_span, entries_up_to, lemma_entries_up_to, spans_sorted, Chunk, SpanEntry};
use crate::bytecode::instruction::Instruction;
use crate::bytecode::reader::{
    decode_all, decode_at, lemma_decode_advances, lemma_read_back, Bytecode,
};
use crate::constant_pool::{ConstantIndex, ConstantPoolBuilder, ConstantValue};
use crate::error::Span;
use vstd::prelude::*;

verus! {

/// Whether the bytes from the offset `ip` on are whole instructions, up to
/// the last byte.
pub open spec fn whole(bytes: Seq<u8>, ip: int) -> bool
    decreases bytes.len() - ip,
{
    if ip == bytes.len() {
        true
    } else {
        match decode_at(bytes, ip) {
            None => false,
            Some((instruction, next)) => !(instruction is Error) && (ip < next <= bytes.len()
                ==> whole(bytes, next)),
        }
    }
}

/// An instruction that is read whole is read the same whatever follows it.
pub proof fn lemma_read_before(bytes: Seq<u8>, more: Seq<u8>, ip: int)
    requires
        decode_at(bytes, ip) is Some,
        !(decode_at(bytes, ip)->Some_0.0 is Error),
    ensures
        decode_at(bytes + more, ip) == decode_at(bytes, ip),
{
    let op = crate::bytecode::op::Op::of_byte(bytes[ip])->Some_0;
    let end = ip + 1 + op.operand_len();
    assert((bytes + more)[ip] == bytes[ip]);
    assert((bytes + more).subrange(ip + 1, end) =~= bytes.subrange(ip + 1, end));
}

/// Instructions that were written one after the other are read back one
/// after the other: behind whole instructions, an instruction that is
/// written is the next that is read, and the last.
pub proof fn lemma_written_is_read(bytes: Seq<u8>, instruction: Instruction, ip: int)
    requires
        0 <= ip <= bytes.len(),
        whole(bytes, ip),
        !(instruction is Error),
    ensures
        whole(bytes + instruction.encoding(), ip),
        decode_all(bytes + instruction.encoding(), ip) == decode_all(bytes, ip).push(instruction),
    decreases bytes.len() - ip,
{
    let longer = bytes + instruction.encoding();
    if ip == bytes.len() {
        lemma_read_back(bytes, instruction, seq![]);
        assert(bytes + instruction.encoding() + Seq::<u8>::empty() =~= longer);
        let next = longer.len() as int;
        assert(decode_at(longer, next) is None);
        assert(decode_all(longer, next) =~= seq![]);
        assert(whole(longer, next));
        assert(decode_all(longer, ip) =~= seq![instruction]);
        assert(decode_all(bytes, ip) =~= seq![]);
        assert(decode_all(bytes, ip).push(instruction) =~= seq![instruction]);
    } else {
        let (first, next) = decode_at(bytes, ip)->Some_0;
        lemma_decode_advances(bytes, ip);
        lemma_read_before(bytes, instruction.encoding(), ip);
        lemma_written_is_read(bytes, instruction, next);
        assert(decode_all(longer, ip) =~= seq![first] + decode_all(longer, next));
        assert(decode_all(bytes, ip) =~= seq![first] + decode_all(bytes, next));
        assert(decode_all(longer, ip) =~= decode_all(bytes, ip).push(instruction));
    }
}

/// An entry that starts behind all others covers its own offset and what
/// follows, and leaves the offsets before it to the entries that covered them.
pub proof fn lemma_new_entry(spans: Seq<SpanEntry>, entry: SpanEntry, ip: int)
    requires
        spans_sorted(spans),
        forall|i: int| 0 <= i < spans.len() ==> (#[trigger] spans[i]).ip < entry.ip,
    ensures
        spans_sorted(spans.push(entry)),
        ip >= entry.ip ==> covering_span(spans.push(entry), ip) == Some(entry.span),
        ip < entry.ip ==> covering_span(spans.push(entry), ip) == covering_span(spans, ip),
{
    let longer = spans.push(entry);
    assert(longer.drop_last() =~= spans);
    assert forall|i: int, j: int| 0 <= i < j < longer.len() implies longer[i].ip
        < longer[j].ip by {
        if j < spans.len() {
            assert(longer[i] == spans[i] && longer[j] == spans[j]);
        } else {
            assert(longer[i] == spans[i]);
        }
    }
    if ip < entry.ip {
        lemma_entries_up_to(spans, ip);
        let n = entries_up_to(spans, ip);
        if n > 0 {
            assert(longer[n - 1] == spans[n - 1]);
        }
    }
}

/// The last entry of a sorted table covers all offsets from its own on.
pub proof fn lemma_last_entry(spans: Seq<SpanEntry>, ip: int)
    requires
        spans.len() > 0,
        ip >= spans.last().ip,
    ensures
        covering_span(spans, ip) == Some(spans.last().span),
{
}

/// A chunk in the making.
pub struct ChunkBuilder {
    bytes: Bytecode,
    constants: ConstantPoolBuilder,
    spans: Vec<SpanEntry>,
}

impl ChunkBuilder {
    /// The bytecode that was written.
    pub closed spec fn bytes(self) -> Seq<u8> {
        self.bytes@
    }

    /// The span table as it stands.
    pub closed spec fn spans(self) -> Seq<SpanEntry> {
        self.spans@
    }

    /// The constants that were added.
    pub closed spec fn constants(self) -> Seq<ConstantValue> {
        self.constants@
    }

    /// The bytecode is made of whole instructions, the span table is sorted,
    /// and each of its entries starts at an instruction that was written:
    /// the first at the first.
    pub closed spec fn well_formed(self) -> bool {
        &&& self.constants.well_formed()
        &&& whole(self.bytes@, 0)
        &&& spans_sorted(self.spans@)
        &&& forall|i: int| 0 <= i < self.spans@.len() ==> (#[trigger] self.spans@[i]).ip
            < self.bytes@.len()
        &&& self.bytes@.len() > 0 ==> self.spans@.len() > 0 && self.spans@[0].ip == 0
    }

    /// The instructions that were written, in order.
    pub open spec fn instructions(self) -> Seq<Instruction> {
        decode_all(self.bytes(), 0)
    }

    pub fn new() -> (builder: ChunkBuilder)
        ensures
            builder.well_formed(),
            builder.bytes().len() == 0,
            builder.spans().len() == 0,
            builder.constants().len() == 0,
    {
        ChunkBuilder { bytes: Vec::new(), constants: ConstantPoolBuilder::new(), spans: Vec::new() }
    }

    /// No instruction is without a span: every offset of the bytecode is
    /// covered by an entry of the span table.
    pub proof fn lemma_no_orphans(self, ip: int)
        requires
            self.well_formed(),
            0 <= ip < self.bytes().len(),
        ensures
            covering_span(self.spans(), ip) is Some,
    {
        lemma_entries_up_to(self.spans@, ip);
        if entries_up_to(self.spans@, ip) == 0 {
            assert(self.spans@[0].ip > ip);
        }
    }

    /// Writes an instruction that came from the stretch `span` of the source
    /// text. The instruction is covered by that stretch, and the
    /// instructions before it by the stretches that covered them.
    pub fn push_instruction(&mut self, instruction: Instruction, span: Span)
        requires
            old(self).well_formed(),
            !(instruction is Error),
        ensures
            final(self).well_formed(),
            final(self).bytes() == old(self).bytes() + instruction.encoding(),
            final(self).instructions() == old(self).instructions().push(instruction),
            final(self).constants() == old(self).constants(),
            forall|ip: int|
                ip >= old(self).bytes().len() ==> covering_span(final(self).spans(), ip) == Some(
                    span,
                ),
            forall|ip: int|
                ip < old(self).bytes().len() ==> covering_span(final(self).spans(), ip)
                    == covering_span(old(self).spans(), ip),
    {
        let ip = self.bytes.len();
        let changed = match self.spans.last() {
            Some(entry) => entry.span != span,
            None => true,
        };
        proof {
            lemma_written_is_read(self.bytes@, instruction, 0);
            instruction.lemma_decode_encoding();
        }
        if changed {
            proof {
                assert forall|at: int| true implies (at >= ip ==> covering_span(
                    self.spans@.push(SpanEntry { ip, span }),
                    at,
                ) == Some(span)) && (at < ip ==> covering_span(
                    self.spans@.push(SpanEntry { ip, span }),
                    at,
                ) == covering_span(self.spans@, at)) by {
                    lemma_new_entry(self.spans@, SpanEntry { ip, span }, at);
                }
                lemma_new_entry(self.spans@, SpanEntry { ip, span }, 0);
            }
            self.spans.push(SpanEntry { ip, span });
        } else {
            proof {
                assert(self.spans@.last() == self.spans@[self.spans@.len() - 1]);
                assert(self.spans@.last().ip < ip);
                assert forall|at: int| at >= ip implies covering_span(self.spans@, at) == Some(
                    span,
                ) by {
                    lemma_last_entry(self.spans@, at);
                }
            }
        }
        instruction.write(&mut self.bytes);
        assert(self.bytes@.len() > ip);
    }

    /// The index of a number constant, which is added unless the chunk
    /// holds it already.
    pub fn add_number(&mut self, bits: u64) -> (index: ConstantIndex)
        requires
            old(self).well_formed(),
            old(self).constants().contains(ConstantValue::Number(bits)) || old(
                self,
            ).constants().len() < u32::MAX,
        ensures
            final(self).well_formed(),
            final(self).bytes() == old(self).bytes(),
            final(self).spans() == old(self).spans(),
            final(self).constants() == if old(self).constants().contains(
                ConstantValue::Number(bits),
            ) {
                old(self).constants()
            } else {
                old(self).constants().push(ConstantValue::Number(bits))
            },
            index < final(self).constants().len(),
            final(self).constants()[index as int] == ConstantValue::Number(bits),
    {
        self.constants.add_number(bits)
    }

    /// The index of a string constant, which is added unless the chunk
    /// holds it already.
    pub fn add_string(&mut self, s: &str) -> (index: ConstantIndex)
        requires
            old(self).well_formed(),
            old(self).constants().contains(ConstantValue::Str(s@)) || old(self).constants().len()
                < u32::MAX,
        ensures
            final(self).well_formed(),
            final(self).bytes() == old(self).bytes(),
            final(self).spans() == old(self).spans(),
            final(self).constants() == if old(self).constants().contains(ConstantValue::Str(s@)) {
                old(self).constants()
            } else {
                old(self).constants().push(ConstantValue::Str(s@))
            },
            index < final(self).constants().len(),
            final(self).constants()[index as int] == ConstantValue::Str(s@),
    {
        self.constants.add_string(s)
    }

    /// The chunk that was put together.
    pub fn build(self) -> (chunk: Chunk)
        requires
            self.well_formed(),
        ensures
            chunk.well_formed(),
            chunk.bytes@ == self.bytes(),
            chunk.spans@ == self.spans(),
            chunk.constants@ == self.constants(),
            chunk.constants.is_built(),
            forall|ip: int|
                0 <= ip < chunk.bytes@.len() ==> covering_span(chunk.spans@, ip) is Some,
    {
        proof {
            assert forall|ip: int| 0 <= ip < self.bytes@.len() implies covering_span(
                self.spans@,
                ip,
            ) is Some by {
                self.lemma_no_orphans(ip);
            }
        }
        Chunk { bytes: self.bytes, constants: self.constants.build(), spans: self.spans }
    }
}

} // verus!
