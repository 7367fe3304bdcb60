//! A compiled unit: bytecode, its constants, and the table that tells which
//! stretch of source text each instruction came from.

use crate::bytecode::reader::Bytecode;
use crate::constant_pool::ConstantPool;
use crate::error::Span;
use vstd::prelude::*;

verus! {

/// From the instruction at the offset `ip` on, instructions come from `span`.
#[derive(Clone, Copy, Debug, PartialEq, Eq, Structural)]
pub struct SpanEntry {
    pub ip: usize,
    pub span: Span,
}

/// A compiled unit. It is not changed once it is built.
#[derive(Debug)]
pub struct Chunk {
    pub bytes: Bytecode,
    pub constants: ConstantPool,
    /// Sorted by offset, each offset once.
    pub spans: Vec<SpanEntry>,
}

/// Whether the entries are sorted by offset, each offset once.
pub open spec fn spans_sorted(spans: Seq<SpanEntry>) -> bool {
    forall|i: int, j: int| 0 <= i < j < spans.len() ==> spans[i].ip < spans[j].ip
}

/// How many entries start at or before the offset `ip`.
pub open spec fn entries_up_to(spans: Seq<SpanEntry>, ip: int) -> nat
    decreases spans.len(),
{
    if spans.len() == 0 {
        0
    } else if spans.last().ip <= ip {
        spans.len()
    } else {
        entries_up_to(spans.drop_last(), ip)
    }
}

/// The span that covers the instruction at the offset `ip`: that of the last
/// entry that starts at or before `ip`, if there is one.
pub open spec fn covering_span(spans: Seq<SpanEntry>, ip: int) -> Option<Span> {
    let n = entries_up_to(spans, ip);
    if n == 0 {
        None
    } else {
        Some(spans[n - 1].span)
    }
}

/// In a sorted table, the entries that start at or before an offset are the
/// first ones, and the others start behind it.
pub proof fn lemma_entries_up_to(spans: Seq<SpanEntry>, ip: int)
    requires
        spans_sorted(spans),
    ensures
        entries_up_to(spans, ip) <= spans.len(),
        forall|i: int| 0 <= i < entries_up_to(spans, ip) ==> (#[trigger] spans[i]).ip <= ip,
        forall|i: int| entries_up_to(spans, ip) <= i < spans.len() ==> (#[trigger] spans[i]).ip > ip,
    decreases spans.len(),
{
    if spans.len() > 0 && spans.last().ip > ip {
        let rest = spans.drop_last();
        assert forall|i: int, j: int| 0 <= i < j < rest.len() implies rest[i].ip < rest[j].ip by {
            assert(rest[i] == spans[i] && rest[j] == spans[j]);
        }
        lemma_entries_up_to(rest, ip);
        assert forall|i: int| 0 <= i < entries_up_to(spans, ip) implies (#[trigger] spans[i]).ip
            <= ip by {
            assert(rest[i] == spans[i]);
        }
        assert forall|i: int| entries_up_to(spans, ip) <= i < spans.len() implies (
        #[trigger] spans[i]).ip > ip by {
            if i < rest.len() {
                assert(rest[i] == spans[i]);
            }
        }
    }
}

impl Chunk {
    pub open spec fn well_formed(self) -> bool {
        self.constants.well_formed() && spans_sorted(self.spans@)
    }

    pub fn new(bytes: Bytecode, constants: ConstantPool, spans: Vec<SpanEntry>) -> (chunk: Chunk)
        requires
            constants.well_formed(),
            spans_sorted(spans@),
        ensures
            chunk.well_formed(),
            chunk.bytes == bytes,
            chunk.constants == constants,
            chunk.spans == spans,
    {
        Chunk { bytes, constants, spans }
    }

    /// The span of source text that the instruction at the offset `ip` came
    /// from, found by bisection.
    pub fn span_at(&self, ip: usize) -> (span: Option<Span>)
        requires
            self.well_formed(),
        ensures
            span == covering_span(self.spans@, ip as int),
    {
        let mut low: usize = 0;
        let mut high: usize = self.spans.len();
        proof {
            lemma_entries_up_to(self.spans@, ip as int);
        }
        while low < high
            invariant
                low <= high <= self.spans@.len(),
                spans_sorted(self.spans@),
                forall|i: int| 0 <= i < low ==> (#[trigger] self.spans@[i]).ip <= ip,
                forall|i: int| high <= i < self.spans@.len() ==> (#[trigger] self.spans@[i]).ip > ip,
            decreases high - low,
        {
            let middle = low + (high - low) / 2;
            if self.spans[middle].ip <= ip {
                low = middle + 1;
            } else {
                high = middle;
            }
        }
        proof {
            let n = entries_up_to(self.spans@, ip as int);
            if n < low {
                assert(self.spans@[n as int].ip > ip);
            }
            if n > low {
                assert(self.spans@[low as int].ip <= ip);
            }
        }
        if low == 0 {
            None
        } else {
            Some(self.spans[low - 1].span)
        }
    }
}

} // verus!
