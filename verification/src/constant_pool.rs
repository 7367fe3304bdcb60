//! A deduplicated store of number and string constants, addressed by index.
//!
//! Numbers are held by their IEEE-754 bit pattern, so that a constant is found
//! again exactly as it was added. Strings are concatenated into one arena.

use std::collections::hash_map::DefaultHasher;
use std::collections::HashMap;
use std::hash::Hasher;
use std::ops::Range;
use vstd::prelude::*;
use vstd::std_specs::cmp::PartialEqSpecImpl;
use vstd::std_specs::hash::*;
use vstd::string::*;
use vstd::utf8::*;

verus! {

broadcast use vstd::std_specs::hash::group_hash_axioms;

/// The address of a constant in a pool.
pub type ConstantIndex = u32;

/// Where a constant lives in the pool's arenas.
#[derive(Clone, Copy, Debug)]
pub enum ConstantInfo {
    /// The position of a number in the number arena.
    Number(usize),
    /// The byte range of a string in the string arena.
    Str(usize, usize),
}

/// The mathematical value of a constant: a number's bit pattern, or a string's characters.
pub enum ConstantValue {
    Number(u64),
    Str(Seq<char>),
}

/// A constant as handed out by a pool.
#[derive(Clone, Copy, Debug, PartialEq)]
pub enum Constant<'a> {
    /// The bit pattern of a 64-bit float.
    Number(u64),
    Str(&'a str),
}

impl<'a> View for Constant<'a> {
    type V = ConstantValue;

    open spec fn view(&self) -> ConstantValue {
        match self {
            Constant::Number(bits) => ConstantValue::Number(*bits),
            Constant::Str(s) => ConstantValue::Str(s@),
        }
    }
}

/// The eight bytes of `bits`, least significant first.
pub open spec fn number_bytes(bits: u64) -> Seq<u8> {
    Seq::new(8, |i: int| ((bits >> ((8 * i) as u64)) & 0xff) as u8)
}

/// What is fed to the hasher when a constant is added.
pub open spec fn content_writes(c: ConstantValue) -> Seq<Seq<u8>> {
    match c {
        ConstantValue::Number(bits) => seq![number_bytes(bits)],
        ConstantValue::Str(s) => seq![encode_utf8(s), seq![0xffu8]],
    }
}

/// What is fed to the hasher for a constant's index entry when the pool is built:
/// its kind, and for a string its length in bytes.
pub open spec fn index_writes(c: ConstantValue) -> Seq<Seq<u8>> {
    match c {
        ConstantValue::Number(_) => seq![seq![0u8]],
        ConstantValue::Str(s) => seq![seq![1u8], number_bytes(encode_utf8(s).len() as u64)],
    }
}

/// The hasher's input after the constants `v` were added in order.
pub open spec fn content_log(v: Seq<ConstantValue>) -> Seq<Seq<u8>>
    decreases v.len(),
{
    if v.len() == 0 {
        seq![]
    } else {
        content_log(v.drop_last()) + content_writes(v.last())
    }
}

/// The hasher's input for the index entries of `v`, in order.
pub open spec fn index_log(v: Seq<ConstantValue>) -> Seq<Seq<u8>>
    decreases v.len(),
{
    if v.len() == 0 {
        seq![]
    } else {
        index_log(v.drop_last()) + index_writes(v.last())
    }
}

/// The hash of a built pool that holds the constants `v`.
pub open spec fn pool_hash(v: Seq<ConstantValue>) -> u64 {
    DefaultHasher::spec_finish(content_log(v) + index_log(v))
}

/// The number arena of a pool that holds `v`: the numbers of `v` in order.
pub open spec fn numbers_of(v: Seq<ConstantValue>) -> Seq<u64>
    decreases v.len(),
{
    if v.len() == 0 {
        seq![]
    } else {
        match v.last() {
            ConstantValue::Number(bits) => numbers_of(v.drop_last()).push(bits),
            ConstantValue::Str(_) => numbers_of(v.drop_last()),
        }
    }
}

/// The string arena of a pool that holds `v`: the strings of `v` in order, one after the other.
pub open spec fn strings_of(v: Seq<ConstantValue>) -> Seq<char>
    decreases v.len(),
{
    if v.len() == 0 {
        seq![]
    } else {
        match v.last() {
            ConstantValue::Number(_) => strings_of(v.drop_last()),
            ConstantValue::Str(s) => strings_of(v.drop_last()) + s,
        }
    }
}

/// The index entry of the `i`-th constant of `v`: a number's position among
/// the numbers, a string's byte range in the arena.
pub open spec fn info_of(v: Seq<ConstantValue>, i: int) -> ConstantInfo {
    match v[i] {
        ConstantValue::Number(_) => ConstantInfo::Number(numbers_of(v.take(i)).len() as usize),
        ConstantValue::Str(_) => ConstantInfo::Str(
            encode_utf8(strings_of(v.take(i))).len() as usize,
            encode_utf8(strings_of(v.take(i + 1))).len() as usize,
        ),
    }
}

/// The constants of a compiled unit, each of them once, in the order in which
/// they were added.
#[derive(Debug)]
pub struct ConstantPool {
    index: Vec<ConstantInfo>,
    // Constant strings concatenated into one
    strings: String,
    numbers: Vec<u64>,
    hash: u64,
}

pub open spec fn info_value(info: ConstantInfo, bytes: Seq<u8>, numbers: Seq<u64>) -> ConstantValue {
    match info {
        ConstantInfo::Number(k) => ConstantValue::Number(numbers[k as int]),
        ConstantInfo::Str(start, end) => ConstantValue::Str(
            decode_utf8(bytes.subrange(start as int, end as int)),
        ),
    }
}

pub open spec fn info_in_bounds(info: ConstantInfo, bytes: Seq<u8>, numbers: Seq<u64>) -> bool {
    match info {
        ConstantInfo::Number(k) => k < numbers.len(),
        ConstantInfo::Str(start, end) => {
            &&& start <= end <= bytes.len()
            &&& is_char_boundary(bytes, start as int)
            &&& is_char_boundary(bytes, end as int)
        },
    }
}

impl View for ConstantPool {
    type V = Seq<ConstantValue>;

    closed spec fn view(&self) -> Seq<ConstantValue> {
        Seq::new(
            self.index@.len(),
            |i: int| info_value(self.index@[i], encode_utf8(self.strings@), self.numbers@),
        )
    }
}

impl ConstantPool {
    /// Every constant has an index of 32 bits, and every index entry points into
    /// the arenas, strings at character boundaries.
    #[verifier::opaque]
    pub closed spec fn in_bounds(self) -> bool {
        &&& self.index@.len() <= u32::MAX
        &&& forall|i: int|
            0 <= i < self.index@.len() ==> info_in_bounds(
                #[trigger] self.index@[i],
                encode_utf8(self.strings@),
                self.numbers@,
            )
    }

    /// The arenas hold the numbers and the strings in insertion order and nothing
    /// else, and every index entry points at its constant.
    #[verifier::opaque]
    pub closed spec fn canonical(self) -> bool {
        &&& self.numbers@ == numbers_of(self@)
        &&& self.strings@ == strings_of(self@)
        &&& forall|i: int|
            0 <= i < self.index@.len() ==> #[trigger] self.index@[i] == info_of(self@, i)
    }

    pub open spec fn well_formed(self) -> bool {
        self.in_bounds() && self.canonical()
    }

    /// The hash that the pool carries: `pool_hash` of its contents once it is built.
    pub closed spec fn hash_spec(self) -> u64 {
        self.hash
    }

    /// The string arena: the string constants concatenated in insertion order.
    pub closed spec fn arena(self) -> Seq<char> {
        self.strings@
    }

    /// Whether the pool carries the hash of its contents, as it does after `build`.
    pub open spec fn is_built(self) -> bool {
        self.hash_spec() == pool_hash(self@)
    }

    /// Every constant of a pool has an index of 32 bits.
    pub proof fn lemma_len_bound(self)
        requires
            self.well_formed(),
        ensures
            self@.len() <= u32::MAX,
    {
        reveal(ConstantPool::in_bounds);
    }

    pub fn len(&self) -> (n: usize)
        requires
            self.well_formed(),
        ensures
            n == self@.len(),
            n <= u32::MAX,
    {
        proof {
            self.lemma_len_bound();
        }
        self.index.len()
    }

    pub fn is_empty(&self) -> (b: bool)
        requires
            self.well_formed(),
        ensures
            b == (self@.len() == 0),
    {
        self.len() == 0
    }

    pub fn hash_value(&self) -> (h: u64)
        ensures
            h == self.hash_spec(),
    {
        self.hash
    }
}

/// A character boundary of a byte string is one of each prefix that ends at a later boundary.
proof fn lemma_boundary_in_prefix(bytes: Seq<u8>, start: int, end: int)
    requires
        valid_utf8(bytes),
        0 <= start <= end <= bytes.len(),
        is_char_boundary(bytes, start),
        is_char_boundary(bytes, end),
    ensures
        valid_utf8(bytes.subrange(0, end)),
        is_char_boundary(bytes.subrange(0, end), start),
{
    let prefix = bytes.subrange(0, end);
    valid_utf8_split(bytes, end);
    if start == end {
        is_char_boundary_start_end_of_seq(prefix);
    } else {
        is_char_boundary_iff_not_is_continuation_byte(bytes, start);
        is_char_boundary_iff_not_is_continuation_byte(prefix, start);
    }
}

/// The boundaries of a byte string stay boundaries when more text follows it.
proof fn lemma_boundary_with_suffix(bytes: Seq<u8>, more: Seq<u8>, at: int)
    requires
        valid_utf8(bytes),
        valid_utf8(more),
        0 <= at <= bytes.len(),
        is_char_boundary(bytes, at),
    ensures
        is_char_boundary(bytes + more, at),
{
    let all = bytes + more;
    valid_utf8_concat(bytes, more);
    if at == all.len() {
        is_char_boundary_start_end_of_seq(all);
    } else if at < bytes.len() {
        is_char_boundary_iff_not_is_continuation_byte(bytes, at);
        is_char_boundary_iff_not_is_continuation_byte(all, at);
    } else {
        is_char_boundary_start_end_of_seq(more);
        is_char_boundary_iff_not_is_continuation_byte(more, 0);
        is_char_boundary_iff_not_is_continuation_byte(all, at);
    }
}

/// The encoding of a concatenation is the concatenation of the encodings.
pub proof fn lemma_encode_concat(a: Seq<char>, b: Seq<char>)
    ensures
        encode_utf8(a + b) == encode_utf8(a) + encode_utf8(b),
    decreases a.len(),
{
    if a.len() == 0 {
        assert(a + b =~= b);
        assert(encode_utf8(a) + encode_utf8(b) =~= encode_utf8(b));
    } else {
        lemma_encode_concat(a.drop_first(), b);
        assert((a + b).drop_first() =~= a.drop_first() + b);
        assert(encode_utf8(a + b) =~= encode_utf8(a) + encode_utf8(b));
    }
}

impl ConstantPool {
    pub fn get(&self, index: ConstantIndex) -> (result: Option<Constant<'_>>)
        requires
            self.well_formed(),
        ensures
            index < self@.len() ==> result is Some && result->Some_0@ == self@[index as int],
            index >= self@.len() ==> result is None,
    {
        proof {
            reveal(ConstantPool::in_bounds);
        }
        if (index as usize) < self.index.len() {
            match self.index[index as usize] {
                ConstantInfo::Number(k) => Some(Constant::Number(self.numbers[k])),
                ConstantInfo::Str(_, _) => Some(Constant::Str(self.get_str(index))),
            }
        } else {
            None
        }
    }

    pub fn string_data(&self) -> (data: &str)
        ensures
            data@ == self.arena(),
    {
        self.strings.as_str()
    }

    /// The string constant at `index`.
    pub fn get_str(&self, index: ConstantIndex) -> (s: &str)
        requires
            self.well_formed(),
            index < self@.len(),
            self@[index as int] is Str,
        ensures
            self@[index as int] == ConstantValue::Str(s@),
    {
        let bounds = self.get_str_bounds(index);
        let data = self.strings.as_str();
        proof {
            encode_utf8_valid_utf8(data@);
            lemma_boundary_in_prefix(data.spec_bytes(), bounds.start as int, bounds.end as int);
        }
        let (head, _) = data.split_at(bounds.end);
        let (_, s) = head.split_at(bounds.start);
        proof {
            assert(head.spec_bytes().subrange(bounds.start as int, bounds.end as int)
                =~= data.spec_bytes().subrange(bounds.start as int, bounds.end as int));
            encode_utf8_decode_utf8(s@);
        }
        s
    }

    /// The byte range of the string constant at `index` in the string arena.
    pub fn get_str_bounds(&self, index: ConstantIndex) -> (bounds: Range<usize>)
        requires
            self.well_formed(),
            index < self@.len(),
            self@[index as int] is Str,
        ensures
            bounds.start <= bounds.end <= encode_utf8(self.arena()).len(),
            is_char_boundary(encode_utf8(self.arena()), bounds.start as int),
            is_char_boundary(encode_utf8(self.arena()), bounds.end as int),
            self@[index as int] == ConstantValue::Str(
                decode_utf8(
                    encode_utf8(self.arena()).subrange(bounds.start as int, bounds.end as int),
                ),
            ),
    {
        proof {
            reveal(ConstantPool::in_bounds);
        }
        match self.index[index as usize] {
            ConstantInfo::Str(start, end) => start..end,
            // A string, as the caller has it
            ConstantInfo::Number(_) => 0..0,
        }
    }

    /// The bit pattern of the number constant at `index`.
    pub fn get_number(&self, index: ConstantIndex) -> (bits: u64)
        requires
            self.well_formed(),
            index < self@.len(),
            self@[index as int] is Number,
        ensures
            self@[index as int] == ConstantValue::Number(bits),
    {
        proof {
            reveal(ConstantPool::in_bounds);
        }
        match self.index[index as usize] {
            ConstantInfo::Number(k) => self.numbers[k],
            // A number, as the caller has it
            ConstantInfo::Str(_, _) => 0,
        }
    }

    pub fn iter(&self) -> (iter: ConstantPoolIterator<'_>)
        requires
            self.well_formed(),
        ensures
            iter.pool() == self,
            iter.position() == 0,
    {
        ConstantPoolIterator::new(self)
    }
}

/// Walks a pool's constants in insertion order.
pub struct ConstantPoolIterator<'a> {
    pool: &'a ConstantPool,
    index: ConstantIndex,
}

impl<'a> ConstantPoolIterator<'a> {
    /// The pool that is walked.
    pub closed spec fn pool(self) -> &'a ConstantPool {
        self.pool
    }

    /// The index of the constant that `next` hands out.
    pub closed spec fn position(self) -> nat {
        self.index as nat
    }

    fn new(pool: &'a ConstantPool) -> (iter: Self)
        ensures
            iter.pool() == pool,
            iter.position() == 0,
    {
        Self { pool, index: 0 }
    }

    /// The next constant, or `None` behind the last one.
    pub fn next(&mut self) -> (result: Option<Constant<'a>>)
        requires
            old(self).pool().well_formed(),
        ensures
            final(self).pool() == old(self).pool(),
            old(self).position() < old(self).pool()@.len() ==> {
                &&& result is Some
                &&& result->Some_0@ == old(self).pool()@[old(self).position() as int]
                &&& final(self).position() == old(self).position() + 1
            },
            old(self).position() >= old(self).pool()@.len() ==> {
                &&& result is None
                &&& final(self).position() == old(self).position()
            },
    {
        proof {
            self.pool.lemma_len_bound();
        }
        let result = self.pool.get(self.index);
        if result.is_some() {
            self.index += 1;
        }
        result
    }
}

/// How the arenas and the index entries of a pool grow with a constant.
proof fn lemma_layout_push(v: Seq<ConstantValue>, c: ConstantValue)
    ensures
        numbers_of(v.push(c)) == match c {
            ConstantValue::Number(bits) => numbers_of(v).push(bits),
            ConstantValue::Str(_) => numbers_of(v),
        },
        strings_of(v.push(c)) == match c {
            ConstantValue::Number(_) => strings_of(v),
            ConstantValue::Str(s) => strings_of(v) + s,
        },
        forall|i: int| 0 <= i < v.len() ==> #[trigger] info_of(v.push(c), i) == info_of(v, i),
        info_of(v.push(c), v.len() as int) == match c {
            ConstantValue::Number(_) => ConstantInfo::Number(numbers_of(v).len() as usize),
            ConstantValue::Str(s) => ConstantInfo::Str(
                encode_utf8(strings_of(v)).len() as usize,
                encode_utf8(strings_of(v) + s).len() as usize,
            ),
        },
{
    let w = v.push(c);
    assert(w.drop_last() =~= v);
    assert(w.take(v.len() as int) =~= v);
    assert(w.take(v.len() as int + 1) =~= w);
    assert forall|i: int| 0 <= i < v.len() implies #[trigger] info_of(w, i) == info_of(v, i) by {
        assert(w.take(i) =~= v.take(i));
        assert(w.take(i + 1) =~= v.take(i + 1));
    }
}

impl ConstantPool {
    /// Appends a string constant, without looking for it first.
    fn push_string(&mut self, s: &str)
        requires
            old(self).well_formed(),
            old(self)@.len() < u32::MAX,
        ensures
            final(self).well_formed(),
            final(self)@ == old(self)@.push(ConstantValue::Str(s@)),
            final(self).hash_spec() == old(self).hash_spec(),
    {
        let ghost old_bytes = encode_utf8(self.strings@);
        let ghost old_view = self@;
        let ghost new_bytes = old_bytes + encode_utf8(s@);
        let start = self.strings.as_str().as_bytes().len();
        self.strings.append(s);
        let end = self.strings.as_str().as_bytes().len();
        proof {
            reveal(ConstantPool::in_bounds);
            encode_utf8_valid_utf8(old(self).strings@);
            encode_utf8_valid_utf8(s@);
            lemma_encode_concat(old(self).strings@, s@);
            assert forall|i: int| 0 <= i < self.index@.len() implies info_in_bounds(
                #[trigger] self.index@[i],
                new_bytes,
                self.numbers@,
            ) && info_value(self.index@[i], new_bytes, self.numbers@) == old_view[i] by {
                match self.index@[i] {
                    ConstantInfo::Number(_) => {},
                    ConstantInfo::Str(a, b) => {
                        lemma_boundary_with_suffix(old_bytes, encode_utf8(s@), a as int);
                        lemma_boundary_with_suffix(old_bytes, encode_utf8(s@), b as int);
                        assert(new_bytes.subrange(a as int, b as int) =~= old_bytes.subrange(
                            a as int,
                            b as int,
                        ));
                    },
                }
            }
            is_char_boundary_start_end_of_seq(old_bytes);
            valid_utf8_concat(old_bytes, encode_utf8(s@));
            is_char_boundary_start_end_of_seq(new_bytes);
            lemma_boundary_with_suffix(old_bytes, encode_utf8(s@), start as int);
            assert(new_bytes.subrange(start as int, end as int) =~= encode_utf8(s@));
            encode_utf8_decode_utf8(s@);
        }
        self.index.push(ConstantInfo::Str(start, end));
        proof {
            assert(self@ =~= old_view.push(ConstantValue::Str(s@)));
            reveal(ConstantPool::canonical);
            lemma_layout_push(old_view, ConstantValue::Str(s@));
        }
    }

    /// Appends a number constant, without looking for it first.
    fn push_number(&mut self, bits: u64)
        requires
            old(self).well_formed(),
            old(self)@.len() < u32::MAX,
        ensures
            final(self).well_formed(),
            final(self)@ == old(self)@.push(ConstantValue::Number(bits)),
            final(self).hash_spec() == old(self).hash_spec(),
    {
        let ghost old_view = self@;
        let number_index = self.numbers.len();
        self.numbers.push(bits);
        self.index.push(ConstantInfo::Number(number_index));
        proof {
            let c = ConstantValue::Number(bits);
            assert(self@ =~= old_view.push(c) && self.in_bounds()) by {
                reveal(ConstantPool::in_bounds);
            }
            assert(self.canonical()) by {
                reveal(ConstantPool::canonical);
                lemma_layout_push(old_view, c);
                assert forall|i: int| 0 <= i < self.index@.len() implies #[trigger] self.index@[i]
                    == info_of(self@, i) by {
                    if i < old_view.len() {
                        assert(self.index@[i] == old(self).index@[i]);
                        assert(info_of(old_view.push(c), i) == info_of(old_view, i));
                    }
                }
            }
        }
    }
}

/// The eight bytes of `bits`, least significant first.
fn number_to_bytes(bits: u64) -> (bytes: Vec<u8>)
    ensures
        bytes@ == number_bytes(bits),
{
    let mut bytes: Vec<u8> = Vec::new();
    let mut i: u64 = 0;
    while i < 8
        invariant
            i <= 8,
            bytes@.len() == i,
            forall|j: int| 0 <= j < i ==> bytes@[j] == ((bits >> ((8 * j) as u64)) & 0xff) as u8,
        decreases 8 - i,
    {
        bytes.push(((bits >> (8 * i)) & 0xff) as u8);
        i += 1;
    }
    assert(bytes@ =~= number_bytes(bits));
    bytes
}

proof fn lemma_content_log_push(v: Seq<ConstantValue>, c: ConstantValue)
    ensures
        content_log(v.push(c)) == content_log(v) + content_writes(c),
{
    assert(v.push(c).drop_last() =~= v);
}

proof fn lemma_index_log_take(v: Seq<ConstantValue>, i: int)
    requires
        0 <= i < v.len(),
    ensures
        index_log(v.take(i + 1)) == index_log(v.take(i)) + index_writes(v[i]),
{
    assert(v.take(i + 1).drop_last() =~= v.take(i));
}

impl ConstantPool {
    /// Feeds the index entries to `hasher`, and returns the pool with the hash that results.
    fn finish(self, hasher: DefaultHasher) -> (pool: ConstantPool)
        requires
            self.well_formed(),
            hasher@ == content_log(self@),
        ensures
            pool.well_formed(),
            pool@ == self@,
            pool.is_built(),
    {
        let mut hasher = hasher;
        let mut pool = self;
        let ghost bytes = encode_utf8(pool.strings@);
        proof {
            reveal(ConstantPool::in_bounds);
            reveal(ConstantPool::canonical);
            encode_utf8_valid_utf8(pool.strings@);
        }
        let mut i: usize = 0;
        while i < pool.index.len()
            invariant
                pool == self,
                pool.in_bounds(),
                i <= pool.index@.len(),
                bytes == encode_utf8(pool.strings@),
                valid_utf8(bytes),
                hasher@ == content_log(pool@) + index_log(pool@.take(i as int)),
            decreases pool.index@.len() - i,
        {
            proof {
                reveal(ConstantPool::in_bounds);
                lemma_index_log_take(pool@, i as int);
            }
            match pool.index[i] {
                ConstantInfo::Number(_) => {
                    let tag: Vec<u8> = vec![0u8];
                    hasher.write(tag.as_slice());
                    assert(tag@ =~= seq![0u8]);
                    assert(hasher@ =~= content_log(pool@) + index_log(pool@.take(i + 1)));
                },
                ConstantInfo::Str(start, end) => {
                    let tag: Vec<u8> = vec![1u8];
                    hasher.write(tag.as_slice());
                    let length = number_to_bytes((end - start) as u64);
                    hasher.write(length.as_slice());
                    proof {
                        assert(tag@ =~= seq![1u8]);
                        lemma_boundary_in_prefix(bytes, start as int, end as int);
                        valid_utf8_split(bytes.subrange(0, end as int), start as int);
                        assert(bytes.subrange(0, end as int).subrange(start as int, end as int)
                            =~= bytes.subrange(start as int, end as int));
                        decode_utf8_encode_utf8(bytes.subrange(start as int, end as int));
                        assert(hasher@ =~= content_log(pool@) + index_log(pool@.take(i + 1)));
                    }
                },
            }
            i += 1;
        }
        assert(pool@.take(i as int) =~= pool@);
        pool.hash = hasher.finish();
        pool
    }
}

/// Collects constants, each of them once, and the hash of what was added.
pub struct ConstantPoolBuilder {
    pool: ConstantPool,
    // Used to incrementally hash the constant pool's contents
    hasher: DefaultHasher,
    // The indices of the strings, under the hashes of the strings
    string_map: HashMap<u64, Vec<ConstantIndex>>,
    number_map: HashMap<u64, ConstantIndex>,
}

/// The hash under which a string's index is kept while a pool is built.
pub open spec fn string_key(s: Seq<char>) -> u64 {
    DefaultHasher::spec_finish(seq![encode_utf8(s)])
}

fn hash_string(s: &str) -> (key: u64)
    ensures
        key == string_key(s@),
{
    let mut hasher = DefaultHasher::new();
    hasher.write(s.as_bytes());
    assert(hasher@ =~= seq![encode_utf8(s@)]);
    hasher.finish()
}

impl View for ConstantPoolBuilder {
    type V = Seq<ConstantValue>;

    closed spec fn view(&self) -> Seq<ConstantValue> {
        self.pool@
    }
}

impl ConstantPoolBuilder {
    /// The index of each string is on record under the hash of the string,
    /// and what is on record is the index of a string.
    #[verifier::opaque]
    pub closed spec fn strings_on_record(self) -> bool {
        &&& forall|i: int|
            0 <= i < self.pool@.len() && (#[trigger] self.pool@[i]) is Str ==> {
                let key = string_key(self.pool@[i]->Str_0);
                self.string_map@.contains_key(key) && self.string_map@[key]@.contains(
                    i as ConstantIndex,
                )
            }
        &&& forall|key: u64, j: int|
            self.string_map@.contains_key(key) && 0 <= j < self.string_map@[key]@.len() ==> {
                let i = #[trigger] self.string_map@[key]@[j];
                i < self.pool@.len() && self.pool@[i as int] is Str
            }
    }

    /// No constant was added twice, the hasher has seen what was added, and
    /// each constant's index is on record.
    pub closed spec fn well_formed(self) -> bool {
        &&& self.pool.well_formed()
        &&& self.pool@.no_duplicates()
        &&& self.hasher@ == content_log(self.pool@)
        &&& self.strings_on_record()
        &&& forall|bits: u64| #[trigger]
            self.number_map@.contains_key(bits) <==> self.pool@.contains(
                ConstantValue::Number(bits),
            )
        &&& forall|bits: u64| #[trigger]
            self.number_map@.contains_key(bits) ==> {
                &&& self.number_map@[bits] < self.pool@.len()
                &&& self.pool@[self.number_map@[bits] as int] == ConstantValue::Number(bits)
            }
    }

    pub fn new() -> (builder: Self)
        ensures
            builder.well_formed(),
            builder@ == Seq::<ConstantValue>::empty(),
    {
        let builder = Self {
            pool: ConstantPool::default(),
            hasher: DefaultHasher::new(),
            string_map: HashMap::new(),
            number_map: HashMap::new(),
        };
        proof {
            assert(content_log(builder.pool@) =~= builder.hasher@);
            reveal(ConstantPoolBuilder::strings_on_record);
        }
        builder
    }

    /// The index of the string `s`, which is added unless the pool holds it already.
    pub fn add_string(&mut self, s: &str) -> (index: ConstantIndex)
        requires
            old(self).well_formed(),
            old(self)@.contains(ConstantValue::Str(s@)) || old(self)@.len() < u32::MAX,
        ensures
            final(self).well_formed(),
            final(self)@.no_duplicates(),
            final(self)@ == if old(self)@.contains(ConstantValue::Str(s@)) {
                old(self)@
            } else {
                old(self)@.push(ConstantValue::Str(s@))
            },
            index < final(self)@.len(),
            final(self)@[index as int] == ConstantValue::Str(s@),
    {
        let key = hash_string(s);
        let n = self.pool.len();
        if let Some(candidates) = self.string_map.get(&key) {
            let mut j: usize = 0;
            while j < candidates.len()
                invariant
                    self == old(self),
                    self.well_formed(),
                    self.string_map@.contains_key(key),
                    candidates@ == self.string_map@[key]@,
                    j <= candidates@.len(),
                    forall|k: int|
                        0 <= k < j ==> self@[candidates@[k] as int] != ConstantValue::Str(s@),
                decreases candidates@.len() - j,
            {
                let candidate = candidates[j];
                proof {
                    reveal(ConstantPoolBuilder::strings_on_record);
                    assert(self.string_map@[key]@[j as int] == candidate);
                }
                if str_eq(self.pool.get_str(candidate), s) {
                    return candidate;
                }
                j += 1;
            }
        }
        let ghost before = self.pool@;
        proof {
            reveal(ConstantPoolBuilder::strings_on_record);
            if before.contains(ConstantValue::Str(s@)) {
                let i = choose|i: int| 0 <= i < before.len() && before[i] == ConstantValue::Str(s@);
                assert(self.pool@[i] is Str);
                let bucket = self.string_map@[key]@;
                let k = choose|k: int| 0 <= k < bucket.len() && bucket[k] == i as ConstantIndex;
                assert(false);
            }
        }
        self.pool.push_string(s);
        self.hasher.write(s.as_bytes());
        let marker: Vec<u8> = vec![0xffu8];
        self.hasher.write(marker.as_slice());
        let ghost record = self.string_map@;
        let mut bucket = match self.string_map.remove(&key) {
            Some(bucket) => bucket,
            None => Vec::new(),
        };
        let ghost listed = bucket@;
        bucket.push(n as ConstantIndex);
        self.string_map.insert(key, bucket);
        proof {
            lemma_content_log_push(before, ConstantValue::Str(s@));
            assert(marker@ =~= seq![0xffu8]);
            assert(self.hasher@ =~= content_log(self.pool@));
            lemma_push_new(before, ConstantValue::Str(s@));
            assert forall|other: u64| #[trigger]
                self.number_map@.contains_key(other) <==> self.pool@.contains(
                    ConstantValue::Number(other),
                ) by {
                lemma_push_contains(before, ConstantValue::Str(s@), ConstantValue::Number(other));
            }
            assert(self.strings_on_record()) by {
                let pool = self.pool@;
                let map = self.string_map@;
                assert(map == record.insert(key, bucket));
                assert(record.contains_key(key) ==> listed == record[key]@);
                assert forall|i: int| 0 <= i < pool.len() && (#[trigger] pool[i]) is Str implies ({
                    let at = string_key(pool[i]->Str_0);
                    map.contains_key(at) && map[at]@.contains(i as ConstantIndex)
                }) by {
                    let at = string_key(pool[i]->Str_0);
                    if i < before.len() {
                        assert(pool[i] == before[i]);
                        let found = choose|k: int|
                            0 <= k < record[at]@.len() && record[at]@[k] == i as ConstantIndex;
                        if at == key {
                            assert(bucket@[found] == i as ConstantIndex);
                        } else {
                            assert(map[at]@[found] == i as ConstantIndex);
                        }
                    } else {
                        assert(bucket@[listed.len() as int] == n as ConstantIndex);
                    }
                }
                assert forall|at: u64, j: int|
                    map.contains_key(at) && 0 <= j < map[at]@.len() implies ({
                    let i = #[trigger] map[at]@[j];
                    i < pool.len() && pool[i as int] is Str
                }) by {
                    if at == key {
                        if j < listed.len() {
                            assert(record[key]@[j] == bucket@[j]);
                            assert(pool[bucket@[j] as int] == before[bucket@[j] as int]);
                        }
                    } else {
                        assert(record[at]@[j] == map[at]@[j]);
                        assert(pool[map[at]@[j] as int] == before[map[at]@[j] as int]);
                    }
                }
            }
        }
        n as ConstantIndex
    }

    /// The index of the number with the bit pattern `bits`, which is added
    /// unless the pool holds it already.
    pub fn add_number(&mut self, bits: u64) -> (index: ConstantIndex)
        requires
            old(self).well_formed(),
            old(self)@.contains(ConstantValue::Number(bits)) || old(self)@.len() < u32::MAX,
        ensures
            final(self).well_formed(),
            final(self)@.no_duplicates(),
            final(self)@ == if old(self)@.contains(ConstantValue::Number(bits)) {
                old(self)@
            } else {
                old(self)@.push(ConstantValue::Number(bits))
            },
            index < final(self)@.len(),
            final(self)@[index as int] == ConstantValue::Number(bits),
    {
        match self.number_map.get(&bits) {
            Some(index) => *index,
            None => {
                let ghost before = self.pool@;
                let result = self.pool.len() as ConstantIndex;
                self.pool.push_number(bits);
                let bytes = number_to_bytes(bits);
                self.hasher.write(bytes.as_slice());
                self.number_map.insert(bits, result);
                proof {
                    assert(self.strings_on_record()) by {
                        reveal(ConstantPoolBuilder::strings_on_record);
                        assert forall|i: int|
                            0 <= i < self.pool@.len() && (#[trigger] self.pool@[i]) is Str implies ({
                            let at = string_key(self.pool@[i]->Str_0);
                            self.string_map@.contains_key(at) && self.string_map@[at]@.contains(
                                i as ConstantIndex,
                            )
                        }) by {
                            assert(self.pool@[i] == before[i]);
                        }
                        assert forall|at: u64, j: int|
                            self.string_map@.contains_key(at) && 0 <= j
                                < self.string_map@[at]@.len() implies ({
                            let i = #[trigger] self.string_map@[at]@[j];
                            i < self.pool@.len() && self.pool@[i as int] is Str
                        }) by {
                            let i = self.string_map@[at]@[j];
                            assert(self.pool@[i as int] == before[i as int]);
                        }
                    }
                    lemma_content_log_push(before, ConstantValue::Number(bits));
                    assert(self.hasher@ =~= content_log(self.pool@));
                    lemma_push_new(before, ConstantValue::Number(bits));
                    assert forall|other: u64| #[trigger]
                        self.number_map@.contains_key(other) <==> self.pool@.contains(
                            ConstantValue::Number(other),
                        ) by {
                        lemma_push_contains(
                            before,
                            ConstantValue::Number(bits),
                            ConstantValue::Number(other),
                        );
                    }
                }
                result
            },
        }
    }

    /// The pool as it stands, before its hash is computed.
    pub fn pool(&self) -> (pool: &ConstantPool)
        requires
            self.well_formed(),
        ensures
            pool.well_formed(),
            pool@ == self@,
    {
        &self.pool
    }

    /// The pool of the constants that were added, with the hash of its contents.
    pub fn build(self) -> (pool: ConstantPool)
        requires
            self.well_formed(),
        ensures
            pool.well_formed(),
            pool@ == self@,
            pool.is_built(),
    {
        self.pool.finish(self.hasher)
    }
}

/// Appending a value that a sequence without duplicates lacks leaves it without duplicates.
proof fn lemma_push_new(v: Seq<ConstantValue>, c: ConstantValue)
    requires
        v.no_duplicates(),
        !v.contains(c),
    ensures
        v.push(c).no_duplicates(),
{
    assert forall|i: int, j: int|
        0 <= i < v.push(c).len() && 0 <= j < v.push(c).len() && i != j implies v.push(c)[i]
        != v.push(c)[j] by {
        if i < v.len() && j < v.len() {
        } else if i < v.len() {
            assert(v.contains(v[i]));
        } else {
            assert(v.contains(v[j]));
        }
    }
}

/// What a sequence holds after a value was appended: what it held, and that value.
proof fn lemma_push_contains(v: Seq<ConstantValue>, c: ConstantValue, x: ConstantValue)
    ensures
        v.push(c).contains(x) <==> (v.contains(x) || x == c),
{
    if v.contains(x) {
        let k = choose|k: int| 0 <= k < v.len() && v[k] == x;
        assert(v.push(c)[k] == x);
    }
    if x == c {
        assert(v.push(c)[v.len() as int] == x);
    }
    if v.push(c).contains(x) {
        let k = choose|k: int| 0 <= k < v.push(c).len() && v.push(c)[k] == x;
        if k < v.len() {
            assert(v[k] == x);
        }
    }
}

/// Whether two strings hold the same characters.
pub fn str_eq(a: &str, b: &str) -> (same: bool)
    ensures
        same == (a@ == b@),
{
    let x = a.as_bytes();
    let y = b.as_bytes();
    proof {
        encode_utf8_decode_utf8(a@);
        encode_utf8_decode_utf8(b@);
    }
    if x.len() != y.len() {
        return false;
    }
    let mut i: usize = 0;
    while i < x.len()
        invariant
            x@ == encode_utf8(a@),
            y@ == encode_utf8(b@),
            x@.len() == y@.len(),
            i <= x@.len(),
            forall|j: int| 0 <= j < i ==> x@[j] == y@[j],
        decreases x@.len() - i,
    {
        if x[i] != y[i] {
            return false;
        }
        i += 1;
    }
    assert(x@ =~= y@);
    true
}

fn infos_equal(a: &Vec<ConstantInfo>, b: &Vec<ConstantInfo>) -> (same: bool)
    ensures
        same == (a@ == b@),
{
    if a.len() != b.len() {
        return false;
    }
    let mut i: usize = 0;
    while i < a.len()
        invariant
            a@.len() == b@.len(),
            i <= a@.len(),
            forall|j: int| 0 <= j < i ==> a@[j] == b@[j],
        decreases a@.len() - i,
    {
        let same = match (a[i], b[i]) {
            (ConstantInfo::Number(x), ConstantInfo::Number(y)) => x == y,
            (ConstantInfo::Str(x0, x1), ConstantInfo::Str(y0, y1)) => x0 == y0 && x1 == y1,
            _ => false,
        };
        if !same {
            return false;
        }
        i += 1;
    }
    assert(a@ =~= b@);
    true
}

fn numbers_equal(a: &Vec<u64>, b: &Vec<u64>) -> (same: bool)
    ensures
        same == (a@ == b@),
{
    if a.len() != b.len() {
        return false;
    }
    let mut i: usize = 0;
    while i < a.len()
        invariant
            a@.len() == b@.len(),
            i <= a@.len(),
            forall|j: int| 0 <= j < i ==> a@[j] == b@[j],
        decreases a@.len() - i,
    {
        if a[i] != b[i] {
            return false;
        }
        i += 1;
    }
    assert(a@ =~= b@);
    true
}

impl ConstantPool {
    /// Whether two pools have the same index entries and the same arenas.
    pub closed spec fn same_layout(self, other: ConstantPool) -> bool {
        &&& self.index@ == other.index@
        &&& self.strings@ == other.strings@
        &&& self.numbers@ == other.numbers@
    }

    /// Two pools that hold the same constants in the same order are equal, and
    /// once both are built they carry the same hash.
    pub proof fn lemma_same_constants_same_pool(self, other: ConstantPool)
        requires
            self.well_formed(),
            other.well_formed(),
        ensures
            self@ == other@ <==> vstd::std_specs::cmp::PartialEqSpec::eq_spec(&self, &other),
            self@ == other@ && self.is_built() && other.is_built() ==> self.hash_spec()
                == other.hash_spec(),
    {
        reveal(ConstantPool::canonical);
        if self@ == other@ {
            assert(self.index@ =~= other.index@);
        }
        if self.same_layout(other) {
            assert(self@ =~= other@);
        }
    }
}

impl PartialEq for ConstantPool {
    fn eq(&self, other: &Self) -> (same: bool) {
        infos_equal(&self.index, &other.index) && self.strings == other.strings && numbers_equal(
            &self.numbers,
            &other.numbers,
        )
    }
}

impl PartialEqSpecImpl for ConstantPool {
    open spec fn obeys_eq_spec() -> bool {
        true
    }

    open spec fn eq_spec(&self, other: &Self) -> bool {
        self.same_layout(*other)
    }
}

impl Clone for ConstantPool {
    fn clone(&self) -> (copy: Self)
        ensures
            copy@ == self@,
            copy.hash_spec() == self.hash_spec(),
            copy.same_layout(*self),
            self.well_formed() ==> copy.well_formed(),
    {
        let copy = Self {
            index: self.index.clone(),
            strings: self.strings.clone(),
            numbers: self.numbers.clone(),
            hash: self.hash,
        };
        proof {
            assert(copy.index@ =~= self.index@);
            assert(copy.numbers@ =~= self.numbers@);
            assert(copy@ =~= self@);
            reveal(ConstantPool::in_bounds);
            reveal(ConstantPool::canonical);
        }
        copy
    }
}

impl Default for ConstantPoolBuilder {
    fn default() -> (builder: Self)
        ensures
            builder.well_formed(),
            builder@ == Seq::<ConstantValue>::empty(),
    {
        ConstantPoolBuilder::new()
    }
}

impl Default for ConstantPool {
    fn default() -> (pool: Self)
        ensures
            pool.well_formed(),
            pool@ == Seq::<ConstantValue>::empty(),
            pool.hash_spec() == 0,
    {
        let pool = Self { index: Vec::new(), strings: String::new(), numbers: Vec::new(), hash: 0 };
        proof {
            reveal(ConstantPool::in_bounds);
            reveal(ConstantPool::canonical);
            assert(pool@ =~= Seq::<ConstantValue>::empty());
        }
        pool
    }
}

} // verus!
