//! The order of the values, and sorting by it.
//!
//! Every two values are in order one way or the other, so that sorting never
//! fails: values of different types are ordered by their type, booleans with
//! `false` first, numbers as numbers with NaN behind all others, strings
//! character by character. All other values of one type tie. Sorting is
//! stable: values that tie stay in the order in which they were. What
//! sorting gives is stated as putting one value after the other into its
//! place; the sorting itself merges sorted halves.

use crate::number::{is_nan, number_is_nan, order_key, TWO_63};
use crate::text::string_chars;
use crate::value::{entries_view, values_view, MapEntry, Value, ValueView};
use vstd::prelude::*;

verus! {

/// The place of a value's type in the order of the values.
pub open spec fn rank(v: ValueView) -> int {
    match v {
        ValueView::Empty => 0,
        ValueView::Bool(_) => 1,
        ValueView::Number(_) => 2,
        ValueView::Str(_) => 3,
        ValueView::Range(_, _) => 4,
        ValueView::Num2(_, _) => 5,
        ValueView::Num4(_, _, _, _) => 6,
        ValueView::Tuple(_) => 7,
        ValueView::List(_) => 8,
        ValueView::Mapping(_) => 9,
        ValueView::Function { .. } => 10,
        ValueView::ExternalFunction(_) => 11,
        ValueView::ExternalValue(_, _) => 12,
        ValueView::Iterator(_) => 13,
    }
}

/// Whether the string `x` comes before `y` or is `y`, character by character.
pub open spec fn chars_le(x: Seq<char>, y: Seq<char>) -> bool
    decreases x.len(),
{
    if x.len() == 0 {
        true
    } else if y.len() == 0 {
        false
    } else if x[0] != y[0] {
        (x[0] as u32) < (y[0] as u32)
    } else {
        chars_le(x.drop_first(), y.drop_first())
    }
}

/// Whether the number `a` is at most `b`, with NaN behind all numbers.
pub open spec fn number_le(a: u64, b: u64) -> bool {
    is_nan(b) || (!is_nan(a) && order_key(a) <= order_key(b))
}

/// Whether the value `a` comes before `b` or ties with it.
pub open spec fn value_le(a: ValueView, b: ValueView) -> bool {
    if rank(a) != rank(b) {
        rank(a) < rank(b)
    } else {
        match a {
            ValueView::Bool(x) => !x || b->Bool_0,
            ValueView::Number(x) => number_le(x, b->Number_0),
            ValueView::Str(x) => chars_le(x, b->Str_0),
            _ => true,
        }
    }
}

/// Of two strings one comes before the other or is the other.
pub proof fn lemma_chars_le_total(x: Seq<char>, y: Seq<char>)
    ensures
        chars_le(x, y) || chars_le(y, x),
    decreases x.len(),
{
    if x.len() > 0 && y.len() > 0 {
        if x[0] == y[0] {
            lemma_chars_le_total(x.drop_first(), y.drop_first());
        } else {
            vstd::utf8::char_u32_cast(x[0], x[0] as u32);
            vstd::utf8::char_u32_cast(y[0], y[0] as u32);
        }
    }
}

/// What comes before a string that comes before a third comes before the third.
pub proof fn lemma_chars_le_transitive(x: Seq<char>, y: Seq<char>, z: Seq<char>)
    requires
        chars_le(x, y),
        chars_le(y, z),
    ensures
        chars_le(x, z),
    decreases x.len(),
{
    if x.len() > 0 && y.len() > 0 && z.len() > 0 && x[0] == y[0] && y[0] == z[0] {
        lemma_chars_le_transitive(x.drop_first(), y.drop_first(), z.drop_first());
    }
}

/// Every two values are in order one way or the other.
pub proof fn lemma_value_le_total(a: ValueView, b: ValueView)
    ensures
        value_le(a, b) || value_le(b, a),
{
    if a is Str && b is Str {
        lemma_chars_le_total(a->Str_0, b->Str_0);
    }
}

/// What comes before a value that comes before a third comes before the third.
pub proof fn lemma_value_le_transitive(a: ValueView, b: ValueView, c: ValueView)
    requires
        value_le(a, b),
        value_le(b, c),
    ensures
        value_le(a, c),
{
    if a is Str && b is Str && c is Str {
        lemma_chars_le_transitive(a->Str_0, b->Str_0, c->Str_0);
    }
}

fn chars_le_exec(x: &Vec<char>, y: &Vec<char>) -> (result: bool)
    ensures
        result == chars_le(x@, y@),
{
    let mut i: usize = 0;
    assert(x@.skip(0) =~= x@ && y@.skip(0) =~= y@);
    while i < x.len() && i < y.len()
        invariant
            i <= x@.len(),
            i <= y@.len(),
            chars_le(x@, y@) == chars_le(x@.skip(i as int), y@.skip(i as int)),
        decreases x@.len() - i,
    {
        proof {
            let xs = x@.skip(i as int);
            let ys = y@.skip(i as int);
            assert(xs[0] == x@[i as int] && ys[0] == y@[i as int]);
            assert(xs.drop_first() =~= x@.skip(i + 1));
            assert(ys.drop_first() =~= y@.skip(i + 1));
        }
        if x[i] != y[i] {
            return (x[i] as u32) < (y[i] as u32);
        }
        i += 1;
    }
    i == x.len()
}

fn rank_exec(v: &Value) -> (r: u8)
    ensures
        r == rank(v@),
{
    match v {
        Value::Empty => 0,
        Value::Bool(_) => 1,
        Value::Number(_) => 2,
        Value::Str(_) => 3,
        Value::Range(_) => 4,
        Value::Num2(_, _) => 5,
        Value::Num4(_, _, _, _) => 6,
        Value::Tuple(_) => 7,
        Value::List(_) => 8,
        Value::Mapping(_) => 9,
        Value::Function(_) => 10,
        Value::ExternalFunction(_) => 11,
        Value::ExternalValue(_, _) => 12,
        Value::Iterator(_) => 13,
    }
}

fn number_le_exec(a: u64, b: u64) -> (result: bool)
    ensures
        result == number_le(a, b),
{
    if number_is_nan(b) {
        return true;
    }
    if number_is_nan(a) {
        return false;
    }
    let ka: i128 = if a >= TWO_63 {
        -((a % TWO_63) as i128)
    } else {
        a as i128
    };
    let kb: i128 = if b >= TWO_63 {
        -((b % TWO_63) as i128)
    } else {
        b as i128
    };
    ka <= kb
}

/// Whether the value `a` comes before `b` or ties with it.
pub fn value_precedes(a: &Value, b: &Value) -> (result: bool)
    ensures
        result == value_le(a@, b@),
{
    let ra = rank_exec(a);
    let rb = rank_exec(b);
    if ra != rb {
        return ra < rb;
    }
    match a {
        Value::Bool(x) => match b {
            Value::Bool(y) => !*x || *y,
            _ => true,
        },
        Value::Number(x) => match b {
            Value::Number(y) => number_le_exec(*x, *y),
            _ => true,
        },
        Value::Str(x) => match b {
            Value::Str(y) => {
                let xs = string_chars(x.as_str());
                let ys = string_chars(y.as_str());
                chars_le_exec(&xs, &ys)
            },
            _ => true,
        },
        _ => true,
    }
}

/// The entries `s`, which are sorted by their keys, with the entry `e` among
/// them: behind the entries whose keys come before its key or tie with it.
pub open spec fn insert_entry(
    s: Seq<(ValueView, ValueView)>,
    e: (ValueView, ValueView),
) -> Seq<(ValueView, ValueView)>
    decreases s.len(),
{
    if s.len() == 0 {
        seq![e]
    } else if value_le(s.last().0, e.0) {
        s.push(e)
    } else {
        insert_entry(s.drop_last(), e).push(s.last())
    }
}

/// The entries `s` sorted by their keys; entries whose keys tie stay in their order.
pub open spec fn sorted_entries(s: Seq<(ValueView, ValueView)>) -> Seq<(ValueView, ValueView)>
    decreases s.len(),
{
    if s.len() == 0 {
        s
    } else {
        insert_entry(sorted_entries(s.drop_last()), s.last())
    }
}

/// Whether the entries are in the order of their keys.
pub open spec fn entries_in_order(s: Seq<(ValueView, ValueView)>) -> bool {
    forall|i: int, j: int| 0 <= i < j < s.len() ==> value_le(s[i].0, s[j].0)
}

/// An entry goes somewhere among the entries, which stay as they are.
pub proof fn lemma_insert_somewhere(s: Seq<(ValueView, ValueView)>, e: (ValueView, ValueView))
    ensures
        exists|p: int|
            0 <= p <= s.len() && #[trigger] s.insert(p, e) == insert_entry(s, e) && (forall|i: int|
                p <= i < s.len() ==> !value_le(#[trigger] s[i].0, e.0)) && (p > 0 ==> value_le(
                s[p - 1].0,
                e.0,
            )),
    decreases s.len(),
{
    if s.len() == 0 {
        assert(s.insert(0, e) =~= seq![e]);
    } else if value_le(s.last().0, e.0) {
        assert(s.insert(s.len() as int, e) =~= s.push(e));
    } else {
        lemma_insert_somewhere(s.drop_last(), e);
        let r = s.drop_last();
        let p = choose|p: int|
            0 <= p <= r.len() && #[trigger] r.insert(p, e) == insert_entry(r, e) && (forall|i: int|
                p <= i < r.len() ==> !value_le(#[trigger] r[i].0, e.0)) && (p > 0 ==> value_le(
                r[p - 1].0,
                e.0,
            ));
        assert(r.insert(p, e).push(s.last()) =~= s.insert(p, e));
        assert forall|i: int| p <= i < s.len() implies !value_le(#[trigger] s[i].0, e.0) by {
            if i < r.len() {
                assert(r[i] == s[i]);
            }
        }
        assert(p > 0 ==> r[p - 1] == s[p - 1]);
    }
}

/// Entries in order stay in order when an entry goes among them.
pub proof fn lemma_insert_keeps_order(s: Seq<(ValueView, ValueView)>, e: (ValueView, ValueView))
    requires
        entries_in_order(s),
    ensures
        entries_in_order(insert_entry(s, e)),
{
    lemma_insert_somewhere(s, e);
    let p = choose|p: int|
        0 <= p <= s.len() && #[trigger] s.insert(p, e) == insert_entry(s, e) && (forall|i: int|
            p <= i < s.len() ==> !value_le(#[trigger] s[i].0, e.0)) && (p > 0 ==> value_le(
            s[p - 1].0,
            e.0,
        ));
    let t = s.insert(p, e);
    assert forall|i: int, j: int| 0 <= i < j < t.len() implies value_le(t[i].0, t[j].0) by {
        if j == p {
            if i < p - 1 {
                lemma_value_le_transitive(s[i].0, s[p - 1].0, e.0);
            }
        } else if i == p {
            assert(t[j] == s[j - 1]);
            lemma_value_le_total(s[j - 1].0, e.0);
        } else {
            let a = if i < p { i } else { i - 1 };
            let b = if j < p { j } else { j - 1 };
            assert(t[i] == s[a] && t[j] == s[b]);
        }
    }
}

/// Sorted entries are in the order of their keys.
pub proof fn lemma_sorted_in_order(s: Seq<(ValueView, ValueView)>)
    ensures
        entries_in_order(sorted_entries(s)),
        sorted_entries(s).len() == s.len(),
    decreases s.len(),
{
    if s.len() > 0 {
        lemma_sorted_in_order(s.drop_last());
        lemma_insert_keeps_order(sorted_entries(s.drop_last()), s.last());
        lemma_insert_somewhere(sorted_entries(s.drop_last()), s.last());
    }
}

/// Sorting entries that are in order changes nothing.
pub proof fn lemma_sorted_of_ordered(s: Seq<(ValueView, ValueView)>)
    requires
        entries_in_order(s),
    ensures
        sorted_entries(s) == s,
    decreases s.len(),
{
    if s.len() > 0 {
        let r = s.drop_last();
        assert forall|i: int, j: int| 0 <= i < j < r.len() implies value_le(r[i].0, r[j].0) by {
            assert(r[i] == s[i] && r[j] == s[j]);
        }
        lemma_sorted_of_ordered(r);
        if r.len() > 0 {
            assert(value_le(s[r.len() - 1].0, s[s.len() - 1].0));
            assert(r.last() == s[r.len() - 1]);
        }
        assert(r.push(s.last()) =~= s);
    }
}

/// Sorting twice gives what sorting once gives.
pub proof fn lemma_sort_idempotent(s: Seq<(ValueView, ValueView)>)
    ensures
        sorted_entries(sorted_entries(s)) == sorted_entries(s),
{
    lemma_sorted_in_order(s);
    lemma_sorted_of_ordered(sorted_entries(s));
}

/// Sorting keeps the entries: each is there as often as it was.
pub proof fn lemma_sort_keeps_entries(s: Seq<(ValueView, ValueView)>)
    ensures
        sorted_entries(s).to_multiset() == s.to_multiset(),
    decreases s.len(),
{
    broadcast use vstd::seq_lib::group_to_multiset_ensures;

    if s.len() > 0 {
        let r = s.drop_last();
        let e = s.last();
        lemma_sort_keeps_entries(r);
        lemma_insert_somewhere(sorted_entries(r), e);
        let t = sorted_entries(r);
        let p = choose|p: int|
            0 <= p <= t.len() && #[trigger] t.insert(p, e) == insert_entry(t, e) && (forall|i: int|
                p <= i < t.len() ==> !value_le(#[trigger] t[i].0, e.0)) && (p > 0 ==> value_le(
                t[p - 1].0,
                e.0,
            ));
        assert(t.insert(p, e).to_multiset() == t.to_multiset().insert(e));
        assert(r.push(e) =~= s);
        assert(r.push(e).to_multiset() == r.to_multiset().insert(e));
    }
}

/// Two sequences of entries merged from their ends: of the two last
/// entries, the one whose key comes behind goes last, and where the keys tie,
/// that of the second sequence.
pub open spec fn merged(
    x: Seq<(ValueView, ValueView)>,
    y: Seq<(ValueView, ValueView)>,
) -> Seq<(ValueView, ValueView)>
    decreases x.len() + y.len(),
{
    if y.len() == 0 {
        x
    } else if x.len() == 0 {
        y
    } else if value_le(x.last().0, y.last().0) {
        merged(x, y.drop_last()).push(y.last())
    } else {
        merged(x.drop_last(), y).push(x.last())
    }
}

/// Putting an entry among merged entries is merging with the second
/// sequence among which the entry was put.
proof fn lemma_merged_insert(
    x: Seq<(ValueView, ValueView)>,
    y: Seq<(ValueView, ValueView)>,
    e: (ValueView, ValueView),
)
    ensures
        insert_entry(merged(x, y), e) == merged(x, insert_entry(y, e)),
    decreases x.len() + y.len(),
{
    let z = insert_entry(y, e);
    if y.len() == 0 {
        assert(z =~= seq![e]);
        assert(z.last() == e && z.drop_last() =~= y);
        assert(merged(x, y) == x);
        if x.len() == 0 {
            assert(merged(x, z) == z);
        } else if value_le(x.last().0, e.0) {
            assert(merged(x, z) == merged(x, y).push(e));
        } else {
            lemma_merged_insert(x.drop_last(), y, e);
            assert(merged(x.drop_last(), y) == x.drop_last());
            assert(merged(x, z) == merged(x.drop_last(), z).push(x.last()));
        }
    } else if x.len() == 0 {
        lemma_insert_somewhere(y, e);
        assert(z.len() > 0);
        assert(merged(x, y) == y);
        assert(merged(x, z) == z);
    } else {
        let xl = x.last();
        let yl = y.last();
        lemma_insert_somewhere(y, e);
        assert(z.len() > 0);
        if value_le(yl.0, e.0) {
            assert(z == y.push(e));
            assert(z.last() == e && z.drop_last() =~= y);
        } else {
            assert(z == insert_entry(y.drop_last(), e).push(yl));
            assert(z.last() == yl && z.drop_last() =~= insert_entry(y.drop_last(), e));
        }
        if value_le(xl.0, yl.0) {
            let m = merged(x, y.drop_last());
            assert(merged(x, y) == m.push(yl));
            assert(m.push(yl).last() == yl && m.push(yl).drop_last() =~= m);
            if value_le(yl.0, e.0) {
                lemma_value_le_transitive(xl.0, yl.0, e.0);
                assert(merged(x, z) == merged(x, y).push(e));
            } else {
                lemma_merged_insert(x, y.drop_last(), e);
                assert(merged(x, z) == merged(x, z.drop_last()).push(yl));
                assert(insert_entry(m.push(yl), e) == insert_entry(m, e).push(yl));
            }
        } else {
            let m = merged(x.drop_last(), y);
            assert(merged(x, y) == m.push(xl));
            assert(m.push(xl).last() == xl && m.push(xl).drop_last() =~= m);
            lemma_value_le_total(xl.0, yl.0);
            if value_le(xl.0, e.0) {
                lemma_value_le_transitive(yl.0, xl.0, e.0);
                assert(merged(x, z) == merged(x, y).push(e));
            } else {
                lemma_merged_insert(x.drop_last(), y, e);
                assert(!value_le(xl.0, z.last().0));
                assert(merged(x, z) == merged(x.drop_last(), z).push(xl));
                assert(insert_entry(m.push(xl), e) == insert_entry(m, e).push(xl));
            }
        }
    }
}

/// Sorting one sequence behind another is merging the two, each sorted.
pub proof fn lemma_sorted_concat(x: Seq<(ValueView, ValueView)>, y: Seq<(ValueView, ValueView)>)
    ensures
        sorted_entries(x + y) == merged(sorted_entries(x), sorted_entries(y)),
    decreases y.len(),
{
    if y.len() == 0 {
        assert(x + y =~= x);
    } else {
        assert((x + y).drop_last() =~= x + y.drop_last());
        lemma_sorted_concat(x, y.drop_last());
        lemma_merged_insert(sorted_entries(x), sorted_entries(y.drop_last()), y.last());
    }
}

/// The views of entries that grew by an entry.
proof fn lemma_entries_view_push(s: Seq<MapEntry>, e: MapEntry)
    ensures
        entries_view(s.push(e)) == entries_view(s).push((e.key@, e.value@)),
{
    assert(entries_view(s.push(e)) =~= entries_view(s).push((e.key@, e.value@)));
}

/// Merges two sequences of entries from their ends.
fn merge(left: Vec<MapEntry>, right: Vec<MapEntry>) -> (result: Vec<MapEntry>)
    ensures
        entries_view(result@) == merged(entries_view(left@), entries_view(right@)),
{
    let mut x = left;
    let mut y = right;
    let ghost all = merged(entries_view(left@), entries_view(right@));
    // The entries from the end, last first
    let mut tail: Vec<MapEntry> = Vec::new();
    assert(merged(entries_view(x@), entries_view(y@)) + entries_view(tail@).reverse() =~= all);
    while x.len() > 0 && y.len() > 0
        invariant
            all == merged(entries_view(x@), entries_view(y@)) + entries_view(tail@).reverse(),
        decreases x@.len() + y@.len(),
    {
        let ghost xs = entries_view(x@);
        let ghost ys = entries_view(y@);
        let ghost ts = entries_view(tail@);
        assert(xs.last() == (x@.last().key@, x@.last().value@));
        assert(ys.last() == (y@.last().key@, y@.last().value@));
        let entry = if value_precedes(&x[x.len() - 1].key, &y[y.len() - 1].key) {
            let entry = y.pop().unwrap();
            assert(entries_view(y@) =~= ys.drop_last());
            entry
        } else {
            let entry = x.pop().unwrap();
            assert(entries_view(x@) =~= xs.drop_last());
            entry
        };
        proof {
            lemma_entries_view_push(tail@, entry);
        }
        tail.push(entry);
        assert(merged(entries_view(x@), entries_view(y@)).push((entry.key@, entry.value@))
            + ts.reverse() =~= merged(entries_view(x@), entries_view(y@)) + ts.push(
            (entry.key@, entry.value@),
        ).reverse());
    }
    let mut result = if y.len() == 0 {
        x
    } else {
        y
    };
    while tail.len() > 0
        invariant
            all == entries_view(result@) + entries_view(tail@).reverse(),
        decreases tail@.len(),
    {
        let ghost rs = entries_view(result@);
        let ghost ts = entries_view(tail@);
        let entry = tail.pop().unwrap();
        proof {
            assert(entries_view(tail@) =~= ts.drop_last());
            assert(ts.last() == (entry.key@, entry.value@));
            lemma_entries_view_push(result@, entry);
            assert(rs.push(ts.last()) + ts.drop_last().reverse() =~= rs + ts.reverse());
        }
        result.push(entry);
    }
    assert(entries_view(result@) + entries_view(tail@).reverse() =~= entries_view(result@));
    result
}

/// Sorts entries by their keys, halves first.
fn merge_sort(entries: Vec<MapEntry>) -> (sorted: Vec<MapEntry>)
    ensures
        entries_view(sorted@) == sorted_entries(entries_view(entries@)),
    decreases entries@.len(),
{
    let mut head = entries;
    let n = head.len();
    let ghost views = entries_view(entries@);
    if n <= 1 {
        proof {
            if n == 1 {
                assert(views.drop_last() =~= seq![]);
                assert(sorted_entries(views.drop_last()) =~= seq![]);
                assert(insert_entry(seq![], views.last()) =~= views);
            }
        }
        return head;
    }
    let tail = head.split_off(n / 2);
    proof {
        assert(views =~= entries_view(head@) + entries_view(tail@));
        lemma_sorted_concat(entries_view(head@), entries_view(tail@));
    }
    let left = merge_sort(head);
    let right = merge_sort(tail);
    merge(left, right)
}

/// Sorts entries by their keys; entries whose keys tie stay in their order.
pub fn sort_entries(entries: &mut Vec<MapEntry>)
    ensures
        entries_view(final(entries)@) == sorted_entries(entries_view(old(entries)@)),
{
    let mut taken: Vec<MapEntry> = Vec::new();
    std::mem::swap(entries, &mut taken);
    *entries = merge_sort(taken);
}

/// The values `s` as entries: each is a key, with nothing under it.
pub open spec fn as_keys(s: Seq<ValueView>) -> Seq<(ValueView, ValueView)> {
    Seq::new(s.len(), |i: int| (s[i], ValueView::Empty))
}

/// The keys of entries.
pub open spec fn keys(s: Seq<(ValueView, ValueView)>) -> Seq<ValueView> {
    Seq::new(s.len(), |i: int| s[i].0)
}

/// The values `s` sorted; values that tie stay in their order.
pub open spec fn sorted_values(s: Seq<ValueView>) -> Seq<ValueView> {
    keys(sorted_entries(as_keys(s)))
}

/// Whether the values are in order.
pub open spec fn values_in_order(s: Seq<ValueView>) -> bool {
    forall|i: int, j: int| 0 <= i < j < s.len() ==> value_le(s[i], s[j])
}

/// Sorted entries that had nothing under their keys have nothing under them.
proof fn lemma_sorted_keys_only(s: Seq<(ValueView, ValueView)>)
    requires
        forall|i: int| 0 <= i < s.len() ==> (#[trigger] s[i]).1 == ValueView::Empty,
    ensures
        forall|i: int|
            0 <= i < sorted_entries(s).len() ==> (#[trigger] sorted_entries(s)[i]).1
                == ValueView::Empty,
        sorted_entries(s) == as_keys(keys(sorted_entries(s))),
    decreases s.len(),
{
    if s.len() > 0 {
        let r = s.drop_last();
        assert forall|i: int| 0 <= i < r.len() implies (#[trigger] r[i]).1 == ValueView::Empty by {
            assert(r[i] == s[i]);
        }
        lemma_sorted_keys_only(r);
        lemma_insert_somewhere(sorted_entries(r), s.last());
    }
    assert(sorted_entries(s) =~= as_keys(keys(sorted_entries(s))));
}

/// Sorted values are in order, as many as they were, and each is there as
/// often as it was. Sorting values that are in order changes nothing, and so
/// sorting twice gives what sorting once gives.
pub proof fn lemma_sorted_values(s: Seq<ValueView>)
    ensures
        values_in_order(sorted_values(s)),
        sorted_values(s).len() == s.len(),
        sorted_values(s).to_multiset() == s.to_multiset(),
        values_in_order(s) ==> sorted_values(s) == s,
        sorted_values(sorted_values(s)) == sorted_values(s),
{
    broadcast use vstd::seq_lib::group_to_multiset_ensures;

    let e = as_keys(s);
    let t = sorted_entries(e);
    lemma_sorted_in_order(e);
    lemma_sorted_keys_only(e);
    assert forall|i: int, j: int| 0 <= i < j < sorted_values(s).len() implies value_le(
        sorted_values(s)[i],
        sorted_values(s)[j],
    ) by {
        assert(value_le(t[i].0, t[j].0));
    }
    lemma_sort_idempotent(e);
    assert(as_keys(sorted_values(s)) == t);
    if values_in_order(s) {
        assert forall|i: int, j: int| 0 <= i < j < e.len() implies value_le(e[i].0, e[j].0) by {
            assert(value_le(s[i], s[j]));
        }
        lemma_sorted_of_ordered(e);
        assert(sorted_values(s) =~= s);
    }
    lemma_sort_keeps_entries(e);
    lemma_keys_multiset(e);
    lemma_keys_multiset(t);
    assert(keys(e) =~= s);
}

/// The keys of entries with nothing under them, each as often as its entry.
proof fn lemma_keys_multiset(s: Seq<(ValueView, ValueView)>)
    requires
        forall|i: int| 0 <= i < s.len() ==> (#[trigger] s[i]).1 == ValueView::Empty,
    ensures
        forall|v: ValueView| keys(s).to_multiset().count(v) == s.to_multiset().count(
            (v, ValueView::Empty),
        ),
    decreases s.len(),
{
    broadcast use vstd::seq_lib::group_to_multiset_ensures;

    if s.len() == 0 {
        assert(keys(s) =~= Seq::<ValueView>::empty());
    } else {
        let r = s.drop_last();
        assert forall|i: int| 0 <= i < r.len() implies (#[trigger] r[i]).1 == ValueView::Empty by {
            assert(r[i] == s[i]);
        }
        lemma_keys_multiset(r);
        assert(r.push(s.last()) =~= s);
        assert(keys(r).push(s.last().0) =~= keys(s));
        assert(s.last() == (s.last().0, ValueView::Empty));
    }
}

/// Takes all items out of `items`, and hands them out in reverse order.
pub fn take_reversed<T>(items: &mut Vec<T>) -> (reversed: Vec<T>)
    ensures
        final(items)@.len() == 0,
        reversed@ == old(items)@.reverse(),
{
    let mut reversed: Vec<T> = Vec::new();
    let ghost n = items@.len();
    while items.len() > 0
        invariant
            n == old(items)@.len(),
            items@.len() + reversed@.len() == n,
            items@ == old(items)@.take(items@.len() as int),
            forall|i: int| 0 <= i < reversed@.len() ==> reversed@[i] == old(items)@[n - 1 - i],
        decreases items@.len(),
    {
        let item = items.pop().unwrap();
        reversed.push(item);
        assert(items@ =~= old(items)@.take(items@.len() as int));
    }
    assert(reversed@ =~= old(items)@.reverse());
    reversed
}

/// Sorts values; values that tie stay in their order.
pub fn sort_values(values: &mut Vec<Value>)
    ensures
        values_view(final(values)@) == sorted_values(values_view(old(values)@)),
{
    let ghost views = values_view(values@);
    let ghost n = values@.len();
    let mut stack = take_reversed(values);
    let mut entries: Vec<MapEntry> = Vec::new();
    while stack.len() > 0
        invariant
            n == old(values)@.len(),
            views == values_view(old(values)@),
            stack@.len() + entries@.len() == n,
            forall|i: int| 0 <= i < stack@.len() ==> stack@[i] == old(values)@[n - 1 - i],
            entries_view(entries@) == as_keys(views.take(entries@.len() as int)),
        decreases stack@.len(),
    {
        let key = stack.pop().unwrap();
        let ghost k = entries@.len() as int;
        let ghost before = entries_view(entries@);
        assert(key == old(values)@[k]);
        entries.push(MapEntry { key, value: Value::Empty });
        proof {
            let after = entries_view(entries@);
            let target = as_keys(views.take(k + 1));
            assert forall|i: int| 0 <= i < after.len() implies after[i] == target[i] by {
                if i < k {
                    assert(after[i] == before[i]);
                    assert(before[i] == as_keys(views.take(k))[i]);
                }
            }
            assert(after =~= target);
        }
    }
    assert(views.take(n as int) =~= views);
    sort_entries(&mut entries);
    let ghost sorted = entries_view(entries@);
    proof {
        lemma_sorted_in_order(as_keys(views));
    }
    let mut stack = take_reversed(&mut entries);
    while stack.len() > 0
        invariant
            values@.len() + stack@.len() == n,
            sorted.len() == n,
            sorted == sorted_entries(as_keys(views)),
            forall|i: int|
                0 <= i < stack@.len() ==> (stack@[i].key@, stack@[i].value@) == sorted[n - 1 - i],
            values_view(values@) == keys(sorted).take(values@.len() as int),
        decreases stack@.len(),
    {
        let entry = stack.pop().unwrap();
        let ghost k = values@.len() as int;
        values.push(entry.key);
        assert(values_view(values@) =~= keys(sorted).take(k + 1));
    }
    assert(keys(sorted).take(n as int) =~= keys(sorted));
}

} // verus!
