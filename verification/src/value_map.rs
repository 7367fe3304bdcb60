//! What a map does: finding, inserting and removing keys, in the order in
//! which the keys were inserted.
//!
//! Keys are told apart by their mathematical value, so that a number is
//! found again by its bit pattern. Where a key stands more than once, which
//! no map does that was made by inserting, the first entry is the one that is
//! found, replaced or removed.

use crate::sort::{sort_entries, sorted_entries};
use crate::value::{
    entries_view, identical, meta_view, ExternalFunction, MapEntry, MapView, MetaEntry, MetaKey, Value, ValueMap, ValueView,
};
use vstd::prelude::*;
use vstd::string::*;

verus! {

/// The position of the first entry with the key `key`; the number of entries
/// where there is none.
pub open spec fn first_index(entries: Seq<(ValueView, ValueView)>, key: ValueView) -> int
    decreases entries.len(),
{
    if entries.len() == 0 {
        0
    } else if entries[0].0 == key {
        0
    } else {
        1 + first_index(entries.drop_first(), key)
    }
}

/// Whether an entry has the key `key`.
pub open spec fn has_key(entries: Seq<(ValueView, ValueView)>, key: ValueView) -> bool {
    first_index(entries, key) < entries.len()
}

/// The value under the key `key`.
pub open spec fn value_of(entries: Seq<(ValueView, ValueView)>, key: ValueView) -> Option<
    ValueView,
> {
    if has_key(entries, key) {
        Some(entries[first_index(entries, key)].1)
    } else {
        None
    }
}

/// The entries after `value` was inserted under `key`: in the place of the
/// key's entry where there is one, else behind the last entry.
pub open spec fn with_entry(
    entries: Seq<(ValueView, ValueView)>,
    key: ValueView,
    value: ValueView,
) -> Seq<(ValueView, ValueView)> {
    if has_key(entries, key) {
        entries.update(first_index(entries, key), (key, value))
    } else {
        entries.push((key, value))
    }
}

/// The entries without the entry of `key`; the others keep their order.
pub open spec fn without_key(entries: Seq<(ValueView, ValueView)>, key: ValueView) -> Seq<
    (ValueView, ValueView),
> {
    if has_key(entries, key) {
        entries.remove(first_index(entries, key))
    } else {
        entries
    }
}

/// Whether no key stands twice.
pub open spec fn keys_unique(entries: Seq<(ValueView, ValueView)>) -> bool {
    forall|i: int, j: int|
        0 <= i < entries.len() && 0 <= j < entries.len() && i != j ==> entries[i].0 != entries[j].0
}

/// The keys of the entries, in order.
pub open spec fn keys_of(entries: Seq<(ValueView, ValueView)>) -> Seq<ValueView> {
    Seq::new(entries.len(), |i: int| entries[i].0)
}

/// The values of the entries, in order.
pub open spec fn values_of(entries: Seq<(ValueView, ValueView)>) -> Seq<ValueView> {
    Seq::new(entries.len(), |i: int| entries[i].1)
}

/// What the first index of a key is: the position of an entry with the key
/// before which no entry has it, or the number of entries where none has it.
pub proof fn lemma_first_index(entries: Seq<(ValueView, ValueView)>, key: ValueView)
    ensures
        0 <= first_index(entries, key) <= entries.len(),
        forall|j: int| 0 <= j < first_index(entries, key) ==> (#[trigger] entries[j]).0 != key,
        first_index(entries, key) < entries.len() ==> entries[first_index(entries, key)].0 == key,
    decreases entries.len(),
{
    if entries.len() > 0 && entries[0].0 != key {
        let rest = entries.drop_first();
        lemma_first_index(rest, key);
        assert forall|j: int| 0 <= j < first_index(entries, key) implies (#[trigger] entries[j]).0
            != key by {
            if j > 0 {
                assert(rest[j - 1] == entries[j]);
            }
        }
        if first_index(entries, key) < entries.len() {
            assert(rest[first_index(rest, key)] == entries[first_index(entries, key)]);
        }
    }
}

/// The position that a search from the front finds is the first index.
pub proof fn lemma_first_index_is(entries: Seq<(ValueView, ValueView)>, key: ValueView, i: int)
    requires
        0 <= i <= entries.len(),
        forall|j: int| 0 <= j < i ==> (#[trigger] entries[j]).0 != key,
        i < entries.len() ==> entries[i].0 == key,
    ensures
        first_index(entries, key) == i,
{
    lemma_first_index(entries, key);
    let f = first_index(entries, key);
    if f < i {
        assert(entries[f].0 != key);
    }
}

/// Inserting a key that is there already changes its value and nothing else:
/// the keys stay in their order. Inserting a new key puts it behind all
/// others. Removing a key leaves the other entries in their order. And where
/// no key stood twice, none does afterwards.
pub proof fn lemma_insertion_order(
    entries: Seq<(ValueView, ValueView)>,
    key: ValueView,
    value: ValueView,
)
    ensures
        has_key(entries, key) ==> keys_of(with_entry(entries, key, value)) == keys_of(entries),
        !has_key(entries, key) ==> keys_of(with_entry(entries, key, value)) == keys_of(
            entries,
        ).push(key),
        has_key(entries, key) ==> keys_of(without_key(entries, key)) == keys_of(entries).remove(
            first_index(entries, key),
        ),
        !has_key(entries, key) ==> without_key(entries, key) == entries,
        keys_unique(entries) ==> keys_unique(with_entry(entries, key, value)),
        keys_unique(entries) ==> keys_unique(without_key(entries, key)),
        value_of(with_entry(entries, key, value), key) == Some(value),
{
    lemma_first_index(entries, key);
    let f = first_index(entries, key);
    let inserted = with_entry(entries, key, value);
    let removed = without_key(entries, key);
    if has_key(entries, key) {
        assert(keys_of(inserted) =~= keys_of(entries));
        assert(keys_of(removed) =~= keys_of(entries).remove(f));
        lemma_first_index_is(inserted, key, f);
    } else {
        assert(keys_of(inserted) =~= keys_of(entries).push(key));
        lemma_first_index_is(inserted, key, f);
    }
    if keys_unique(entries) {
        assert forall|i: int, j: int|
            0 <= i < removed.len() && 0 <= j < removed.len() && i != j implies removed[i].0
            != removed[j].0 by {
            if has_key(entries, key) {
                let a = if i < f { i } else { i + 1 };
                let b = if j < f { j } else { j + 1 };
                assert(removed[i] == entries[a] && removed[j] == entries[b]);
            }
        }
    }
}

/// A key that was inserted and then removed is no longer there, in a map in
/// which no key stood twice.
pub proof fn lemma_insert_then_remove(
    entries: Seq<(ValueView, ValueView)>,
    key: ValueView,
    value: ValueView,
)
    requires
        keys_unique(entries),
    ensures
        !has_key(without_key(with_entry(entries, key, value), key), key),
{
    lemma_insertion_order(entries, key, value);
    let inserted = with_entry(entries, key, value);
    lemma_first_index(inserted, key);
    let f = first_index(inserted, key);
    let removed = inserted.remove(f);
    assert forall|j: int| 0 <= j < removed.len() implies (#[trigger] removed[j]).0 != key by {
        let a = if j < f { j } else { j + 1 };
        assert(removed[j] == inserted[a]);
    }
    lemma_first_index_is(removed, key, removed.len() as int);
}

impl ValueMap {
    pub fn new() -> (map: ValueMap)
        ensures
            map@.entries.len() == 0,
            map@.meta.len() == 0,
    {
        ValueMap { entries: Vec::new(), meta: Vec::new() }
    }

    pub fn with_capacity(capacity: usize) -> (map: ValueMap)
        ensures
            map@.entries.len() == 0,
            map@.meta.len() == 0,
    {
        ValueMap { entries: Vec::with_capacity(capacity), meta: Vec::new() }
    }

    pub fn len(&self) -> (n: usize)
        ensures
            n == self@.entries.len(),
    {
        self.entries.len()
    }

    pub fn is_empty(&self) -> (result: bool)
        ensures
            result == (self@.entries.len() == 0),
    {
        self.entries.len() == 0
    }

    /// The position of the entry of `key`, if there is one.
    pub fn find(&self, key: &Value) -> (position: Option<usize>)
        ensures
            position is Some <==> has_key(self@.entries, key@),
            position is Some ==> position->Some_0 == first_index(self@.entries, key@),
    {
        let mut i: usize = 0;
        while i < self.entries.len()
            invariant
                i <= self.entries@.len(),
                forall|j: int| 0 <= j < i ==> (#[trigger] self@.entries[j]).0 != key@,
            decreases self.entries@.len() - i,
        {
            if identical(&self.entries[i].key, key) {
                proof {
                    lemma_first_index_is(self@.entries, key@, i as int);
                }
                return Some(i);
            }
            i += 1;
        }
        proof {
            lemma_first_index_is(self@.entries, key@, i as int);
        }
        None
    }

    pub fn contains_key(&self, key: &Value) -> (result: bool)
        ensures
            result == has_key(self@.entries, key@),
    {
        self.find(key).is_some()
    }

    /// The value under `key`, if there is one.
    pub fn get(&self, key: &Value) -> (value: Option<&Value>)
        ensures
            value is Some <==> has_key(self@.entries, key@),
            value is Some ==> Some(value->Some_0@) == value_of(self@.entries, key@),
    {
        match self.find(key) {
            Some(i) => Some(&self.entries[i].value),
            None => None,
        }
    }

    /// The entry at the position `index`, if there is one.
    pub fn get_index(&self, index: usize) -> (entry: Option<&MapEntry>)
        ensures
            index < self@.entries.len() ==> entry is Some && (
                entry->Some_0.key@,
                entry->Some_0.value@,
            ) == self@.entries[index as int],
            index >= self@.entries.len() ==> entry is None,
    {
        if index < self.entries.len() {
            Some(&self.entries[index])
        } else {
            None
        }
    }

    /// Puts `value` under `key`, and hands out the value that was there.
    pub fn insert(&mut self, key: Value, value: Value) -> (previous: Option<Value>)
        ensures
            final(self)@.entries == with_entry(old(self)@.entries, key@, value@),
            final(self)@.meta == old(self)@.meta,
            previous is Some <==> has_key(old(self)@.entries, key@),
            previous is Some ==> Some(previous->Some_0@) == value_of(old(self)@.entries, key@),
    {
        match self.find(&key) {
            Some(i) => {
                let ghost before = self.entries@;
                let entry = self.entries.remove(i);
                self.entries.insert(i, MapEntry { key, value });
                proof {
                    assert(self.entries@ =~= before.update(i as int, MapEntry { key, value }));
                    assert(entries_view(self.entries@) =~= entries_view(before).update(
                        i as int,
                        (key@, value@),
                    ));
                }
                Some(entry.value)
            },
            None => {
                let ghost before = self.entries@;
                self.entries.push(MapEntry { key, value });
                proof {
                    assert(entries_view(self.entries@) =~= entries_view(before).push(
                        (key@, value@),
                    ));
                }
                None
            },
        }
    }

    /// Takes out the entry of `key`, and hands out its value. The other
    /// entries keep their order.
    pub fn remove(&mut self, key: &Value) -> (previous: Option<Value>)
        ensures
            final(self)@.entries == without_key(old(self)@.entries, key@),
            final(self)@.meta == old(self)@.meta,
            previous is Some <==> has_key(old(self)@.entries, key@),
            previous is Some ==> Some(previous->Some_0@) == value_of(old(self)@.entries, key@),
    {
        match self.find(key) {
            Some(i) => {
                let ghost before = self.entries@;
                let entry = self.entries.remove(i);
                proof {
                    assert(entries_view(self.entries@) =~= entries_view(before).remove(i as int));
                }
                Some(entry.value)
            },
            None => None,
        }
    }

    /// Takes out all entries.
    pub fn clear(&mut self)
        ensures
            final(self)@.entries.len() == 0,
            final(self)@.meta == old(self)@.meta,
    {
        self.entries.clear();
    }

    /// Sorts the entries by their keys.
    pub fn sort_keys(&mut self)
        ensures
            final(self)@.entries == sorted_entries(old(self)@.entries),
            final(self)@.meta == old(self)@.meta,
    {
        sort_entries(&mut self.entries);
    }
}

/// The position of the first hook `key`; the number of hooks where there is none.
pub open spec fn meta_index(meta: Seq<(MetaKey, ValueView)>, key: MetaKey) -> int
    decreases meta.len(),
{
    if meta.len() == 0 {
        0
    } else if meta[0].0 == key {
        0
    } else {
        1 + meta_index(meta.drop_first(), key)
    }
}

/// The value of the hook `key`.
pub open spec fn meta_value(meta: Seq<(MetaKey, ValueView)>, key: MetaKey) -> Option<ValueView> {
    if meta_index(meta, key) < meta.len() {
        Some(meta[meta_index(meta, key)].1)
    } else {
        None
    }
}

/// The hooks after `value` was set for `key`: in the place of the hook where
/// it is there, else behind the last hook.
pub open spec fn with_meta(
    meta: Seq<(MetaKey, ValueView)>,
    key: MetaKey,
    value: ValueView,
) -> Seq<(MetaKey, ValueView)> {
    if meta_index(meta, key) < meta.len() {
        meta.update(meta_index(meta, key), (key, value))
    } else {
        meta.push((key, value))
    }
}

/// What the index of a hook is: the position of the hook before which it
/// does not stand, or the number of hooks where it stands nowhere.
pub proof fn lemma_meta_index(meta: Seq<(MetaKey, ValueView)>, key: MetaKey)
    ensures
        0 <= meta_index(meta, key) <= meta.len(),
        forall|j: int| 0 <= j < meta_index(meta, key) ==> (#[trigger] meta[j]).0 != key,
        meta_index(meta, key) < meta.len() ==> meta[meta_index(meta, key)].0 == key,
    decreases meta.len(),
{
    if meta.len() > 0 && meta[0].0 != key {
        let rest = meta.drop_first();
        lemma_meta_index(rest, key);
        assert forall|j: int| 0 <= j < meta_index(meta, key) implies (#[trigger] meta[j]).0
            != key by {
            if j > 0 {
                assert(rest[j - 1] == meta[j]);
            }
        }
        if meta_index(meta, key) < meta.len() {
            assert(rest[meta_index(rest, key)] == meta[meta_index(meta, key)]);
        }
    }
}

/// The position that a search from the front finds is the index of the hook.
pub proof fn lemma_meta_index_is(meta: Seq<(MetaKey, ValueView)>, key: MetaKey, i: int)
    requires
        0 <= i <= meta.len(),
        forall|j: int| 0 <= j < i ==> (#[trigger] meta[j]).0 != key,
        i < meta.len() ==> meta[i].0 == key,
    ensures
        meta_index(meta, key) == i,
{
    lemma_meta_index(meta, key);
    let f = meta_index(meta, key);
    if f < i {
        assert(meta[f].0 != key);
    }
}

/// The help map of a module after the help text `help` was set for `name`.
pub open spec fn with_help(meta: Seq<(MetaKey, ValueView)>, name: Seq<char>, help: Seq<char>) -> Seq<
    (MetaKey, ValueView),
> {
    let texts = match meta_value(meta, MetaKey::Help) {
        Some(ValueView::Mapping(texts)) => texts,
        _ => MapView { entries: seq![], meta: seq![] },
    };
    with_meta(
        meta,
        MetaKey::Help,
        ValueView::Mapping(
            MapView {
                entries: with_entry(texts.entries, ValueView::Str(name), ValueView::Str(help)),
                meta: texts.meta,
            },
        ),
    )
}

impl ValueMap {
    /// The position of the hook `key`, if it is there.
    fn find_meta(&self, key: MetaKey) -> (position: Option<usize>)
        ensures
            position is Some <==> meta_index(self@.meta, key) < self@.meta.len(),
            position is Some ==> position->Some_0 == meta_index(self@.meta, key),
    {
        let mut i: usize = 0;
        while i < self.meta.len()
            invariant
                i <= self.meta@.len(),
                forall|j: int| 0 <= j < i ==> (#[trigger] self@.meta[j]).0 != key,
            decreases self.meta@.len() - i,
        {
            if self.meta[i].key == key {
                proof {
                    lemma_meta_index_is(self@.meta, key, i as int);
                }
                return Some(i);
            }
            i += 1;
        }
        proof {
            lemma_meta_index_is(self@.meta, key, i as int);
        }
        None
    }

    /// The value of the hook `key`, if it is there.
    pub fn meta_get(&self, key: MetaKey) -> (value: Option<&Value>)
        ensures
            value is Some <==> meta_value(self@.meta, key) is Some,
            value is Some ==> Some(value->Some_0@) == meta_value(self@.meta, key),
    {
        match self.find_meta(key) {
            Some(i) => Some(&self.meta[i].value),
            None => None,
        }
    }

    pub fn meta_contains_key(&self, key: MetaKey) -> (result: bool)
        ensures
            result == (meta_value(self@.meta, key) is Some),
    {
        self.find_meta(key).is_some()
    }

    /// Sets the value of the hook `key`.
    pub fn meta_insert(&mut self, key: MetaKey, value: Value)
        ensures
            final(self)@.meta == with_meta(old(self)@.meta, key, value@),
            final(self)@.entries == old(self)@.entries,
    {
        match self.find_meta(key) {
            Some(i) => {
                let ghost before = self.meta@;
                self.meta.remove(i);
                self.meta.insert(i, MetaEntry { key, value });
                proof {
                    assert(self.meta@ =~= before.update(i as int, MetaEntry { key, value }));
                    assert(meta_view(self.meta@) =~= meta_view(before).update(
                        i as int,
                        (key, value@),
                    ));
                }
            },
            None => {
                let ghost before = self.meta@;
                self.meta.push(MetaEntry { key, value });
                proof {
                    assert(meta_view(self.meta@) =~= meta_view(before).push((key, value@)));
                }
            },
        }
    }

    /// Puts `value` under the name `name`.
    pub fn add_value(&mut self, name: &str, value: Value)
        ensures
            final(self)@.entries == with_entry(old(self)@.entries, ValueView::Str(name@), value@),
            final(self)@.meta == old(self)@.meta,
    {
        self.insert(Value::Str(String::from_str(name)), value);
    }

    /// Puts a function of the core library under the name `name`.
    pub fn add_fn(&mut self, name: &str, function: ExternalFunction)
        ensures
            final(self)@.entries == with_entry(
                old(self)@.entries,
                ValueView::Str(name@),
                ValueView::ExternalFunction(function),
            ),
            final(self)@.meta == old(self)@.meta,
    {
        self.add_value(name, Value::ExternalFunction(function));
    }

    /// Puts a map under the name `name`.
    pub fn add_map(&mut self, name: &str, map: ValueMap)
        ensures
            final(self)@.entries == with_entry(
                old(self)@.entries,
                ValueView::Str(name@),
                ValueView::Mapping(map@),
            ),
            final(self)@.meta == old(self)@.meta,
    {
        self.add_value(name, Value::Mapping(map));
    }

    /// The value under the name `name`, if there is one.
    pub fn get_with_string(&self, name: &str) -> (value: Option<&Value>)
        ensures
            value is Some <==> has_key(self@.entries, ValueView::Str(name@)),
            value is Some ==> Some(value->Some_0@) == value_of(
                self@.entries,
                ValueView::Str(name@),
            ),
    {
        let key = Value::Str(String::from_str(name));
        self.get(&key)
    }

    /// Sets the help text of the map itself.
    pub fn add_self_help(&mut self, help: &str)
        ensures
            final(self)@.meta == with_meta(
                old(self)@.meta,
                MetaKey::SelfHelp,
                ValueView::Str(help@),
            ),
            final(self)@.entries == old(self)@.entries,
    {
        self.meta_insert(MetaKey::SelfHelp, Value::Str(String::from_str(help)));
    }

    /// Sets the help text of the item `name`.
    pub fn add_help(&mut self, name: &str, help: &str)
        ensures
            final(self)@.meta == with_help(old(self)@.meta, name@, help@),
            final(self)@.entries == old(self)@.entries,
    {
        let mut texts = match self.meta_get(MetaKey::Help) {
            Some(Value::Mapping(texts)) => texts.clone(),
            _ => ValueMap::new(),
        };
        proof {
            if !(meta_value(self@.meta, MetaKey::Help) is Some && meta_value(
                self@.meta,
                MetaKey::Help,
            )->Some_0 is Mapping) {
                assert(texts@.entries =~= seq![]);
                assert(texts@.meta =~= seq![]);
            }
        }
        texts.add_value(name, Value::Str(String::from_str(help)));
        self.meta_insert(MetaKey::Help, Value::Mapping(texts));
    }
}

/// The entries of a map after the functions `functions` were put under
/// their names, one after the other.
pub open spec fn with_functions(
    entries: Seq<(ValueView, ValueView)>,
    functions: Seq<(Seq<char>, ExternalFunction)>,
) -> Seq<(ValueView, ValueView)>
    decreases functions.len(),
{
    if functions.len() == 0 {
        entries
    } else {
        with_entry(
            with_functions(entries, functions.drop_last()),
            ValueView::Str(functions.last().0),
            ValueView::ExternalFunction(functions.last().1),
        )
    }
}

/// Names with their functions, as a module is made of them.
pub open spec fn named(functions: Seq<(&'static str, ExternalFunction)>) -> Seq<
    (Seq<char>, ExternalFunction),
> {
    Seq::new(functions.len(), |i: int| (functions[i].0@, functions[i].1))
}

impl ValueMap {
    /// Puts functions of the core library under their names, one after the other.
    pub fn add_functions(&mut self, functions: &Vec<(&'static str, ExternalFunction)>)
        ensures
            final(self)@.entries == with_functions(old(self)@.entries, named(functions@)),
            final(self)@.meta == old(self)@.meta,
    {
        let mut i: usize = 0;
        assert(named(functions@).take(0) =~= Seq::empty());
        while i < functions.len()
            invariant
                i <= functions@.len(),
                self@.entries == with_functions(old(self)@.entries, named(functions@).take(i as int)),
                self@.meta == old(self)@.meta,
            decreases functions@.len() - i,
        {
            proof {
                let all = named(functions@);
                assert(all.take(i + 1).drop_last() =~= all.take(i as int));
                assert(all.take(i + 1).last() == all[i as int]);
            }
            self.add_fn(functions[i].0, functions[i].1);
            i += 1;
        }
        assert(named(functions@).take(i as int) =~= named(functions@));
    }
}

} // verus!
