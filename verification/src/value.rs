//! Recursive values and the insertion-ordered map that holds them.

use vstd::prelude::*;

verus! {

/// A value of the schema language: a literal, a nested group, a link to
/// another entity, or a list.
#[derive(Debug, PartialEq)]
pub enum NestedValue {
    Value(String),
    Object(ValueMap),
    Reference(String),
    Array(Vec<NestedValue>),
}

/// A map from names to values that keeps the order in which names were first
/// inserted. It is backed by `indexmap::IndexMap`; what it holds is known to
/// the verifier only as `value_map_entries`.
#[verifier::external_body]
#[derive(Debug, PartialEq)]
pub struct ValueMap {
    inner: indexmap::IndexMap<String, NestedValue>,
}

/// The entries of a map, in insertion order, each as the name's characters
/// and the value.
pub uninterp spec fn value_map_entries(m: ValueMap) -> Seq<(Seq<char>, NestedValue)>;

/// Whether some entry has the name `key`.
pub open spec fn has_key<V>(entries: Seq<(Seq<char>, V)>, key: Seq<char>) -> bool {
    exists|i: int| 0 <= i < entries.len() && (#[trigger] entries[i]).0 == key
}

/// No name stands in two entries.
pub open spec fn distinct_keys<V>(entries: Seq<(Seq<char>, V)>) -> bool {
    forall|i: int, j: int|
        0 <= i < j < entries.len() ==> (#[trigger] entries[i]).0 != (#[trigger] entries[j]).0
}

/// A position at which `key` stands, when it stands somewhere.
pub open spec fn position_of<V>(entries: Seq<(Seq<char>, V)>, key: Seq<char>) -> int {
    choose|i: int| 0 <= i < entries.len() && (#[trigger] entries[i]).0 == key
}

/// The entries after `key` was given `value`: a name that is there keeps its
/// place and gets the new value, a new name goes last.
pub open spec fn inserted<V>(entries: Seq<(Seq<char>, V)>, key: Seq<char>, value: V) -> Seq<
    (Seq<char>, V),
> {
    if has_key(entries, key) {
        entries.update(position_of(entries, key), (key, value))
    } else {
        entries.push((key, value))
    }
}

/// The value that stands under `key`, if `key` stands somewhere.
pub open spec fn lookup<V>(entries: Seq<(Seq<char>, V)>, key: Seq<char>) -> Option<V> {
    if has_key(entries, key) {
        Some(entries[position_of(entries, key)].1)
    } else {
        None
    }
}

/// The entries without the one of `key`.
pub open spec fn without<V>(entries: Seq<(Seq<char>, V)>, key: Seq<char>) -> Seq<(Seq<char>, V)> {
    if has_key(entries, key) {
        entries.remove(position_of(entries, key))
    } else {
        entries
    }
}

/// After a name was given a value, the name has that value and every other
/// name has what it had.
pub proof fn lemma_lookup_inserted<V>(
    entries: Seq<(Seq<char>, V)>,
    key: Seq<char>,
    value: V,
    other: Seq<char>,
)
    requires
        distinct_keys(entries),
    ensures
        lookup(inserted(entries, key, value), key) == Some(value),
        other != key ==> lookup(inserted(entries, key, value), other) == lookup(entries, other),
{
    let after = inserted(entries, key, value);
    lemma_inserted_keeps_distinct(entries, key, value);
    if has_key(entries, key) {
        let p = position_of(entries, key);
        assert(after[p].0 == key);
        let q = position_of(after, key);
        assert(p == q);
        if other != key {
            if has_key(entries, other) {
                let i = position_of(entries, other);
                assert(after[i] == entries[i]);
                let j = position_of(after, other);
                assert(i == j);
            } else if has_key(after, other) {
                let j = position_of(after, other);
                assert(entries[j].0 == other);
            }
        }
    } else {
        let p = entries.len() as int;
        assert(after[p].0 == key);
        let q = position_of(after, key);
        assert(p == q);
        if other != key {
            if has_key(entries, other) {
                let i = position_of(entries, other);
                assert(after[i] == entries[i]);
                let j = position_of(after, other);
                assert(i == j);
            } else if has_key(after, other) {
                let j = position_of(after, other);
                assert(entries[j].0 == other);
            }
        }
    }
}

/// After a name was taken out, the name has nothing, every other name has
/// what it had, and the names are still apart.
pub proof fn lemma_lookup_without<V>(entries: Seq<(Seq<char>, V)>, key: Seq<char>, other: Seq<char>)
    requires
        distinct_keys(entries),
    ensures
        distinct_keys(without(entries, key)),
        lookup(without(entries, key), key) is None,
        other != key ==> lookup(without(entries, key), other) == lookup(entries, other),
{
    let after = without(entries, key);
    if has_key(entries, key) {
        let p = position_of(entries, key);
        assert forall|i: int| 0 <= i < after.len() implies #[trigger] after[i] == entries[if i < p {
            i
        } else {
            i + 1
        }] by {}
        assert forall|i: int, j: int| 0 <= i < j < after.len() implies (#[trigger] after[i]).0 != (
        #[trigger] after[j]).0 by {
            let a = if i < p { i } else { i + 1 };
            let b = if j < p { j } else { j + 1 };
            assert(entries[a].0 != entries[b].0);
        }
        if has_key(after, key) {
            let j = position_of(after, key);
            let b = if j < p { j } else { j + 1 };
            assert(entries[b].0 == key);
            assert(entries[p].0 == key);
        }
        if other != key {
            if has_key(entries, other) {
                let i = position_of(entries, other);
                let a = if i < p { i } else { i - 1 };
                assert(after[a] == entries[i]);
                let j = position_of(after, other);
                assert(a == j);
            } else if has_key(after, other) {
                let j = position_of(after, other);
                let b = if j < p { j } else { j + 1 };
                assert(entries[b].0 == other);
            }
        }
    }
}

/// Giving a name a value keeps the names apart.
pub proof fn lemma_inserted_keeps_distinct<V>(entries: Seq<(Seq<char>, V)>, key: Seq<char>, value: V)
    requires
        distinct_keys(entries),
    ensures
        distinct_keys(inserted(entries, key, value)),
        inserted(entries, key, value).len() == entries.len() + if has_key(entries, key) {
            0int
        } else {
            1int
        },
{
    let after = inserted(entries, key, value);
    if has_key(entries, key) {
        let p = position_of(entries, key);
        assert forall|i: int, j: int| 0 <= i < j < after.len() implies (#[trigger] after[i]).0 != (
        #[trigger] after[j]).0 by {
            assert(after[i].0 == entries[i].0);
            assert(after[j].0 == entries[j].0);
        }
    } else {
        assert forall|i: int, j: int| 0 <= i < j < after.len() implies (#[trigger] after[i]).0 != (
        #[trigger] after[j]).0 by {
            if j < entries.len() {
                assert(after[i] == entries[i]);
                assert(after[j] == entries[j]);
            } else {
                assert(after[i] == entries[i]);
            }
        }
    }
}

/// `IndexMap::new`: the new map holds nothing.
#[verifier::external_body]
fn raw_new() -> (m: ValueMap)
    ensures
        value_map_entries(m) == Seq::<(Seq<char>, NestedValue)>::empty(),
{
    ValueMap { inner: indexmap::IndexMap::new() }
}

/// `IndexMap::len`: the number of entries. The second clause states what
/// makes the collection a map: among its `n` entries no name stands twice.
#[verifier::external_body]
fn raw_len(m: &ValueMap) -> (n: usize)
    ensures
        n == value_map_entries(*m).len(),
        forall|i: int, j: int|
            0 <= i < j < n ==> (#[trigger] value_map_entries(*m)[i]).0 != (
            #[trigger] value_map_entries(*m)[j]).0,
{
    m.inner.len()
}

/// `IndexMap::contains_key`: whether some entry has this name.
#[verifier::external_body]
fn raw_contains_key(m: &ValueMap, key: &str) -> (found: bool)
    ensures
        found == has_key(value_map_entries(*m), key@),
{
    m.inner.contains_key(key)
}

/// A borrowed entry: the name and the value.
pub type EntryRef<'a> = (&'a String, &'a NestedValue);

/// `IndexMap::get_index`: the entry at a position, if the position is below
/// the length.
#[verifier::external_body]
fn raw_get_index<'a>(m: &'a ValueMap, index: usize) -> (entry: Option<EntryRef<'a>>)
    ensures
        index >= value_map_entries(*m).len() ==> entry is None,
        index < value_map_entries(*m).len() ==> entry is Some,
        entry matches Some(found) ==> found.0@ == value_map_entries(*m)[index as int].0
            && *found.1 == value_map_entries(*m)[index as int].1,
{
    m.inner.get_index(index)
}

/// `IndexMap::get`: the value under a name, if the name is there.
#[verifier::external_body]
fn raw_get<'a>(m: &'a ValueMap, key: &str) -> (value: Option<&'a NestedValue>)
    ensures
        value is Some <==> has_key(value_map_entries(*m), key@),
        value is Some ==> exists|i: int|
            0 <= i < value_map_entries(*m).len() && (#[trigger] value_map_entries(*m)[i]).0 == key@
                && value_map_entries(*m)[i].1 == *value->0,
{
    m.inner.get(key)
}

/// `IndexMap::shift_remove`: a name that is there leaves with its value,
/// which is returned, and the entries behind it move up; for a name that is
/// not there nothing changes and nothing is returned.
#[verifier::external_body]
fn raw_shift_remove(m: &mut ValueMap, key: &str) -> (value: Option<NestedValue>)
    ensures
        !has_key(value_map_entries(*old(m)), key@) ==> value is None && value_map_entries(*final(m))
            == value_map_entries(*old(m)),
        has_key(value_map_entries(*old(m)), key@) ==> value is Some && exists|i: int|
            0 <= i < value_map_entries(*old(m)).len() && (#[trigger] value_map_entries(
                *old(m),
            )[i]).0 == key@ && value_map_entries(*old(m))[i].1 == value->0 && value_map_entries(
                *final(m),
            ) == value_map_entries(*old(m)).remove(i),
{
    m.inner.shift_remove(key)
}

/// `IndexMap::insert`: a name that is already there keeps its place and gets
/// the new value, and the value it had is returned; a new name goes last and
/// nothing is returned.
#[verifier::external_body]
fn raw_insert(m: &mut ValueMap, key: String, value: NestedValue) -> (previous: Option<NestedValue>)
    ensures
        !has_key(value_map_entries(*old(m)), key@) ==> previous is None
            && value_map_entries(*final(m)) == value_map_entries(*old(m)).push((key@, value)),
        has_key(value_map_entries(*old(m)), key@) ==> previous is Some
            && exists|i: int| 0 <= i < value_map_entries(*old(m)).len()
                && (#[trigger] value_map_entries(*old(m))[i]) == (key@, previous->0)
                && value_map_entries(*final(m)) == value_map_entries(*old(m)).update(i, (key@, value)),
{
    m.inner.insert(key, value)
}

impl Clone for NestedValue {
    /// A copy of the whole tree below this value, as `duplicate` makes it.
    fn clone(&self) -> (copy: Self)
        ensures
            *self is Value || *self is Reference ==> copy == *self,
            *self matches NestedValue::Array(items) ==> copy matches NestedValue::Array(copies)
                && copies@.len() == items@.len(),
            *self matches NestedValue::Object(map) ==> copy matches NestedValue::Object(other)
                && other.entries() == map.entries(),
    {
        self.duplicate()
    }
}

impl NestedValue {
    /// A copy of the whole tree below this value. A literal and a link are
    /// copied with their text, a list with its length, and a group with its
    /// entries.
    pub fn duplicate(&self) -> (copy: Self)
        ensures
            *self is Value || *self is Reference ==> copy == *self,
            *self matches NestedValue::Array(items) ==> copy matches NestedValue::Array(copies)
                && copies@.len() == items@.len(),
            *self matches NestedValue::Object(map) ==> copy matches NestedValue::Object(other)
                && other.entries() == map.entries(),
        decreases self,
    {
        match self {
            NestedValue::Value(text) => NestedValue::Value(text.clone()),
            NestedValue::Object(entries) => NestedValue::Object(entries.clone()),
            NestedValue::Reference(target) => NestedValue::Reference(target.clone()),
            NestedValue::Array(items) => {
                let mut copies: Vec<NestedValue> = Vec::new();
                let mut i: usize = 0;
                while i < items.len()
                    invariant
                        i <= items.len(),
                        copies@.len() == i,
                        decreases_to!(*self => *items),
                    decreases items.len() - i,
                {
                    proof {
                        vstd::std_specs::vec::axiom_vec_index_decreases(*items, i as int);
                    }
                    copies.push(items[i].duplicate());
                    i = i + 1;
                }
                NestedValue::Array(copies)
            },
        }
    }
}

impl Clone for ValueMap {
    /// `IndexMap::clone`: the copy holds the same entries in the same order.
    #[verifier::external_body]
    fn clone(&self) -> (copy: Self)
        ensures
            value_map_entries(copy) == value_map_entries(*self),
    {
        ValueMap { inner: self.inner.clone() }
    }
}

impl ValueMap {
    /// The entries in insertion order.
    pub open spec fn entries(&self) -> Seq<(Seq<char>, NestedValue)> {
        value_map_entries(*self)
    }

    /// The names that have an entry.
    pub open spec fn keys(&self) -> Set<Seq<char>> {
        Set::new(|k: Seq<char>| has_key(self.entries(), k))
    }

    /// An empty map.
    pub fn new() -> (m: Self)
        ensures
            m.entries() == Seq::<(Seq<char>, NestedValue)>::empty(),
    {
        raw_new()
    }

    /// The number of entries. No name stands in two of them.
    pub fn len(&self) -> (n: usize)
        ensures
            n == self.entries().len(),
            distinct_keys(self.entries()),
    {
        raw_len(self)
    }

    /// The name at a position, if the position is below the length.
    pub fn key_at(&self, index: usize) -> (key: Option<&String>)
        ensures
            index >= self.entries().len() ==> key is None,
            index < self.entries().len() ==> key is Some && key->0@ == self.entries()[index as int].0,
    {
        match raw_get_index(self, index) {
            Some(found) => Some(found.0),
            None => None,
        }
    }

    /// The value at a position, if the position is below the length.
    pub fn value_at(&self, index: usize) -> (value: Option<&NestedValue>)
        ensures
            index >= self.entries().len() ==> value is None,
            index < self.entries().len() ==> value is Some && *value->0 == self.entries()[index as int].1,
    {
        match raw_get_index(self, index) {
            Some(found) => Some(found.1),
            None => None,
        }
    }

    /// Gives `key` the value. A name that is already there keeps its place
    /// and the value it had is returned; a new name goes last.
    pub fn insert(&mut self, key: String, value: NestedValue) -> (previous: Option<NestedValue>)
        ensures
            final(self).entries() == inserted(old(self).entries(), key@, value),
            previous == lookup(old(self).entries(), key@),
            final(self).keys() == old(self).keys().insert(key@),
            distinct_keys(old(self).entries()),
            distinct_keys(final(self).entries()),
            lookup(final(self).entries(), key@) == Some(value),
            forall|other: Seq<char>|
                other != key@ ==> #[trigger] lookup(final(self).entries(), other) == lookup(
                    old(self).entries(),
                    other,
                ),
    {
        let ghost before = self.entries();
        let _ = raw_len(self);
        let previous = raw_insert(self, key, value);
        proof {
            lemma_inserted_keeps_distinct(before, key@, value);
            if has_key(before, key@) {
                let i = choose|i: int|
                    0 <= i < before.len() && (#[trigger] before[i]) == (key@, previous->0)
                        && self.entries() == before.update(i, (key@, value));
                let p = position_of(before, key@);
                assert(before[i].0 == key@);
                assert(before[p].0 == key@);
                assert(i == p);
            }
            let after = self.entries();
            assert forall|name: Seq<char>| has_key(after, name) <==> (has_key(before, name) || name
                == key@) by {
                lemma_lookup_inserted(before, key@, value, name);
            }
            assert forall|other: Seq<char>| other != key@ implies #[trigger] lookup(after, other)
                == lookup(before, other) by {
                lemma_lookup_inserted(before, key@, value, other);
            }
            lemma_lookup_inserted(before, key@, value, key@);
            assert(self.keys() =~= old(self).keys().insert(key@));
        }
        previous
    }

    /// Takes `key` out with its value. The entries behind it move up.
    pub fn take(&mut self, key: &str) -> (value: Option<NestedValue>)
        ensures
            value == lookup(old(self).entries(), key@),
            final(self).entries() == without(old(self).entries(), key@),
            distinct_keys(old(self).entries()),
            distinct_keys(final(self).entries()),
            forall|other: Seq<char>|
                other != key@ ==> #[trigger] lookup(final(self).entries(), other) == lookup(
                    old(self).entries(),
                    other,
                ),
    {
        let ghost before = self.entries();
        let _ = raw_len(self);
        let value = raw_shift_remove(self, key);
        proof {
            lemma_lookup_without(before, key@, key@);
            if has_key(before, key@) {
                let i = choose|i: int|
                    0 <= i < before.len() && (#[trigger] before[i]).0 == key@ && before[i].1
                        == value->0 && self.entries() == before.remove(i);
                let p = position_of(before, key@);
                assert(before[p].0 == key@);
                assert(i == p);
            }
            assert forall|other: Seq<char>| other != key@ implies #[trigger] lookup(
                self.entries(),
                other,
            ) == lookup(before, other) by {
                lemma_lookup_without(before, key@, other);
            }
        }
        value
    }

    /// The value under `key`, if `key` has an entry.
    pub fn get(&self, key: &str) -> (value: Option<&NestedValue>)
        ensures
            match value {
                Some(found) => lookup(self.entries(), key@) == Some(*found),
                None => lookup(self.entries(), key@) is None,
            },
    {
        let _ = raw_len(self);
        let value = raw_get(self, key);
        proof {
            let entries = self.entries();
            if has_key(entries, key@) {
                let i = choose|i: int|
                    0 <= i < entries.len() && (#[trigger] entries[i]).0 == key@ && entries[i].1
                        == *value->0;
                let p = position_of(entries, key@);
                assert(entries[p].0 == key@);
                assert(i == p);
            }
        }
        value
    }

    /// Whether `key` has an entry.
    pub fn contains_key(&self, key: &str) -> (found: bool)
        ensures
            found == self.keys().contains(key@),
    {
        raw_contains_key(self, key)
    }
}

} // verus!
