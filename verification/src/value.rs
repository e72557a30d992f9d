//! The values that shell variables hold.

use crate::text::{join, join_strings, str_eq, texts};
use vstd::prelude::*;

verus! {

/// A user-defined function: the names of its parameters and its body.
#[derive(Debug)]
pub struct Function {
    pub params: Vec<String>,
    pub body: String,
}

/// One entry of a key-map: a value under its key.
#[derive(Debug)]
pub struct Entry {
    pub key: String,
    pub value: Value,
}

/// Values under string keys, kept in the order in which the keys were first
/// inserted.
#[derive(Debug)]
pub struct KeyMap {
    pub entries: Vec<Entry>,
}

/// What a variable holds.
#[derive(Debug)]
pub enum Value {
    /// A single string.
    Str(String),
    /// An ordered sequence of values, indexed from zero.
    Array(Vec<Value>),
    /// Values under string keys, in insertion order.
    KeyMap(KeyMap),
    /// A function.
    Function(Function),
}

/// The place of the first entry under `key`, or the number of entries when
/// there is none.
pub open spec fn position(entries: Seq<Entry>, key: Seq<char>) -> int
    decreases entries.len(),
{
    if entries.len() == 0 || entries[0].key@ == key {
        0
    } else {
        1 + position(entries.drop_first(), key)
    }
}

/// The value stored under `key`, if any.
pub open spec fn lookup(entries: Seq<Entry>, key: Seq<char>) -> Option<Value> {
    let p = position(entries, key);
    if p < entries.len() {
        Some(entries[p].value)
    } else {
        None
    }
}

/// No key occurs twice.
pub open spec fn keys_distinct(entries: Seq<Entry>) -> bool {
    forall|i: int, j: int|
        0 <= i < j < entries.len() ==> (#[trigger] entries[i]).key@ != (#[trigger] entries[j]).key@
}

/// The entries after `value` is stored under `key`: an entry already under
/// that key keeps its place and takes the new value, a new key goes last.
pub open spec fn stored(entries: Seq<Entry>, key: String, value: Value) -> Seq<Entry> {
    let p = position(entries, key@);
    if p < entries.len() {
        entries.update(p, Entry { key, value })
    } else {
        entries.push(Entry { key, value })
    }
}

/// The keys of the entries, in order.
pub open spec fn entry_keys(entries: Seq<Entry>) -> Seq<Seq<char>> {
    Seq::new(entries.len(), |i: int| entries[i].key@)
}

/// The texts of the entries' values, in order.
pub open spec fn entry_texts(entries: Seq<Entry>) -> Seq<Seq<char>> {
    Seq::new(entries.len(), |i: int| entries[i].value.text())
}

/// The texts of the values, in order.
pub open spec fn value_texts(items: Seq<Value>) -> Seq<Seq<char>> {
    Seq::new(items.len(), |i: int| items[i].text())
}

/// `position` is the least place that holds the key.
pub proof fn lemma_position(entries: Seq<Entry>, key: Seq<char>)
    ensures
        0 <= position(entries, key) <= entries.len(),
        position(entries, key) < entries.len() ==> entries[position(entries, key)].key@ == key,
        forall|j: int| 0 <= j < position(entries, key) ==> (#[trigger] entries[j]).key@ != key,
    decreases entries.len(),
{
    if entries.len() != 0 && entries[0].key@ != key {
        let rest = entries.drop_first();
        lemma_position(rest, key);
        assert forall|j: int| 0 <= j < position(entries, key) implies (#[trigger] entries[j]).key@
            != key by {
            if j > 0 {
                assert(entries[j] == rest[j - 1]);
            }
        }
    }
}

/// A place that holds the key, with no earlier one that does, is `position`.
pub proof fn lemma_position_is(entries: Seq<Entry>, key: Seq<char>, i: int)
    requires
        0 <= i <= entries.len(),
        forall|j: int| 0 <= j < i ==> (#[trigger] entries[j]).key@ != key,
        i < entries.len() ==> entries[i].key@ == key,
    ensures
        position(entries, key) == i,
{
    lemma_position(entries, key);
    let p = position(entries, key);
    if p < i {
        assert(entries[p].key@ == key);
    }
}

/// Storing under a key that was absent keeps distinct keys distinct, and so
/// does replacing a value.
pub proof fn lemma_stored_distinct(entries: Seq<Entry>, key: String, value: Value)
    requires
        keys_distinct(entries),
    ensures
        keys_distinct(stored(entries, key, value)),
{
    lemma_position(entries, key@);
    let after = stored(entries, key, value);
    let p = position(entries, key@);
    assert forall|i: int, j: int| 0 <= i < j < after.len() implies (#[trigger] after[i]).key@ != (
    #[trigger] after[j]).key@ by {
        if p < entries.len() {
            if i != p && j != p {
                assert(entries[i].key@ != entries[j].key@);
            } else if i == p {
                assert(entries[i].key@ != entries[j].key@);
            } else {
                assert(entries[i].key@ != entries[j].key@);
            }
        } else {
            if j < entries.len() {
                assert(entries[i].key@ != entries[j].key@);
            } else {
                assert(entries[i].key@ != key@);
            }
        }
    }
}

/// After a value is stored under a key, that key yields the value, every
/// other key yields what it did, and the entries that were there keep their
/// order.
pub proof fn lemma_stored_lookup(entries: Seq<Entry>, key: String, value: Value, other: Seq<char>)
    ensures
        lookup(stored(entries, key, value), key@) == Some(value),
        other != key@ ==> lookup(stored(entries, key, value), other) == lookup(entries, other),
        forall|i: int|
            0 <= i < entries.len() ==> (#[trigger] stored(entries, key, value)[i]).key@
                == entries[i].key@,
{
    lemma_position(entries, key@);
    lemma_position(entries, other);
    let after = stored(entries, key, value);
    let p = position(entries, key@);
    lemma_position_is(after, key@, p);
    if other != key@ {
        let q = position(entries, other);
        if q < entries.len() {
            lemma_position_is(after, other, q);
        } else {
            lemma_position_is(after, other, after.len() as int);
        }
    }
}

impl KeyMap {
    /// No key occurs twice.
    pub open spec fn wf(&self) -> bool {
        keys_distinct(self.entries@)
    }

    /// A map without entries.
    pub fn new() -> (r: KeyMap)
        ensures
            r.entries@.len() == 0,
            r.wf(),
    {
        KeyMap { entries: Vec::new() }
    }

    /// The number of entries.
    pub fn len(&self) -> (n: usize)
        ensures
            n == self.entries@.len(),
    {
        self.entries.len()
    }

    /// The value stored under `key`.
    pub fn get(&self, key: &str) -> (r: Option<&Value>)
        ensures
            r matches Some(v) ==> lookup(self.entries@, key@) == Some(*v),
            r is None ==> lookup(self.entries@, key@) is None,
    {
        let mut i: usize = 0;
        while i < self.entries.len()
            invariant
                i <= self.entries.len(),
                forall|j: int| 0 <= j < i ==> (#[trigger] self.entries@[j]).key@ != key@,
            decreases self.entries.len() - i,
        {
            if str_eq(self.entries[i].key.as_str(), key) {
                proof {
                    lemma_position_is(self.entries@, key@, i as int);
                }
                return Some(&self.entries[i].value);
            }
            i += 1;
        }
        proof {
            lemma_position_is(self.entries@, key@, i as int);
        }
        None
    }

    /// Stores `value` under `key`. A key that is already there keeps its place
    /// among the entries; a new key goes last.
    pub fn insert(&mut self, key: String, value: Value)
        ensures
            final(self).entries@ == stored(old(self).entries@, key, value),
            old(self).wf() ==> final(self).wf(),
    {
        proof {
            if self.wf() {
                lemma_stored_distinct(self.entries@, key, value);
            }
        }
        let mut i: usize = 0;
        while i < self.entries.len()
            invariant
                i <= self.entries.len(),
                self.entries@ == old(self).entries@,
                forall|j: int| 0 <= j < i ==> (#[trigger] self.entries@[j]).key@ != key@,
            decreases self.entries.len() - i,
        {
            if str_eq(self.entries[i].key.as_str(), key.as_str()) {
                proof {
                    lemma_position_is(self.entries@, key@, i as int);
                }
                self.entries.set(i, Entry { key, value });
                return ;
            }
            i += 1;
        }
        proof {
            lemma_position_is(self.entries@, key@, i as int);
        }
        self.entries.push(Entry { key, value });
    }
}

impl Value {
    /// The number of values that a collection holds; zero for the other kinds.
    pub open spec fn count(self) -> nat {
        match self {
            Value::Array(items) => items@.len(),
            Value::KeyMap(map) => map.entries@.len(),
            _ => 0,
        }
    }

    /// The text of a collection cut down to its first `n` values; for a string,
    /// the string; for a function, nothing.
    pub open spec fn text_of_first(self, n: nat) -> Seq<char>
        decreases self, n,
    {
        match self {
            Value::Str(s) => s@,
            Value::Array(items) => {
                if n == 0 || n > items@.len() {
                    Seq::empty()
                } else {
                    let last = items@[n - 1];
                    let tail = last.text_of_first(last.count());
                    if n == 1 {
                        tail
                    } else {
                        self.text_of_first((n - 1) as nat) + seq![' '] + tail
                    }
                }
            },
            Value::KeyMap(map) => {
                if n == 0 || n > map.entries@.len() {
                    Seq::empty()
                } else {
                    let last = map.entries@[n - 1].value;
                    let tail = last.text_of_first(last.count());
                    if n == 1 {
                        tail
                    } else {
                        self.text_of_first((n - 1) as nat) + seq![' '] + tail
                    }
                }
            },
            Value::Function(_) => Seq::empty(),
        }
    }

    /// The text that the value expands to: a string is itself, a collection is
    /// the texts of its values separated by single spaces, a function is empty.
    pub open spec fn text(self) -> Seq<char> {
        self.text_of_first(self.count())
    }

    proof fn lemma_text_of_first(self, n: nat)
        requires
            n <= self.count(),
        ensures
            self matches Value::Array(items) ==> self.text_of_first(n) == join(
                value_texts(items@).take(n as int),
                seq![' '],
            ),
            self matches Value::KeyMap(map) ==> self.text_of_first(n) == join(
                entry_texts(map.entries@).take(n as int),
                seq![' '],
            ),
        decreases n,
    {
        if n > 0 {
            self.lemma_text_of_first((n - 1) as nat);
            match self {
                Value::Array(items) => {
                    let all = value_texts(items@);
                    assert(all.take(n as int).drop_last() =~= all.take(n - 1));
                    assert(all.take(n as int).last() == items@[n - 1].text());
                },
                Value::KeyMap(map) => {
                    let all = entry_texts(map.entries@);
                    assert(all.take(n as int).drop_last() =~= all.take(n - 1));
                    assert(all.take(n as int).last() == map.entries@[n - 1].value.text());
                },
                _ => {},
            }
        }
    }

    /// The text of a collection is the join of its values' texts.
    pub proof fn lemma_text_of_collection(self)
        ensures
            self matches Value::Array(items) ==> self.text() == join(
                value_texts(items@),
                seq![' '],
            ),
            self matches Value::KeyMap(map) ==> self.text() == join(
                entry_texts(map.entries@),
                seq![' '],
            ),
    {
        self.lemma_text_of_first(self.count());
        match self {
            Value::Array(items) => {
                assert(value_texts(items@).take(items@.len() as int) =~= value_texts(items@));
            },
            Value::KeyMap(map) => {
                assert(entry_texts(map.entries@).take(map.entries@.len() as int) =~= entry_texts(
                    map.entries@,
                ));
            },
            _ => {},
        }
    }

    /// Writes the value as text.
    pub fn to_text(&self) -> (r: String)
        ensures
            r@ == self.text(),
        decreases self,
    {
        proof {
            self.lemma_text_of_collection();
            reveal_strlit(" ");
            assert(" "@ =~= seq![' ']);
        }
        match self {
            Value::Str(s) => s.clone(),
            Value::Array(items) => {
                let mut parts: Vec<String> = Vec::new();
                let mut i: usize = 0;
                while i < items.len()
                    invariant
                        i <= items.len(),
                        *self == Value::Array(*items),
                        texts(parts@) =~= value_texts(items@).take(i as int),
                    decreases items.len() - i,
                {
                    proof {
                        assert(self->Array_0 == *items);
                        assert(decreases_to!(*self => self->Array_0));
                        assert(decreases_to!(*items => items@));
                        assert(decreases_to!(items@ => items@[i as int]));
                    }
                    let part = items[i].to_text();
                    proof {
                        assert(texts(parts@.push(part)) =~= texts(parts@).push(part@));
                    }
                    parts.push(part);
                    i += 1;
                }
                assert(value_texts(items@).take(i as int) =~= value_texts(items@));
                join_strings(&parts, " ")
            },
            Value::KeyMap(map) => {
                let mut parts: Vec<String> = Vec::new();
                let mut i: usize = 0;
                while i < map.entries.len()
                    invariant
                        i <= map.entries.len(),
                        *self == Value::KeyMap(*map),
                        texts(parts@) =~= entry_texts(map.entries@).take(i as int),
                    decreases map.entries.len() - i,
                {
                    proof {
                        assert(self->KeyMap_0 == *map);
                        assert(decreases_to!(*self => self->KeyMap_0));
                        assert(decreases_to!(*map => map.entries));
                        assert(decreases_to!(map.entries => map.entries@));
                        assert(decreases_to!(map.entries@ => map.entries@[i as int]));
                        assert(decreases_to!(map.entries@[i as int] => map.entries@[i as int].value));
                    }
                    let part = map.entries[i].value.to_text();
                    proof {
                        assert(texts(parts@.push(part)) =~= texts(parts@).push(part@));
                    }
                    parts.push(part);
                    i += 1;
                }
                assert(entry_texts(map.entries@).take(i as int) =~= entry_texts(map.entries@));
                join_strings(&parts, " ")
            },
            Value::Function(_) => String::new(),
        }
    }
}

} // verus!
