//! Expansion of variable, array and key-map references into argument words.

use crate::ranges::{Index, Range, Select};
use crate::shell::Shell;
use crate::text::{
    decimal, decimal_string, i32_to_string, option_text, option_texts, split_whitespace, str_eq,
    texts, words,
};
use crate::value::{entry_keys, entry_texts, lookup, value_texts, Entry, KeyMap, Value};
use vstd::prelude::*;

verus! {

/// The window `[from, to)` of a sequence of `len` elements that a selection
/// picks by position: everything, one element, or a span cut off at the end of
/// the sequence. A position outside the sequence, a span that starts at or
/// behind its end, and a key pick nothing.
pub open spec fn window(select: Select, len: nat) -> Option<(nat, nat)> {
    match select {
        Select::All => Some((0, len)),
        Select::Index(index) => match index.spec_resolve(len) {
            Some(n) => if n < len {
                Some((n, n + 1))
            } else {
                None
            },
            None => None,
        },
        Select::Range(range) => match range.spec_bounds(len) {
            Some((start, length)) => if start < len {
                if start + length < len {
                    Some((start, start + length))
                } else {
                    Some((start, len))
                }
            } else {
                None
            },
            None => None,
        },
        Select::Key(_) => None,
    }
}

/// The elements of `items` that a selection picks by position.
pub open spec fn selected(items: Seq<Seq<char>>, select: Select) -> Option<Seq<Seq<char>>> {
    match window(select, items.len()) {
        Some((from, to)) => Some(items.subrange(from as int, to as int)),
        None => None,
    }
}

/// The words of a result of an expansion: none when nothing was resolved.
pub open spec fn resolved_words(r: Option<Seq<Seq<char>>>) -> Seq<Seq<char>> {
    match r {
        Some(w) => w,
        None => Seq::empty(),
    }
}

/// The key under which a key-map holds what a position asks for: the forward
/// position `n` is the numeral of `n`, the backward position `n` the numeral
/// of `-(n + 1)`.
pub open spec fn index_key(index: Index) -> Seq<char> {
    match index {
        Index::Forward(n) => decimal(n as int),
        Index::Backward(n) => decimal(-(n + 1)),
    }
}

/// The text of the value under `key`, or the empty text where there is none.
pub open spec fn text_under(entries: Seq<Entry>, key: Seq<char>) -> Seq<char> {
    match lookup(entries, key) {
        Some(v) => v.text(),
        None => Seq::empty(),
    }
}

/// The words that one entry of a key-map contributes when the whole map is
/// expanded: its key, then its value. A string value is one word whatever it
/// holds; a collection contributes the words of its text; a function
/// contributes nothing.
pub open spec fn entry_words(entry: Entry) -> Seq<Seq<char>> {
    match entry.value {
        Value::Str(s) => seq![entry.key@, s@],
        Value::Array(_) => seq![entry.key@] + words(entry.value.text()),
        Value::KeyMap(_) => seq![entry.key@] + words(entry.value.text()),
        Value::Function(_) => seq![entry.key@],
    }
}

/// The words of a whole key-map: those of its entries, in order.
pub open spec fn flattened(entries: Seq<Entry>) -> Seq<Seq<char>>
    decreases entries.len(),
{
    if entries.len() == 0 {
        Seq::empty()
    } else {
        flattened(entries.drop_last()) + entry_words(entries.last())
    }
}

/// Computes the window that a selection picks in a sequence of `len` elements.
pub fn window_of(select: &Select, len: usize) -> (r: Option<(usize, usize)>)
    ensures
        r matches Some((from, to)) ==> window(*select, len as nat) == Some((from as nat, to as nat)),
        r is None ==> window(*select, len as nat) is None,
        r matches Some((from, to)) ==> from <= to <= len,
{
    match select {
        Select::All => Some((0, len)),
        Select::Index(index) => match index.resolve(len) {
            Some(n) => if n < len {
                Some((n, n + 1))
            } else {
                None
            },
            None => None,
        },
        Select::Range(range) => match range.bounds(len) {
            Some((start, length)) => if start < len {
                if length < len - start {
                    Some((start, start + length))
                } else {
                    Some((start, len))
                }
            } else {
                None
            },
            None => None,
        },
        Select::Key(_) => None,
    }
}

/// The texts of the values `items[from..to]`.
fn value_texts_in(items: &Vec<Value>, from: usize, to: usize) -> (out: Vec<String>)
    requires
        from <= to <= items.len(),
    ensures
        texts(out@) == value_texts(items@).subrange(from as int, to as int),
{
    let mut out: Vec<String> = Vec::new();
    let mut i: usize = from;
    while i < to
        invariant
            from <= i <= to <= items.len(),
            texts(out@) =~= value_texts(items@).subrange(from as int, i as int),
        decreases to - i,
    {
        let t = items[i].to_text();
        proof {
            assert(texts(out@.push(t)) =~= texts(out@).push(t@));
        }
        out.push(t);
        i += 1;
    }
    out
}

/// The texts of the values of `entries[from..to]`.
fn entry_texts_in(entries: &Vec<Entry>, from: usize, to: usize) -> (out: Vec<String>)
    requires
        from <= to <= entries.len(),
    ensures
        texts(out@) == entry_texts(entries@).subrange(from as int, to as int),
{
    let mut out: Vec<String> = Vec::new();
    let mut i: usize = from;
    while i < to
        invariant
            from <= i <= to <= entries.len(),
            texts(out@) =~= entry_texts(entries@).subrange(from as int, i as int),
        decreases to - i,
    {
        let t = entries[i].value.to_text();
        proof {
            assert(texts(out@.push(t)) =~= texts(out@).push(t@));
        }
        out.push(t);
        i += 1;
    }
    out
}

/// The keys of `entries[from..to]`.
fn entry_keys_in(entries: &Vec<Entry>, from: usize, to: usize) -> (out: Vec<String>)
    requires
        from <= to <= entries.len(),
    ensures
        texts(out@) == entry_keys(entries@).subrange(from as int, to as int),
{
    let mut out: Vec<String> = Vec::new();
    let mut i: usize = from;
    while i < to
        invariant
            from <= i <= to <= entries.len(),
            texts(out@) =~= entry_keys(entries@).subrange(from as int, i as int),
        decreases to - i,
    {
        let t = entries[i].key.clone();
        proof {
            assert(texts(out@.push(t)) =~= texts(out@).push(t@));
        }
        out.push(t);
        i += 1;
    }
    out
}

/// Writes the key under which a key-map holds what a position asks for.
pub fn index_key_string(index: &Index) -> (r: String)
    ensures
        r@ == index_key(*index),
{
    match *index {
        Index::Forward(n) => decimal_string(false, n as u128),
        Index::Backward(n) => decimal_string(true, n as u128 + 1),
    }
}

/// The text of the value under `key`, or the empty string.
fn text_under_key(map: &KeyMap, key: &str) -> (r: String)
    ensures
        r@ == text_under(map.entries@, key@),
{
    match map.get(key) {
        Some(v) => v.to_text(),
        None => String::new(),
    }
}

/// The words of a whole key-map.
fn flatten(map: &KeyMap) -> (out: Vec<String>)
    ensures
        texts(out@) == flattened(map.entries@),
{
    let mut out: Vec<String> = Vec::new();
    let mut i: usize = 0;
    assert(texts(out@) =~= flattened(map.entries@.take(0)));
    while i < map.entries.len()
        invariant
            i <= map.entries.len(),
            texts(out@) == flattened(map.entries@.take(i as int)),
        decreases map.entries.len() - i,
    {
        let entry = &map.entries[i];
        let ghost before = texts(out@);
        proof {
            assert(map.entries@.take(i + 1).drop_last() =~= map.entries@.take(i as int));
            assert(map.entries@.take(i + 1).last() == *entry);
        }
        let key = entry.key.clone();
        proof {
            assert(texts(out@.push(key)) =~= before + seq![entry.key@]);
        }
        out.push(key);
        match &entry.value {
            Value::Str(s) => {
                let t = s.clone();
                proof {
                    assert(texts(out@.push(t)) =~= before + seq![entry.key@, s@]);
                }
                out.push(t);
            },
            Value::Function(_) => {},
            _ => {
                let f = entry.value.to_text();
                let mut tokens = split_whitespace(f.as_str());
                proof {
                    assert(texts(out@ + tokens@) =~= before + (seq![entry.key@] + words(
                        entry.value.text(),
                    )));
                }
                out.append(&mut tokens);
            },
        }
        i += 1;
    }
    assert(map.entries@.take(i as int) =~= map.entries@);
    out
}

impl Shell {
    /// What a string reference expands to: `?` is the status of the previous
    /// command, written in decimal; any other name is the string bound to it.
    pub open spec fn spec_string(&self, name: Seq<char>) -> Option<Seq<char>> {
        if name == "?"@ {
            Some(decimal(self.previous_status as int))
        } else {
            self.variables.spec_get_str(name)
        }
    }

    /// What an array reference expands to.
    ///
    /// An array yields the elements that the selection picks by position. A
    /// key-map yields all its words, or the one text under a key, where a
    /// position stands for the key that is its numeral; a span picks nothing
    /// from it. Strings, functions and unbound names yield nothing.
    pub open spec fn spec_array(&self, name: Seq<char>, select: Select) -> Option<Seq<Seq<char>>> {
        match self.variables.spec_get(name) {
            Some(Value::Array(items)) => selected(value_texts(items@), select),
            Some(Value::KeyMap(map)) => match select {
                Select::All => Some(flattened(map.entries@)),
                Select::Key(key) => Some(seq![text_under(map.entries@, key@)]),
                Select::Index(index) => Some(seq![text_under(map.entries@, index_key(index))]),
                Select::Range(_) => None,
            },
            _ => None,
        }
    }

    /// The keys of a key-map that the selection picks by position.
    pub open spec fn spec_map_keys(&self, name: Seq<char>, select: Select) -> Option<
        Seq<Seq<char>>,
    > {
        match self.variables.spec_get(name) {
            Some(Value::KeyMap(map)) => selected(entry_keys(map.entries@), select),
            _ => None,
        }
    }

    /// The values of a key-map that the selection picks by position.
    pub open spec fn spec_map_values(&self, name: Seq<char>, select: Select) -> Option<
        Seq<Seq<char>>,
    > {
        match self.variables.spec_get(name) {
            Some(Value::KeyMap(map)) => selected(entry_texts(map.entries@), select),
            _ => None,
        }
    }

    /// Expands a string variable.
    pub fn string(&self, name: &str) -> (r: Option<String>)
        ensures
            option_text(r) == self.spec_string(name@),
    {
        if str_eq(name, "?") {
            Some(i32_to_string(self.previous_status))
        } else {
            self.variables.get_str(name)
        }
    }

    /// Expands an array variable with some selection.
    pub fn array(&self, name: &str, selection: &Select) -> (r: Option<Vec<String>>)
        ensures
            option_texts(r) == self.spec_array(name@, *selection),
    {
        match self.variables.get_ref(name) {
            Some(Value::Array(array)) => match window_of(selection, array.len()) {
                Some((from, to)) => Some(value_texts_in(array, from, to)),
                None => None,
            },
            Some(Value::KeyMap(map)) => match selection {
                Select::All => Some(flatten(map)),
                Select::Key(key) => {
                    let t = text_under_key(map, key.as_str());
                    let mut out: Vec<String> = Vec::new();
                    proof {
                        assert(texts(out@.push(t)) =~= seq![t@]);
                    }
                    out.push(t);
                    Some(out)
                },
                Select::Index(index) => {
                    let key = index_key_string(index);
                    let t = text_under_key(map, key.as_str());
                    let mut out: Vec<String> = Vec::new();
                    proof {
                        assert(texts(out@.push(t)) =~= seq![t@]);
                    }
                    out.push(t);
                    Some(out)
                },
                Select::Range(_) => None,
            },
            _ => None,
        }
    }

    /// Expands to the keys of a key-map that the selection picks.
    pub fn map_keys(&self, name: &str, sel: &Select) -> (r: Option<Vec<String>>)
        ensures
            option_texts(r) == self.spec_map_keys(name@, *sel),
    {
        match self.variables.get_ref(name) {
            Some(Value::KeyMap(map)) => match window_of(sel, map.entries.len()) {
                Some((from, to)) => Some(entry_keys_in(&map.entries, from, to)),
                None => None,
            },
            _ => None,
        }
    }

    /// Expands to the values of a key-map that the selection picks.
    pub fn map_values(&self, name: &str, sel: &Select) -> (r: Option<Vec<String>>)
        ensures
            option_texts(r) == self.spec_map_values(name@, *sel),
    {
        match self.variables.get_ref(name) {
            Some(Value::KeyMap(map)) => match window_of(sel, map.entries.len()) {
                Some((from, to)) => Some(entry_texts_in(&map.entries, from, to)),
                None => None,
            },
            _ => None,
        }
    }
}

/// On an array, a position counted from the front picks what its mirror
/// counted from the back picks: for every array of `len` elements and every
/// `i < len`, the forward position `i` and the backward position
/// `len - 1 - i` expand to the same word.
pub proof fn lemma_forward_index_is_mirrored_backward(
    shell: Shell,
    name: Seq<char>,
    items: Vec<Value>,
    i: usize,
)
    requires
        shell.variables.spec_get(name) == Some(Value::Array(items)),
        i < items@.len(),
    ensures
        shell.spec_array(name, Select::Index(Index::Forward(i))) == shell.spec_array(
            name,
            Select::Index(Index::Backward((items@.len() - 1 - i) as usize)),
        ),
        shell.spec_array(name, Select::Index(Index::Forward(i))) == Some(
            seq![items@[i as int].text()],
        ),
{
    assert(items.len() == items@.len());
    let texts = value_texts(items@);
    assert(texts.subrange(i as int, i + 1) =~= seq![items@[i as int].text()]);
}

/// A span that does not start inside the array picks no word: where the start
/// of `range` resolves to an offset at or behind the end of the array, or does
/// not resolve at all, the expansion has no words. It is never an error: the
/// expansion has no failure to report.
pub proof fn lemma_range_starting_outside_is_empty(
    shell: Shell,
    name: Seq<char>,
    items: Vec<Value>,
    range: Range,
)
    requires
        shell.variables.spec_get(name) == Some(Value::Array(items)),
        range.spec_start().spec_resolve(items@.len()) matches Some(start) ==> start >= items@.len(),
    ensures
        resolved_words(shell.spec_array(name, Select::Range(range))) == Seq::<Seq<char>>::empty(),
{
}

/// A name that the variable store does not hold expands to nothing, whatever
/// the selection, and does so every time: the expansions read the session and
/// never change it, so their result is this function of the session and the
/// reference. The one string reference that needs no variable is `?`.
pub proof fn lemma_absent_name_expands_to_nothing(shell: Shell, name: Seq<char>, select: Select)
    requires
        shell.variables.spec_get(name) is None,
    ensures
        shell.spec_array(name, select) is None,
        shell.spec_map_keys(name, select) is None,
        shell.spec_map_values(name, select) is None,
        name != "?"@ ==> shell.spec_string(name) is None,
        resolved_words(shell.spec_array(name, select)) == Seq::<Seq<char>>::empty(),
{
}

} // verus!
