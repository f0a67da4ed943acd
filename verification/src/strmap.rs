//! An ordered map with text keys.
//!
//! The entries are kept in the order of their keys, compared character by
//! character, and no key occurs twice.

pub mod laws;

use vstd::prelude::*;
use crate::text::{chars_of, same_text};

verus! {

// ---------------------------------------------------------------
// Order of texts
// ---------------------------------------------------------------

/// True when `a` precedes `b` in the dictionary order of code points.
pub open spec fn precedes(a: Seq<char>, b: Seq<char>) -> bool
    decreases a.len(),
{
    if b.len() == 0 {
        false
    } else if a.len() == 0 {
        true
    } else if a[0] == b[0] {
        precedes(a.drop_first(), b.drop_first())
    } else {
        a[0] < b[0]
    }
}

/// Of two different texts one precedes the other.
pub proof fn lemma_precedes_total(a: Seq<char>, b: Seq<char>)
    ensures
        a == b || precedes(a, b) || precedes(b, a),
    decreases a.len(),
{
    if a.len() > 0 && b.len() > 0 && a[0] == b[0] {
        lemma_precedes_total(a.drop_first(), b.drop_first());
        if a.drop_first() == b.drop_first() {
            assert(a =~= seq![a[0]] + a.drop_first());
            assert(b =~= seq![b[0]] + b.drop_first());
        }
    } else if a.len() == 0 && b.len() == 0 {
        assert(a =~= b);
    }
}

/// No text precedes itself.
pub proof fn lemma_precedes_irreflexive(a: Seq<char>)
    ensures
        !precedes(a, a),
    decreases a.len(),
{
    if a.len() > 0 {
        lemma_precedes_irreflexive(a.drop_first());
    }
}

/// The order of texts is transitive.
pub proof fn lemma_precedes_transitive(a: Seq<char>, b: Seq<char>, c: Seq<char>)
    requires
        precedes(a, b),
        precedes(b, c),
    ensures
        precedes(a, c),
    decreases a.len(),
{
    if a.len() > 0 && a[0] == b[0] && b[0] == c[0] {
        lemma_precedes_transitive(a.drop_first(), b.drop_first(), c.drop_first());
    }
}

/// Decides whether `a` precedes `b`.
pub fn text_precedes(a: &str, b: &str) -> (r: bool)
    ensures
        r == precedes(a@, b@),
{
    let left = chars_of(a);
    let right = chars_of(b);
    let mut i: usize = 0;
    assert(a@.skip(0) =~= a@);
    assert(b@.skip(0) =~= b@);
    while i < left.len() && i < right.len() && left[i] == right[i]
        invariant
            left@ == a@,
            right@ == b@,
            i <= left@.len(),
            i <= right@.len(),
            precedes(a@, b@) == precedes(a@.skip(i as int), b@.skip(i as int)),
        decreases left.len() - i,
    {
        assert(a@.skip(i as int).drop_first() =~= a@.skip(i + 1));
        assert(b@.skip(i as int).drop_first() =~= b@.skip(i + 1));
        i += 1;
    }
    if i >= right.len() {
        false
    } else if i >= left.len() {
        true
    } else {
        left[i] < right[i]
    }
}

// ---------------------------------------------------------------
// Entry sequences
// ---------------------------------------------------------------

/// The keys and values of a list of entries.
pub open spec fn entry_views<V>(entries: Seq<(String, V)>) -> Seq<(Seq<char>, V)> {
    entries.map_values(|e: (String, V)| (e.0@, e.1))
}

/// True when the keys ascend strictly.
pub open spec fn keys_ascend<V>(entries: Seq<(Seq<char>, V)>) -> bool {
    forall|i: int, j: int|
        0 <= i < j < entries.len() ==> precedes((#[trigger] entries[i]).0, (#[trigger] entries[j]).0)
}

/// True when some entry has the key.
pub open spec fn has_key<V>(entries: Seq<(Seq<char>, V)>, key: Seq<char>) -> bool {
    exists|i: int| 0 <= i < entries.len() && (#[trigger] entries[i]).0 == key
}

/// The value that belongs to a key.
pub open spec fn value_of<V>(entries: Seq<(Seq<char>, V)>, key: Seq<char>) -> Option<V>
    decreases entries.len(),
{
    if entries.len() == 0 {
        None
    } else if entries[0].0 == key {
        Some(entries[0].1)
    } else {
        value_of(entries.drop_first(), key)
    }
}

/// The entries with `key` bound to `value`, at the place the key's order gives.
pub open spec fn with_entry<V>(
    entries: Seq<(Seq<char>, V)>,
    key: Seq<char>,
    value: V,
) -> Seq<(Seq<char>, V)>
    decreases entries.len(),
{
    if entries.len() == 0 {
        seq![(key, value)]
    } else if entries[0].0 == key {
        seq![(key, value)] + entries.drop_first()
    } else if precedes(key, entries[0].0) {
        seq![(key, value)] + entries
    } else {
        seq![entries[0]] + with_entry(entries.drop_first(), key, value)
    }
}

proof fn lemma_value_at<V>(entries: Seq<(Seq<char>, V)>, key: Seq<char>, at: int)
    requires
        0 <= at < entries.len(),
        entries[at].0 == key,
        forall|i: int| 0 <= i < at ==> (#[trigger] entries[i]).0 != key,
    ensures
        value_of(entries, key) == Some(entries[at].1),
    decreases at,
{
    if at > 0 {
        let rest = entries.drop_first();
        assert(entries[0].0 != key);
        assert forall|i: int| 0 <= i < at - 1 implies (#[trigger] rest[i]).0 != key by {
            assert(rest[i] == entries[i + 1]);
        }
        lemma_value_at(rest, key, at - 1);
    }
}

/// A key has a value exactly when some entry carries it.
pub proof fn lemma_value_iff_key<V>(entries: Seq<(Seq<char>, V)>, key: Seq<char>)
    ensures
        value_of(entries, key) is Some <==> has_key(entries, key),
    decreases entries.len(),
{
    if entries.len() > 0 {
        let rest = entries.drop_first();
        lemma_value_iff_key(rest, key);
        if entries[0].0 != key {
            if has_key(rest, key) {
                let i = choose|i: int| 0 <= i < rest.len() && (#[trigger] rest[i]).0 == key;
                assert(entries[i + 1].0 == key);
            }
            if has_key(entries, key) {
                let i = choose|i: int| 0 <= i < entries.len() && (#[trigger] entries[i]).0 == key;
                assert(rest[i - 1].0 == key);
            }
        }
    }
}

/// Binding a key keeps the keys in order, and what the key is then bound to
/// is the new value, while every other key keeps what it had.
pub proof fn lemma_with_entry<V>(entries: Seq<(Seq<char>, V)>, key: Seq<char>, value: V)
    requires
        keys_ascend(entries),
    ensures
        keys_ascend(with_entry(entries, key, value)),
        value_of(with_entry(entries, key, value), key) == Some(value),
        forall|other: Seq<char>|
            other != key ==> #[trigger] value_of(with_entry(entries, key, value), other) == value_of(
                entries,
                other,
            ),
    decreases entries.len(),
{
    let result = with_entry(entries, key, value);
    if entries.len() == 0 {
        assert(result.drop_first() =~= entries);
        assert forall|other: Seq<char>| other != key implies #[trigger] value_of(result, other)
            == value_of(entries, other) by {
            assert(value_of(result, other) == value_of(result.drop_first(), other));
        }
    } else {
        let rest = entries.drop_first();
        assert(keys_ascend(rest)) by {
            assert forall|i: int, j: int| 0 <= i < j < rest.len() implies precedes(
                (#[trigger] rest[i]).0,
                (#[trigger] rest[j]).0,
            ) by {
                assert(rest[i] == entries[i + 1]);
                assert(rest[j] == entries[j + 1]);
            }
        }
        if entries[0].0 == key {
            assert(result.drop_first() =~= rest);
            assert forall|other: Seq<char>| other != key implies #[trigger] value_of(result, other)
                == value_of(entries, other) by {
                assert(value_of(result, other) == value_of(rest, other));
            }
            assert forall|i: int, j: int| 0 <= i < j < result.len() implies precedes(
                (#[trigger] result[i]).0,
                (#[trigger] result[j]).0,
            ) by {
                assert(precedes(entries[i].0, entries[j].0));
            }
        } else if precedes(key, entries[0].0) {
            assert(result.drop_first() =~= entries);
            assert forall|other: Seq<char>| other != key implies #[trigger] value_of(result, other)
                == value_of(entries, other) by {
                assert(value_of(result, other) == value_of(result.drop_first(), other));
            }
            assert forall|i: int, j: int| 0 <= i < j < result.len() implies precedes(
                (#[trigger] result[i]).0,
                (#[trigger] result[j]).0,
            ) by {
                if i == 0 {
                    if j > 1 {
                        assert(precedes(entries[0].0, entries[j - 1].0));
                        lemma_precedes_transitive(key, entries[0].0, entries[j - 1].0);
                    }
                } else {
                    assert(precedes(entries[i - 1].0, entries[j - 1].0));
                }
            }
        } else {
            lemma_with_entry(rest, key, value);
            lemma_precedes_total(key, entries[0].0);
            let tail = with_entry(rest, key, value);
            assert(result.drop_first() =~= tail);
            lemma_with_entry_keys(rest, key, value);
            assert forall|other: Seq<char>| other != key implies #[trigger] value_of(result, other)
                == value_of(entries, other) by {
                assert(value_of(tail, other) == value_of(rest, other));
                assert(value_of(result, other) == if entries[0].0 == other {
                    Some(entries[0].1)
                } else {
                    value_of(tail, other)
                });
            }
            assert forall|i: int, j: int| 0 <= i < j < result.len() implies precedes(
                (#[trigger] result[i]).0,
                (#[trigger] result[j]).0,
            ) by {
                assert(result[j] == tail[j - 1]);
                if i == 0 {
                    if tail[j - 1].0 != key {
                        let k = choose|k: int|
                            0 <= k < rest.len() && (#[trigger] rest[k]).0 == tail[j - 1].0;
                        assert(rest[k] == entries[k + 1]);
                        assert(precedes(entries[0].0, entries[k + 1].0));
                    }
                } else {
                    assert(result[i] == tail[i - 1]);
                }
            }
        }
    }
}

proof fn lemma_with_entry_keys<V>(entries: Seq<(Seq<char>, V)>, key: Seq<char>, value: V)
    ensures
        forall|j: int|
            0 <= j < with_entry(entries, key, value).len() ==> (#[trigger] with_entry(
                entries,
                key,
                value,
            )[j]).0 == key || has_key(entries, with_entry(entries, key, value)[j].0),
    decreases entries.len(),
{
    let result = with_entry(entries, key, value);
    if entries.len() > 0 {
        let rest = entries.drop_first();
        assert forall|j: int| 0 <= j < result.len() implies (#[trigger] result[j]).0 == key
            || has_key(entries, result[j].0) by {
            if entries[0].0 == key {
                if j > 0 {
                    assert(result[j] == entries[j]);
                }
            } else if precedes(key, entries[0].0) {
                if j > 0 {
                    assert(result[j] == entries[j - 1]);
                }
            } else {
                lemma_with_entry_keys(rest, key, value);
                if j == 0 {
                    assert(result[j] == entries[0]);
                } else {
                    let tail = with_entry(rest, key, value);
                    assert(result[j] == tail[j - 1]);
                    if tail[j - 1].0 != key {
                        let k = choose|k: int|
                            0 <= k < rest.len() && (#[trigger] rest[k]).0 == tail[j - 1].0;
                        assert(entries[k + 1] == rest[k]);
                    }
                }
            }
        }
    }
}

proof fn lemma_with_entry_splits<V>(
    entries: Seq<(Seq<char>, V)>,
    key: Seq<char>,
    value: V,
    at: int,
)
    requires
        0 <= at <= entries.len(),
        forall|i: int| 0 <= i < at ==> precedes((#[trigger] entries[i]).0, key),
        at < entries.len() ==> !precedes(entries[at].0, key),
    ensures
        at < entries.len() && entries[at].0 == key ==> with_entry(entries, key, value)
            == entries.update(at, (key, value)),
        !(at < entries.len() && entries[at].0 == key) ==> with_entry(entries, key, value)
            == entries.insert(at, (key, value)),
    decreases at,
{
    let result = with_entry(entries, key, value);
    if at == 0 {
        if entries.len() > 0 && entries[0].0 != key {
            lemma_precedes_total(key, entries[0].0);
            assert(result =~= entries.insert(at, (key, value)));
        } else if entries.len() > 0 {
            assert(result =~= entries.update(at, (key, value)));
        } else {
            assert(result =~= entries.insert(at, (key, value)));
        }
    } else {
        let rest = entries.drop_first();
        assert(precedes(entries[0].0, key));
        if precedes(key, entries[0].0) {
            lemma_precedes_transitive(key, entries[0].0, key);
            lemma_precedes_irreflexive(key);
        }
        lemma_precedes_irreflexive(key);
        assert forall|i: int| 0 <= i < at - 1 implies precedes((#[trigger] rest[i]).0, key) by {
            assert(rest[i] == entries[i + 1]);
        }
        lemma_with_entry_splits(rest, key, value, at - 1);
        if at < entries.len() && entries[at].0 == key {
            assert(result =~= entries.update(at, (key, value)));
        } else {
            assert(result =~= entries.insert(at, (key, value)));
        }
    }
}

// ---------------------------------------------------------------
// The map
// ---------------------------------------------------------------

/// A map from texts to values, walked in the order of the keys.
#[derive(Debug)]
pub struct StrMap<V> {
    entries: Vec<(String, V)>,
}

impl<V> StrMap<V> {
    /// The entries in the order of their keys.
    pub closed spec fn view(&self) -> Seq<(Seq<char>, V)> {
        entry_views(self.entries@)
    }

    #[verifier::type_invariant]
    spec fn ordered(self) -> bool {
        keys_ascend(entry_views(self.entries@))
    }

    /// An empty map.
    pub fn new() -> (m: Self)
        ensures
            m@ == Seq::<(Seq<char>, V)>::empty(),
    {
        let m = StrMap { entries: Vec::new() };
        assert(m@ =~= Seq::<(Seq<char>, V)>::empty());
        m
    }

    /// Number of entries, whose keys ascend strictly.
    pub fn len(&self) -> (n: usize)
        ensures
            n == self@.len(),
            keys_ascend(self@),
    {
        proof {
            use_type_invariant(self);
        }
        self.entries.len()
    }

    /// True when there are no entries.
    pub fn is_empty(&self) -> (r: bool)
        ensures
            r == (self@.len() == 0),
    {
        self.entries.len() == 0
    }

    /// The key of the entry at a position.
    pub fn key_at(&self, i: usize) -> (key: &String)
        requires
            i < self@.len(),
        ensures
            key@ == self@[i as int].0,
    {
        &self.entries[i].0
    }

    /// The value of the entry at a position.
    pub fn value_at(&self, i: usize) -> (value: &V)
        requires
            i < self@.len(),
        ensures
            *value == self@[i as int].1,
    {
        &self.entries[i].1
    }

    fn position(&self, key: &str) -> (at: usize)
        ensures
            at <= self.entries@.len(),
            forall|i: int| 0 <= i < at ==> precedes((#[trigger] self@[i]).0, key@),
            at < self.entries@.len() ==> !precedes(self@[at as int].0, key@),
    {
        let mut at: usize = 0;
        while at < self.entries.len() && text_precedes(&self.entries[at].0, key)
            invariant
                at <= self.entries@.len(),
                forall|i: int| 0 <= i < at ==> precedes((#[trigger] self@[i]).0, key@),
            decreases self.entries.len() - at,
        {
            at += 1;
        }
        at
    }

    /// The value that belongs to `key`.
    pub fn get(&self, key: &str) -> (r: Option<&V>)
        ensures
            match value_of(self@, key@) {
                Some(v) => r matches Some(found) && *found == v,
                None => r is None,
            },
    {
        proof {
            use_type_invariant(self);
            lemma_value_iff_key(self@, key@);
            lemma_precedes_irreflexive(key@);
        }
        let at = self.position(key);
        if at < self.entries.len() && same_text(&self.entries[at].0, key) {
            proof {
                lemma_value_at(self@, key@, at as int);
            }
            Some(&self.entries[at].1)
        } else {
            proof {
                if has_key(self@, key@) {
                    let i = choose|i: int| 0 <= i < self@.len() && (#[trigger] self@[i]).0 == key@;
                    assert(i >= at);
                    if i > at {
                        assert(precedes(self@[at as int].0, self@[i].0));
                    }
                }
            }
            None
        }
    }

    /// True when `key` has a value.
    pub fn contains_key(&self, key: &str) -> (r: bool)
        ensures
            r == has_key(self@, key@),
    {
        proof {
            lemma_value_iff_key(self@, key@);
        }
        self.get(key).is_some()
    }

    /// Binds `key` to `value`, in place of what it was bound to.
    pub fn insert(&mut self, key: String, value: V)
        ensures
            final(self)@ == with_entry(old(self)@, key@, value),
    {
        proof {
            use_type_invariant(&*self);
            lemma_with_entry(self@, key@, value);
        }
        let at = self.position(&key);
        let ghost before = self@;
        proof {
            lemma_with_entry_splits(self@, key@, value, at as int);
        }
        let mut entries: Vec<(String, V)> = Vec::new();
        assert(entry_views(entries@) =~= Seq::<(Seq<char>, V)>::empty());
        std::mem::swap(&mut self.entries, &mut entries);
        if at < entries.len() && same_text(&entries[at].0, &key) {
            entries[at] = (key, value);
            assert(entry_views(entries@) =~= before.update(at as int, (key@, value)));
        } else {
            entries.insert(at, (key, value));
            assert(entry_views(entries@) =~= before.insert(at as int, (key@, value)));
        }
        self.entries = entries;
    }
}

impl<V: Clone> Clone for StrMap<V> {
    fn clone(&self) -> (r: Self)
        ensures
            r@.len() == self@.len(),
            forall|i: int|
                0 <= i < r@.len() ==> (#[trigger] r@[i]).0 == self@[i].0 && cloned(
                    self@[i].1,
                    r@[i].1,
                ),
    {
        proof {
            use_type_invariant(self);
        }
        let mut entries: Vec<(String, V)> = Vec::new();
        let mut i: usize = 0;
        while i < self.entries.len()
            invariant
                i <= self.entries@.len(),
                entries@.len() == i,
                forall|j: int|
                    0 <= j < i ==> (#[trigger] entries@[j]).0@ == self.entries@[j].0@ && cloned(
                        self.entries@[j].1,
                        entries@[j].1,
                    ),
            decreases self.entries.len() - i,
        {
            entries.push((self.entries[i].0.clone(), self.entries[i].1.clone()));
            i += 1;
        }
        assert(keys_ascend(entry_views(entries@))) by {
            assert forall|a: int, b: int| 0 <= a < b < entries@.len() implies precedes(
                (#[trigger] entry_views(entries@)[a]).0,
                (#[trigger] entry_views(entries@)[b]).0,
            ) by {
                assert(precedes(self@[a].0, self@[b].0));
            }
        }
        StrMap { entries }
    }
}

} // verus!
