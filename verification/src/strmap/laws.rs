//! In which order a map keeps its keys, and what it holds under them.

use vstd::prelude::*;
use crate::strmap::{keys_ascend, lemma_with_entry, precedes, value_of, with_entry};

verus! {

/// True when two texts agree in their first `k` characters, and the first of them
/// ends there, or goes on with a smaller character than the second.
pub open spec fn parts_at(a: Seq<char>, b: Seq<char>, k: int) -> bool {
    &&& 0 <= k <= a.len()
    &&& k < b.len()
    &&& a.take(k) == b.take(k)
    &&& k == a.len() || a[k] < b[k]
}

proof fn lemma_parts_later(a: Seq<char>, b: Seq<char>, k: int)
    requires
        a.len() > 0,
        b.len() > 0,
        a[0] == b[0],
    ensures
        k > 0 ==> (parts_at(a, b, k) <==> parts_at(a.drop_first(), b.drop_first(), k - 1)),
        !parts_at(a, b, 0),
{
    let x = a.drop_first();
    let y = b.drop_first();
    if 0 < k <= a.len() && k < b.len() {
        if a.take(k) == b.take(k) {
            assert forall|i: int| 0 <= i < k - 1 implies x[i] == y[i] by {
                assert(a.take(k)[i + 1] == b.take(k)[i + 1]);
            }
            assert(x.take(k - 1) =~= y.take(k - 1));
        }
        if x.take(k - 1) == y.take(k - 1) {
            assert forall|i: int| 0 <= i < k implies a[i] == b[i] by {
                if i > 0 {
                    assert(x.take(k - 1)[i - 1] == y.take(k - 1)[i - 1]);
                }
            }
            assert(a.take(k) =~= b.take(k));
        }
    }
}

/// A text precedes another as in a dictionary: where they part, it has ended or
/// goes on with the smaller character.
pub proof fn law_keys_are_ordered_as_in_a_dictionary(a: Seq<char>, b: Seq<char>)
    ensures
        precedes(a, b) <==> exists|k: int| parts_at(a, b, k),
    decreases a.len(),
{
    if b.len() > 0 {
        if a.len() == 0 {
            assert(a.take(0) =~= b.take(0));
            assert(parts_at(a, b, 0));
        } else if a[0] == b[0] {
            let x = a.drop_first();
            let y = b.drop_first();
            law_keys_are_ordered_as_in_a_dictionary(x, y);
            lemma_parts_later(a, b, 0);
            if precedes(x, y) {
                let k = choose|k: int| parts_at(x, y, k);
                lemma_parts_later(a, b, k + 1);
                assert(parts_at(a, b, k + 1));
            }
            if exists|k: int| parts_at(a, b, k) {
                let k = choose|k: int| parts_at(a, b, k);
                lemma_parts_later(a, b, k);
                assert(parts_at(x, y, k - 1));
            }
        } else {
            assert(a.take(0) =~= b.take(0));
            if a[0] < b[0] {
                assert(parts_at(a, b, 0));
            }
            if exists|k: int| parts_at(a, b, k) {
                let k = choose|k: int| parts_at(a, b, k);
                if k > 0 {
                    assert(a.take(k)[0] == b.take(k)[0]);
                }
            }
        }
    }
}

/// What a map holds under a key is the value of the first entry of that key;
/// nothing, if it has no such entry.
pub proof fn law_lookups_find_the_entry<V>(entries: Seq<(Seq<char>, V)>, key: Seq<char>)
    ensures
        match value_of(entries, key) {
            Some(value) => exists|i: int|
                0 <= i < entries.len() && (#[trigger] entries[i]).0 == key && entries[i].1 == value
                    && forall|j: int| 0 <= j < i ==> (#[trigger] entries[j]).0 != key,
            None => forall|i: int| 0 <= i < entries.len() ==> (#[trigger] entries[i]).0 != key,
        },
    decreases entries.len(),
{
    if entries.len() > 0 {
        let rest = entries.drop_first();
        law_lookups_find_the_entry(rest, key);
        if entries[0].0 == key {
            assert(entries[0].0 == key);
        } else {
            match value_of(rest, key) {
                Some(value) => {
                    let i = choose|i: int|
                        0 <= i < rest.len() && (#[trigger] rest[i]).0 == key && rest[i].1 == value
                            && forall|j: int| 0 <= j < i ==> (#[trigger] rest[j]).0 != key;
                    assert(entries[i + 1] == rest[i]);
                    assert forall|j: int| 0 <= j < i + 1 implies (#[trigger] entries[j]).0 != key by {
                        if j > 0 {
                            assert(rest[j - 1] == entries[j]);
                        }
                    }
                },
                None => {
                    assert forall|i: int| 0 <= i < entries.len() implies (#[trigger] entries[i]).0
                        != key by {
                        if i > 0 {
                            assert(rest[i - 1] == entries[i]);
                        }
                    }
                },
            }
        }
    }
}

/// Binding a key keeps the keys in order; the key is then bound to the new value,
/// and every other key to what it was.
pub proof fn law_bindings_change_one_key<V>(
    entries: Seq<(Seq<char>, V)>,
    key: Seq<char>,
    value: V,
    other: Seq<char>,
)
    requires
        keys_ascend(entries),
    ensures
        keys_ascend(with_entry(entries, key, value)),
        value_of(with_entry(entries, key, value), other) == if other == key {
            Some(value)
        } else {
            value_of(entries, other)
        },
{
    lemma_with_entry(entries, key, value);
}

} // verus!
