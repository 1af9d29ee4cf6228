//! Association lists with unique keys.
//!
//! Channel budgets and channel deltas are keyed by [`ParaId`]. They are held
//! as vectors of pairs whose keys are unique; `lookup` gives the value bound
//! to a key (the first match), and the lemmas here relate `lookup` to the
//! underlying sequence.

use crate::primitives::ParaId;
use vstd::prelude::*;

verus! {

/// No key occurs twice.
pub open spec fn keys_unique<V>(entries: Seq<(ParaId, V)>) -> bool {
    forall|i: int, j: int|
        0 <= i < j < entries.len() ==> (#[trigger] entries[i]).0 != (#[trigger] entries[j]).0
}

/// The value bound to `key`: the value of the first entry with that key.
pub open spec fn lookup<V>(entries: Seq<(ParaId, V)>, key: ParaId) -> Option<V>
    decreases entries.len(),
{
    if entries.len() == 0 {
        None
    } else if entries[0].0 == key {
        Some(entries[0].1)
    } else {
        lookup(entries.drop_first(), key)
    }
}

/// Whether some entry has key `key`.
pub open spec fn has_key<V>(entries: Seq<(ParaId, V)>, key: ParaId) -> bool {
    lookup(entries, key) is Some
}

/// The position of the first entry with key `key` (meaningful only when
/// the key is present).
pub open spec fn first_key_index<V>(entries: Seq<(ParaId, V)>, key: ParaId) -> int
    decreases entries.len(),
{
    if entries.len() == 0 {
        0
    } else if entries[0].0 == key {
        0
    } else {
        1 + first_key_index(entries.drop_first(), key)
    }
}

/// `lookup` finds the first entry with the key, or none when no entry has it.
pub proof fn lemma_lookup_index<V>(entries: Seq<(ParaId, V)>, key: ParaId)
    ensures
        has_key(entries, key) ==> {
            let fki = first_key_index(entries, key);
            &&& 0 <= fki < entries.len()
            &&& entries[fki].0 == key
            &&& lookup(entries, key) == Some(entries[fki].1)
            &&& forall|j: int| 0 <= j < fki ==> (#[trigger] entries[j]).0 != key
        },
        !has_key(entries, key) ==> forall|j: int|
            0 <= j < entries.len() ==> (#[trigger] entries[j]).0 != key,
    decreases entries.len(),
{
    if entries.len() == 0 {
    } else if entries[0].0 == key {
    } else {
        let rest = entries.drop_first();
        lemma_lookup_index(rest, key);
        assert(forall|i: int| 0 <= i < rest.len() ==> rest[i] == entries[i + 1]);
        if has_key(entries, key) {
            let fki = first_key_index(entries, key);
            assert(fki == 1 + first_key_index(rest, key));
            assert(entries[fki] == rest[fki - 1]);
            assert forall|j: int| 0 <= j < fki implies (#[trigger] entries[j]).0 != key by {
                if j >= 1 {
                    assert(entries[j] == rest[j - 1]);
                }
            }
        } else {
            assert forall|j: int| 0 <= j < entries.len() implies (#[trigger] entries[j]).0
                != key by {
                if j >= 1 {
                    assert(entries[j] == rest[j - 1]);
                }
            }
        }
    }
}

/// When no entry has the key, `lookup` returns none.
pub proof fn lemma_lookup_absent<V>(entries: Seq<(ParaId, V)>, key: ParaId)
    requires
        forall|j: int| 0 <= j < entries.len() ==> (#[trigger] entries[j]).0 != key,
    ensures
        lookup(entries, key) is None,
    decreases entries.len(),
{
    if entries.len() > 0 {
        let rest = entries.drop_first();
        assert(forall|i: int| 0 <= i < rest.len() ==> rest[i] == entries[i + 1]);
        lemma_lookup_absent(rest, key);
    }
}

/// An entry whose earlier entries all have other keys is what `lookup` finds.
pub proof fn lemma_lookup_at<V>(entries: Seq<(ParaId, V)>, key: ParaId, i: int)
    requires
        0 <= i < entries.len(),
        entries[i].0 == key,
        forall|j: int| 0 <= j < i ==> (#[trigger] entries[j]).0 != key,
    ensures
        lookup(entries, key) == Some(entries[i].1),
        first_key_index(entries, key) == i,
    decreases i,
{
    if i == 0 {
    } else {
        let rest = entries.drop_first();
        assert(forall|k: int| 0 <= k < rest.len() ==> rest[k] == entries[k + 1]);
        lemma_lookup_at(rest, key, i - 1);
    }
}

/// With unique keys, the entry at any position with the key is the one found.
pub proof fn lemma_lookup_unique_at<V>(entries: Seq<(ParaId, V)>, key: ParaId, i: int)
    requires
        keys_unique(entries),
        0 <= i < entries.len(),
        entries[i].0 == key,
    ensures
        lookup(entries, key) == Some(entries[i].1),
        first_key_index(entries, key) == i,
{
    assert forall|j: int| 0 <= j < i implies (#[trigger] entries[j]).0 != key by {
        assert(entries[j].0 != entries[i].0);
    }
    lemma_lookup_at(entries, key, i);
}

/// How appending one entry changes `lookup`: an already-bound key keeps its
/// value, the new entry's key becomes bound, all others stay absent.
pub proof fn lemma_lookup_push<V>(entries: Seq<(ParaId, V)>, p: (ParaId, V), key: ParaId)
    ensures
        lookup(entries.push(p), key) == (if has_key(entries, key) {
            lookup(entries, key)
        } else if p.0 == key {
            Some(p.1)
        } else {
            None
        }),
    decreases entries.len(),
{
    if entries.len() == 0 {
        assert(entries.push(p)[0] == p);
        assert(entries.push(p).drop_first() =~= Seq::<(ParaId, V)>::empty());
        assert(lookup(entries.push(p), key) == (if p.0 == key {
            Some(p.1)
        } else {
            lookup(entries.push(p).drop_first(), key)
        }));
    } else {
        assert(entries.push(p)[0] == entries[0]);
        assert(entries.push(p).drop_first() =~= entries.drop_first().push(p));
        lemma_lookup_push(entries.drop_first(), p, key);
        assert(lookup(entries.push(p), key) == (if entries[0].0 == key {
            Some(entries[0].1)
        } else {
            lookup(entries.drop_first().push(p), key)
        }));
        assert(lookup(entries, key) == (if entries[0].0 == key {
            Some(entries[0].1)
        } else {
            lookup(entries.drop_first(), key)
        }));
    }
}

/// Replacing an entry by one with the same key keeps the keys unique and
/// rebinds only that key.
pub proof fn lemma_lookup_update<V>(entries: Seq<(ParaId, V)>, i: int, p: (ParaId, V), key: ParaId)
    requires
        keys_unique(entries),
        0 <= i < entries.len(),
        entries[i].0 == p.0,
    ensures
        keys_unique(entries.update(i, p)),
        lookup(entries.update(i, p), key) == (if p.0 == key {
            Some(p.1)
        } else {
            lookup(entries, key)
        }),
{
    let upd = entries.update(i, p);
    assert(forall|k: int| 0 <= k < entries.len() ==> (#[trigger] upd[k]).0 == entries[k].0);
    if p.0 == key {
        lemma_lookup_unique_at(upd, key, i);
    } else {
        lemma_lookup_index(entries, key);
        if has_key(entries, key) {
            let fki = first_key_index(entries, key);
            assert(upd[fki] == entries[fki]);
            lemma_lookup_at(upd, key, fki);
        } else {
            lemma_lookup_absent(upd, key);
        }
    }
}

/// Appending an entry with a fresh key keeps the keys unique.
pub proof fn lemma_push_unique<V>(entries: Seq<(ParaId, V)>, p: (ParaId, V))
    requires
        keys_unique(entries),
        !has_key(entries, p.0),
    ensures
        keys_unique(entries.push(p)),
{
    lemma_lookup_index(entries, p.0);
    let pushed = entries.push(p);
    assert forall|i: int, j: int|
        0 <= i < j < pushed.len() implies (#[trigger] pushed[i]).0 != (#[trigger] pushed[j]).0 by {
        if j < entries.len() {
            assert(pushed[i] == entries[i] && pushed[j] == entries[j]);
        } else {
            assert(pushed[i] == entries[i] && pushed[j] == p);
        }
    }
}

/// Search an association list for a key; the result is the position of the
/// first entry with that key, if any.
pub fn get_index<V>(entries: &Vec<(ParaId, V)>, key: ParaId) -> (r: Option<usize>)
    ensures
        match r {
            Some(i) => {
                &&& i < entries@.len()
                &&& entries@[i as int].0 == key
                &&& lookup(entries@, key) == Some(entries@[i as int].1)
                &&& first_key_index(entries@, key) == i
            },
            None => !has_key(entries@, key),
        },
{
    let mut i: usize = 0;
    while i < entries.len()
        invariant
            i <= entries@.len(),
            forall|j: int| 0 <= j < i ==> (#[trigger] entries@[j]).0 != key,
        decreases entries@.len() - i,
    {
        if entries[i].0 == key {
            proof {
                lemma_lookup_at(entries@, key, i as int);
            }
            return Some(i);
        }
        i += 1;
    }
    proof {
        lemma_lookup_absent(entries@, key);
    }
    None
}

/// Look up the value bound to a key.
pub fn get_value<V: Copy>(entries: &Vec<(ParaId, V)>, key: ParaId) -> (r: Option<V>)
    ensures
        r == lookup(entries@, key),
{
    match get_index(entries, key) {
        Some(i) => Some(entries[i].1),
        None => None,
    }
}

} // verus!
