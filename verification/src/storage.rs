//! An in-memory model of the ledger's key-value storage substrate.
//!
//! The substrate binds each [`DataKey`] to at most one record; a write
//! replaces any prior binding for its key in full.  The model keeps the
//! bindings in a vector whose keys are pairwise distinct, and its
//! abstraction is the finite map from keys to record contents.

use crate::data::DataKey;
use crate::data::ScoreData;
use crate::data::ScoreView;
use vstd::prelude::*;

verus! {

/// Whether a sequence of bindings binds the key `k`.
pub open spec fn has_key(s: Seq<(DataKey, ScoreData)>, k: DataKey) -> bool {
    exists|i: int| 0 <= i < s.len() && s[i].0 == k
}

/// The index at which `k` is bound; meaningful only when `has_key(s, k)`.
pub open spec fn key_idx(s: Seq<(DataKey, ScoreData)>, k: DataKey) -> int {
    choose|i: int| 0 <= i < s.len() && s[i].0 == k
}

/// Bindings give each key at most one slot.
pub open spec fn unique_keys(s: Seq<(DataKey, ScoreData)>) -> bool {
    forall|i: int, j: int| 0 <= i < j < s.len() ==> s[i].0 != s[j].0
}

/// The finite map that a sequence of bindings denotes.
pub open spec fn bindings_map(s: Seq<(DataKey, ScoreData)>) -> Map<DataKey, ScoreView> {
    Map::new(|k: DataKey| has_key(s, k), |k: DataKey| s[key_idx(s, k)].1@)
}

/// Under unique keys, the bound index of a key is the only slot holding it.
proof fn lemma_key_idx_at(s: Seq<(DataKey, ScoreData)>, k: DataKey, i: int)
    requires
        unique_keys(s),
        0 <= i < s.len(),
        s[i].0 == k,
    ensures
        has_key(s, k),
        key_idx(s, k) == i,
{
    assert(has_key(s, k));
    let j = key_idx(s, k);
    assert(0 <= j < s.len() && s[j].0 == k);
    if i < j {
        assert(s[i].0 != s[j].0);
    } else if j < i {
        assert(s[j].0 != s[i].0);
    }
}

/// Overwriting the slot that holds `k` denotes inserting `k`'s new content.
proof fn lemma_bindings_map_update(s: Seq<(DataKey, ScoreData)>, i: int, k: DataKey, v: ScoreData)
    requires
        unique_keys(s),
        0 <= i < s.len(),
        s[i].0 == k,
    ensures
        unique_keys(s.update(i, (k, v))),
        bindings_map(s.update(i, (k, v))) == bindings_map(s).insert(k, v@),
{
    let t = s.update(i, (k, v));
    assert forall|m: int| 0 <= m < t.len() implies t[m].0 == s[m].0 by {
        if m == i {
        }
    }
    assert forall|a: int, b: int| 0 <= a < b < t.len() implies t[a].0 != t[b].0 by {
        assert(t[a].0 == s[a].0);
        assert(t[b].0 == s[b].0);
    }
    assert forall|k2: DataKey| has_key(t, k2) == has_key(s, k2) by {
        if has_key(t, k2) {
            let a = choose|a: int| 0 <= a < t.len() && t[a].0 == k2;
            assert(s[a].0 == k2);
            assert(has_key(s, k2));
        }
        if has_key(s, k2) {
            let a = choose|a: int| 0 <= a < s.len() && s[a].0 == k2;
            assert(t[a].0 == k2);
            assert(has_key(t, k2));
        }
    }
    lemma_key_idx_at(s, k, i);
    lemma_key_idx_at(t, k, i);
    assert forall|k2: DataKey| #[trigger] has_key(s, k2) implies bindings_map(t)[k2]
        == bindings_map(s).insert(k, v@)[k2] by {
        if k2 == k {
            assert(t[i].1 == v);
        } else {
            let a = key_idx(s, k2);
            assert(0 <= a < s.len() && s[a].0 == k2);
            assert(a != i);
            assert(t[a].0 == k2);
            lemma_key_idx_at(t, k2, a);
            assert(t[a].1 == s[a].1);
        }
    }
    assert(bindings_map(t) =~= bindings_map(s).insert(k, v@));
}

/// Appending a binding for a key not yet bound denotes inserting it.
proof fn lemma_bindings_map_push(s: Seq<(DataKey, ScoreData)>, k: DataKey, v: ScoreData)
    requires
        unique_keys(s),
        !has_key(s, k),
    ensures
        unique_keys(s.push((k, v))),
        bindings_map(s.push((k, v))) == bindings_map(s).insert(k, v@),
{
    let t = s.push((k, v));
    let n = s.len() as int;
    assert(t[n] == (k, v));
    assert forall|m: int| 0 <= m < n implies t[m] == s[m] by {}
    assert forall|a: int, b: int| 0 <= a < b < t.len() implies t[a].0 != t[b].0 by {
        if b < n {
            assert(t[a].0 == s[a].0);
            assert(t[b].0 == s[b].0);
        } else {
            assert(t[a].0 == s[a].0);
            if t[a].0 == k {
                assert(s[a].0 == k);
                assert(has_key(s, k));
            }
        }
    }
    lemma_key_idx_at(t, k, n);
    assert forall|k2: DataKey| has_key(t, k2) == (k2 == k || has_key(s, k2)) by {
        if has_key(t, k2) {
            let a = choose|a: int| 0 <= a < t.len() && t[a].0 == k2;
            if a < n {
                assert(s[a].0 == k2);
                assert(has_key(s, k2));
            }
        }
        if has_key(s, k2) {
            let a = choose|a: int| 0 <= a < s.len() && s[a].0 == k2;
            assert(t[a].0 == k2);
            assert(has_key(t, k2));
        }
        if k2 == k {
            assert(t[n].0 == k2);
            assert(has_key(t, k2));
        }
    }
    assert forall|k2: DataKey| #[trigger] has_key(t, k2) implies bindings_map(t)[k2]
        == bindings_map(s).insert(k, v@)[k2] by {
        if k2 == k {
            assert(t[n].1 == v);
        } else {
            let a = key_idx(s, k2);
            assert(0 <= a < s.len() && s[a].0 == k2);
            assert(t[a].0 == k2);
            lemma_key_idx_at(t, k2, a);
            assert(t[a].1 == s[a].1);
        }
    }
    assert(bindings_map(t) =~= bindings_map(s).insert(k, v@));
}

/// The ledger's durable key-value storage, scoped to this service's
/// namespace: at most one live record per key.
pub struct Storage {
    bindings: Vec<(DataKey, ScoreData)>,
}

impl View for Storage {
    type V = Map<DataKey, ScoreView>;

    closed spec fn view(&self) -> Map<DataKey, ScoreView> {
        bindings_map(self.bindings@)
    }
}

impl Storage {
    /// The storage holds each key in at most one slot.
    pub closed spec fn wf(self) -> bool {
        unique_keys(self.bindings@)
    }

    /// Empty storage: no key is bound.
    pub fn new() -> (s: Storage)
        ensures
            s.wf(),
            s@ == Map::<DataKey, ScoreView>::empty(),
    {
        let s = Storage { bindings: Vec::new() };
        proof {
            assert forall|k: DataKey| !has_key(s.bindings@, k) by {}
            assert(s@ =~= Map::<DataKey, ScoreView>::empty());
        }
        s
    }

    /// The slot index holding `key`, if any.
    fn find(&self, key: &DataKey) -> (r: Option<usize>)
        ensures
            match r {
                Some(i) => i < self.bindings@.len() && self.bindings@[i as int].0 == *key,
                None => !has_key(self.bindings@, *key),
            },
    {
        let mut i: usize = 0;
        while i < self.bindings.len()
            invariant
                i <= self.bindings@.len(),
                forall|j: int| 0 <= j < i ==> self.bindings@[j].0 != *key,
            decreases self.bindings@.len() - i,
        {
            if self.bindings[i].0 == *key {
                return Some(i);
            }
            i = i + 1;
        }
        None
    }

    /// Whether a record is currently bound to `key`.
    pub fn has(&self, key: &DataKey) -> (r: bool)
        ensures
            r == self@.contains_key(*key),
    {
        match self.find(key) {
            Some(i) => {
                proof {
                    assert(has_key(self.bindings@, *key));
                }
                true
            },
            None => false,
        }
    }

    /// The record currently bound to `key`, if any.
    pub fn get(&self, key: &DataKey) -> (r: Option<ScoreData>)
        requires
            self.wf(),
        ensures
            match r {
                Some(d) => self@.contains_key(*key) && d@ == self@[*key],
                None => !self@.contains_key(*key),
            },
    {
        match self.find(key) {
            Some(i) => {
                let d = self.bindings[i].1.clone();
                proof {
                    lemma_key_idx_at(self.bindings@, *key, i as int);
                }
                Some(d)
            },
            None => None,
        }
    }

    /// Binds `key` to `value`, replacing any prior binding in full.
    pub fn set(&mut self, key: DataKey, value: ScoreData)
        requires
            old(self).wf(),
        ensures
            final(self).wf(),
            final(self)@ == old(self)@.insert(key, value@),
    {
        match self.find(&key) {
            Some(i) => {
                proof {
                    lemma_bindings_map_update(self.bindings@, i as int, key, value);
                }
                self.bindings[i] = (key, value);
            },
            None => {
                proof {
                    lemma_bindings_map_push(self.bindings@, key, value);
                }
                self.bindings.push((key, value));
            },
        }
    }
}

} // verus!
