//! A small mapping from byte-string keys to byte-string values, kept in insertion
//! order, in which no key occurs twice.

use vstd::prelude::*;
use crate::bytes::same;

verus! {

/// One key with its value.
#[derive(Debug, PartialEq, Eq)]
pub struct Entry {
    pub key: Vec<u8>,
    pub value: Vec<u8>,
}

/// No key occurs at two places of `s`.
pub open spec fn distinct_keys(s: Seq<(Seq<u8>, Seq<u8>)>) -> bool {
    forall|i: int, j: int| 0 <= i < j < s.len() ==> (#[trigger] s[i]).0 != (#[trigger] s[j]).0
}

/// Some entry of `s` has the key `key`.
pub open spec fn has_key(s: Seq<(Seq<u8>, Seq<u8>)>, key: Seq<u8>) -> bool {
    exists|i: int| 0 <= i < s.len() && (#[trigger] s[i]).0 == key
}

/// The value that `s` holds for `key`, if it holds one.
pub open spec fn lookup(s: Seq<(Seq<u8>, Seq<u8>)>, key: Seq<u8>) -> Option<Seq<u8>> {
    if has_key(s, key) {
        let i = choose|i: int| 0 <= i < s.len() && (#[trigger] s[i]).0 == key;
        Some(s[i].1)
    } else {
        None
    }
}

/// The entries of `s` as a mathematical map.
pub open spec fn as_map(s: Seq<(Seq<u8>, Seq<u8>)>) -> Map<Seq<u8>, Seq<u8>> {
    Map::new(|k: Seq<u8>| has_key(s, k), |k: Seq<u8>| lookup(s, k)->0)
}

/// `s` after `key` was given the value `value`: in place where `s` has the key,
/// at the end where it has not.
pub open spec fn with_entry(s: Seq<(Seq<u8>, Seq<u8>)>, key: Seq<u8>, value: Seq<u8>) -> Seq<
    (Seq<u8>, Seq<u8>),
> {
    if has_key(s, key) {
        let i = choose|i: int| 0 <= i < s.len() && (#[trigger] s[i]).0 == key;
        s.update(i, (key, value))
    } else {
        s.push((key, value))
    }
}

/// In a sequence without repeated keys, the entry at `i` is the one found under its key.
pub proof fn lemma_lookup_at(s: Seq<(Seq<u8>, Seq<u8>)>, i: int)
    requires
        distinct_keys(s),
        0 <= i < s.len(),
    ensures
        has_key(s, s[i].0),
        lookup(s, s[i].0) == Some(s[i].1),
{
    let key = s[i].0;
    let j = choose|j: int| 0 <= j < s.len() && (#[trigger] s[j]).0 == key;
    assert(0 <= j < s.len() && s[j].0 == key);
    if j < i {
        assert(s[j].0 != s[i].0);
    } else if i < j {
        assert(s[i].0 != s[j].0);
    }
}

/// Giving `key` a value keeps the keys distinct, makes `key` map to that value
/// and leaves every other key as it was.
pub proof fn lemma_with_entry(s: Seq<(Seq<u8>, Seq<u8>)>, key: Seq<u8>, value: Seq<u8>)
    requires
        distinct_keys(s),
    ensures
        distinct_keys(with_entry(s, key, value)),
        lookup(with_entry(s, key, value), key) == Some(value),
        forall|k: Seq<u8>| k != key ==> lookup(with_entry(s, key, value), k) == lookup(s, k),
        as_map(with_entry(s, key, value)) == as_map(s).insert(key, value),
{
    let t = with_entry(s, key, value);
    let at: int = if has_key(s, key) {
        choose|i: int| 0 <= i < s.len() && (#[trigger] s[i]).0 == key
    } else {
        s.len() as int
    };
    assert(0 <= at < t.len() && t[at] == (key, value));
    assert(t.len() >= s.len());
    assert forall|i: int| 0 <= i < t.len() && i != at implies i < s.len() && t[i] == s[i]
        && s[i].0 != key by {
        if has_key(s, key) {
            if i < at {
                assert(s[i].0 != s[at].0);
            } else {
                assert(s[at].0 != s[i].0);
            }
        }
    }
    assert forall|i: int, j: int| 0 <= i < j < t.len() implies (#[trigger] t[i]).0 != (
    #[trigger] t[j]).0 by {
        if i != at && j != at {
            assert(s[i].0 != s[j].0);
        }
    }
    lemma_lookup_at(t, at);
    assert forall|k: Seq<u8>| k != key implies lookup(t, k) == lookup(s, k) by {
        if has_key(s, k) {
            let i = choose|i: int| 0 <= i < s.len() && (#[trigger] s[i]).0 == k;
            assert(i != at);
            assert(t[i] == s[i]);
            lemma_lookup_at(t, i);
            lemma_lookup_at(s, i);
        } else if has_key(t, k) {
            let i = choose|i: int| 0 <= i < t.len() && (#[trigger] t[i]).0 == k;
            assert(i != at);
            assert(s[i].0 == k);
        }
    }
    assert forall|k: Seq<u8>| has_key(t, k) == (k == key || has_key(s, k)) by {
        if k != key {
            assert(lookup(t, k) == lookup(s, k));
        }
    }
    assert(as_map(t) =~= as_map(s).insert(key, value));
}

/// A sequence without repeated keys maps exactly as many keys as it has entries.
pub proof fn lemma_map_len(s: Seq<(Seq<u8>, Seq<u8>)>)
    requires
        distinct_keys(s),
    ensures
        as_map(s).dom().finite(),
        as_map(s).dom().len() == s.len(),
    decreases s.len(),
{
    if s.len() == 0 {
        assert(as_map(s).dom() =~= Set::<Seq<u8>>::empty());
    } else {
        let front = s.drop_last();
        let last = s.last();
        assert forall|i: int, j: int| 0 <= i < j < front.len() implies (#[trigger] front[i]).0
            != (#[trigger] front[j]).0 by {
            assert(s[i].0 != s[j].0);
        }
        lemma_map_len(front);
        if has_key(front, last.0) {
            let i = choose|i: int| 0 <= i < front.len() && (#[trigger] front[i]).0 == last.0;
            assert(s[i].0 != s[s.len() - 1].0);
        }
        assert forall|k: Seq<u8>| has_key(s, k) == (k == last.0 || has_key(front, k)) by {
            if has_key(s, k) {
                let i = choose|i: int| 0 <= i < s.len() && (#[trigger] s[i]).0 == k;
                if i < front.len() {
                    assert(front[i].0 == k);
                }
            }
            if has_key(front, k) {
                let i = choose|i: int| 0 <= i < front.len() && (#[trigger] front[i]).0 == k;
                assert(s[i].0 == k);
            }
            if k == last.0 {
                assert(s[s.len() - 1].0 == k);
            }
        }
        assert(as_map(s).dom() =~= as_map(front).dom().insert(last.0));
    }
}

/// The mapping itself.
#[derive(Debug, PartialEq, Eq)]
pub struct Table {
    entries: Vec<Entry>,
}

impl View for Table {
    type V = Seq<(Seq<u8>, Seq<u8>)>;

    /// The entries in insertion order, each as a pair of key and value.
    closed spec fn view(&self) -> Seq<(Seq<u8>, Seq<u8>)> {
        Seq::new(self.entries@.len(), |i: int| (self.entries@[i].key@, self.entries@[i].value@))
    }
}

impl Table {
    /// The invariant of the type: no key occurs twice.
    pub open spec fn wf(&self) -> bool {
        distinct_keys(self@)
    }

    /// The table as a mathematical map.
    pub open spec fn map(&self) -> Map<Seq<u8>, Seq<u8>> {
        as_map(self@)
    }

    /// A table without entries.
    pub fn new() -> (t: Table)
        ensures
            t@ == Seq::<(Seq<u8>, Seq<u8>)>::empty(),
            t.wf(),
    {
        let t = Table { entries: Vec::new() };
        assert(t@ =~= Seq::<(Seq<u8>, Seq<u8>)>::empty());
        t
    }

    /// Number of entries.
    pub fn len(&self) -> (n: usize)
        ensures
            n == self@.len(),
    {
        self.entries.len()
    }

    /// The entry at position `i`.
    pub fn entry(&self, i: usize) -> (e: &Entry)
        requires
            i < self@.len(),
        ensures
            e.key@ == self@[i as int].0,
            e.value@ == self@[i as int].1,
    {
        &self.entries[i]
    }

    /// Position of `key`, if the table holds it.
    fn position(&self, key: &[u8]) -> (r: Option<usize>)
        ensures
            match r {
                Some(i) => i < self@.len() && self@[i as int].0 == key@,
                None => !has_key(self@, key@),
            },
    {
        let mut i: usize = 0;
        while i < self.entries.len()
            invariant
                i <= self@.len(),
                self@.len() == self.entries@.len(),
                forall|j: int| 0 <= j < i ==> (#[trigger] self@[j]).0 != key@,
            decreases self.entries.len() - i,
        {
            if same(self.entries[i].key.as_slice(), key) {
                return Some(i);
            }
            i += 1;
        }
        None
    }

    /// The value stored under `key`.
    pub fn get(&self, key: &[u8]) -> (r: Option<&Vec<u8>>)
        requires
            self.wf(),
        ensures
            match r {
                Some(v) => lookup(self@, key@) == Some(v@),
                None => lookup(self@, key@) is None,
            },
    {
        match self.position(key) {
            Some(i) => {
                proof {
                    lemma_lookup_at(self@, i as int);
                }
                Some(&self.entries[i].value)
            },
            None => None,
        }
    }

    /// Stores `value` under `key`, replacing the value the key had.
    pub fn insert(&mut self, key: Vec<u8>, value: Vec<u8>)
        requires
            old(self).wf(),
        ensures
            final(self).wf(),
            final(self)@ == with_entry(old(self)@, key@, value@),
            final(self).map() == old(self).map().insert(key@, value@),
    {
        let ghost before = self@;
        let ghost k = key@;
        let ghost v = value@;
        proof {
            lemma_with_entry(before, k, v);
        }
        match self.position(key.as_slice()) {
            Some(i) => {
                proof {
                    lemma_lookup_at(before, i as int);
                    let j = choose|j: int| 0 <= j < before.len() && (#[trigger] before[j]).0 == k;
                    if j < i {
                        assert(before[j].0 != before[i as int].0);
                    } else if i < j {
                        assert(before[i as int].0 != before[j].0);
                    }
                }
                self.entries.set(i, Entry { key, value });
                assert(self@ =~= before.update(i as int, (k, v)));
            },
            None => {
                self.entries.push(Entry { key, value });
                assert(self@ =~= before.push((k, v)));
            },
        }
    }
}

} // verus!
