//! The price cache: the last known price of each key.
//!
//! A key is a symbol or a synthetic instrument key. Writing is an
//! unconditional overwrite: the last write wins, whatever the timestamps.

use crate::record::PriceRecord;
use crate::symbol::{has_instrument_prefix, is_instrument_key};
use crate::text::{same_text, texts};
use vstd::prelude::*;

verus! {

/// One key of the cache with its record.
#[derive(Debug, PartialEq, Eq)]
pub struct Entry {
    pub key: String,
    pub record: PriceRecord,
}

/// Whether no key occurs twice among `entries`.
pub open spec fn distinct_keys(entries: Seq<Entry>) -> bool {
    forall|i: int, j: int|
        0 <= i < entries.len() && 0 <= j < entries.len() && i != j ==> (#[trigger] entries[i]).key@
            != (#[trigger] entries[j]).key@
}

/// Whether `key` occurs among `entries`.
pub open spec fn has_key(entries: Seq<Entry>, key: Seq<char>) -> bool {
    exists|i: int| 0 <= i < entries.len() && (#[trigger] entries[i]).key@ == key
}

/// The map that `entries` stand for: each key with the record beside it.
pub open spec fn entries_map(entries: Seq<Entry>) -> Map<Seq<char>, PriceRecord> {
    Map::new(
        |key: Seq<char>| has_key(entries, key),
        |key: Seq<char>|
            entries[choose|i: int| 0 <= i < entries.len() && (#[trigger] entries[i]).key@ == key].record,
    )
}

/// With distinct keys, the map holds at each key the record beside it.
pub proof fn lemma_entry_in_map(entries: Seq<Entry>, i: int)
    requires
        distinct_keys(entries),
        0 <= i < entries.len(),
    ensures
        entries_map(entries).contains_key(entries[i].key@),
        entries_map(entries)[entries[i].key@] == entries[i].record,
{
    let key = entries[i].key@;
    let j = choose|j: int| 0 <= j < entries.len() && (#[trigger] entries[j]).key@ == key;
    assert(j == i);
}

/// Entries with the same keys and records, place by place, stand for the
/// same map.
pub proof fn lemma_same_entries_same_map(a: Seq<Entry>, b: Seq<Entry>)
    requires
        distinct_keys(a),
        a.len() == b.len(),
        forall|j: int|
            0 <= j < a.len() ==> (#[trigger] b[j]).key@ == a[j].key@ && b[j].record == a[j].record,
    ensures
        distinct_keys(b),
        entries_map(a) == entries_map(b),
{
    assert forall|i: int, j: int| 0 <= i < b.len() && 0 <= j < b.len() && i != j implies (
    #[trigger] b[i]).key@ != (#[trigger] b[j]).key@ by {
        assert(b[i].key@ == a[i].key@);
        assert(b[j].key@ == a[j].key@);
    }
    assert forall|key: Seq<char>| has_key(a, key) == has_key(b, key) by {
        if has_key(a, key) {
            let i = choose|i: int| 0 <= i < a.len() && (#[trigger] a[i]).key@ == key;
            assert(b[i].key@ == key);
        }
        if has_key(b, key) {
            let i = choose|i: int| 0 <= i < b.len() && (#[trigger] b[i]).key@ == key;
            assert(a[i].key@ == key);
        }
    }
    assert forall|key: Seq<char>| has_key(a, key) implies entries_map(a)[key] == entries_map(
        b,
    )[key] by {
        let i = choose|i: int| 0 <= i < a.len() && (#[trigger] a[i]).key@ == key;
        assert(b[i].key@ == key);
        lemma_entry_in_map(a, i);
        lemma_entry_in_map(b, i);
    }
    assert(entries_map(a) =~= entries_map(b));
}

/// Replacing the record at one place is an insertion at that place's key.
pub proof fn lemma_replace_is_insert(before: Seq<Entry>, after: Seq<Entry>, i: int)
    requires
        distinct_keys(before),
        distinct_keys(after),
        0 <= i < before.len(),
        after.len() == before.len(),
        after[i].key@ == before[i].key@,
        forall|j: int| 0 <= j < before.len() && j != i ==> #[trigger] after[j] == before[j],
    ensures
        entries_map(after) == entries_map(before).insert(after[i].key@, after[i].record),
{
    let key = after[i].key@;
    let target = entries_map(before).insert(key, after[i].record);
    assert forall|k: Seq<char>| has_key(after, k) == target.contains_key(k) by {
        if has_key(after, k) {
            let j = choose|j: int| 0 <= j < after.len() && (#[trigger] after[j]).key@ == k;
            if j != i {
                assert(before[j].key@ == k);
            }
        }
        if has_key(before, k) {
            let j = choose|j: int| 0 <= j < before.len() && (#[trigger] before[j]).key@ == k;
            assert(after[j].key@ == k);
        }
        if k == key {
            assert(after[i].key@ == k);
        }
    }
    assert forall|k: Seq<char>| has_key(after, k) implies entries_map(after)[k] == target[k] by {
        let j = choose|j: int| 0 <= j < after.len() && (#[trigger] after[j]).key@ == k;
        lemma_entry_in_map(after, j);
        if j != i {
            assert(before[j] == after[j]);
            lemma_entry_in_map(before, j);
        }
    }
    assert(entries_map(after) =~= target);
}

/// Appending an entry with a new key is an insertion of that key.
pub proof fn lemma_push_is_insert(before: Seq<Entry>, after: Seq<Entry>)
    requires
        distinct_keys(before),
        after.len() == before.len() + 1,
        forall|j: int| 0 <= j < before.len() ==> #[trigger] after[j] == before[j],
        !has_key(before, after.last().key@),
    ensures
        distinct_keys(after),
        entries_map(after) == entries_map(before).insert(after.last().key@, after.last().record),
{
    let n = before.len() as int;
    let key = after[n].key@;
    assert forall|a: int, b: int| 0 <= a < after.len() && 0 <= b < after.len() && a != b implies (
    #[trigger] after[a]).key@ != (#[trigger] after[b]).key@ by {
        if a < n {
            assert(before[a] == after[a]);
        }
        if b < n {
            assert(before[b] == after[b]);
        }
    }
    let target = entries_map(before).insert(key, after[n].record);
    assert forall|k: Seq<char>| has_key(after, k) == target.contains_key(k) by {
        if has_key(after, k) {
            let j = choose|j: int| 0 <= j < after.len() && (#[trigger] after[j]).key@ == k;
            if j < n {
                assert(before[j].key@ == k);
            }
        }
        if has_key(before, k) {
            let j = choose|j: int| 0 <= j < before.len() && (#[trigger] before[j]).key@ == k;
            assert(after[j].key@ == k);
        }
        if k == key {
            assert(after[n].key@ == k);
        }
    }
    assert forall|k: Seq<char>| has_key(after, k) implies entries_map(after)[k] == target[k] by {
        let j = choose|j: int| 0 <= j < after.len() && (#[trigger] after[j]).key@ == k;
        lemma_entry_in_map(after, j);
        if j < n {
            assert(before[j] == after[j]);
            lemma_entry_in_map(before, j);
        }
    }
    assert(entries_map(after) =~= target);
}

/// With distinct keys, the map has as many keys as there are entries.
pub proof fn lemma_map_len(entries: Seq<Entry>)
    requires
        distinct_keys(entries),
    ensures
        entries_map(entries).dom().finite(),
        entries_map(entries).len() == entries.len(),
    decreases entries.len(),
{
    if entries.len() == 0 {
        assert(entries_map(entries) =~= Map::<Seq<char>, PriceRecord>::empty());
    } else {
        let rest = entries.drop_last();
        assert forall|i: int, j: int| 0 <= i < rest.len() && 0 <= j < rest.len() && i != j implies (
        #[trigger] rest[i]).key@ != (#[trigger] rest[j]).key@ by {
            assert(rest[i] == entries[i]);
            assert(rest[j] == entries[j]);
        }
        lemma_map_len(rest);
        if has_key(rest, entries.last().key@) {
            let j = choose|j: int| 0 <= j < rest.len() && (#[trigger] rest[j]).key@ == entries.last().key@;
            assert(rest[j] == entries[j]);
            assert(false);
        }
        lemma_push_is_insert(rest, entries);
    }
}

/// A query for some keys yields exactly those of them that the cache
/// holds, each with the record that the cache has for it.
pub proof fn law_query_yields_known_keys(cache: Map<Seq<char>, PriceRecord>, keys: Set<Seq<char>>)
    ensures
        cache.restrict(keys).dom() == cache.dom().intersect(keys),
        forall|key: Seq<char>| #[trigger]
            cache.restrict(keys).contains_key(key) ==> cache.restrict(keys)[key] == cache[key],
        forall|key: Seq<char>|
            keys.contains(key) && !cache.contains_key(key) ==> !(#[trigger] cache.restrict(
                keys,
            ).contains_key(key)),
{
    assert(cache.restrict(keys).dom() =~= cache.dom().intersect(keys));
}

/// A map from key to last known price.
pub struct PriceCache {
    entries: Vec<Entry>,
}

impl View for PriceCache {
    type V = Map<Seq<char>, PriceRecord>;

    closed spec fn view(&self) -> Map<Seq<char>, PriceRecord> {
        entries_map(self.entries@)
    }
}

impl PriceCache {
    #[verifier::type_invariant]
    spec fn well_formed(self) -> bool {
        distinct_keys(self.entries@)
    }

    /// An empty cache.
    pub fn new() -> (r: PriceCache)
        ensures
            r@ == Map::<Seq<char>, PriceRecord>::empty(),
    {
        let r = PriceCache { entries: Vec::new() };
        assert(r@ =~= Map::<Seq<char>, PriceRecord>::empty());
        r
    }

    fn position(&self, key: &str) -> (r: Option<usize>)
        ensures
            r matches Some(i) ==> i < self.entries@.len() && self.entries@[i as int].key@ == key@,
            r is None ==> !has_key(self.entries@, key@),
    {
        let mut i: usize = 0;
        while i < self.entries.len()
            invariant
                i <= self.entries@.len(),
                forall|j: int| 0 <= j < i ==> (#[trigger] self.entries@[j]).key@ != key@,
            decreases self.entries@.len() - i,
        {
            if same_text(self.entries[i].key.as_str(), key) {
                return Some(i);
            }
            i = i + 1;
        }
        None
    }

    /// The record under `key`, if there is one.
    pub fn get(&self, key: &str) -> (r: Option<PriceRecord>)
        ensures
            r == if self@.contains_key(key@) {
                Some(self@[key@])
            } else {
                None
            },
    {
        proof {
            use_type_invariant(self);
        }
        match self.position(key) {
            Some(i) => {
                proof {
                    lemma_entry_in_map(self.entries@, i as int);
                }
                Some(self.entries[i].record)
            },
            None => None,
        }
    }

    /// Whether the cache holds a record under `key`.
    pub fn contains_key(&self, key: &str) -> (r: bool)
        ensures
            r == self@.contains_key(key@),
    {
        proof {
            use_type_invariant(self);
        }
        match self.position(key) {
            Some(i) => {
                proof {
                    lemma_entry_in_map(self.entries@, i as int);
                }
                true
            },
            None => false,
        }
    }

    /// Files `record` under `key`, replacing whatever was there.
    pub fn put(&mut self, key: String, record: PriceRecord)
        ensures
            final(self)@ == old(self)@.insert(key@, record),
    {
        proof {
            use_type_invariant(&*self);
        }
        let ghost before = self.entries@;
        let found = self.position(key.as_str());
        let mut entries: Vec<Entry> = Vec::new();
        core::mem::swap(&mut self.entries, &mut entries);
        match found {
            Some(i) => {
                entries.set(i, Entry { key, record });
                proof {
                    let after = entries@;
                    assert forall|a: int, b: int|
                        0 <= a < after.len() && 0 <= b < after.len() && a != b implies (
                    #[trigger] after[a]).key@ != (#[trigger] after[b]).key@ by {
                        assert(after[a].key@ == before[a].key@);
                        assert(after[b].key@ == before[b].key@);
                    }
                    lemma_replace_is_insert(before, after, i as int);
                }
            },
            None => {
                entries.push(Entry { key, record });
                proof {
                    lemma_push_is_insert(before, entries@);
                }
            },
        }
        self.entries = entries;
    }

    /// How many keys the cache holds.
    pub fn len(&self) -> (n: usize)
        ensures
            n == self@.len(),
            self@.dom().finite(),
    {
        proof {
            use_type_invariant(self);
            lemma_map_len(self.entries@);
        }
        self.entries.len()
    }

    /// Whether the cache holds nothing.
    pub fn is_empty(&self) -> (r: bool)
        ensures
            r == (self@ == Map::<Seq<char>, PriceRecord>::empty()),
    {
        proof {
            use_type_invariant(self);
            if self.entries@.len() > 0 {
                lemma_entry_in_map(self.entries@, 0);
            } else {
                assert(self@ =~= Map::<Seq<char>, PriceRecord>::empty());
            }
        }
        self.entries.len() == 0
    }

    /// Whether some key of the cache is a synthetic instrument key.
    pub fn has_instrument_keys(&self) -> (r: bool)
        ensures
            r == exists|key: Seq<char>|
                self@.contains_key(key) && #[trigger] has_instrument_prefix(key),
    {
        proof {
            use_type_invariant(self);
        }
        let mut i: usize = 0;
        while i < self.entries.len()
            invariant
                i <= self.entries@.len(),
                distinct_keys(self.entries@),
                forall|j: int| 0 <= j < i ==> !has_instrument_prefix((#[trigger] self.entries@[j]).key@),
            decreases self.entries@.len() - i,
        {
            if is_instrument_key(self.entries[i].key.as_str()) {
                proof {
                    lemma_entry_in_map(self.entries@, i as int);
                }
                return true;
            }
            i = i + 1;
        }
        false
    }

    /// The records of those of `keys` that the cache holds: a key that is
    /// absent is left out.
    pub fn get_many(&self, keys: &Vec<String>) -> (r: PriceCache)
        ensures
            r@ == self@.restrict(texts(keys@).to_set()),
    {
        let mut found = PriceCache::new();
        let mut i: usize = 0;
        while i < keys.len()
            invariant
                i <= keys@.len(),
                found@ == self@.restrict(texts(keys@.take(i as int)).to_set()),
            decreases keys@.len() - i,
        {
            let ghost before = found@;
            match self.get(keys[i].as_str()) {
                Some(record) => {
                    found.put(keys[i].clone(), record);
                },
                None => {},
            }
            proof {
                let seen = texts(keys@.take(i as int));
                let next = texts(keys@.take(i + 1));
                assert(keys@.take(i + 1) =~= keys@.take(i as int).push(keys@[i as int]));
                assert(next =~= seen.push(keys@[i as int]@));
                assert forall|k: Seq<char>| next.to_set().contains(k) <==> (seen.to_set().contains(
                    k,
                ) || k == keys@[i as int]@) by {
                    if seen.to_set().contains(k) {
                        let j = choose|j: int| 0 <= j < seen.len() && seen[j] == k;
                        assert(next[j] == k);
                    }
                    if k == keys@[i as int]@ {
                        assert(next[seen.len() as int] == k);
                    }
                }
                assert(found@ =~= self@.restrict(next.to_set()));
            }
            i = i + 1;
        }
        assert(keys@.take(keys@.len() as int) =~= keys@);
        found
    }

    /// A copy of the whole cache as it stands.
    pub fn get_all(&self) -> (r: PriceCache)
        ensures
            r@ == self@,
    {
        proof {
            use_type_invariant(self);
        }
        let mut copy: Vec<Entry> = Vec::new();
        let mut i: usize = 0;
        while i < self.entries.len()
            invariant
                i <= self.entries@.len(),
                copy@.len() == i,
                forall|j: int|
                    0 <= j < i ==> (#[trigger] copy@[j]).key@ == self.entries@[j].key@ && copy@[j].record
                        == self.entries@[j].record,
            decreases self.entries@.len() - i,
        {
            copy.push(Entry { key: self.entries[i].key.clone(), record: self.entries[i].record });
            i = i + 1;
        }
        proof {
            lemma_same_entries_same_map(self.entries@, copy@);
        }
        PriceCache { entries: copy }
    }

    /// The entries of the cache: every key once, with its record.
    pub fn entries(&self) -> (r: Vec<Entry>)
        ensures
            distinct_keys(r@),
            entries_map(r@) == self@,
            r@.len() == self@.len(),
    {
        proof {
            use_type_invariant(self);
        }
        let copy = self.get_all();
        proof {
            use_type_invariant(&copy);
            lemma_map_len(copy.entries@);
        }
        copy.entries
    }
}

} // verus!
