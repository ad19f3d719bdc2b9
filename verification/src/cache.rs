//! The cache of compiled modules.
//!
//! A compiled module is kept under the fingerprint of the text it was
//! compiled from, so that the same text is compiled once. The cache is
//! bounded crudely: it never holds more than `CACHE_CAPACITY` entries, and
//! a store into a full cache empties it first.

use std::collections::hash_map::DefaultHasher;
use std::collections::HashMap;
use std::hash::Hasher;
use vstd::prelude::*;
use vstd::std_specs::hash::DefaultHasherAdditionalSpecFns;
use vstd::utf8::encode_utf8;

verus! {

broadcast use vstd::std_specs::hash::group_hash_axioms;

/// The most entries that the cache holds. A store into a cache that holds
/// this many empties it first.
pub const CACHE_CAPACITY: usize = 100;

/// The fingerprint of `source`: the 64-bit hash that the standard hasher
/// makes of the text's bytes. Texts that differ in a single character are
/// different texts to it, whatever they mean.
pub open spec fn fingerprint(source: Seq<char>) -> u64 {
    DefaultHasher::spec_finish(seq![encode_utf8(source)])
}

/// Computes the fingerprint of `source`.
pub fn calculate_hash(source: &str) -> (hash: u64)
    ensures
        hash == fingerprint(source@),
{
    let mut hasher = DefaultHasher::new();
    hasher.write(source.as_bytes());
    assert(hasher@ =~= seq![encode_utf8(source@)]);
    hasher.finish()
}

/// What a cache holds after `binary` is stored under `key`: the entry alone
/// where the cache was full, with `CACHE_CAPACITY` entries, and else what it
/// held before with the entry added, in place of an older one under the same
/// key.
pub open spec fn after_store(entries: Map<u64, Seq<u8>>, key: u64, binary: Seq<u8>) -> Map<
    u64,
    Seq<u8>,
> {
    if entries.len() >= CACHE_CAPACITY {
        Map::<u64, Seq<u8>>::empty().insert(key, binary)
    } else {
        entries.insert(key, binary)
    }
}

/// Compiled modules by the fingerprint of their source.
pub struct CompileCache {
    entries: HashMap<u64, Vec<u8>>,
}

impl View for CompileCache {
    type V = Map<u64, Seq<u8>>;

    closed spec fn view(&self) -> Map<u64, Seq<u8>> {
        self.entries@.map_values(|binary: Vec<u8>| binary@)
    }
}

impl CompileCache {
    /// Whether the cache is within its bound: it holds finitely many
    /// entries, at most `CACHE_CAPACITY`.
    pub open spec fn wf(&self) -> bool {
        self@.dom().finite() && self@.len() <= CACHE_CAPACITY
    }

    /// An empty cache.
    pub fn new() -> (cache: CompileCache)
        ensures
            cache@ == Map::<u64, Seq<u8>>::empty(),
            cache.wf(),
    {
        let cache = CompileCache { entries: HashMap::new() };
        assert(cache@ =~= Map::<u64, Seq<u8>>::empty());
        cache
    }

    /// The number of entries.
    pub fn len(&self) -> (n: usize)
        ensures
            n == self@.len(),
    {
        proof {
            lemma_same_size(self.entries@);
        }
        self.entries.len()
    }

    /// Looks up the module stored under `key`.
    pub fn lookup(&self, key: u64) -> (found: Option<Vec<u8>>)
        ensures
            found is Some == self@.contains_key(key),
            found is Some ==> found->Some_0@ == self@[key],
    {
        match self.entries.get(&key) {
            Some(binary) => {
                let copy = binary.clone();
                assert(copy@ =~= binary@);
                Some(copy)
            },
            None => None,
        }
    }

    /// Stores `binary` under `key`: see [`after_store`].
    pub fn store(&mut self, key: u64, binary: Vec<u8>)
        ensures
            final(self)@ == after_store(old(self)@, key, binary@),
            final(self).wf(),
    {
        proof {
            lemma_same_size(self.entries@);
        }
        if self.entries.len() >= CACHE_CAPACITY {
            self.entries.clear();
        }
        let ghost before = self.entries@;
        proof {
            lemma_same_size(before);
        }
        self.entries.insert(key, binary);
        proof {
            assert(self.entries@.map_values(|binary: Vec<u8>| binary@) =~= before.map_values(
                |binary: Vec<u8>| binary@,
            ).insert(key, binary@));
            assert(before.len() == 0 ==> before.map_values(|binary: Vec<u8>| binary@)
                =~= Map::<u64, Seq<u8>>::empty());
            lemma_store_bound(old(self)@, key, binary@);
        }
    }

    /// Empties the cache.
    pub fn clear(&mut self)
        ensures
            final(self)@ == Map::<u64, Seq<u8>>::empty(),
            final(self).wf(),
    {
        self.entries.clear();
        assert(self@ =~= Map::<u64, Seq<u8>>::empty());
    }
}

proof fn lemma_same_size(entries: Map<u64, Vec<u8>>)
    requires
        entries.dom().finite(),
    ensures
        entries.map_values(|binary: Vec<u8>| binary@).len() == entries.len(),
        entries.map_values(|binary: Vec<u8>| binary@).dom().finite(),
{
    assert(entries.map_values(|binary: Vec<u8>| binary@).dom() =~= entries.dom());
}

/// A store leaves at most `CACHE_CAPACITY` entries, and into a full cache
/// it leaves exactly one.
pub proof fn lemma_store_bound(entries: Map<u64, Seq<u8>>, key: u64, binary: Seq<u8>)
    requires
        entries.dom().finite(),
    ensures
        after_store(entries, key, binary).dom().finite(),
        after_store(entries, key, binary).len() <= CACHE_CAPACITY,
        entries.len() >= CACHE_CAPACITY ==> after_store(entries, key, binary).len() == 1,
        after_store(entries, key, binary).contains_key(key),
        after_store(entries, key, binary)[key] == binary,
{
    let single = Map::<u64, Seq<u8>>::empty().insert(key, binary);
    assert(single.dom() =~= set![key]);
    if entries.len() < CACHE_CAPACITY {
        if entries.contains_key(key) {
            assert(entries.insert(key, binary).dom() =~= entries.dom());
        } else {
            assert(entries.insert(key, binary).dom() =~= entries.dom().insert(key));
        }
    }
}

/// What an empty cache holds after the first `n` of `binaries` are stored
/// under the first `n` of `keys`, one after the other.
pub open spec fn after_stores(keys: Seq<u64>, binaries: Seq<Seq<u8>>, n: int) -> Map<u64, Seq<u8>>
    decreases n,
{
    if n <= 0 {
        Map::<u64, Seq<u8>>::empty()
    } else {
        after_store(after_stores(keys, binaries, n - 1), keys[n - 1], binaries[n - 1])
    }
}

/// Whether no two of `keys` are the same.
pub open spec fn distinct(keys: Seq<u64>) -> bool {
    forall|i: int, j: int| 0 <= i < j < keys.len() ==> keys[i] != keys[j]
}

/// Stores under distinct keys fill an empty cache one entry at a time, up
/// to its capacity.
pub proof fn lemma_distinct_stores_fill(keys: Seq<u64>, binaries: Seq<Seq<u8>>, n: int)
    requires
        distinct(keys),
        0 <= n <= keys.len(),
        n <= CACHE_CAPACITY,
    ensures
        after_stores(keys, binaries, n).dom().finite(),
        after_stores(keys, binaries, n).len() == n,
        forall|key: u64|
            after_stores(keys, binaries, n).contains_key(key) <==> exists|i: int|
                0 <= i < n && keys[i] == key,
    decreases n,
{
    if n > 0 {
        lemma_distinct_stores_fill(keys, binaries, n - 1);
        let before = after_stores(keys, binaries, n - 1);
        let after = after_stores(keys, binaries, n);
        assert(!before.contains_key(keys[n - 1]));
        assert(after == before.insert(keys[n - 1], binaries[n - 1]));
        assert(after.dom() =~= before.dom().insert(keys[n - 1]));
        assert forall|key: u64| after.contains_key(key) implies exists|i: int|
            0 <= i < n && keys[i] == key by {
            if key == keys[n - 1] {
                assert(keys[n - 1] == key);
            } else {
                let i = choose|i: int| 0 <= i < n - 1 && keys[i] == key;
                assert(0 <= i < n && keys[i] == key);
            }
        }
    }
}

/// After one store more than the cache has room for, all under distinct
/// keys, the cache that was empty holds exactly one entry: the last.
pub proof fn lemma_store_beyond_capacity(keys: Seq<u64>, binaries: Seq<Seq<u8>>)
    requires
        distinct(keys),
        keys.len() == CACHE_CAPACITY + 1,
    ensures
        after_stores(keys, binaries, CACHE_CAPACITY + 1).len() == 1,
        after_stores(keys, binaries, CACHE_CAPACITY + 1).contains_key(keys[CACHE_CAPACITY as int]),
        after_stores(keys, binaries, CACHE_CAPACITY + 1)[keys[CACHE_CAPACITY as int]]
            == binaries[CACHE_CAPACITY as int],
{
    lemma_distinct_stores_fill(keys, binaries, CACHE_CAPACITY as int);
    let full = after_stores(keys, binaries, CACHE_CAPACITY as int);
    lemma_store_bound(full, keys[CACHE_CAPACITY as int], binaries[CACHE_CAPACITY as int]);
    assert(after_stores(keys, binaries, CACHE_CAPACITY + 1) == after_store(
        full,
        keys[CACHE_CAPACITY as int],
        binaries[CACHE_CAPACITY as int],
    ));
}

} // verus!
