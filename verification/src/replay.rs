//! Replay protection for decrypted envelopes: a bounded cache, keyed by
//! source file and sender, of the last envelope accepted from each.

use crate::encoding::{hex_encode, sha256, spec_hex_encode, spec_sha256};
use crate::format::{decimal, spec_decimal};
use crate::text::{concat, str_eq};
use vstd::prelude::*;

verus! {

/// The format version of the cache file.
pub const REPLAY_CACHE_VERSION: u32 = 1;

/// The most entries the cache keeps.
pub const REPLAY_CACHE_MAX_ENTRIES: usize = 10000;

/// What the cache remembers of the last envelope accepted for a key.
#[derive(Debug)]
pub struct ReplayEntry {
    pub created_at: u64,
    pub envelope_digest: String,
    pub seen_at: u64,
}

/// A cache entry as plain values.
pub ghost struct ReplayEntryView {
    pub created_at: u64,
    pub digest: Seq<char>,
    pub seen_at: u64,
}

impl View for ReplayEntry {
    type V = ReplayEntryView;

    open spec fn view(&self) -> ReplayEntryView {
        ReplayEntryView {
            created_at: self.created_at,
            digest: self.envelope_digest@,
            seen_at: self.seen_at,
        }
    }
}

// ----------------------------------------------------------------------
// Entries as a map
// ----------------------------------------------------------------------

/// No key occurs twice.
pub open spec fn distinct_keys(e: Seq<(String, ReplayEntry)>) -> bool {
    forall|i: int, j: int|
        0 <= i < e.len() && 0 <= j < e.len() && i != j ==> #[trigger] e[i].0@ != #[trigger] e[j].0@
}

/// The keys, in order.
pub open spec fn keys_of(e: Seq<(String, ReplayEntry)>) -> Seq<Seq<char>> {
    Seq::new(e.len(), |i: int| e[i].0@)
}

/// Whether some entry has this key.
pub open spec fn has_key(e: Seq<(String, ReplayEntry)>, k: Seq<char>) -> bool {
    exists|i: int| 0 <= i < e.len() && #[trigger] e[i].0@ == k
}

/// An index of an entry with this key.
pub open spec fn key_index(e: Seq<(String, ReplayEntry)>, k: Seq<char>) -> int {
    choose|i: int| 0 <= i < e.len() && #[trigger] e[i].0@ == k
}

/// The entries as a map from key to entry.
pub open spec fn map_of(e: Seq<(String, ReplayEntry)>) -> Map<Seq<char>, ReplayEntryView> {
    Map::new(|k: Seq<char>| has_key(e, k), |k: Seq<char>| e[key_index(e, k)].1@)
}

proof fn lemma_map_of_at(e: Seq<(String, ReplayEntry)>, i: int)
    requires
        distinct_keys(e),
        0 <= i < e.len(),
    ensures
        map_of(e).contains_key(e[i].0@),
        map_of(e)[e[i].0@] == e[i].1@,
{
    assert(has_key(e, e[i].0@));
    let j = key_index(e, e[i].0@);
    assert(e[j].0@ == e[i].0@);
}

proof fn lemma_map_of_len(e: Seq<(String, ReplayEntry)>)
    requires
        distinct_keys(e),
    ensures
        map_of(e).len() == e.len(),
        map_of(e).dom().finite(),
{
    let ks = keys_of(e);
    assert forall|i: int, j: int| 0 <= i < ks.len() && 0 <= j < ks.len() && i != j implies ks[i]
        != ks[j] by {
        assert(ks[i] == e[i].0@);
        assert(ks[j] == e[j].0@);
    }
    assert(ks.no_duplicates());
    ks.unique_seq_to_set();
    assert forall|k: Seq<char>| map_of(e).dom().contains(k) <==> ks.to_set().contains(k) by {
        if map_of(e).dom().contains(k) {
            let i = key_index(e, k);
            assert(ks[i] == k);
        }
        if ks.to_set().contains(k) {
            let i = choose|i: int| 0 <= i < ks.len() && ks[i] == k;
            assert(e[i].0@ == k);
        }
    }
    assert(map_of(e).dom() =~= ks.to_set());
}

proof fn lemma_map_of_empty(e: Seq<(String, ReplayEntry)>)
    requires
        e.len() == 0,
    ensures
        map_of(e) == Map::<Seq<char>, ReplayEntryView>::empty(),
{
    assert(map_of(e) =~= Map::<Seq<char>, ReplayEntryView>::empty());
}

proof fn lemma_map_of_push(e: Seq<(String, ReplayEntry)>, entry: (String, ReplayEntry))
    requires
        distinct_keys(e),
        !map_of(e).contains_key(entry.0@),
    ensures
        distinct_keys(e.push(entry)),
        map_of(e.push(entry)) == map_of(e).insert(entry.0@, entry.1@),
{
    let e2 = e.push(entry);
    assert forall|i: int, j: int|
        0 <= i < e2.len() && 0 <= j < e2.len() && i != j implies #[trigger] e2[i].0@
        != #[trigger] e2[j].0@ by {
        if i == e.len() {
            assert(!has_key(e, entry.0@));
            assert(e[j].0@ == e2[j].0@);
        } else if j == e.len() {
            assert(!has_key(e, entry.0@));
            assert(e[i].0@ == e2[i].0@);
        } else {
            assert(e[i] == e2[i]);
            assert(e[j] == e2[j]);
        }
    }
    let m = map_of(e).insert(entry.0@, entry.1@);
    assert forall|k: Seq<char>| #[trigger] map_of(e2).dom().contains(k) <==> m.dom().contains(k) by {
        if map_of(e2).dom().contains(k) {
            let i = key_index(e2, k);
            if i < e.len() {
                assert(e[i] == e2[i]);
                assert(has_key(e, k));
            }
        }
        if m.dom().contains(k) && k != entry.0@ {
            let i = key_index(e, k);
            assert(e2[i] == e[i]);
            assert(has_key(e2, k));
        }
        if k == entry.0@ {
            assert(e2[e.len() as int].0@ == k);
        }
    }
    assert forall|k: Seq<char>| #[trigger] map_of(e2).dom().contains(k) implies map_of(e2)[k]
        == m[k] by {
        let i = key_index(e2, k);
        lemma_map_of_at(e2, i);
        if i < e.len() {
            assert(e[i] == e2[i]);
            lemma_map_of_at(e, i);
        }
    }
    assert(map_of(e2) =~= m);
}

proof fn lemma_map_of_update(e: Seq<(String, ReplayEntry)>, i: int, entry: (String, ReplayEntry))
    requires
        distinct_keys(e),
        0 <= i < e.len(),
        e[i].0@ == entry.0@,
    ensures
        distinct_keys(e.update(i, entry)),
        map_of(e.update(i, entry)) == map_of(e).insert(entry.0@, entry.1@),
{
    let e2 = e.update(i, entry);
    assert forall|a: int, b: int|
        0 <= a < e2.len() && 0 <= b < e2.len() && a != b implies #[trigger] e2[a].0@
        != #[trigger] e2[b].0@ by {
        assert(e2[a].0@ == e[a].0@);
        assert(e2[b].0@ == e[b].0@);
    }
    let m = map_of(e).insert(entry.0@, entry.1@);
    assert forall|k: Seq<char>| #[trigger] map_of(e2).dom().contains(k) <==> m.dom().contains(k) by {
        if map_of(e2).dom().contains(k) {
            let j = key_index(e2, k);
            assert(e2[j].0@ == e[j].0@);
            assert(has_key(e, k));
        }
        if m.dom().contains(k) {
            if k == entry.0@ {
                assert(e2[i].0@ == k);
            } else {
                let j = key_index(e, k);
                assert(e2[j].0@ == e[j].0@);
                assert(has_key(e2, k));
            }
        }
    }
    assert forall|k: Seq<char>| #[trigger] map_of(e2).dom().contains(k) implies map_of(e2)[k]
        == m[k] by {
        let j = key_index(e2, k);
        lemma_map_of_at(e2, j);
        if j != i {
            assert(e2[j] == e[j]);
            lemma_map_of_at(e, j);
        }
    }
    assert(map_of(e2) =~= m);
}

proof fn lemma_map_of_remove(e: Seq<(String, ReplayEntry)>, i: int)
    requires
        distinct_keys(e),
        0 <= i < e.len(),
    ensures
        distinct_keys(e.remove(i)),
        map_of(e.remove(i)) == map_of(e).remove(e[i].0@),
{
    let e2 = e.remove(i);
    assert forall|a: int| 0 <= a < e2.len() implies #[trigger] e2[a] == e[if a < i {
        a
    } else {
        a + 1
    }] by {}
    assert forall|a: int, b: int|
        0 <= a < e2.len() && 0 <= b < e2.len() && a != b implies #[trigger] e2[a].0@
        != #[trigger] e2[b].0@ by {
        let a1 = if a < i {
            a
        } else {
            a + 1
        };
        let b1 = if b < i {
            b
        } else {
            b + 1
        };
        assert(e2[a] == e[a1]);
        assert(e2[b] == e[b1]);
    }
    let m = map_of(e).remove(e[i].0@);
    assert forall|k: Seq<char>| #[trigger] map_of(e2).dom().contains(k) <==> m.dom().contains(k) by {
        if map_of(e2).dom().contains(k) {
            let a = key_index(e2, k);
            let a1 = if a < i {
                a
            } else {
                a + 1
            };
            assert(e2[a] == e[a1]);
            assert(has_key(e, k));
            assert(a1 != i);
        }
        if m.dom().contains(k) {
            let a1 = key_index(e, k);
            assert(a1 != i);
            let a = if a1 < i {
                a1
            } else {
                a1 - 1
            };
            assert(e2[a] == e[a1]);
            assert(has_key(e2, k));
        }
    }
    assert forall|k: Seq<char>| #[trigger] map_of(e2).dom().contains(k) implies map_of(e2)[k]
        == m[k] by {
        let a = key_index(e2, k);
        let a1 = if a < i {
            a
        } else {
            a + 1
        };
        assert(e2[a] == e[a1]);
        lemma_map_of_at(e2, a);
        lemma_map_of_at(e, a1);
    }
    assert(map_of(e2) =~= m);
}

// ----------------------------------------------------------------------
// The cache
// ----------------------------------------------------------------------

/// The replay cache: a format version and, per key, the last envelope
/// accepted.
#[derive(Debug)]
pub struct ReplayCache {
    version: u32,
    entries: Vec<(String, ReplayEntry)>,
}

impl View for ReplayCache {
    type V = Map<Seq<char>, ReplayEntryView>;

    closed spec fn view(&self) -> Map<Seq<char>, ReplayEntryView> {
        map_of(self.entries@)
    }
}

impl ReplayCache {
    #[verifier::type_invariant]
    spec fn keys_unique(self) -> bool {
        distinct_keys(self.entries@)
    }

    /// The cache's format version.
    pub closed spec fn spec_version(&self) -> u32 {
        self.version
    }

    /// An empty cache of the current version.
    pub fn new() -> (cache: Self)
        ensures
            cache.spec_version() == REPLAY_CACHE_VERSION,
            cache@ == Map::<Seq<char>, ReplayEntryView>::empty(),
    {
        let cache = ReplayCache { version: REPLAY_CACHE_VERSION, entries: Vec::new() };
        proof {
            lemma_map_of_empty(cache.entries@);
        }
        cache
    }

    /// The cache's format version.
    pub fn version(&self) -> (v: u32)
        ensures
            v == self.spec_version(),
    {
        self.version
    }

    /// The number of entries.
    pub fn len(&self) -> (n: usize)
        ensures
            n == self@.len(),
            self@.dom().finite(),
    {
        proof {
            use_type_invariant(self);
            lemma_map_of_len(self.entries@);
        }
        self.entries.len()
    }

    /// The position of the entry with this key, if any.
    fn find(&self, key: &String) -> (r: Option<usize>)
        ensures
            match r {
                Some(i) => i < self.entries@.len() && self.entries@[i as int].0@ == key@,
                None => !has_key(self.entries@, key@),
            },
    {
        let mut i: usize = 0;
        while i < self.entries.len()
            invariant
                i <= self.entries@.len(),
                forall|j: int| 0 <= j < i ==> #[trigger] self.entries@[j].0@ != key@,
            decreases self.entries@.len() - i,
        {
            if self.entries[i].0 == *key {
                return Some(i);
            }
            i = i + 1;
        }
        None
    }

    /// The entry for a key.
    pub fn get(&self, key: &str) -> (r: Option<&ReplayEntry>)
        ensures
            match r {
                Some(entry) => self@.contains_key(key@) && self@[key@] == entry@,
                None => !self@.contains_key(key@),
            },
    {
        proof {
            use_type_invariant(self);
        }
        let key = key.to_owned();
        match self.find(&key) {
            Some(i) => {
                proof {
                    lemma_map_of_at(self.entries@, i as int);
                }
                Some(&self.entries[i].1)
            },
            None => None,
        }
    }

    /// Set the entry for a key, replacing any entry it had.
    pub fn insert(&mut self, key: String, entry: ReplayEntry)
        ensures
            final(self)@ == old(self)@.insert(key@, entry@),
            final(self).spec_version() == old(self).spec_version(),
    {
        proof {
            use_type_invariant(&*self);
        }
        let found = self.find(&key);
        let mut entries: Vec<(String, ReplayEntry)> = Vec::new();
        std::mem::swap(&mut entries, &mut self.entries);
        let ghost before = entries@;
        let ghost item = (key, entry);
        match found {
            Some(i) => {
                proof {
                    lemma_map_of_update(before, i as int, item);
                }
                entries.set(i, (key, entry));
            },
            None => {
                proof {
                    lemma_map_of_push(before, item);
                }
                entries.push((key, entry));
            },
        }
        self.entries = entries;
    }

    /// Drop the entry for a key.
    pub fn remove(&mut self, key: &str)
        ensures
            final(self)@ == old(self)@.remove(key@),
            final(self).spec_version() == old(self).spec_version(),
    {
        proof {
            use_type_invariant(&*self);
        }
        let key = key.to_owned();
        match self.find(&key) {
            Some(i) => {
                let mut entries: Vec<(String, ReplayEntry)> = Vec::new();
                std::mem::swap(&mut entries, &mut self.entries);
                proof {
                    lemma_map_of_remove(entries@, i as int);
                }
                entries.remove(i);
                self.entries = entries;
            },
            None => {
                assert(self@ =~= old(self)@.remove(key@));
            },
        }
    }

    /// The entries, each key once, in no particular order.
    pub fn entries(&self) -> (r: &[(String, ReplayEntry)])
        ensures
            r@.len() == self@.len(),
            forall|i: int| 0 <= i < r@.len() ==> self@.contains_key(#[trigger] r@[i].0@) && self@[r@[i].0@] == r@[i].1@,
            forall|i: int, j: int|
                0 <= i < r@.len() && 0 <= j < r@.len() && i != j ==> #[trigger] r@[i].0@ != #[trigger] r@[j].0@,
    {
        proof {
            use_type_invariant(self);
            lemma_map_of_len(self.entries@);
            assert forall|i: int| 0 <= i < self.entries@.len() implies self@.contains_key(
                #[trigger] self.entries@[i].0@,
            ) && self@[self.entries@[i].0@] == self.entries@[i].1@ by {
                lemma_map_of_at(self.entries@, i);
            }
        }
        self.entries.as_slice()
    }

    /// The cache read from the vault: one of another version is discarded
    /// for an empty current one; otherwise the entries are taken in order,
    /// a later one for a key replacing an earlier.
    pub fn from_loaded(version: u32, entries: Vec<(String, ReplayEntry)>) -> (cache: Self)
        ensures
            version != REPLAY_CACHE_VERSION ==> cache.spec_version() == REPLAY_CACHE_VERSION
                && cache@ == Map::<Seq<char>, ReplayEntryView>::empty(),
            version == REPLAY_CACHE_VERSION ==> cache.spec_version() == version && cache@
                == spec_loaded_map(loaded_view(entries@)),
    {
        let mut cache = ReplayCache::new();
        if version != REPLAY_CACHE_VERSION {
            return cache;
        }
        let mut entries = entries;
        let ghost all = entries@;
        // Reverse the entries, so that popping takes them front to back.
        let mut rest: Vec<(String, ReplayEntry)> = Vec::new();
        while entries.len() > 0
            invariant
                all =~= entries@ + rest@.reverse(),
            decreases entries@.len(),
        {
            let ghost e0 = entries@;
            let ghost r0 = rest@;
            let item = entries.pop().unwrap();
            rest.push(item);
            assert(rest@.reverse() =~= seq![item] + r0.reverse());
            assert(e0 =~= entries@ + seq![item]);
        }
        assert(all =~= rest@.reverse());
        assert(all.skip(0) =~= all);
        assert(all.take(0) =~= Seq::<(String, ReplayEntry)>::empty());
        assert(loaded_view(all.take(0)) =~= Seq::<(Seq<char>, ReplayEntryView)>::empty());
        while rest.len() > 0
            invariant
                rest@.len() <= all.len(),
                rest@.reverse() =~= all.skip(all.len() - rest@.len()),
                cache.spec_version() == REPLAY_CACHE_VERSION,
                cache@ == spec_loaded_map(loaded_view(all.take(all.len() - rest@.len()))),
            decreases rest@.len(),
        {
            let ghost d = all.len() - rest@.len();
            let ghost r0 = rest@;
            let item = rest.pop().unwrap();
            proof {
                assert(r0.reverse()[0] == r0.last());
                assert(item == all[d]);
                assert(rest@ =~= r0.drop_last());
                assert forall|i: int| 0 <= i < rest@.len() implies #[trigger] rest@.reverse()[i]
                    == all.skip(d + 1)[i] by {
                    assert(rest@.reverse()[i] == r0[r0.len() - 2 - i]);
                    assert(r0.reverse()[i + 1] == r0[r0.len() - 2 - i]);
                    assert(all.skip(d)[i + 1] == all.skip(d + 1)[i]);
                }
                assert(rest@.reverse() =~= all.skip(d + 1));
                let next = all.take(d + 1);
                assert(next.drop_last() =~= all.take(d));
                assert(loaded_view(next).drop_last() =~= loaded_view(all.take(d)));
                assert(loaded_view(next).last() == (item.0@, item.1@));
            }
            let (key, entry) = item;
            cache.insert(key, entry);
        }
        assert(all.take(all.len() as int) =~= all);
        cache
    }
}

/// Entries as plain values.
pub open spec fn loaded_view(e: Seq<(String, ReplayEntry)>) -> Seq<(Seq<char>, ReplayEntryView)> {
    Seq::new(e.len(), |i: int| (e[i].0@, e[i].1@))
}

/// The map of entries taken in order, later ones replacing earlier ones.
pub open spec fn spec_loaded_map(e: Seq<(Seq<char>, ReplayEntryView)>) -> Map<Seq<char>, ReplayEntryView>
    decreases e.len(),
{
    if e.len() == 0 {
        Map::empty()
    } else {
        spec_loaded_map(e.drop_last()).insert(e.last().0, e.last().1)
    }
}


impl Default for ReplayCache {
    /// An empty cache of the current version.
    fn default() -> (cache: Self)
        ensures
            cache.spec_version() == REPLAY_CACHE_VERSION,
            cache@ == Map::<Seq<char>, ReplayEntryView>::empty(),
    {
        ReplayCache::new()
    }
}

/// The version a cache file without one is read as.
pub fn replay_cache_version() -> (v: u32)
    ensures
        v == REPLAY_CACHE_VERSION,
{
    REPLAY_CACHE_VERSION
}

// ----------------------------------------------------------------------
// Eviction
// ----------------------------------------------------------------------

/// `after` is `before` with its least recently seen entries evicted, down
/// to the limit: it keeps `min(len, limit)` entries of `before`, unchanged,
/// and no evicted entry was seen later than a kept one.
pub open spec fn spec_trimmed(
    before: Map<Seq<char>, ReplayEntryView>,
    after: Map<Seq<char>, ReplayEntryView>,
) -> bool {
    &&& after.submap_of(before)
    &&& after.len() == (if before.len() <= REPLAY_CACHE_MAX_ENTRIES {
        before.len()
    } else {
        REPLAY_CACHE_MAX_ENTRIES as nat
    })
    &&& forall|gone: Seq<char>, kept: Seq<char>|
        before.contains_key(gone) && !after.contains_key(gone) && after.contains_key(kept)
            ==> #[trigger] before[gone].seen_at <= #[trigger] after[kept].seen_at
}

/// The position of an entry seen no later than any other.
fn least_recent(entries: &Vec<(String, ReplayEntry)>) -> (best: usize)
    requires
        entries@.len() > 0,
    ensures
        best < entries@.len(),
        forall|j: int| 0 <= j < entries@.len() ==> entries@[best as int].1.seen_at <= #[trigger] entries@[j].1.seen_at,
{
    let mut best: usize = 0;
    let mut i: usize = 1;
    while i < entries.len()
        invariant
            best < i <= entries@.len(),
            forall|j: int| 0 <= j < i ==> entries@[best as int].1.seen_at <= #[trigger] entries@[j].1.seen_at,
        decreases entries@.len() - i,
    {
        if entries[i].1.seen_at < entries[best].1.seen_at {
            best = i;
        }
        i = i + 1;
    }
    best
}

impl ReplayCache {
    /// Evict the least recently seen entries until at most
    /// `REPLAY_CACHE_MAX_ENTRIES` remain.
    pub fn trim(&mut self)
        ensures
            spec_trimmed(old(self)@, final(self)@),
            old(self)@.len() <= REPLAY_CACHE_MAX_ENTRIES ==> final(self)@ == old(self)@,
            final(self).spec_version() == old(self).spec_version(),
    {
        proof {
            use_type_invariant(&*self);
        }
        let n = self.len();
        if n <= REPLAY_CACHE_MAX_ENTRIES {
            return;
        }
        let mut entries: Vec<(String, ReplayEntry)> = Vec::new();
        std::mem::swap(&mut entries, &mut self.entries);
        let ghost orig = map_of(entries@);
        let ghost mut floor: u64 = 0;
        proof {
            lemma_map_of_len(entries@);
        }
        while entries.len() > REPLAY_CACHE_MAX_ENTRIES
            invariant
                distinct_keys(entries@),
                entries@.len() >= REPLAY_CACHE_MAX_ENTRIES,
                map_of(entries@).submap_of(orig),
                forall|gone: Seq<char>|
                    orig.contains_key(gone) && !map_of(entries@).contains_key(gone)
                        ==> #[trigger] orig[gone].seen_at <= floor,
                forall|j: int| 0 <= j < entries@.len() ==> floor <= #[trigger] entries@[j].1.seen_at,
            decreases entries@.len(),
        {
            let best = least_recent(&entries);
            let ghost e0 = entries@;
            proof {
                lemma_map_of_remove(e0, best as int);
                lemma_map_of_at(e0, best as int);
                floor = e0[best as int].1.seen_at;
            }
            entries.remove(best);
            proof {
                let m0 = map_of(e0);
                let m1 = map_of(entries@);
                assert forall|gone: Seq<char>|
                    orig.contains_key(gone) && !m1.contains_key(gone) implies #[trigger] orig[gone].seen_at
                    <= floor by {
                    if gone == e0[best as int].0@ {
                        assert(orig[gone] == m0[gone]);
                    }
                }
                assert forall|j: int| 0 <= j < entries@.len() implies floor <= #[trigger] entries@[j].1.seen_at by {
                    let j0 = if j < best {
                        j
                    } else {
                        j + 1
                    };
                    assert(entries@[j] == e0[j0]);
                }
            }
        }
        proof {
            lemma_map_of_len(entries@);
            let m = map_of(entries@);
            assert forall|gone: Seq<char>, kept: Seq<char>|
                orig.contains_key(gone) && !m.contains_key(gone) && m.contains_key(kept)
                    implies #[trigger] orig[gone].seen_at <= #[trigger] m[kept].seen_at by {
                let i = key_index(entries@, kept);
                lemma_map_of_at(entries@, i);
            }
        }
        self.entries = entries;
    }
}

// ----------------------------------------------------------------------
// The replay check
// ----------------------------------------------------------------------

/// The cache key of an envelope: the canonical source path and the
/// sender, joined by `|`.
pub open spec fn spec_replay_cache_key(source: Seq<char>, sender: Seq<char>) -> Seq<char> {
    source + "|"@ + sender
}

/// The cache key of an envelope read from `source` (its canonical path)
/// and sent by `sender`.
pub fn replay_cache_key(source: &str, sender: &str) -> (key: String)
    ensures
        key@ == spec_replay_cache_key(source@, sender@),
{
    let mut key = concat(source, "|");
    key.append(sender);
    key
}

/// The SHA-256 digest, in hex, of the bytes that are hashed in order.
pub open spec fn spec_replay_digest(prelude: Seq<u8>, signature: Seq<u8>, ciphertext: Seq<u8>) -> Seq<char> {
    spec_hex_encode(spec_sha256(prelude + signature + ciphertext))
}

/// The digest identifying an envelope: SHA-256 over its prelude, its
/// signature and its ciphertext, in that order, as lowercase hex.
pub fn replay_digest(prelude: &[u8], signature: &[u8], ciphertext: &[u8]) -> (digest: String)
    ensures
        digest@ == spec_replay_digest(prelude@, signature@, ciphertext@),
{
    let mut bytes: Vec<u8> = Vec::new();
    bytes.extend_from_slice(prelude);
    bytes.extend_from_slice(signature);
    bytes.extend_from_slice(ciphertext);
    assert(bytes@ =~= prelude@ + signature@ + ciphertext@);
    let hash = sha256(bytes.as_slice());
    hex_encode(&hash)
}

/// What the cache says of an envelope.
#[derive(Debug, Clone, Copy, PartialEq, Eq, Structural)]
pub enum ReplayCheck {
    /// The same envelope was accepted before.
    AlreadySeen,
    /// Another envelope, created later (at `previous`), was accepted before.
    Replayed { previous: u64 },
    /// Nothing newer was accepted: the envelope is to be recorded.
    Fresh,
}

/// The cache's verdict on an envelope with this digest and creation time.
pub open spec fn spec_replay_check(
    cache: Map<Seq<char>, ReplayEntryView>,
    key: Seq<char>,
    digest: Seq<char>,
    created_at: u64,
) -> ReplayCheck {
    if cache.contains_key(key) {
        if cache[key].digest == digest {
            ReplayCheck::AlreadySeen
        } else if created_at < cache[key].created_at {
            ReplayCheck::Replayed { previous: cache[key].created_at }
        } else {
            ReplayCheck::Fresh
        }
    } else {
        ReplayCheck::Fresh
    }
}

/// Look an envelope up in the cache.
pub fn check_replay(cache: &ReplayCache, key: &str, digest: &str, created_at: u64) -> (c: ReplayCheck)
    ensures
        c == spec_replay_check(cache@, key@, digest@, created_at),
{
    match cache.get(key) {
        Some(previous) => {
            if str_eq(previous.envelope_digest.as_str(), digest) {
                ReplayCheck::AlreadySeen
            } else if created_at < previous.created_at {
                ReplayCheck::Replayed { previous: previous.created_at }
            } else {
                ReplayCheck::Fresh
            }
        },
        None => ReplayCheck::Fresh,
    }
}

/// The error for a replayed envelope.
pub open spec fn replay_message(source: Seq<char>, sender: Seq<char>, created_at: u64, previous: u64) -> Seq<char> {
    "replay detected for "@ + source + " from "@ + sender + " (created_at "@ + spec_decimal(
        created_at as nat,
    ) + " < "@ + spec_decimal(previous as nat) + ")"@
}

/// The entry recorded for an accepted envelope.
pub open spec fn new_entry(created_at: u64, digest: Seq<char>, now: u64) -> ReplayEntryView {
    ReplayEntryView { created_at, digest, seen_at: now }
}

/// Check an envelope against the cache and record it when accepted.
///
/// `source` is the path the envelope was read from, as the user gave it,
/// and `canonical_source` the same path made canonical; `now` is the time
/// in seconds since the epoch. `Ok(true)` means the cache changed and is
/// to be saved; `Ok(false)` that the same envelope was accepted before.
pub fn enforce_replay_protection(
    cache: &mut ReplayCache,
    source: &str,
    canonical_source: &str,
    sender: &str,
    digest: &str,
    created_at: u64,
    now: u64,
) -> (r: Result<bool, String>)
    ensures
        final(cache).spec_version() == old(cache).spec_version(),
        match spec_replay_check(
            old(cache)@,
            spec_replay_cache_key(canonical_source@, sender@),
            digest@,
            created_at,
        ) {
            ReplayCheck::AlreadySeen => r == Ok::<bool, String>(false) && final(cache)@ == old(cache)@,
            ReplayCheck::Replayed { previous } => r matches Err(e) && e@ == replay_message(
                source@,
                sender@,
                created_at,
                previous,
            ) && final(cache)@ == old(cache)@,
            ReplayCheck::Fresh => r == Ok::<bool, String>(true) && spec_trimmed(
                old(cache)@.insert(
                    spec_replay_cache_key(canonical_source@, sender@),
                    new_entry(created_at, digest@, now),
                ),
                final(cache)@,
            ),
        },
{
    let key = replay_cache_key(canonical_source, sender);
    match check_replay(cache, key.as_str(), digest, created_at) {
        ReplayCheck::AlreadySeen => Ok(false),
        ReplayCheck::Replayed { previous } => {
            let mut e = concat("replay detected for ", source);
            e.append(" from ");
            e.append(sender);
            e.append(" (created_at ");
            e.append(decimal(created_at as u128).as_str());
            e.append(" < ");
            e.append(decimal(previous as u128).as_str());
            e.append(")");
            Err(e)
        },
        ReplayCheck::Fresh => {
            let entry = ReplayEntry { created_at, envelope_digest: digest.to_owned(), seen_at: now };
            cache.insert(key, entry);
            cache.trim();
            Ok(true)
        },
    }
}

// ----------------------------------------------------------------------
// Laws
// ----------------------------------------------------------------------

/// Once an envelope has been recorded for a source and sender, the same
/// envelope presented again is recognised as already seen, whatever
/// creation time it claims, as long as its entry was not evicted.
pub proof fn law_recorded_envelope_is_seen_again(
    before: Map<Seq<char>, ReplayEntryView>,
    after: Map<Seq<char>, ReplayEntryView>,
    key: Seq<char>,
    digest: Seq<char>,
    created_at: u64,
    now: u64,
    claimed_created_at: u64,
)
    requires
        spec_replay_check(before, key, digest, created_at) == ReplayCheck::Fresh,
        spec_trimmed(before.insert(key, new_entry(created_at, digest, now)), after),
        after.contains_key(key),
    ensures
        spec_replay_check(after, key, digest, claimed_created_at) == ReplayCheck::AlreadySeen,
{
    let inserted = before.insert(key, new_entry(created_at, digest, now));
    assert(after.dom().contains(key) && inserted.dom().contains(key));
    assert(after[key] == inserted[key]);
}

/// Once an envelope has been recorded for a source and sender, a different
/// envelope created earlier is refused as a replay, citing the recorded
/// creation time, as long as the entry was not evicted.
pub proof fn law_older_envelope_is_refused(
    before: Map<Seq<char>, ReplayEntryView>,
    after: Map<Seq<char>, ReplayEntryView>,
    key: Seq<char>,
    digest: Seq<char>,
    created_at: u64,
    now: u64,
    other_digest: Seq<char>,
    other_created_at: u64,
)
    requires
        spec_replay_check(before, key, digest, created_at) == ReplayCheck::Fresh,
        spec_trimmed(before.insert(key, new_entry(created_at, digest, now)), after),
        after.contains_key(key),
        other_digest != digest,
        other_created_at < created_at,
    ensures
        spec_replay_check(after, key, other_digest, other_created_at) == (ReplayCheck::Replayed {
            previous: created_at,
        }),
{
    let inserted = before.insert(key, new_entry(created_at, digest, now));
    assert(after.dom().contains(key) && inserted.dom().contains(key));
    assert(after[key] == inserted[key]);
}

/// While the cache has room, or already holds an entry for the key, an
/// accepted envelope's entry is kept: the cache after recording holds
/// exactly the new entry for its key beside what it held before.
pub proof fn law_recorded_entry_is_kept_while_room(
    before: Map<Seq<char>, ReplayEntryView>,
    after: Map<Seq<char>, ReplayEntryView>,
    key: Seq<char>,
    entry: ReplayEntryView,
)
    requires
        before.dom().finite(),
        before.len() < REPLAY_CACHE_MAX_ENTRIES || (before.len() <= REPLAY_CACHE_MAX_ENTRIES
            && before.contains_key(key)),
        spec_trimmed(before.insert(key, entry), after),
    ensures
        after == before.insert(key, entry),
{
    let inserted = before.insert(key, entry);
    assert(inserted.dom() =~= before.dom().insert(key));
    assert(inserted.dom().finite());
    if before.contains_key(key) {
        assert(inserted.dom() =~= before.dom());
    }
    assert(inserted.len() <= REPLAY_CACHE_MAX_ENTRIES);
    vstd::set_lib::lemma_len_subset(after.dom(), inserted.dom());
    assert(after.dom().subset_of(inserted.dom()));
    vstd::set_lib::lemma_set_subset_finite(inserted.dom(), after.dom());
    vstd::set_lib::lemma_subset_equality(after.dom(), inserted.dom());
    assert(after =~= inserted);
}

/// An accepted envelope's entry is in the cache after recording whenever
/// the cache had room, already held an entry for the key, or was seen
/// last before this envelope (the entries evicted from a full cache are
/// the least recently seen).
pub proof fn law_recorded_entry_is_kept(
    before: Map<Seq<char>, ReplayEntryView>,
    after: Map<Seq<char>, ReplayEntryView>,
    key: Seq<char>,
    entry: ReplayEntryView,
)
    requires
        before.dom().finite(),
        before.len() <= REPLAY_CACHE_MAX_ENTRIES,
        spec_trimmed(before.insert(key, entry), after),
        before.len() < REPLAY_CACHE_MAX_ENTRIES || before.contains_key(key) || forall|k: Seq<char>|
            before.contains_key(k) ==> #[trigger] before[k].seen_at < entry.seen_at,
    ensures
        after.contains_key(key),
        after[key] == entry,
        after.len() <= REPLAY_CACHE_MAX_ENTRIES,
{
    let inserted = before.insert(key, entry);
    if before.len() < REPLAY_CACHE_MAX_ENTRIES || before.contains_key(key) {
        law_recorded_entry_is_kept_while_room(before, after, key, entry);
    } else {
        assert(inserted.dom() =~= before.dom().insert(key));
        assert(inserted.len() == before.len() + 1);
        assert(after.len() == REPLAY_CACHE_MAX_ENTRIES);
        if !after.contains_key(key) {
            assert(after.dom().len() > 0);
            let kept = after.dom().choose();
            assert(after.contains_key(kept));
            assert(kept != key);
            assert(after.dom().contains(kept));
            assert(after.submap_of(inserted));
            assert(inserted.dom().contains(kept) && after[kept] == inserted[kept]);
            assert(inserted.contains_key(key));
            assert(inserted[key].seen_at <= after[kept].seen_at);
            assert(before.dom().insert(key).contains(kept));
            assert(before.contains_key(kept));
            assert(before[kept].seen_at < entry.seen_at);
            assert(false);
        }
        assert(after.submap_of(inserted));
        assert(after.dom().contains(key) && inserted.dom().contains(key));
        assert(after[key] == inserted[key]);
    }
}

/// However many envelopes are recorded, the cache never holds more than
/// `REPLAY_CACHE_MAX_ENTRIES` entries.
pub proof fn law_cache_stays_bounded(
    before: Map<Seq<char>, ReplayEntryView>,
    after: Map<Seq<char>, ReplayEntryView>,
)
    requires
        spec_trimmed(before, after),
    ensures
        after.len() <= REPLAY_CACHE_MAX_ENTRIES,
{
}

} // verus!
