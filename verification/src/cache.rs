//! The range cache: recently fetched byte ranges, keyed by the exact
//! request that fetched them, bounded by entry count and by total bytes,
//! and emptied from the least recently used end.

use vstd::prelude::*;
use std::collections::VecDeque;
use std::sync::Arc;
use ahash::AHashMap;
use crate::sync::share;

verus! {

/// A cache key: the URL and the requested first and last offset, inclusive.
pub type CacheKey = (String, u64, u64);

/// A cache key as a mathematical value.
pub type KeyView = (Seq<char>, u64, u64);

/// A payload: immutable bytes shared by the cache, the resident chunk and readers.
pub type Payload = Arc<Vec<u8>>;

/// The mathematical value of a key.
pub open spec fn key_view(k: &CacheKey) -> KeyView {
    (k.0@, k.1, k.2)
}

/// The keys of a recency list as mathematical values, in the same order.
pub open spec fn order_of(s: Seq<CacheKey>) -> Seq<KeyView> {
    Seq::new(s.len(), |i: int| key_view(&s[i]))
}

/// Sum of the payload sizes of the keys in `order`.
pub open spec fn total_bytes(order: Seq<KeyView>, entries: Map<KeyView, Seq<u8>>) -> nat
    decreases order.len(),
{
    if order.len() == 0 {
        0
    } else {
        entries[order.last()].len() + total_bytes(order.drop_last(), entries)
    }
}

/// `order` with the entry at the position of `k` taken out, if there is one.
pub open spec fn without(order: Seq<KeyView>, k: KeyView) -> Seq<KeyView> {
    if order.contains(k) {
        order.remove(order.index_of(k))
    } else {
        order
    }
}

/// The cache as a mathematical value.
#[verifier::ext_equal]
pub struct CacheModel {
    /// The keys held, most recently used first.
    pub order: Seq<KeyView>,
    /// The payload stored under each key.
    pub entries: Map<KeyView, Seq<u8>>,
    /// Bound on the number of entries.
    pub max_entries: nat,
    /// Bound on the sum of the payload sizes.
    pub max_bytes: nat,
    /// The running total of the payload sizes, as the cache keeps it.
    pub current_bytes: nat,
}

impl CacheModel {
    /// Caching is on unless one of the bounds is zero.
    pub open spec fn enabled(self) -> bool {
        self.max_entries > 0 && self.max_bytes > 0
    }

    /// Sum of the sizes of the payloads held.
    pub open spec fn bytes(self) -> nat {
        total_bytes(self.order, self.entries)
    }

    /// Both bounds hold.
    pub open spec fn fits(self) -> bool {
        self.order.len() <= self.max_entries && self.bytes() <= self.max_bytes
    }

    /// The recency list and the map hold the same keys, each once, both
    /// bounds hold, and the running total is the true sum.
    pub open spec fn wf(self) -> bool {
        &&& self.order.no_duplicates()
        &&& forall|k: KeyView| self.entries.contains_key(k) <==> self.order.contains(k)
        &&& self.fits()
        &&& self.current_bytes == self.bytes()
    }

    /// The cache with `total` as its running total.
    pub open spec fn counting(self, total: nat) -> CacheModel {
        CacheModel { current_bytes: total, ..self }
    }

    /// What a lookup of `k` finds.
    pub open spec fn lookup(self, k: KeyView) -> Option<Seq<u8>> {
        if self.enabled() && self.entries.contains_key(k) {
            Some(self.entries[k])
        } else {
            None
        }
    }

    /// The cache after a lookup of `k`: a hit moves `k` to the front.
    pub open spec fn touch(self, k: KeyView) -> CacheModel {
        if self.lookup(k) is Some {
            CacheModel { order: seq![k] + without(self.order, k), ..self }
        } else {
            self
        }
    }

    /// The cache with its least recently used entry dropped.
    pub open spec fn drop_oldest(self) -> CacheModel
        recommends
            self.order.len() > 0,
    {
        CacheModel {
            order: self.order.drop_last(),
            entries: self.entries.remove(self.order.last()),
            current_bytes: total_bytes(
                self.order.drop_last(),
                self.entries.remove(self.order.last()),
            ),
            ..self
        }
    }

    /// The cache after evicting from the least recently used end until both bounds hold.
    pub open spec fn trim(self) -> CacheModel
        decreases self.order.len(),
    {
        if self.fits() || self.order.len() == 0 {
            self
        } else {
            self.drop_oldest().trim()
        }
    }

    /// Whether an insert of `data` is carried out at all.
    pub open spec fn admits(self, data: Seq<u8>) -> bool {
        self.enabled() && data.len() <= self.max_bytes
    }

    /// The cache with `data` under `k` at the front, before any eviction.
    pub open spec fn with_front(self, k: KeyView, data: Seq<u8>) -> CacheModel {
        CacheModel {
            order: seq![k] + without(self.order, k),
            entries: self.entries.insert(k, data),
            current_bytes: total_bytes(
                seq![k] + without(self.order, k),
                self.entries.insert(k, data),
            ),
            ..self
        }
    }

    /// The cache after an insert of `data` under `k`.
    pub open spec fn put(self, k: KeyView, data: Seq<u8>) -> CacheModel {
        if self.admits(data) {
            self.with_front(k, data).trim()
        } else {
            self
        }
    }
}

/// The sum of sizes looks only at the payloads of the keys listed.
pub proof fn lemma_total_agrees(
    order: Seq<KeyView>,
    first: Map<KeyView, Seq<u8>>,
    second: Map<KeyView, Seq<u8>>,
)
    requires
        forall|i: int| 0 <= i < order.len() ==> first[#[trigger] order[i]] == second[order[i]],
    ensures
        total_bytes(order, first) == total_bytes(order, second),
    decreases order.len(),
{
    if order.len() > 0 {
        assert(first[order[order.len() - 1]] == second[order[order.len() - 1]]);
        assert forall|i: int| 0 <= i < order.drop_last().len() implies first[#[trigger] order.drop_last()[i]]
            == second[order.drop_last()[i]] by {
            assert(order.drop_last()[i] == order[i]);
        }
        lemma_total_agrees(order.drop_last(), first, second);
    }
}

/// A key put in front adds the size of its payload to the sum.
pub proof fn lemma_total_push_front(k: KeyView, order: Seq<KeyView>, e: Map<KeyView, Seq<u8>>)
    ensures
        total_bytes(seq![k] + order, e) == e[k].len() + total_bytes(order, e),
    decreases order.len(),
{
    let all = seq![k] + order;
    if order.len() == 0 {
        assert(all.drop_last() =~= Seq::<KeyView>::empty());
        assert(all.last() == k);
        assert(total_bytes(all.drop_last(), e) == 0);
    } else {
        assert(all.drop_last() =~= seq![k] + order.drop_last());
        assert(all.last() == order.last());
        lemma_total_push_front(k, order.drop_last(), e);
    }
}

/// A key taken out takes the size of its payload off the sum.
pub proof fn lemma_total_remove(order: Seq<KeyView>, i: int, e: Map<KeyView, Seq<u8>>)
    requires
        0 <= i < order.len(),
    ensures
        total_bytes(order.remove(i), e) + e[order[i]].len() == total_bytes(order, e),
    decreases order.len(),
{
    if i == order.len() - 1 {
        assert(order.remove(i) =~= order.drop_last());
    } else {
        assert(order.remove(i).drop_last() =~= order.drop_last().remove(i));
        assert(order.remove(i).last() == order.last());
        lemma_total_remove(order.drop_last(), i, e);
    }
}

/// In a list without repetitions, taking a key out leaves the others, each once.
pub proof fn lemma_without(order: Seq<KeyView>, k: KeyView)
    requires
        order.no_duplicates(),
    ensures
        without(order, k).no_duplicates(),
        !without(order, k).contains(k),
        forall|x: KeyView| x != k ==> (without(order, k).contains(x) <==> order.contains(x)),
        order.contains(k) ==> without(order, k).len() + 1 == order.len(),
        !order.contains(k) ==> without(order, k) == order,
{
    if order.contains(k) {
        let i = order.index_of(k);
        let rest = order.remove(i);
        assert forall|a: int, b: int| 0 <= a < rest.len() && 0 <= b < rest.len() && a != b implies rest[a]
            != rest[b] by {
            let a0 = if a < i { a } else { a + 1 };
            let b0 = if b < i { b } else { b + 1 };
            assert(rest[a] == order[a0] && rest[b] == order[b0]);
        }
        assert forall|x: KeyView| x != k implies (rest.contains(x) <==> order.contains(x)) by {
            if rest.contains(x) {
                let a = choose|a: int| 0 <= a < rest.len() && rest[a] == x;
                let a0 = if a < i { a } else { a + 1 };
                assert(order[a0] == x);
            }
            if order.contains(x) {
                let a0 = choose|a0: int| 0 <= a0 < order.len() && order[a0] == x;
                let a = if a0 < i { a0 } else { a0 - 1 };
                assert(rest[a] == x);
            }
        }
        if rest.contains(k) {
            let a = choose|a: int| 0 <= a < rest.len() && rest[a] == k;
            let a0 = if a < i { a } else { a + 1 };
            assert(order[a0] == k && order[i] == k && a0 != i);
        }
    }
}

/// `ahash::AHashMap`, taken as an opaque value.
#[verifier::external_type_specification]
#[verifier::external_body]
#[verifier::reject_recursive_types(K)]
#[verifier::reject_recursive_types(V)]
#[verifier::reject_recursive_types(S)]
pub struct ExAHashMap<K, V, S>(AHashMap<K, V, S>);

/// `ahash::RandomState`, the hasher of an `AHashMap`, taken as an opaque value.
#[verifier::external_type_specification]
#[verifier::external_body]
pub struct ExRandomState(ahash::RandomState);

/// What an `ahash::AHashMap` of payloads holds: the payload bytes under each key.
pub uninterp spec fn map_entries(m: AHashMap<(String, u64, u64), Arc<Vec<u8>>>) -> Map<
    (Seq<char>, u64, u64),
    Seq<u8>,
>;

/// The map that holds nothing.
pub open spec fn no_entries() -> Map<KeyView, Seq<u8>> {
    Map::empty()
}

/// `ahash::AHashMap::new`: a map that holds nothing.
#[verifier::external_body]
fn chunk_map_new() -> (r: AHashMap<CacheKey, Payload>)
    ensures
        map_entries(r) == no_entries(),
{
    AHashMap::new()
}

/// `ahash::AHashMap::get`: the payload stored under a key equal to `key`, if
/// there is one. Keys are equal when their URLs and both offsets are.
#[verifier::external_body]
fn chunk_map_get<'a>(m: &'a AHashMap<CacheKey, Payload>, key: &CacheKey) -> (r: Option<&'a Payload>)
    ensures
        match r {
            Some(p) => map_entries(*m).contains_key(key_view(key)) && p@ == map_entries(*m)[key_view(
                key,
            )],
            None => !map_entries(*m).contains_key(key_view(key)),
        },
{
    m.get(key)
}

/// `ahash::AHashMap::insert`: stores `value` under `key`, replacing what was
/// there, and hands back the payload it replaced.
#[verifier::external_body]
fn chunk_map_insert(m: &mut AHashMap<CacheKey, Payload>, key: CacheKey, value: Payload) -> (r:
    Option<Payload>)
    ensures
        map_entries(*final(m)) == map_entries(*old(m)).insert(key_view(&key), value@),
        match r {
            Some(p) => map_entries(*old(m)).contains_key(key_view(&key)) && p@ == map_entries(
                *old(m),
            )[key_view(&key)],
            None => !map_entries(*old(m)).contains_key(key_view(&key)),
        },
{
    m.insert(key, value)
}

/// `ahash::AHashMap::remove`: takes out the entry under `key`, if there is
/// one, and hands back its payload.
#[verifier::external_body]
fn chunk_map_remove(m: &mut AHashMap<CacheKey, Payload>, key: &CacheKey) -> (r: Option<Payload>)
    ensures
        map_entries(*final(m)) == map_entries(*old(m)).remove(key_view(key)),
        match r {
            Some(p) => map_entries(*old(m)).contains_key(key_view(key)) && p@ == map_entries(
                *old(m),
            )[key_view(key)],
            None => !map_entries(*old(m)).contains_key(key_view(key)),
        },
{
    m.remove(key)
}

/// A copy of a key.
pub fn copy_key(key: &CacheKey) -> (r: CacheKey)
    ensures
        key_view(&r) == key_view(key),
{
    (key.0.clone(), key.1, key.2)
}

/// Whether two keys name the same request.
pub fn same_key(a: &CacheKey, b: &CacheKey) -> (r: bool)
    ensures
        r == (key_view(a) == key_view(b)),
{
    a.1 == b.1 && a.2 == b.2 && a.0 == b.0
}

/// Takes `key` out of the recency list, if it is there.
fn remove_lru(lru: &mut VecDeque<CacheKey>, key: &CacheKey)
    requires
        order_of(old(lru)@).no_duplicates(),
    ensures
        order_of(final(lru)@) == without(order_of(old(lru)@), key_view(key)),
{
    let mut i: usize = 0;
    let n: usize = lru.len();
    while i < n
        invariant
            i <= n == lru@.len(),
            lru@ == old(lru)@,
            order_of(lru@).no_duplicates(),
            forall|j: int| 0 <= j < i ==> key_view(&lru@[j]) != key_view(key),
        decreases n - i,
    {
        if same_key(&lru[i], key) {
            proof {
                let order = order_of(lru@);
                let k = key_view(key);
                assert(order[i as int] == k);
                assert(order.contains(k));
                let j = order.index_of(k);
                assert(0 <= j < order.len() && order[j] == k);
                assert(j == i);
                assert(order_of(lru@.remove(i as int)) =~= order.remove(i as int));
            }
            let _ = lru.remove(i);
            return ;
        }
        i = i + 1;
    }
    proof {
        let order = order_of(lru@);
        let k = key_view(key);
        if order.contains(k) {
            let j = choose|j: int| 0 <= j < order.len() && order[j] == k;
            assert(key_view(&lru@[j]) == k);
        }
    }
}

/// The range cache of one filesystem.
pub struct RangeCache {
    map: AHashMap<CacheKey, Payload>,
    lru: VecDeque<CacheKey>,
    max_entries: usize,
    max_bytes: usize,
    current_bytes: usize,
}

impl RangeCache {
    /// The cache as a mathematical value.
    pub closed spec fn view(&self) -> CacheModel {
        CacheModel {
            order: order_of(self.lru@),
            entries: map_entries(self.map),
            max_entries: self.max_entries as nat,
            max_bytes: self.max_bytes as nat,
            current_bytes: self.current_bytes as nat,
        }
    }

    /// The cache is consistent: its model is.
    pub open spec fn wf(&self) -> bool {
        self@.wf()
    }

    /// The model of an empty cache with the given bounds.
    pub open spec fn new_model(max_entries: nat, max_bytes: nat) -> CacheModel {
        CacheModel {
            order: Seq::empty(),
            entries: Map::empty(),
            max_entries: max_entries,
            max_bytes: max_bytes,
            current_bytes: 0,
        }
    }

    /// An empty cache with the given bounds.
    pub fn new(max_entries: usize, max_bytes: usize) -> (r: RangeCache)
        ensures
            r.wf(),
            r@ == Self::new_model(max_entries as nat, max_bytes as nat),
    {
        let r = RangeCache {
            map: chunk_map_new(),
            lru: VecDeque::new(),
            max_entries,
            max_bytes,
            current_bytes: 0,
        };
        assert(order_of(r.lru@) =~= Seq::<KeyView>::empty());
        r
    }

    /// The payload bytes held, in total.
    pub fn current_bytes(&self) -> (r: usize)
        ensures
            r == self@.current_bytes,
    {
        self.current_bytes
    }

    /// The number of entries held.
    pub fn len(&self) -> (r: usize)
        ensures
            r == self@.order.len(),
    {
        self.lru.len()
    }

    /// Looks `key` up. A hit hands out the stored payload and makes `key`
    /// the most recently used; a miss, or a lookup in a disabled cache,
    /// changes nothing.
    pub fn get(&mut self, key: &CacheKey) -> (r: Option<Payload>)
        requires
            old(self).wf(),
        ensures
            final(self).wf(),
            final(self)@ == old(self)@.touch(key_view(key)),
            match r {
                Some(p) => old(self)@.lookup(key_view(key)) == Some(p@),
                None => old(self)@.lookup(key_view(key)) is None,
            },
    {
        if self.max_entries == 0 || self.max_bytes == 0 {
            return None;
        }
        let found: Option<Payload> = match chunk_map_get(&self.map, key) {
            Some(p) => Some(share(p)),
            None => None,
        };
        match found {
            None => None,
            Some(data) => {
                let ghost k = key_view(key);
                let ghost before = self@;
                remove_lru(&mut self.lru, key);
                self.lru.push_front(copy_key(key));
                proof {
                    lemma_without(before.order, k);
                    assert(self@.order =~= seq![k] + without(before.order, k));
                    assert(self@ =~= before.touch(k));
                    lemma_get_keeps_contents(before, k);
                }
                Some(data)
            },
        }
    }

    /// Stores `data` under `key` as the most recently used entry, in place
    /// of what the key held, then evicts from the least recently used end
    /// until both bounds hold. Nothing happens in a disabled cache, or
    /// when `data` alone is larger than the byte bound.
    pub fn insert(&mut self, key: CacheKey, data: Payload)
        requires
            old(self).wf(),
        ensures
            final(self).wf(),
            final(self)@ == old(self)@.put(key_view(&key), data@),
    {
        if self.max_entries == 0 || self.max_bytes == 0 {
            return ;
        }
        let size: usize = data.len();
        if size > self.max_bytes {
            return ;
        }
        let ghost k = key_view(&key);
        let ghost before = self@;
        let ghost rest = without(before.order, k);
        proof {
            lemma_without(before.order, k);
        }
        let mut bytes: u128 = self.current_bytes as u128;
        match chunk_map_remove(&mut self.map, &key) {
            Some(existing) => {
                proof {
                    lemma_total_remove(before.order, before.order.index_of(k), before.entries);
                }
                bytes = bytes - existing.len() as u128;
                remove_lru(&mut self.lru, &key);
            },
            None => {},
        }
        bytes = bytes + size as u128;
        let _ = chunk_map_insert(&mut self.map, copy_key(&key), data);
        self.lru.push_front(key);
        let ghost target = before.with_front(k, data@);
        proof {
            assert(self@.order =~= seq![k] + rest);
            assert(self@.entries =~= before.entries.insert(k, data@));
            lemma_total_push_front(k, rest, target.entries);
            assert forall|i: int| 0 <= i < rest.len() implies target.entries[#[trigger] rest[i]]
                == before.entries[rest[i]] by {
                assert(rest.contains(rest[i]));
            }
            lemma_total_agrees(rest, target.entries, before.entries);
            lemma_front_is_keyed(before, k, data@);
            assert(self@.counting(bytes as nat) =~= target);
        }
        while self.lru.len() > self.max_entries || bytes > self.max_bytes as u128
            invariant
                self.max_entries == old(self).max_entries,
                self.max_bytes == old(self).max_bytes,
                self@.order.no_duplicates(),
                forall|x: KeyView| self@.entries.contains_key(x) <==> self@.order.contains(x),
                bytes as nat == self@.bytes(),
                self@.counting(bytes as nat).trim() == target.trim(),
            ensures
                self@.fits(),
            decreases self.lru@.len(),
        {
            let ghost cur = self@.counting(bytes as nat);
            match self.lru.pop_back() {
                Some(oldest) => {
                    let gone = chunk_map_remove(&mut self.map, &oldest);
                    proof {
                        let last = cur.order.last();
                        assert(key_view(&oldest) == last);
                        assert(cur.order.contains(last));
                        assert(self@.order =~= cur.order.drop_last());
                        lemma_drop_last_keeps_rest(cur.order);
                        assert forall|i: int| 0 <= i < cur.order.drop_last().len() implies self@.entries[#[trigger] cur.order.drop_last()[i]]
                            == cur.entries[cur.order.drop_last()[i]] by {
                            assert(cur.order.drop_last()[i] == cur.order[i]);
                        }
                        lemma_total_agrees(cur.order.drop_last(), self@.entries, cur.entries);
                        assert forall|x: KeyView|
                            self@.entries.contains_key(x) <==> self@.order.contains(x) by {
                            if x != last && cur.order.contains(x) {
                                let a = choose|a: int| 0 <= a < cur.order.len() && cur.order[a] == x;
                                assert(cur.order.drop_last()[a] == x);
                            }
                            if self@.order.contains(x) {
                                let a = choose|a: int|
                                    0 <= a < self@.order.len() && self@.order[a] == x;
                                assert(cur.order[a] == x);
                            }
                        }
                    }
                    match gone {
                        Some(entry) => {
                            bytes = bytes - entry.len() as u128;
                        },
                        None => {},
                    }
                    assert(self@.counting(bytes as nat) =~= cur.drop_oldest());
                },
                None => {
                    break ;
                },
            }
        }
        let ghost evicted = self@.counting(bytes as nat);
        self.current_bytes = bytes as usize;
        assert(self@ =~= evicted);
    }
}

/// A cache with a payload put in front, before any eviction, lists each
/// key once, and lists the keys that it holds payloads for.
pub proof fn lemma_front_is_keyed(m: CacheModel, k: KeyView, data: Seq<u8>)
    requires
        m.order.no_duplicates(),
        forall|x: KeyView| m.entries.contains_key(x) <==> m.order.contains(x),
    ensures
        m.with_front(k, data).order.no_duplicates(),
        forall|x: KeyView|
            m.with_front(k, data).entries.contains_key(x) <==> m.with_front(k, data).order.contains(
                x,
            ),
{
    let w = m.with_front(k, data);
    let rest = without(m.order, k);
    lemma_without(m.order, k);
    lemma_front_joins(k, rest);
    assert forall|x: KeyView| w.entries.contains_key(x) <==> w.order.contains(x) by {
        if x != k {
            assert(rest.contains(x) <==> m.order.contains(x));
        }
    }
}

/// A list under a new front holds the front and what it held, and repeats
/// nothing if it did not before and the front is new.
pub proof fn lemma_front_joins(k: KeyView, rest: Seq<KeyView>)
    requires
        rest.no_duplicates(),
        !rest.contains(k),
    ensures
        (seq![k] + rest).no_duplicates(),
        forall|x: KeyView| (seq![k] + rest).contains(x) <==> (x == k || rest.contains(x)),
{
    let all = seq![k] + rest;
    assert forall|a: int, b: int| 0 <= a < all.len() && 0 <= b < all.len() && a != b implies all[a]
        != all[b] by {
        if a > 0 {
            assert(rest[a - 1] == all[a]);
        }
        if b > 0 {
            assert(rest[b - 1] == all[b]);
        }
    }
    assert forall|x: KeyView| all.contains(x) <==> (x == k || rest.contains(x)) by {
        if all.contains(x) {
            let a = choose|a: int| 0 <= a < all.len() && all[a] == x;
            if a > 0 {
                assert(rest[a - 1] == x);
            }
        }
        if x == k {
            assert(all[0] == x);
        }
        if rest.contains(x) {
            let a = choose|a: int| 0 <= a < rest.len() && rest[a] == x;
            assert(all[a + 1] == x);
        }
    }
}

/// A list without repetitions, shortened by its last key, repeats nothing and lacks that key.
pub proof fn lemma_drop_last_keeps_rest(order: Seq<KeyView>)
    requires
        order.no_duplicates(),
        order.len() > 0,
    ensures
        order.drop_last().no_duplicates(),
        !order.drop_last().contains(order.last()),
{
    let d = order.drop_last();
    assert forall|a: int, b: int| 0 <= a < d.len() && 0 <= b < d.len() && a != b implies d[a]
        != d[b] by {
        assert(d[a] == order[a] && d[b] == order[b]);
    }
    if d.contains(order.last()) {
        let a = choose|a: int| 0 <= a < d.len() && d[a] == order.last();
        assert(order[a] == order[order.len() - 1]);
    }
}

/// The keys and payloads of a cache whose recency list is cut down to its first `n` keys.
pub open spec fn kept(m: CacheModel, n: int) -> CacheModel {
    CacheModel { order: m.order.take(n), ..m }
}

/// Eviction takes entries from the least recently used end only, and no
/// more of them than the bounds demand: what is left is the longest front
/// part of the recency list that fits, with its payloads untouched.
pub proof fn lemma_eviction_is_oldest_first(m: CacheModel)
    requires
        m.order.no_duplicates(),
        forall|k: KeyView| m.entries.contains_key(k) <==> m.order.contains(k),
    ensures
        m.trim().fits(),
        m.trim().order.len() <= m.order.len(),
        m.trim().order == m.order.take(m.trim().order.len() as int),
        m.trim().order.no_duplicates(),
        m.trim().max_entries == m.max_entries,
        m.trim().max_bytes == m.max_bytes,
        forall|k: KeyView| #[trigger]
            m.trim().entries.contains_key(k) <==> m.trim().order.contains(k),
        forall|k: KeyView| #[trigger]
            m.trim().order.contains(k) ==> m.trim().entries[k] == m.entries[k],
        m.current_bytes == m.bytes() ==> m.trim().current_bytes == m.trim().bytes(),
        m.trim().order.len() < m.order.len() ==> !kept(
            m,
            m.trim().order.len() as int + 1,
        ).fits(),
    decreases m.order.len(),
{
    let t = m.trim();
    if m.fits() {
        assert(m.order.take(m.order.len() as int) =~= m.order);
    } else if m.order.len() == 0 {
        assert(total_bytes(m.order, m.entries) == 0);
        assert(m.order.take(0) =~= m.order);
    } else {
        let d = m.drop_oldest();
        let last = m.order.last();
        lemma_drop_last_keeps_rest(m.order);
        assert forall|k: KeyView| d.entries.contains_key(k) <==> d.order.contains(k) by {
            if k != last && m.order.contains(k) {
                let a = choose|a: int| 0 <= a < m.order.len() && m.order[a] == k;
                assert(d.order[a] == k);
            }
            if d.order.contains(k) {
                let a = choose|a: int| 0 <= a < d.order.len() && d.order[a] == k;
                assert(m.order[a] == k);
            }
        }
        lemma_eviction_is_oldest_first(d);
        let n = t.order.len() as int;
        assert(d.order.take(n) =~= m.order.take(n));
        assert forall|k: KeyView| #[trigger] t.order.contains(k) implies t.entries[k]
            == m.entries[k] by {
            assert(d.trim().order.contains(k));
            let a = choose|a: int| 0 <= a < t.order.len() && t.order[a] == k;
            assert(d.order[a] == k);
            assert(d.order.contains(k));
        }
        if n < m.order.len() {
            if n == m.order.len() - 1 {
                assert(m.order.take(n + 1) =~= m.order);
                assert(kept(m, n + 1) =~= m);
            } else {
                let short = m.order.take(n + 1);
                assert(d.order.take(n + 1) =~= short);
                assert forall|i: int| 0 <= i < short.len() implies d.entries[#[trigger] short[i]]
                    == m.entries[short[i]] by {
                    assert(short[i] == d.order[i]);
                    assert(d.order.contains(short[i]));
                }
                lemma_total_agrees(short, d.entries, m.entries);
                assert(kept(d, n + 1).bytes() == kept(m, n + 1).bytes());
            }
        }
    }
}

/// What was just inserted is found again: after `insert(k, B)` of a
/// payload that the cache admits, a lookup of `k` yields exactly `B`.
pub proof fn lemma_insert_then_get(m: CacheModel, k: KeyView, data: Seq<u8>)
    requires
        m.wf(),
        m.admits(data),
    ensures
        m.put(k, data).lookup(k) == Some(data),
        m.put(k, data).order.len() > 0,
        m.put(k, data).order[0] == k,
{
    let w = m.with_front(k, data);
    lemma_front_is_keyed(m, k, data);
    lemma_eviction_is_oldest_first(w);
    let t = w.trim();
    let n = t.order.len() as int;
    if n == 0 {
        let one = kept(w, 1);
        assert(one.order =~= seq![k]);
        assert(one.order.drop_last() =~= Seq::<KeyView>::empty());
        assert(total_bytes(one.order.drop_last(), one.entries) == 0);
        assert(one.bytes() == data.len());
        assert(one.fits());
    }
    assert(t.order[0] == w.order[0]);
    assert(t.order.contains(k));
}

/// A lookup never changes what the cache holds, only the order of use: a
/// hit puts the key in front and leaves the others in their order.
pub proof fn lemma_get_keeps_contents(m: CacheModel, k: KeyView)
    requires
        m.wf(),
    ensures
        m.touch(k).wf(),
        m.touch(k).entries == m.entries,
        m.touch(k).bytes() == m.bytes(),
        m.lookup(k) is Some ==> m.touch(k).order[0] == k,
        forall|x: KeyView| m.touch(k).order.contains(x) <==> m.order.contains(x),
{
    if m.lookup(k) is Some {
        let rest = without(m.order, k);
        lemma_without(m.order, k);
        lemma_front_joins(k, rest);
        lemma_total_remove(m.order, m.order.index_of(k), m.entries);
        lemma_total_push_front(k, rest, m.entries);
        let t = m.touch(k);
        assert(t.order == seq![k] + rest);
        assert(m.order.contains(k));
        assert forall|x: KeyView| t.order.contains(x) <==> m.order.contains(x) by {
            if x != k {
                assert(rest.contains(x) <==> m.order.contains(x));
            }
        }
        assert(t.order.len() == m.order.len());
        assert(t.bytes() == m.bytes());
    }
}

/// An insert leaves a cache that holds its bounds, whatever it held before.
pub proof fn lemma_insert_keeps_bounds(m: CacheModel, k: KeyView, data: Seq<u8>)
    requires
        m.wf(),
    ensures
        m.put(k, data).wf(),
{
    if m.admits(data) {
        let w = m.with_front(k, data);
        lemma_front_is_keyed(m, k, data);
        lemma_eviction_is_oldest_first(w);
    }
}

/// After an insert, every payload in the cache is the one inserted or
/// one that was there before, under its old key.
pub proof fn lemma_insert_adds_only_its_own(m: CacheModel, k: KeyView, data: Seq<u8>)
    requires
        m.wf(),
    ensures
        m.put(k, data).max_entries == m.max_entries,
        m.put(k, data).max_bytes == m.max_bytes,
        forall|x: KeyView| #[trigger]
            m.put(k, data).entries.contains_key(x) ==> {
                ||| x == k && m.put(k, data).entries[x] == data
                ||| m.entries.contains_key(x) && m.put(k, data).entries[x] == m.entries[x]
            },
{
    if m.admits(data) {
        let w = m.with_front(k, data);
        lemma_front_is_keyed(m, k, data);
        lemma_eviction_is_oldest_first(w);
        assert forall|x: KeyView| #[trigger] w.trim().entries.contains_key(x) implies ({
            ||| x == k && w.trim().entries[x] == data
            ||| m.entries.contains_key(x) && w.trim().entries[x] == m.entries[x]
        }) by {
            assert(w.trim().order.contains(x));
            let a = choose|a: int| 0 <= a < w.trim().order.len() && w.trim().order[a] == x;
            assert(w.order[a] == x);
            assert(w.order.contains(x));
        }
    }
}

} // verus!
