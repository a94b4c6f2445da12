//! A read-through block cache bounded by bytes, over `lru_mem::LruCache`.
//!
//! The cache maps heights to block bytes. Reads consult it first; a block
//! read from the store or written to it is remembered, unless the cache
//! refuses it because the entry alone exceeds its byte budget.

use lru_mem::LruCache;
use vstd::prelude::*;

verus! {

/// The lru-mem cache itself. Its hasher parameter is a type of a crate this
/// library does not name, so the cache is kept opaque in a private field
/// and described only by [`lru_contents`], [`lru_budget`] and
/// [`lru_entry_overhead`].
#[verifier::external_body]
pub struct BlockLru {
    inner: LruCache<u64, Box<[u8]>>,
}

/// What a block cache holds: height to block bytes.
pub uninterp spec fn lru_contents(cache: BlockLru) -> Map<u64, Seq<u8>>;

/// The byte budget a block cache was made with.
pub uninterp spec fn lru_budget(cache: BlockLru) -> nat;

/// The bytes lru-mem adds to a block's length when it weighs an entry: the
/// size of its record for one entry (`entry_size` is the key's and the
/// value's heap bytes, here the block's length, plus that size). It is a
/// constant of the build, kept by every operation; being the in-memory size
/// of a Rust struct whose layout the compiler chooses, it has no bound here.
pub uninterp spec fn lru_entry_overhead(cache: BlockLru) -> nat;

/// The weight lru-mem gives the cached blocks `contents`: each block's
/// length plus `overhead`, summed.
pub open spec fn cached_weight(contents: Map<u64, Seq<u8>>, overhead: nat) -> nat {
    contents.dom().fold(0nat, |acc: nat, k: u64| acc + contents[k].len() + overhead)
}

/// Calls `LruCache::new(max_size)`: an empty cache with that byte budget
/// (and so of no weight).
#[verifier::external_body]
fn lru_new(max_size: usize) -> (c: BlockLru)
    ensures
        lru_contents(c).dom() == Set::<u64>::empty(),
        lru_budget(c) == max_size,
        cached_weight(lru_contents(c), lru_entry_overhead(c)) <= lru_budget(c),
{
    BlockLru { inner: LruCache::new(max_size) }
}

/// Calls `LruCache::get`, which marks the entry most recently used and
/// changes no key or value; the value found is copied out. As after every
/// operation, lru-mem's total of entry weights (its `current_size`) is
/// within the budget.
#[verifier::external_body]
fn lru_get(c: &mut BlockLru, height: u64) -> (r: Option<Vec<u8>>)
    ensures
        lru_contents(*final(c)) == lru_contents(*old(c)),
        lru_budget(*final(c)) == lru_budget(*old(c)),
        lru_entry_overhead(*final(c)) == lru_entry_overhead(*old(c)),
        cached_weight(lru_contents(*final(c)), lru_entry_overhead(*final(c))) <= lru_budget(
            *final(c),
        ),
        match r {
            Some(v) => lru_contents(*old(c)).contains_key(height) && v@ == lru_contents(
                *old(c),
            )[height],
            None => !lru_contents(*old(c)).contains_key(height),
        },
{
    match c.inner.get(&height) {
        Some(b) => Some(b.to_vec()),
        None => None,
    }
}

/// Calls `LruCache::insert`. It fails (`false`) exactly when the entry
/// alone weighs more than the budget, that is when the block's length plus
/// [`lru_entry_overhead`] exceeds it; then nothing changes, not even an
/// older entry at the same height. On success (`true`) the height maps to
/// the block and every other entry left is one that was there before (least
/// recently used entries are ejected to make room; which ones is left
/// unsaid). Either way the total weight of the entries (lru-mem's
/// `current_size`) stays within the budget.
#[verifier::external_body]
fn lru_insert(c: &mut BlockLru, height: u64, block: &[u8]) -> (stored: bool)
    ensures
        lru_budget(*final(c)) == lru_budget(*old(c)),
        lru_entry_overhead(*final(c)) == lru_entry_overhead(*old(c)),
        cached_weight(lru_contents(*final(c)), lru_entry_overhead(*final(c))) <= lru_budget(
            *final(c),
        ),
        stored <==> block@.len() + lru_entry_overhead(*old(c)) <= lru_budget(*old(c)),
        stored ==> {
            &&& lru_contents(*final(c)).contains_key(height)
            &&& lru_contents(*final(c))[height] == block@
            &&& forall|k: u64|
                k != height && #[trigger] lru_contents(*final(c)).contains_key(k) ==> lru_contents(
                    *old(c),
                ).contains_key(k) && lru_contents(*final(c))[k] == lru_contents(*old(c))[k]
        },
        !stored ==> lru_contents(*final(c)) == lru_contents(*old(c)),
{
    c.inner.insert(height, Box::from(block)).is_ok()
}

/// A byte-budgeted cache of blocks by height.
pub struct BlockCache {
    cache: BlockLru,
}

impl BlockCache {
    /// Height to block bytes, as cached.
    pub closed spec fn contents(&self) -> Map<u64, Seq<u8>> {
        lru_contents(self.cache)
    }

    /// The byte budget.
    pub closed spec fn budget(&self) -> nat {
        lru_budget(self.cache)
    }

    /// The bytes added to a block's length when the cache weighs it.
    pub closed spec fn entry_overhead(&self) -> nat {
        lru_entry_overhead(self.cache)
    }

    /// The total weight of the cached blocks: their lengths plus the
    /// overhead of each entry.
    pub open spec fn weight(&self) -> nat {
        cached_weight(self.contents(), self.entry_overhead())
    }

    /// Whether the cache takes a block of `len` bytes: its weight is within
    /// the budget.
    pub open spec fn fits(&self, len: nat) -> bool {
        len + self.entry_overhead() <= self.budget()
    }

    /// An empty cache holding at most `max_bytes` bytes of blocks (by
    /// lru-mem's estimate).
    pub fn new(max_bytes: usize) -> (c: Self)
        ensures
            c.contents().dom() == Set::<u64>::empty(),
            c.budget() == max_bytes,
            c.weight() <= c.budget(),
    {
        BlockCache { cache: lru_new(max_bytes) }
    }

    /// The cached block at `height`, if any.
    pub fn lookup(&mut self, height: u64) -> (r: Option<Vec<u8>>)
        ensures
            final(self).contents() == old(self).contents(),
            final(self).budget() == old(self).budget(),
            final(self).entry_overhead() == old(self).entry_overhead(),
            final(self).weight() <= final(self).budget(),
            keeps_budget(*old(self), *final(self)),
            match r {
                Some(v) => old(self).contents().contains_key(height) && v@ == old(
                    self,
                ).contents()[height],
                None => !old(self).contents().contains_key(height),
            },
    {
        lru_get(&mut self.cache, height)
    }

    /// Remembers `block` at `height`; returns whether the cache took it,
    /// which it does exactly when the block's weight fits the budget. A
    /// refused block leaves the cache as it was.
    pub fn remember(&mut self, height: u64, block: &[u8]) -> (stored: bool)
        ensures
            final(self).budget() == old(self).budget(),
            final(self).entry_overhead() == old(self).entry_overhead(),
            final(self).weight() <= final(self).budget(),
            keeps_budget(*old(self), *final(self)),
            stored == old(self).fits(block@.len()),
            stored ==> remembered(old(self).contents(), final(self).contents(), height, block@),
            !stored ==> final(self).contents() == old(self).contents(),
    {
        lru_insert(&mut self.cache, height, block)
    }

    /// After the store was read at `height` on a cache miss: a block found
    /// is remembered when its weight fits the budget. The result is what the
    /// read gave.
    pub fn on_store_read(&mut self, height: u64, read: Option<Vec<u8>>) -> (r: Option<Vec<u8>>)
        ensures
            r == read,
            final(self).budget() == old(self).budget(),
            final(self).entry_overhead() == old(self).entry_overhead(),
            read is Some ==> final(self).weight() <= final(self).budget(),
            read is None ==> final(self).weight() == old(self).weight(),
            keeps_budget(*old(self), *final(self)),
            match read {
                Some(b) => if old(self).fits(b@.len()) {
                    remembered(old(self).contents(), final(self).contents(), height, b@)
                } else {
                    final(self).contents() == old(self).contents()
                },
                None => final(self).contents() == old(self).contents(),
            },
    {
        if let Some(b) = &read {
            let _ = self.remember(height, b.as_slice());
        }
        read
    }

    /// After `data` was written to the store at `height`: it is remembered
    /// when its weight fits the budget; otherwise the cache stays as it was.
    pub fn on_store_write(&mut self, height: u64, data: &[u8])
        ensures
            final(self).budget() == old(self).budget(),
            final(self).entry_overhead() == old(self).entry_overhead(),
            final(self).weight() <= final(self).budget(),
            keeps_budget(*old(self), *final(self)),
            old(self).fits(data@.len()) ==> remembered(
                old(self).contents(),
                final(self).contents(),
                height,
                data@,
            ),
            !old(self).fits(data@.len()) ==> final(self).contents() == old(self).contents(),
    {
        let _ = self.remember(height, data);
    }
}

/// One step of a cache within its budget: the budget stays, and the
/// cached blocks either weigh within it afterwards or weigh what they did.
pub open spec fn keeps_budget(before: BlockCache, after: BlockCache) -> bool {
    &&& after.budget() == before.budget()
    &&& after.weight() <= after.budget() || after.weight() == before.weight()
}

/// The cache never holds more than its budget: over any run of operations
/// from a cache within its budget (as [`BlockCache::new`] makes it), each
/// step of which keeps the budget (as every operation of [`BlockCache`]
/// does), every cache reached weighs within the budget it was made with.
pub proof fn law_cache_stays_within_budget(caches: Seq<BlockCache>)
    requires
        caches.len() > 0,
        caches[0].weight() <= caches[0].budget(),
        forall|i: int| 0 <= i < caches.len() - 1 ==> #[trigger] keeps_budget(caches[i], caches[i + 1]),
    ensures
        forall|i: int| 0 <= i < caches.len() ==> #[trigger] caches[i].weight() <= caches[i].budget()
            && caches[i].budget() == caches[0].budget(),
    decreases caches.len(),
{
    if caches.len() > 1 {
        let init = caches.drop_last();
        assert forall|i: int| 0 <= i < init.len() - 1 implies #[trigger] keeps_budget(init[i], init[i + 1]) by {
            assert(keeps_budget(caches[i], caches[i + 1]));
        }
        law_cache_stays_within_budget(init);
        let m = caches.len() - 2;
        assert(keeps_budget(caches[m], caches[m + 1]));
        assert(init[m] == caches[m]);
        let n = m + 1;
        assert forall|i: int| 0 <= i < caches.len() implies #[trigger] caches[i].weight() <= caches[i].budget()
            && caches[i].budget() == caches[0].budget() by {
            assert(init[0] == caches[0]);
            if i < n {
                assert(init[i] == caches[i]);
                assert(init[i].weight() <= init[i].budget());
            } else {
                assert(init[m].weight() <= init[m].budget());
            }
        }
    }
}

/// A block longer than the budget is never cached: the cache refuses it
/// (without an error), whatever the per-entry overhead.
pub proof fn law_oversized_block_never_cached(c: BlockCache, len: nat)
    requires
        len > c.budget(),
    ensures
        !c.fits(len),
{
}

/// `after` is `before` with `block` cached at `height` and possibly some
/// other entries ejected.
pub open spec fn remembered(
    before: Map<u64, Seq<u8>>,
    after: Map<u64, Seq<u8>>,
    height: u64,
    block: Seq<u8>,
) -> bool {
    &&& after.contains_key(height)
    &&& after[height] == block
    &&& forall|k: u64|
        k != height && #[trigger] after.contains_key(k) ==> before.contains_key(k) && after[k]
            == before[k]
}

/// Every cached block is what the store holds at its height (`store` maps
/// each height that holds a block to that block).
pub open spec fn coherent(cache: Map<u64, Seq<u8>>, store: Map<u64, Seq<u8>>) -> bool {
    forall|h: u64| #[trigger] cache.contains_key(h) ==> store.contains_key(h) && cache[h] == store[h]
}

/// A cached read gives what the store would: when the cache is coherent
/// with the store, a block found in the cache is the store's block.
pub proof fn law_cache_hit_is_store_block(cache: Map<u64, Seq<u8>>, store: Map<u64, Seq<u8>>, h: u64)
    requires
        coherent(cache, store),
        cache.contains_key(h),
    ensures
        store.contains_key(h) && cache[h] == store[h],
{
}

/// A write through the cache keeps it coherent: after `data` is written at
/// `h` (the store now holds `data` there), the cache either remembered it or
/// stayed as it was. A refused write at a height the cache already holds
/// is left out: the older cached block stays, and the cache no longer
/// matches the store there.
pub proof fn law_cache_write_keeps_coherence(
    before: Map<u64, Seq<u8>>,
    after: Map<u64, Seq<u8>>,
    store: Map<u64, Seq<u8>>,
    h: u64,
    data: Seq<u8>,
)
    requires
        coherent(before, store),
        remembered(before, after, h, data) || (after == before && !before.contains_key(h)),
    ensures
        coherent(after, store.insert(h, data)),
{
    assert forall|k: u64| #[trigger] after.contains_key(k) implies store.insert(h, data).contains_key(
        k,
    ) && after[k] == store.insert(h, data)[k] by {
        if k != h {
            assert(before.contains_key(k));
        }
    }
}

/// A read through the cache keeps it coherent: remembering the block the
/// store gave for `h`, or nothing, leaves every cached block the store's.
pub proof fn law_cache_read_keeps_coherence(
    before: Map<u64, Seq<u8>>,
    after: Map<u64, Seq<u8>>,
    store: Map<u64, Seq<u8>>,
    h: u64,
)
    requires
        coherent(before, store),
        after == before || (store.contains_key(h) && remembered(before, after, h, store[h])),
    ensures
        coherent(after, store),
{
    assert forall|k: u64| #[trigger] after.contains_key(k) implies store.contains_key(k)
        && after[k] == store[k] by {
        if after != before && k != h {
            assert(before.contains_key(k));
        }
    }
}

} // verus!
