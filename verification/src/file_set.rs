//! The set of data files: the file-size cap, the check of what is on disk,
//! and the bookkeeping of which file handles are kept open.

use crate::error::StoreError;
use crate::layout::{split_offset, split_offset_spec};
use std::collections::BTreeMap;
use vstd::prelude::*;

verus! {

broadcast use vstd::std_specs::btree::group_btree_axioms;

/// Whether data files `0 .. files.len()` are all present (so that, with
/// `files.len()` distinct indices, they are exactly the files present).
pub open spec fn contiguous_from_zero(files: Map<u32, u64>) -> bool {
    forall|i: u32| (i as int) < files.len() ==> #[trigger] files.contains_key(i)
}

/// The lowest data file index below `files.len()` that is missing.
pub open spec fn first_missing(files: Map<u32, u64>) -> u32 {
    choose|i: u32|
        (i as int) < files.len() && !files.contains_key(i) && forall|j: u32|
            j < i ==> #[trigger] files.contains_key(j)
}

/// What the data files on disk (index to size) say about the next write
/// offset, under file-size cap `cap`.
///
/// No files: offset 0. Otherwise the files must be numbered `0 ..= n - 1`
/// with no gap; without a cap there must be just one, and the offset is its
/// size; with a cap `c` the offset is `(n - 1) * c` plus the size of the last
/// file.
pub open spec fn layout_spec(files: Map<u32, u64>, cap: Option<u64>) -> Result<u64, StoreError> {
    let n = files.len();
    if n == 0 {
        Ok(0)
    } else if !contiguous_from_zero(files) {
        Err(StoreError::MissingDataFile { index: first_missing(files) })
    } else {
        match cap {
            None => if n > 1 {
                Err(StoreError::MultipleDataFiles)
            } else {
                Ok(files[0u32])
            },
            Some(c) => {
                let last = (n - 1) as u32;
                if (n - 1) * c + files[last] > u64::MAX {
                    Err(StoreError::DataSizeOverflow { max_index: last, cap: c, last_size: files[last] })
                } else {
                    Ok(((n - 1) * c + files[last]) as u64)
                }
            },
        }
    }
}

proof fn lemma_u32_keys_bound(m: Map<u32, u64>)
    requires
        m.dom().finite(),
    ensures
        m.len() <= u32::MAX + 1,
{
    <u32 as vstd::set_lib::FiniteRange>::range_properties(0u32, u32::MAX);
    let range = Set::<u32>::range(0u32, u32::MAX);
    let full = range.insert(u32::MAX);
    assert(!range.contains(u32::MAX));
    assert(full.len() == u32::MAX + 1);
    assert(m.dom().subset_of(full));
    vstd::set_lib::lemma_len_subset(m.dom(), full);
}

/// If data files `0 .. m` and one more file `k >= m` are present, at least
/// `m + 1` files are present.
proof fn lemma_lower_files_and_one_more(files: Map<u32, u64>, m: u32, k: u32)
    requires
        files.dom().finite(),
        forall|j: u32| j < m ==> #[trigger] files.contains_key(j),
        files.contains_key(k),
        k >= m,
    ensures
        files.len() >= m + 1,
{
    <u32 as vstd::set_lib::FiniteRange>::range_properties(0u32, m);
    let r = Set::<u32>::range(0u32, m);
    assert(r.len() == m);
    assert(!r.contains(k));
    let s = r.insert(k);
    assert(s.len() == m + 1);
    assert(s.subset_of(files.dom()));
    vstd::set_lib::lemma_len_subset(s, files.dom());
}

/// Every data file below the highest must be present: when file `m` is
/// missing but a later file `k > m` is on disk, and `m` is the lowest missing
/// index, the layout is refused with `MissingDataFile` naming `m`, whatever
/// the cap.
pub proof fn law_layout_needs_every_lower_file(files: Map<u32, u64>, cap: Option<u64>, m: u32, k: u32)
    requires
        files.dom().finite(),
        files.contains_key(k),
        m < k,
        !files.contains_key(m),
        forall|j: u32| j < m ==> #[trigger] files.contains_key(j),
    ensures
        layout_spec(files, cap) == Err::<u64, StoreError>(StoreError::MissingDataFile { index: m }),
{
    lemma_lower_files_and_one_more(files, m, k);
    assert(!contiguous_from_zero(files)) by {
        assert(!files.contains_key(m) && (m as int) < files.len());
    }
    let f = first_missing(files);
    assert((m as int) < files.len() && !files.contains_key(m) && forall|j: u32|
        j < m ==> #[trigger] files.contains_key(j));
    assert(!files.contains_key(f) && forall|j: u32| j < f ==> #[trigger] files.contains_key(j));
    if f < m {
        assert(files.contains_key(f));
    } else if f > m {
        assert(files.contains_key(m));
    }
}

/// An accepted layout is exactly the files `0 .. n - 1` for `n` files: a
/// data file index is on disk if and only if it is below the number of
/// files.
pub proof fn law_layout_ok_means_files_are_numbered_from_zero(files: Map<u32, u64>, cap: Option<u64>)
    requires
        files.dom().finite(),
        layout_spec(files, cap) is Ok,
    ensures
        forall|i: u32| #[trigger] files.contains_key(i) <==> (i as int) < files.len(),
{
    assert forall|i: u32| #[trigger] files.contains_key(i) <==> (i as int) < files.len() by {
        if files.len() > 0 {
            assert(contiguous_from_zero(files));
        }
        if files.contains_key(i) && (i as int) >= files.len() {
            let m = files.len() as u32;
            assert forall|j: u32| j < m implies #[trigger] files.contains_key(j) by {
                assert((j as int) < files.len());
            }
            lemma_lower_files_and_one_more(files, m, i);
        }
    }
}

/// Where writing resumes over files `0 .. n - 1` (sizes from `files`): with a
/// cap `c`, after `n - 1` full files plus what the last one holds; without a
/// cap, at the end of the single file, and more than one file is refused.
pub proof fn law_layout_resumes_after_last_file(files: Map<u32, u64>, cap: Option<u64>, n: u32)
    requires
        n >= 1,
        forall|i: u32| #[trigger] files.contains_key(i) <==> i < n,
        files.dom().finite(),
    ensures
        files.len() == n,
        cap is None && n == 1 ==> layout_spec(files, cap) == Ok::<u64, StoreError>(files[0u32]),
        cap is None && n > 1 ==> layout_spec(files, cap) == Err::<u64, StoreError>(
            StoreError::MultipleDataFiles,
        ),
        cap matches Some(c) ==> ((n - 1) * c + files[(n - 1) as u32] <= u64::MAX ==> layout_spec(
            files,
            cap,
        ) == Ok::<u64, StoreError>(((n - 1) * c + files[(n - 1) as u32]) as u64)),
{
    <u32 as vstd::set_lib::FiniteRange>::range_properties(0u32, n);
    let r = Set::<u32>::range(0u32, n);
    assert(files.dom() =~= r);
    assert(contiguous_from_zero(files));
}

/// The bookkeeping of cached data-file handles: which file indices are held,
/// least recently used first. The handles themselves live with the caller.
#[derive(Debug)]
pub struct HandleCache {
    capacity: usize,
    order: Vec<u32>,
}

/// `s` with `x` moved to the back.
pub open spec fn move_to_back(s: Seq<u32>, x: u32) -> Seq<u32> {
    s.remove(s.index_of(x)).push(x)
}

/// `s` without `x`.
pub open spec fn without(s: Seq<u32>, x: u32) -> Seq<u32> {
    if s.contains(x) {
        s.remove(s.index_of(x))
    } else {
        s
    }
}

impl HandleCache {
    /// The held indices, least recently used first.
    pub closed spec fn spec_order(&self) -> Seq<u32> {
        self.order@
    }

    pub closed spec fn spec_capacity(&self) -> nat {
        self.capacity as nat
    }

    /// No index is held twice, the capacity is at least one, and no more
    /// indices than the capacity are held.
    pub closed spec fn wf(&self) -> bool {
        &&& self.order@.no_duplicates()
        &&& self.capacity >= 1
        &&& self.order@.len() <= self.capacity
    }

    /// A cache holding up to `max(capacity, 1)` handles.
    pub fn new(capacity: usize) -> (c: Self)
        ensures
            c.wf(),
            c.spec_order() == Seq::<u32>::empty(),
            c.spec_capacity() == if capacity == 0 {
                1
            } else {
                capacity as nat
            },
    {
        let capacity = if capacity == 0 {
            1
        } else {
            capacity
        };
        HandleCache { capacity, order: Vec::new() }
    }

    fn position(&self, index: u32) -> (r: Option<usize>)
        requires
            self.wf(),
        ensures
            match r {
                Some(p) => p < self.order@.len() && self.order@[p as int] == index
                    && self.order@.index_of(index) == p,
                None => !self.order@.contains(index),
            },
    {
        let mut i: usize = 0;
        while i < self.order.len()
            invariant
                self.wf(),
                i <= self.order@.len(),
                forall|k: int| 0 <= k < i ==> self.order@[k] != index,
            decreases self.order@.len() - i,
        {
            if self.order[i] == index {
                proof {
                    let j = self.order@.index_of(index);
                    assert(self.order@.contains(index));
                    assert(0 <= j < self.order@.len() && self.order@[j] == index);
                    if j != i {
                        assert(self.order@[j] != self.order@[i as int]);
                    }
                }
                return Some(i);
            }
            i = i + 1;
        }
        None
    }

    /// Whether a handle for `index` is held.
    pub fn contains(&self, index: u32) -> (b: bool)
        requires
            self.wf(),
        ensures
            b == self.spec_order().contains(index),
    {
        self.position(index).is_some()
    }

    /// Marks `index` as most recently used, if held.
    pub fn touch(&mut self, index: u32)
        requires
            old(self).wf(),
        ensures
            final(self).wf(),
            final(self).spec_capacity() == old(self).spec_capacity(),
            final(self).spec_order() == if old(self).spec_order().contains(index) {
                move_to_back(old(self).spec_order(), index)
            } else {
                old(self).spec_order()
            },
    {
        let n = self.order.len();
        if n > 0 && self.order[n - 1] == index {
            proof {
                let s = self.order@;
                assert(s.contains(index));
                let j = s.index_of(index);
                assert(s[j] == index);
                assert(j == n - 1);
                assert(move_to_back(s, index) =~= s);
            }
            return;
        }
        match self.position(index) {
            Some(p) => {
                let ghost s = self.order@;
                self.order.remove(p);
                self.order.push(index);
                proof {
                    assert(self.order@ =~= move_to_back(s, index));
                    assert(s.remove(p as int).no_duplicates());
                    assert(!s.remove(p as int).contains(index));
                }
            },
            None => {},
        }
    }

    /// Starts holding a handle for `index`, as most recently used. When that
    /// puts the cache over its capacity, the least recently used index is
    /// dropped and returned.
    pub fn insert(&mut self, index: u32) -> (evicted: Option<u32>)
        requires
            old(self).wf(),
        ensures
            final(self).wf(),
            final(self).spec_capacity() == old(self).spec_capacity(),
            ({
                let s = old(self).spec_order();
                if s.contains(index) {
                    &&& evicted == None::<u32>
                    &&& final(self).spec_order() == move_to_back(s, index)
                } else if s.len() + 1 > old(self).spec_capacity() && s.len() > 0 {
                    &&& evicted == Some(s[0])
                    &&& final(self).spec_order() == s.drop_first().push(index)
                } else {
                    &&& evicted == None::<u32>
                    &&& final(self).spec_order() == s.push(index)
                }
            }),
    {
        let ghost s = self.order@;
        match self.position(index) {
            Some(p) => {
                self.order.remove(p);
                self.order.push(index);
                proof {
                    assert(self.order@ =~= move_to_back(s, index));
                    assert(s.remove(p as int).no_duplicates());
                    assert(!s.remove(p as int).contains(index));
                }
                None
            },
            None => {
                let mut evicted: Option<u32> = None;
                if self.order.len() >= self.capacity && self.order.len() > 0 {
                    let lru = self.order.remove(0);
                    evicted = Some(lru);
                    assert(self.order@ =~= s.drop_first());
                }
                self.order.push(index);
                proof {
                    if evicted.is_some() {
                        assert(!s.drop_first().contains(index)) by {
                            if s.drop_first().contains(index) {
                                let k = choose|k: int|
                                    0 <= k < s.drop_first().len() && s.drop_first()[k] == index;
                                assert(s[k + 1] == index);
                            }
                        }
                    }
                }
                evicted
            },
        }
    }

    /// Stops holding a handle for `index`.
    pub fn remove(&mut self, index: u32)
        requires
            old(self).wf(),
        ensures
            final(self).wf(),
            final(self).spec_capacity() == old(self).spec_capacity(),
            final(self).spec_order() == without(old(self).spec_order(), index),
    {
        match self.position(index) {
            Some(p) => {
                self.order.remove(p);
            },
            None => {},
        }
    }

    /// The held indices, least recently used first.
    pub fn held(&self) -> (v: Vec<u32>)
        ensures
            v@ == self.spec_order(),
    {
        self.order.clone()
    }
}

/// The data files of a store: the file-size cap (`None`: one unbounded file)
/// and the open-handle bookkeeping.
#[derive(Debug)]
pub struct FileSet {
    max_data_file_size: Option<u64>,
    handles: HandleCache,
}

impl FileSet {
    pub closed spec fn spec_max_data_file_size(&self) -> Option<u64> {
        self.max_data_file_size
    }

    pub closed spec fn spec_handles(&self) -> HandleCache {
        self.handles
    }

    /// A well-formed file set never holds a zero cap.
    pub proof fn lemma_cap_positive(&self)
        requires
            self.wf(),
        ensures
            self.spec_max_data_file_size() matches Some(c) ==> c > 0,
    {
    }

    /// Each data file has at most one handle: in a well-formed file set (as
    /// [`FileSet::new`] makes it and every operation on it keeps it, so after
    /// any sequence of operations) no index is held twice, and no more
    /// indices are held than the capacity.
    pub proof fn law_each_file_held_once(&self)
        requires
            self.wf(),
        ensures
            self.spec_handles().spec_order().no_duplicates(),
            self.spec_handles().spec_order().len() <= self.spec_handles().spec_capacity(),
    {
    }

    /// A zero cap is never held: it means no cap.
    pub closed spec fn wf(&self) -> bool {
        &&& (self.max_data_file_size matches Some(c) ==> c > 0)
        &&& self.handles.wf()
    }

    /// A file set with cap `max_data_file_size` (zero meaning none) holding up
    /// to `max_data_files` handles (at least one).
    pub fn new(max_data_file_size: Option<u64>, max_data_files: usize) -> (f: Self)
        ensures
            f.wf(),
            f.spec_max_data_file_size() == match max_data_file_size {
                Some(c) => if c == 0 {
                    None
                } else {
                    Some(c)
                },
                None => None,
            },
            f.spec_handles().spec_order() == Seq::<u32>::empty(),
            f.spec_handles().spec_capacity() == if max_data_files == 0 {
                1
            } else {
                max_data_files as nat
            },
    {
        let cap = match max_data_file_size {
            Some(c) => if c == 0 {
                None
            } else {
                Some(c)
            },
            None => None,
        };
        FileSet { max_data_file_size: cap, handles: HandleCache::new(max_data_files) }
    }

    pub fn max_data_file_size(&self) -> (c: Option<u64>)
        ensures
            c == self.spec_max_data_file_size(),
            self.wf() ==> (c matches Some(x) ==> x > 0),
    {
        self.max_data_file_size
    }

    /// Translates a global offset into `(file index, local offset)`.
    pub fn split_offset(&self, global_offset: u64) -> (r: (u32, u64))
        requires
            self.wf(),
        ensures
            r == split_offset_spec(self.spec_max_data_file_size(), global_offset),
    {
        split_offset(self.max_data_file_size, global_offset)
    }

    /// Whether a handle for data file `index` is held.
    pub fn is_held(&self, index: u32) -> (b: bool)
        requires
            self.wf(),
        ensures
            b == self.spec_handles().spec_order().contains(index),
    {
        self.handles.contains(index)
    }

    /// Marks data file `index` as most recently used, if held.
    pub fn touch(&mut self, index: u32)
        requires
            old(self).wf(),
        ensures
            final(self).wf(),
            final(self).spec_max_data_file_size() == old(self).spec_max_data_file_size(),
            final(self).spec_handles().spec_capacity() == old(self).spec_handles().spec_capacity(),
            final(self).spec_handles().spec_order() == if old(
                self,
            ).spec_handles().spec_order().contains(index) {
                move_to_back(old(self).spec_handles().spec_order(), index)
            } else {
                old(self).spec_handles().spec_order()
            },
    {
        self.handles.touch(index);
    }

    /// Records that a handle for data file `index` was opened; returns the
    /// index whose handle must be dropped to stay within the capacity.
    pub fn insert(&mut self, index: u32) -> (evicted: Option<u32>)
        requires
            old(self).wf(),
        ensures
            final(self).wf(),
            final(self).spec_max_data_file_size() == old(self).spec_max_data_file_size(),
            final(self).spec_handles().spec_capacity() == old(self).spec_handles().spec_capacity(),
            ({
                let s = old(self).spec_handles().spec_order();
                if s.contains(index) {
                    &&& evicted == None::<u32>
                    &&& final(self).spec_handles().spec_order() == move_to_back(s, index)
                } else if s.len() + 1 > old(self).spec_handles().spec_capacity() && s.len() > 0 {
                    &&& evicted == Some(s[0])
                    &&& final(self).spec_handles().spec_order() == s.drop_first().push(index)
                } else {
                    &&& evicted == None::<u32>
                    &&& final(self).spec_handles().spec_order() == s.push(index)
                }
            }),
    {
        self.handles.insert(index)
    }

    /// Drops the cached handle for data file `index`, so that the next access
    /// opens it again.
    pub fn evict(&mut self, index: u32)
        requires
            old(self).wf(),
        ensures
            final(self).wf(),
            final(self).spec_max_data_file_size() == old(self).spec_max_data_file_size(),
            final(self).spec_handles().spec_capacity() == old(self).spec_handles().spec_capacity(),
            final(self).spec_handles().spec_order() == without(
                old(self).spec_handles().spec_order(),
                index,
            ),
    {
        self.handles.remove(index);
    }

    /// The data files whose handles are held, least recently used first.
    pub fn held(&self) -> (v: Vec<u32>)
        ensures
            v@ == self.spec_handles().spec_order(),
    {
        self.handles.held()
    }

    /// Checks the data files on disk (index to size) and returns the global
    /// next-write offset they imply.
    pub fn validate_layout(&self, files: &BTreeMap<u32, u64>) -> (r: Result<u64, StoreError>)
        requires
            self.wf(),
        ensures
            r == layout_spec(files@, self.spec_max_data_file_size()),
    {
        let n = files.len();
        if n == 0 {
            return Ok(0);
        }
        proof {
            lemma_u32_keys_bound(files@);
        }
        let mut i: u64 = 0;
        while i < n as u64
            invariant
                n == files@.len(),
                i <= n,
                forall|j: u32| j < i ==> #[trigger] files@.contains_key(j),
            decreases n - i,
        {
            let key = i as u32;
            if !files.contains_key(&key) {
                proof {
                    assert(!contiguous_from_zero(files@));
                    let m = first_missing(files@);
                    assert((key as int) < files@.len() && !files@.contains_key(key) && forall|j: u32|
                        j < key ==> #[trigger] files@.contains_key(j));
                    assert(files@.contains_key(m) || !files@.contains_key(m));
                    if m < key {
                    } else if m > key {
                        assert(files@.contains_key(key));
                    }
                }
                return Err(StoreError::MissingDataFile { index: key });
            }
            i = i + 1;
        }
        assert(contiguous_from_zero(files@));
        match self.max_data_file_size {
            None => {
                if n > 1 {
                    Err(StoreError::MultipleDataFiles)
                } else {
                    assert(files@.contains_key(0u32));
                    match files.get(&0) {
                        Some(size) => Ok(*size),
                        None => Ok(0),
                    }
                }
            },
            Some(cap) => {
                let last = (n - 1) as u32;
                assert(files@.contains_key(last));
                let last_size = match files.get(&last) {
                    Some(size) => *size,
                    None => 0,
                };
                match (last as u64).checked_mul(cap) {
                    None => {
                        proof {
                            assert((n - 1) * cap > u64::MAX);
                        }
                        Err(StoreError::DataSizeOverflow { max_index: last, cap, last_size })
                    },
                    Some(base) => match base.checked_add(last_size) {
                        None => Err(StoreError::DataSizeOverflow { max_index: last, cap, last_size }),
                        Some(total) => Ok(total),
                    },
                }
            },
        }
    }
}

} // verus!
