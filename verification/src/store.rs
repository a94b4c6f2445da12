//! The store: its state and the rules of every operation.
//!
//! A [`Store`] holds what a store keeps in memory next to its open files:
//! the index header, the file set, the end of the written data, the highest
//! height written and the highest contiguous height. Operations that
//! need the disk are split into steps; between steps the caller performs the
//! read or write that the last step asked for.

use crate::codec::{
    overlay, overlay_bytes, zero_bytes, zeros, BlockHeader, IndexEntry, IndexFileHeader,
    BLOCK_HEADER_SIZE, INDEX_ENTRY_SIZE, INDEX_HEADER_SIZE,
};
use crate::error::StoreError;
use crate::file_set::{layout_spec, FileSet};
use crate::layout::{
    advance_to_next_file, lemma_reserve_placement, next_file_start_spec, reserve_spec,
    split_offset_spec,
};
use crate::le::{u32_from_le, u32_le, u64_from_le, u64_le};
use crate::model::{data_file, padded_read, read_at};
use crate::outside::{xxh64, xxh64_of, zstd_compress, zstd_decoded, zstd_decompress};
use std::collections::BTreeMap;
use vstd::prelude::*;

verus! {

broadcast use vstd::std_specs::btree::group_btree_axioms;

/// Default upper bound on cached open data-file handles.
pub const DEFAULT_MAX_DATA_FILES: usize = 10;

/// Headers are checkpointed when a write raises the highest height to a
/// multiple of this.
pub const CHECKPOINT_INTERVAL: u64 = 1024;

/// When writes are flushed to stable storage.
#[derive(Clone, Copy, Debug, PartialEq, Eq)]
pub enum SyncMode {
    /// Never explicitly.
    Async,
    /// After every block write and before every checkpoint.
    Sync,
}

/// The lower-case name of a sync mode.
pub open spec fn sync_mode_name(m: SyncMode) -> Seq<char> {
    match m {
        SyncMode::Async => seq!['a', 's', 'y', 'n', 'c'],
        SyncMode::Sync => seq!['s', 'y', 'n', 'c'],
    }
}

impl SyncMode {
    /// The lower-case name of the mode: `async` or `sync`.
    pub fn as_str(&self) -> (s: &'static str)
        ensures
            s@ == sync_mode_name(*self),
    {
        proof {
            reveal_strlit("async");
            reveal_strlit("sync");
        }
        let s = match self {
            SyncMode::Async => "async",
            SyncMode::Sync => "sync",
        };
        assert(s@ =~= sync_mode_name(*self));
        s
    }
}

/// Options controlling how a store is opened.
#[derive(Clone, Debug)]
pub struct StoreOptions {
    /// Block-cache size in bytes (the byte budget of a cached store).
    pub cache_size: usize,
    /// If true, existing files are truncated and a fresh header is written;
    /// otherwise the store is opened and recovery runs.
    pub truncate: bool,
    /// fsync policy for writes.
    pub sync: SyncMode,
    /// Lowest block height this store will accept. Used only on truncate.
    pub minimum_height: u64,
    /// Maximum size of a single data file in bytes. `None` (or zero) means a
    /// single data file of unbounded size.
    pub max_data_file_size: Option<u64>,
    /// Maximum number of open data-file handles to keep cached.
    pub max_data_files: usize,
}

impl StoreOptions {
    /// The options of [`Default`] with the four given fields replaced.
    pub fn for_new(cache_size: usize, truncate: bool, sync: SyncMode, minimum_height: u64) -> (o:
        Self)
        ensures
            o.cache_size == cache_size,
            o.truncate == truncate,
            o.sync == sync,
            o.minimum_height == minimum_height,
            o.max_data_file_size == None::<u64>,
            o.max_data_files == DEFAULT_MAX_DATA_FILES,
    {
        StoreOptions {
            cache_size,
            truncate,
            sync,
            minimum_height,
            max_data_file_size: None,
            max_data_files: DEFAULT_MAX_DATA_FILES,
        }
    }
}

impl Default for StoreOptions {
    fn default() -> (o: Self)
        ensures
            o.cache_size == 1024,
            !o.truncate,
            o.sync == SyncMode::Async,
            o.minimum_height == 1,
            o.max_data_file_size == None::<u64>,
            o.max_data_files == DEFAULT_MAX_DATA_FILES,
    {
        StoreOptions {
            cache_size: 1024,
            truncate: false,
            sync: SyncMode::Async,
            minimum_height: 1,
            max_data_file_size: None,
            max_data_files: DEFAULT_MAX_DATA_FILES,
        }
    }
}

/// Offset of the index slot for `height`, or `None` when `height` is below
/// `min_height` or the slot would lie beyond `u64::MAX`.
pub open spec fn index_slot_spec(min_height: u64, height: u64) -> Option<u64> {
    if height < min_height || (height - min_height) * INDEX_ENTRY_SIZE + INDEX_HEADER_SIZE
        > u64::MAX {
        None
    } else {
        Some(((height - min_height) * INDEX_ENTRY_SIZE + INDEX_HEADER_SIZE) as u64)
    }
}

/// The file-size cap a header's `max_data_file_size` stands for: none for
/// `u64::MAX` or zero.
pub open spec fn cap_of(max_data_file_size: u64) -> Option<u64> {
    if max_data_file_size == u64::MAX || max_data_file_size == 0 {
        None
    } else {
        Some(max_data_file_size)
    }
}

/// The encoding of the default header.
pub open spec fn default_header_bytes() -> Seq<u8> {
    u64_le(1) + u64_le(u64::MAX) + u64_le(1) + u64_le(0) + u64_le(0) + zeros(24)
}

/// The index entry whose encoding is `bytes` (16 bytes).
pub open spec fn entry_of(bytes: Seq<u8>) -> (u64, u32) {
    (u64_from_le(bytes.subrange(0, 8)), u32_from_le(bytes.subrange(8, 12)))
}

/// Where the block header of a stored block is read: the index entry is
/// decoded from the 16 bytes read at its slot.
pub enum ReadStep {
    /// The slot is vacant (zero size): no block at that height.
    NotFound,
    /// Read [`BLOCK_HEADER_SIZE`] bytes at `local_offset` in data file
    /// `file_index`.
    ReadHeader { entry: IndexEntry, file_index: u32, local_offset: u64 },
}

/// Where the payload of a stored block is read.
pub struct PayloadRead {
    pub header: BlockHeader,
    pub file_index: u32,
    pub local_offset: u64,
    pub size: u32,
}

/// The writes that store a block, in the order they are made: the block
/// header and then the payload into a data file (flushed when `sync`), then
/// the index entry into the index file.
pub struct WritePlan {
    /// Global offset of the block's header in the data files.
    pub offset: u64,
    pub file_index: u32,
    pub local_offset: u64,
    pub header_bytes: Vec<u8>,
    /// Local offset of the payload (right after the header).
    pub payload_offset: u64,
    pub payload: Vec<u8>,
    pub sync: bool,
    pub index_offset: u64,
    pub entry_bytes: Vec<u8>,
    /// End of the written data once this block is in.
    pub saved_offset: u64,
}

/// A rewrite of the index file header.
pub struct Checkpoint {
    /// Flush the index file before writing the header.
    pub sync_index_first: bool,
    pub header_bytes: Vec<u8>,
}

/// The next index slot to inspect while extending the contiguous run: if
/// slot `next` is occupied and the run still ends at `prev` (`None`: no
/// run yet), it extends to `next`.
#[derive(Clone, Copy, Debug)]
pub struct Probe {
    pub prev: Option<u64>,
    pub next: u64,
    /// Heights above this are not inspected.
    pub limit: Option<u64>,
    pub index_offset: u64,
}

/// The store's state.
#[derive(Debug)]
pub struct Store {
    header: IndexFileHeader,
    files: FileSet,
    data_highwater: u64,
    sync: SyncMode,
    contiguous: Option<u64>,
    height_highwater: u64,
}

/// Abstract state of a store.
pub struct StoreView {
    /// The index header as last loaded or recovered (before checkpoints).
    pub header: IndexFileHeader,
    /// File-size cap of the data files.
    pub cap: Option<u64>,
    /// End of the data written so far.
    pub data_highwater: u64,
    pub sync: SyncMode,
    /// The highest height `h` such that every height from the lowest one up
    /// to `h` holds a block, as far as the store has seen; `None` while the
    /// lowest height's block has not been seen.
    pub contiguous: Option<u64>,
    pub height_highwater: u64,
}

/// The contiguous height a store reports: the end of its contiguous run,
/// or one below the lowest height (zero for zero) while there is none.
pub open spec fn reported_contiguous(v: StoreView) -> u64 {
    match v.contiguous {
        Some(c) => c,
        None => if v.header.min_height == 0 {
            0
        } else {
            (v.header.min_height - 1) as u64
        },
    }
}

/// The contiguous height recorded by a checkpoint: the end of the run, or
/// zero ("unknown") while there is none.
pub open spec fn persisted_contiguous(v: StoreView) -> u64 {
    match v.contiguous {
        Some(c) => c,
        None => 0,
    }
}

/// Whether writing (or finding) the block at `height` extends the
/// contiguous run `run`: it is the lowest height while there is no run, or
/// the height just above the run's end.
pub open spec fn extends_run(run: Option<u64>, min_height: u64, height: u64) -> bool {
    match run {
        None => height == min_height,
        Some(c) => c < u64::MAX && height == c + 1,
    }
}

impl Store {
    pub closed spec fn wf(&self) -> bool {
        self.files.wf()
    }

    /// The data files, with their handle bookkeeping.
    pub closed spec fn spec_files(&self) -> FileSet {
        self.files
    }

    /// Returns an error if `options` are unusable.
    pub fn check_options(options: &StoreOptions) -> (r: Result<(), StoreError>)
        ensures
            r is Err <==> options.max_data_files == 0,
            r is Err ==> r == Err::<(), StoreError>(StoreError::MaxDataFilesZero),
    {
        if options.max_data_files == 0 {
            Err(StoreError::MaxDataFilesZero)
        } else {
            Ok(())
        }
    }

    /// The header written when a store is created or truncated: the default
    /// header with the lowest height and the file-size cap of `options`
    /// (`u64::MAX` standing for no cap).
    pub fn fresh_header(options: &StoreOptions) -> (h: IndexFileHeader)
        ensures
            h.version == 1,
            h.min_height == options.minimum_height,
            h.max_data_file_size == match options.max_data_file_size {
                Some(c) => c,
                None => u64::MAX,
            },
            h.max_height == 0,
            h.next_write_offset == 0,
            h.reserved@ == zeros(24),
    {
        let mut header = IndexFileHeader::default().with_lowest_block_height(
            options.minimum_height,
        );
        header.max_data_file_size = match options.max_data_file_size {
            Some(c) => c,
            None => u64::MAX,
        };
        header
    }

    /// The header of an existing store from the bytes read at the start of
    /// its index file. A short read leaves the remaining bytes as they are in
    /// the default header.
    pub fn header_from_read(read: &[u8]) -> (h: IndexFileHeader)
        requires
            read@.len() <= INDEX_HEADER_SIZE,
        ensures
            h.encoded() == overlay(default_header_bytes(), read@),
    {
        let d = IndexFileHeader::default();
        let base = d.to_bytes();
        assert(d.encoded() =~= default_header_bytes());
        let bytes = overlay_bytes(base.as_slice(), read);
        let h = IndexFileHeader::from_bytes(bytes.as_slice());
        h
    }

    /// A store in the state that follows loading `header` with `options`:
    /// the file-size cap comes from the header (`u64::MAX` or zero: none),
    /// nothing is written yet, there is no contiguous run, and the highest
    /// height written stands one below the lowest height of `options`.
    pub fn from_header(header: IndexFileHeader, options: &StoreOptions) -> (s: Self)
        ensures
            s.wf(),
            s@.header == header,
            s@.cap == cap_of(header.max_data_file_size),
            s@.data_highwater == 0,
            s@.sync == options.sync,
            s@.contiguous is None,
            s@.height_highwater == if options.minimum_height == 0 {
                0
            } else {
                (options.minimum_height - 1) as u64
            },
            s.spec_files().spec_handles().spec_order() == Seq::<u32>::empty(),
            s.spec_files().spec_handles().spec_capacity() == if options.max_data_files == 0 {
                1
            } else {
                options.max_data_files as nat
            },
    {
        let cap = if header.max_data_file_size == u64::MAX {
            None
        } else {
            Some(header.max_data_file_size)
        };
        let start = options.minimum_height.saturating_sub(1);
        Store {
            header,
            files: FileSet::new(cap, options.max_data_files),
            data_highwater: 0,
            sync: options.sync,
            contiguous: None,
            height_highwater: start,
        }
    }

    /// The highest height `h` such that every height from the lowest one up
    /// to `h` holds a block, as far as this store has seen; while there is
    /// none, one below the lowest height (zero for zero).
    pub fn max_contiguous_height(&self) -> (h: u64)
        ensures
            h == reported_contiguous(self@),
    {
        match self.contiguous {
            Some(c) => c,
            None => self.header.min_height.saturating_sub(1),
        }
    }

    /// The end of the contiguous run; `None` while the lowest height's block
    /// has not been seen.
    pub fn contiguous_height(&self) -> (h: Option<u64>)
        ensures
            h == self@.contiguous,
    {
        self.contiguous
    }

    /// The highest height written.
    pub fn height_highwater(&self) -> (h: u64)
        ensures
            h == self@.height_highwater,
    {
        self.height_highwater
    }

    /// The lowest height the store accepts.
    pub fn min_block_height(&self) -> (h: u64)
        ensures
            h == self@.header.min_height,
    {
        self.header.min_height
    }

    pub fn sync_mode(&self) -> (m: SyncMode)
        ensures
            m == self@.sync,
    {
        self.sync
    }

    /// End of the data written so far.
    pub fn data_highwater(&self) -> (o: u64)
        ensures
            o == self@.data_highwater,
    {
        self.data_highwater
    }

    /// The data files.
    pub fn files(&self) -> (f: &FileSet)
        ensures
            *f == self.spec_files(),
            f.spec_max_data_file_size() == self@.cap,
            self.wf() ==> f.wf(),
    {
        &self.files
    }

    /// The data files, for handle bookkeeping.
    pub fn files_mut(&mut self) -> (f: &mut FileSet)
        ensures
            *f == old(self).spec_files(),
            final(self).spec_files() == *final(f),
            f.spec_max_data_file_size() == old(self)@.cap,
            old(self).wf() ==> f.wf(),
            final(f).wf() ==> final(self).wf(),
            final(self)@ == (StoreView { cap: final(f).spec_max_data_file_size(), ..old(self)@ }),
    {
        &mut self.files
    }

    /// Offset of the index slot for `height`; `None` when `height` is below
    /// the lowest height or the slot would lie beyond `u64::MAX`.
    pub fn index_entry_offset(&self, height: u64) -> (r: Option<u64>)
        ensures
            r == index_slot_spec(self@.header.min_height, height),
    {
        match height.checked_sub(self.header.min_height) {
            None => None,
            Some(d) => match d.checked_mul(16) {
                None => None,
                Some(m) => m.checked_add(64),
            },
        }
    }
}

/// Whether `plan` stores `block` at `height`, as the payload that
/// decompresses to it, in a store whose state was `v`: see [`plan_places`].
pub open spec fn plan_stores(v: StoreView, height: u64, block: Seq<u8>, plan: WritePlan) -> bool {
    &&& plan.payload@.len() > 0
    &&& zstd_decoded(plan.payload@) == Some(block)
    &&& plan_places(v, height, block, plan)
}

/// Whether `plan` places the payload `plan.payload` of `block` at `height`
/// in a store whose state was `v`: the payload is placed by
/// [`reserve_spec`], preceded by its header (with the checksum of the
/// uncompressed block) and recorded in the index slot for its height.
pub open spec fn plan_places(v: StoreView, height: u64, block: Seq<u8>, plan: WritePlan) -> bool {
    let c = plan.payload@;
    let size_with_header = (c.len() + BLOCK_HEADER_SIZE) as u64;
    &&& c.len() <= u32::MAX
    &&& reserve_spec(v.data_highwater, v.cap, size_with_header) == Ok::<(u64, u64), StoreError>(
        (plan.offset, plan.saved_offset),
    )
    &&& (plan.file_index, plan.local_offset) == split_offset_spec(v.cap, plan.offset)
    &&& plan.header_bytes@ == (BlockHeader {
        height,
        size: c.len() as u32,
        checksum: xxh64_of(block, 0),
        version: 1,
    }).encoded()
    &&& plan.payload_offset == plan.local_offset + BLOCK_HEADER_SIZE
    &&& plan.sync == (v.sync == SyncMode::Sync)
    &&& index_slot_spec(v.header.min_height, height) == Some(plan.index_offset)
    &&& plan.entry_bytes@ == u64_le(plan.offset) + u32_le(c.len() as u32) + zeros(4)
}

/// The outcome of planning the write of `block` at `height`, compressed as
/// `c`, in a store whose state was `v` and is `w` after: errors, in the
/// order they are checked, for a payload longer than `u32::MAX`, a height
/// without an index slot, and the placement errors of [`reserve_spec`]
/// (nothing changes on an error); otherwise the plan and the new end of
/// data.
pub open spec fn plan_write_spec(
    v: StoreView,
    height: u64,
    block: Seq<u8>,
    c: Seq<u8>,
    r: Result<WritePlan, StoreError>,
    w: StoreView,
) -> bool {
    let size_with_header = (c.len() + BLOCK_HEADER_SIZE) as u64;
    if c.len() > u32::MAX {
        r == Err::<WritePlan, StoreError>(StoreError::BlockTooLarge) && w == v
    } else if index_slot_spec(v.header.min_height, height) is None {
        r == Err::<WritePlan, StoreError>(StoreError::InvalidBlockHeight) && w == v
    } else {
        match reserve_spec(v.data_highwater, v.cap, size_with_header) {
            Err(e) => r == Err::<WritePlan, StoreError>(e) && w == v,
            Ok((_, end)) => {
                &&& r matches Ok(plan)
                &&& plan.payload@ == c
                &&& plan_places(v, height, block, plan)
                &&& w == (StoreView { data_highwater: end, ..v })
            },
        }
    }
}

impl Store {
    /// Reserves `size_with_header` bytes in the data files (see
    /// [`reserve_spec`]) and returns `(write offset, new end)`.
    pub fn reserve_space(&mut self, size_with_header: u64) -> (r: Result<(u64, u64), StoreError>)
        requires
            old(self).wf(),
        ensures
            final(self).spec_files() == old(self).spec_files(),
            final(self).wf(),
            r == reserve_spec(old(self)@.data_highwater, old(self)@.cap, size_with_header),
            match r {
                Ok((w, end)) => final(self)@ == (StoreView { data_highwater: end, ..old(self)@ }),
                Err(_) => final(self)@ == old(self)@,
            },
    {
        let max = self.files.max_data_file_size();
        if let Some(cap) = max {
            if size_with_header > cap {
                return Err(StoreError::BlockExceedsFileSize { size: size_with_header, cap });
            }
        }
        let current = self.data_highwater;
        let write_offset = match max {
            None => current,
            Some(cap) => {
                let offset_within_file = current % cap;
                match offset_within_file.checked_add(size_with_header) {
                    None => {
                        return Err(
                            StoreError::BlockEndOverflow { offset_within_file, size: size_with_header },
                        );
                    },
                    Some(end_within_file) => {
                        if end_within_file <= cap {
                            current
                        } else {
                            let current_file_idx = current / cap;
                            if current_file_idx > 4294967295 {
                                return Err(
                                    StoreError::FileIndexOverflow {
                                        file_number: current_file_idx,
                                        cap,
                                    },
                                );
                            }
                            match advance_to_next_file(current_file_idx as u32, cap) {
                                Ok(o) => o,
                                Err(e) => {
                                    return Err(e);
                                },
                            }
                        }
                    },
                }
            },
        };
        match write_offset.checked_add(size_with_header) {
            None => Err(StoreError::HighwaterOverflow { write_offset, size: size_with_header }),
            Some(new_highwater) => {
                self.data_highwater = new_highwater;
                Ok((write_offset, new_highwater))
            },
        }
    }

    /// Validates a write of `block` at `height`, compresses it and reserves
    /// space for it; returns the writes to perform.
    ///
    /// Errors, in the order they are checked: an empty block; a block longer
    /// than `u32::MAX`; then those of [`Self::plan_write`] for its
    /// compressed form. Nothing changes on an error.
    pub fn prepare_write(&mut self, height: u64, block: &[u8]) -> (r: Result<
        WritePlan,
        StoreError,
    >)
        requires
            old(self).wf(),
        ensures
            final(self).spec_files() == old(self).spec_files(),
            final(self).wf(),
            block@.len() == 0 ==> r == Err::<WritePlan, StoreError>(StoreError::EmptyBlock)
                && final(self)@ == old(self)@,
            block@.len() > u32::MAX ==> r == Err::<WritePlan, StoreError>(StoreError::BlockTooLarge)
                && final(self)@ == old(self)@,
            0 < block@.len() <= u32::MAX ==> plan_write_spec(
                old(self)@,
                height,
                block@,
                crate::outside::zstd_encoded(block@),
                r,
                final(self)@,
            ),
            r matches Ok(p) ==> plan_stores(old(self)@, height, block@, p),
    {
        if block.len() == 0 {
            return Err(StoreError::EmptyBlock);
        }
        if block.len() > 4294967295 {
            return Err(StoreError::BlockTooLarge);
        }
        let compressed = zstd_compress(block);
        self.plan_write(height, block, compressed)
    }

    /// Plans the write of `block` at `height` whose compressed form is
    /// `compressed`: checks the payload's length and the height, reserves
    /// space (see [`reserve_spec`]) and builds the writes; see
    /// [`plan_write_spec`].
    pub fn plan_write(&mut self, height: u64, block: &[u8], compressed: Vec<u8>) -> (r: Result<
        WritePlan,
        StoreError,
    >)
        requires
            old(self).wf(),
        ensures
            final(self).spec_files() == old(self).spec_files(),
            final(self).wf(),
            plan_write_spec(old(self)@, height, block@, compressed@, r, final(self)@),
    {
        if compressed.len() > 4294967295 {
            return Err(StoreError::BlockTooLarge);
        }
        let compressed_len = compressed.len() as u32;
        let index_offset = match self.index_entry_offset(height) {
            Some(o) => o,
            None => {
                return Err(StoreError::InvalidBlockHeight);
            },
        };
        let size_with_header = compressed_len as u64 + 22;
        let checksum = xxh64(block, 0);
        let header = BlockHeader {
            height,
            size: compressed_len,
            checksum,
            version: BlockHeader::BLOCK_ENTRY_VERSION,
        };
        let (offset, saved_offset) = match self.reserve_space(size_with_header) {
            Ok(p) => p,
            Err(e) => {
                return Err(e);
            },
        };
        proof {
            lemma_reserve_placement(old(self)@.data_highwater, old(self)@.cap, size_with_header);
        }
        let (file_index, local_offset) = self.files.split_offset(offset);
        proof {
            if let Some(c) = old(self)@.cap {
                assert(local_offset == offset % c);
            }
        }
        let header_bytes = header.serialize();
        let entry = IndexEntry::new(offset, compressed_len);
        let entry_bytes = entry.to_bytes();
        let plan = WritePlan {
            offset,
            file_index,
            local_offset,
            header_bytes,
            payload_offset: local_offset + 22,
            payload: compressed,
            sync: match self.sync {
                SyncMode::Sync => true,
                SyncMode::Async => false,
            },
            index_offset,
            entry_bytes,
            saved_offset,
        };
        Ok(plan)
    }
}

/// The probe after the contiguous height has reached `next`: slot
/// `next + 1` (wrapping), unless that lies above `limit` or has no index
/// slot.
pub open spec fn probe_after(min_height: u64, next: u64, limit: Option<u64>) -> Option<Probe> {
    let n2 = if next == u64::MAX {
        0u64
    } else {
        (next + 1) as u64
    };
    if limit matches Some(l) && n2 > l {
        None
    } else {
        match index_slot_spec(min_height, n2) {
            None => None,
            Some(o) => Some(Probe { prev: Some(next), next: n2, limit, index_offset: o }),
        }
    }
}

/// The index entry in a slot read as `read` (fewer than 16 bytes at the end
/// of the index file; the rest reads as zero).
pub open spec fn slot_entry(read: Seq<u8>) -> (u64, u32) {
    entry_of(overlay(zeros(INDEX_ENTRY_SIZE as nat), read))
}

/// `height` is above `previous` (so it raises the highest height written).
pub open spec fn raises(previous: u64, height: u64) -> bool {
    previous < height
}

/// The index header written by a checkpoint: the loaded header with the
/// given end of data, the highest height written and, in the reserved area,
/// the contiguous height.
pub open spec fn checkpoint_header_bytes(v: StoreView, saved_offset: u64) -> Seq<u8> {
    u64_le(v.header.version) + u64_le(v.header.max_data_file_size) + u64_le(v.header.min_height)
        + u64_le(v.height_highwater) + u64_le(saved_offset) + u64_le(persisted_contiguous(v))
        + v.header.reserved@.subrange(8, 24)
}

impl Store {
    fn next_probe(&self, next: u64, limit: Option<u64>) -> (r: Option<Probe>)
        ensures
            r == probe_after(self@.header.min_height, next, limit),
    {
        let n2 = next.wrapping_add(1);
        assert(n2 == if next == u64::MAX {
            0u64
        } else {
            (next + 1) as u64
        });
        if let Some(l) = limit {
            if n2 > l {
                return None;
            }
        }
        match self.index_entry_offset(n2) {
            None => None,
            Some(o) => Some(Probe { prev: Some(next), next: n2, limit, index_offset: o }),
        }
    }

    /// After block `height` is written: if it extends the contiguous run
    /// (see [`extends_run`]), the run ends at `height` and the slots above
    /// are probed; otherwise nothing changes.
    pub fn begin_advance(&mut self, height: u64) -> (r: Option<Probe>)
        requires
            old(self).wf(),
        ensures
            final(self).spec_files() == old(self).spec_files(),
            final(self).wf(),
            ({
                let v = old(self)@;
                if !extends_run(v.contiguous, v.header.min_height, height) {
                    &&& r == None::<Probe>
                    &&& final(self)@ == v
                } else {
                    &&& final(self)@ == (StoreView { contiguous: Some(height), ..v })
                    &&& r == probe_after(v.header.min_height, height, None)
                }
            }),
    {
        if !self.extends(height) {
            return None;
        }
        self.contiguous = Some(height);
        self.next_probe(height, None)
    }

    fn extends(&self, height: u64) -> (b: bool)
        ensures
            b == extends_run(self@.contiguous, self@.header.min_height, height),
    {
        match self.contiguous {
            None => height == self.header.min_height,
            Some(c) => c < u64::MAX && height == c + 1,
        }
    }

    /// One probe: `slot` is what was read at the probed index slot (`None`
    /// when the read failed). An occupied slot extends the contiguous run to
    /// the probed height, if the run still ends at `probe.prev`, and leads to
    /// the next probe.
    pub fn advance_step(&mut self, probe: Probe, slot: Option<&[u8]>) -> (r: Option<Probe>)
        requires
            old(self).wf(),
            slot matches Some(b) ==> b@.len() <= INDEX_ENTRY_SIZE,
        ensures
            final(self).spec_files() == old(self).spec_files(),
            final(self).wf(),
            ({
                let v = old(self)@;
                match slot {
                    None => r == None::<Probe> && final(self)@ == v,
                    Some(b) => {
                        let (offset, size) = slot_entry(b@);
                        if (offset == 0 && size == 0) || v.contiguous != probe.prev {
                            r == None::<Probe> && final(self)@ == v
                        } else {
                            &&& final(self)@ == (StoreView {
                                contiguous: Some(probe.next),
                                ..v
                            })
                            &&& r == probe_after(v.header.min_height, probe.next, probe.limit)
                        }
                    },
                }
            }),
    {
        match slot {
            None => None,
            Some(b) => {
                let zero = zero_bytes(16);
                let bytes = overlay_bytes(zero.as_slice(), b);
                let entry = IndexEntry::from_bytes(bytes.as_slice());
                if entry.is_vacant() || !same_run(self.contiguous, probe.prev) {
                    return None;
                }
                self.contiguous = Some(probe.next);
                self.next_probe(probe.next, probe.limit)
            },
        }
    }

    /// Records that block `height` was written: the highest height written
    /// rises to it if it is higher. When it rises to a multiple of
    /// [`CHECKPOINT_INTERVAL`], the header is checkpointed with the end of
    /// data `saved_offset`.
    pub fn note_written(&mut self, height: u64, saved_offset: u64) -> (r: Option<Checkpoint>)
        requires
            old(self).wf(),
        ensures
            final(self).spec_files() == old(self).spec_files(),
            final(self).wf(),
            ({
                let v = old(self)@;
                if raises(v.height_highwater, height) {
                    let w = StoreView { height_highwater: height, ..v };
                    &&& final(self)@ == w
                    &&& if height % CHECKPOINT_INTERVAL == 0 {
                        r matches Some(c) && c.sync_index_first == (v.sync == SyncMode::Sync)
                            && c.header_bytes@ == checkpoint_header_bytes(w, saved_offset)
                    } else {
                        r == None::<Checkpoint>
                    }
                } else {
                    final(self)@ == v && r == None::<Checkpoint>
                }
            }),
    {
        if self.height_highwater < height {
            self.height_highwater = height;
            if height % 1024 == 0 {
                return Some(self.checkpoint(saved_offset));
            }
        }
        None
    }

    /// Records that block `height` was recovered: the highest height written
    /// rises to it if it is higher.
    pub fn update_highwater(&mut self, height: u64) -> (raised: bool)
        requires
            old(self).wf(),
        ensures
            final(self).spec_files() == old(self).spec_files(),
            final(self).wf(),
            raised == raises(old(self)@.height_highwater, height),
            final(self)@ == if raised {
                StoreView { height_highwater: height, ..old(self)@ }
            } else {
                old(self)@
            },
    {
        if self.height_highwater < height {
            self.height_highwater = height;
            true
        } else {
            false
        }
    }

    /// The header rewrite that records the end of data `saved_offset`, the
    /// highest height written and the contiguous height.
    pub fn checkpoint(&self, saved_offset: u64) -> (c: Checkpoint)
        ensures
            c.sync_index_first == (self@.sync == SyncMode::Sync),
            c.header_bytes@ == checkpoint_header_bytes(self@, saved_offset),
    {
        let mut header = self.header;
        header.next_write_offset = saved_offset;
        header.max_height = self.height_highwater;
        let persisted = match self.contiguous {
            Some(c) => c,
            None => 0,
        };
        let header = header.with_persisted_contiguous_height(persisted);
        let header_bytes = header.to_bytes();
        assert(header_bytes@ =~= checkpoint_header_bytes(self@, saved_offset));
        Checkpoint {
            sync_index_first: match self.sync {
                SyncMode::Sync => true,
                SyncMode::Async => false,
            },
            header_bytes,
        }
    }

    /// The checkpoint made when the store is closed: the current end of data.
    pub fn close_checkpoint(&self) -> (c: Checkpoint)
        ensures
            c.sync_index_first == (self@.sync == SyncMode::Sync),
            c.header_bytes@ == checkpoint_header_bytes(self@, self@.data_highwater),
    {
        self.checkpoint(self.data_highwater)
    }

    /// First step of a read: the index slot to read for `height`.
    pub fn read_slot(&self, height: u64) -> (r: Result<u64, StoreError>)
        ensures
            r == match index_slot_spec(self@.header.min_height, height) {
                Some(o) => Ok::<u64, StoreError>(o),
                None => Err(StoreError::InvalidBlockHeight),
            },
    {
        match self.index_entry_offset(height) {
            Some(o) => Ok(o),
            None => Err(StoreError::InvalidBlockHeight),
        }
    }

    /// Second step of a read: `slot` was read at the index slot. A zero size
    /// means no block; otherwise the block header is read where the entry
    /// points.
    pub fn on_slot(&self, slot: &[u8]) -> (r: ReadStep)
        requires
            self.wf(),
            slot@.len() <= INDEX_ENTRY_SIZE,
        ensures
            ({
                let (offset, size) = slot_entry(slot@);
                if size == 0 {
                    r is NotFound
                } else {
                    r matches ReadStep::ReadHeader { entry, file_index, local_offset } && entry.offset
                        == offset && entry.size == size && (file_index, local_offset)
                        == split_offset_spec(self@.cap, offset)
                }
            }),
    {
        let zero = zero_bytes(16);
        let bytes = overlay_bytes(zero.as_slice(), slot);
        let entry = IndexEntry::from_bytes(bytes.as_slice());
        if entry.size == 0 {
            return ReadStep::NotFound;
        }
        let (file_index, local_offset) = self.files.split_offset(entry.offset);
        ReadStep::ReadHeader { entry, file_index, local_offset }
    }

    /// Third step of a read: `read` was read where the block header should
    /// be. The header must agree with the entry on the size; then the
    /// payload is read right after the header.
    pub fn on_block_header(&self, entry: IndexEntry, read: &[u8]) -> (r: Result<
        PayloadRead,
        StoreError,
    >)
        requires
            self.wf(),
            read@.len() <= BLOCK_HEADER_SIZE,
        ensures
            ({
                let hb = overlay(zeros(BLOCK_HEADER_SIZE as nat), read@);
                let size = u32_from_le(hb.subrange(8, 12));
                if size != entry.size {
                    r == Err::<PayloadRead, StoreError>(StoreError::SizeMismatch)
                } else if entry.offset + BLOCK_HEADER_SIZE > u64::MAX {
                    r == Err::<PayloadRead, StoreError>(StoreError::BlockOffsetOverflow)
                } else {
                    r matches Ok(p) && p.header.encoded() == hb && p.size == entry.size && (
                    p.file_index, p.local_offset) == split_offset_spec(
                        self@.cap,
                        (entry.offset + BLOCK_HEADER_SIZE) as u64,
                    )
                }
            }),
    {
        let zero = zero_bytes(22);
        let bytes = overlay_bytes(zero.as_slice(), read);
        let header = match BlockHeader::deserialize(bytes.as_slice()) {
            Ok(h) => h,
            Err(_) => {
                return Err(StoreError::SizeMismatch);
            },
        };
        proof {
            crate::codec::lemma_block_header_codec(header, header);
            crate::le::lemma_u32_round_trip(header.size);
            assert(bytes@.subrange(8, 12) =~= u32_le(header.size));
        }
        if header.size != entry.size {
            return Err(StoreError::SizeMismatch);
        }
        match entry.offset.checked_add(22) {
            None => Err(StoreError::BlockOffsetOverflow),
            Some(global) => {
                let (file_index, local_offset) = self.files.split_offset(global);
                Ok(PayloadRead { header, file_index, local_offset, size: entry.size })
            },
        }
    }

    /// Last step of a read: `read` was read where the payload should be. It
    /// is decompressed and checked against the header's checksum.
    pub fn on_payload(&self, payload: &PayloadRead, read: &[u8]) -> (r: Result<
        Vec<u8>,
        StoreError,
    >)
        requires
            read@.len() <= payload.size,
        ensures
            ({
                let c = overlay(zeros(payload.size as nat), read@);
                match zstd_decoded(c) {
                    None => r == Err::<Vec<u8>, StoreError>(StoreError::DecompressFailed),
                    Some(b) => if xxh64_of(b, 0) != payload.header.checksum {
                        r == Err::<Vec<u8>, StoreError>(StoreError::ChecksumMismatch)
                    } else {
                        r matches Ok(v) && v@ == b
                    },
                }
            }),
    {
        let zero = zero_bytes(payload.size as usize);
        let compressed = overlay_bytes(zero.as_slice(), read);
        let block = match zstd_decompress(compressed.as_slice()) {
            Some(b) => b,
            None => {
                return Err(StoreError::DecompressFailed);
            },
        };
        let checksum = xxh64(block.as_slice(), 0);
        if checksum != payload.header.checksum {
            return Err(StoreError::ChecksumMismatch);
        }
        Ok(block)
    }
}

/// What the four read steps give for `height` when every read is performed
/// against an index file holding `index` and data files holding `data`.
pub open spec fn read_outcome(
    min_height: u64,
    cap: Option<u64>,
    index: Seq<u8>,
    data: Map<u32, Seq<u8>>,
    height: u64,
) -> Result<Option<Seq<u8>>, StoreError> {
    match index_slot_spec(min_height, height) {
        None => Err(StoreError::InvalidBlockHeight),
        Some(io) => {
            let (offset, size) = slot_entry(read_at(index, io as int, INDEX_ENTRY_SIZE as nat));
            if size == 0 {
                Ok(None)
            } else {
                let (f, l) = split_offset_spec(cap, offset);
                let hb = padded_read(data_file(data, f), l as int, BLOCK_HEADER_SIZE as nat);
                if u32_from_le(hb.subrange(8, 12)) != size {
                    Err(StoreError::SizeMismatch)
                } else if offset + BLOCK_HEADER_SIZE > u64::MAX {
                    Err(StoreError::BlockOffsetOverflow)
                } else {
                    let (f2, l2) = split_offset_spec(cap, (offset + BLOCK_HEADER_SIZE) as u64);
                    let c = padded_read(data_file(data, f2), l2 as int, size as nat);
                    match zstd_decoded(c) {
                        None => Err(StoreError::DecompressFailed),
                        Some(b) => if xxh64_of(b, 0) != u64_from_le(hb.subrange(12, 20)) {
                            Err(StoreError::ChecksumMismatch)
                        } else {
                            Ok(Some(b))
                        },
                    }
                }
            }
        },
    }
}

/// Where recovery reads the next block header: at `local_offset` in data
/// file `file_index` (which is `file_size` bytes long), for the block that
/// would start at global offset `scan`.
#[derive(Clone, Copy, Debug)]
pub struct HeaderAt {
    pub scan: u64,
    pub file_index: u32,
    pub local_offset: u64,
    pub file_size: u64,
}

/// What recovery does after reading a block header.
pub enum RecoveryRead {
    /// The header does not start a valid block that fits: recovery is over.
    Done,
    /// Read `size` payload bytes at `local_offset` in data file `file_index`.
    ReadPayload { header: BlockHeader, file_index: u32, local_offset: u64, size: u32 },
}

/// A block found by recovery whose index entry is to be (re)written.
pub struct RecoveredBlock {
    pub height: u64,
    pub scan: u64,
    pub size: u32,
    pub index_offset: u64,
    pub entry_bytes: Vec<u8>,
}

/// `a + b`, saturating at `u64::MAX`.
pub open spec fn sat_add(a: u64, b: u64) -> u64 {
    if a + b > u64::MAX {
        u64::MAX
    } else {
        (a + b) as u64
    }
}

/// The recovery scan from offset `next` towards `end`: where the next block
/// header is read (`Ok(Some(..))`), or that the scan is over (`Ok(None)`),
/// together with the offset the scan stands at. A block header that would
/// not fit in the rest of a data file sends the scan to the start of the
/// next file (with a cap; without one the scan is over).
pub open spec fn recovery_scan(cap: Option<u64>, files: Map<u32, u64>, end: u64, next: u64) -> (
    Result<Option<HeaderAt>, StoreError>,
    u64,
)
    decreases u64::MAX - next,
{
    if next >= end {
        (Ok(None), next)
    } else {
        let (f, l) = split_offset_spec(cap, next);
        if !files.contains_key(f) {
            (Ok(None), next)
        } else if sat_add(l, BLOCK_HEADER_SIZE as u64) > files[f] {
            match cap {
                None => (Ok(None), next),
                Some(c) => match next_file_start_spec(f, c) {
                    Err(e) => (Err(e), next),
                    Ok(n2) => if n2 <= next {
                        (Ok(None), next)
                    } else {
                        recovery_scan(cap, files, end, n2)
                    },
                },
            }
        } else {
            (Ok(Some(HeaderAt { scan: next, file_index: f, local_offset: l, file_size: files[f] })), next)
        }
    }
}

/// The block header decoded from what recovery read (zero-padded).
pub open spec fn recovered_header(read: Seq<u8>) -> Seq<u8> {
    overlay(zeros(BLOCK_HEADER_SIZE as nat), read)
}

/// What recovery makes of the block header read as `read` at `at`: the
/// payload to read next (`(file index, local offset, size)`), or the end of
/// recovery (`None`). A block is taken if its height is not below the lowest
/// height, its size is between one byte and [`BlockHeader::MAX_BLOCK_SIZE`],
/// and it ends within its data file.
pub open spec fn recovery_header_spec(min_height: u64, at: HeaderAt, read: Seq<u8>) -> Result<
    Option<(u32, u64, u32)>,
    StoreError,
> {
    let hb = recovered_header(read);
    let height = u64_from_le(hb.subrange(0, 8));
    let size = u32_from_le(hb.subrange(8, 12));
    let header_end = at.local_offset + BLOCK_HEADER_SIZE;
    if height < min_height || size == 0 || size > BlockHeader::MAX_BLOCK_SIZE {
        Ok(None)
    } else if header_end + size > u64::MAX {
        Err(
            StoreError::RecoveryBlockEndOverflow {
                file_index: at.file_index,
                local_offset: at.local_offset,
                block_size: size,
            },
        )
    } else if header_end + size > at.file_size {
        Ok(None)
    } else {
        Ok(Some((at.file_index, header_end as u64, size)))
    }
}

/// What recovery makes of the payload read as `read` for the block at global
/// offset `scan` with `header`: the index slot and entry to write, or the end
/// of recovery (`None`) when the payload does not decompress or does not
/// match the checksum.
pub open spec fn recovery_payload_spec(
    min_height: u64,
    scan: u64,
    header: BlockHeader,
    read: Seq<u8>,
) -> Result<Option<(u64, Seq<u8>)>, StoreError> {
    let c = overlay(zeros(header.size as nat), read);
    match zstd_decoded(c) {
        None => Ok(None),
        Some(b) => if xxh64_of(b, 0) != header.checksum {
            Ok(None)
        } else {
            match index_slot_spec(min_height, header.height) {
                None => Err(StoreError::InvalidBlockHeight),
                Some(o) => Ok(Some((o, u64_le(scan) + u32_le(header.size) + zeros(4)))),
            }
        },
    }
}

impl Store {
    /// Starts recovery of an existing store from the data files on disk
    /// (index to size): checks their layout against the header, restores the
    /// highest height written from the header and returns the offset where
    /// the data files end.
    pub fn begin_recovery(&mut self, files: &BTreeMap<u32, u64>) -> (r: Result<u64, StoreError>)
        requires
            old(self).wf(),
        ensures
            final(self).spec_files() == old(self).spec_files(),
            final(self).wf(),
            ({
                let v = old(self)@;
                match layout_spec(files@, v.cap) {
                    Err(e) => r == Err::<u64, StoreError>(e) && final(self)@ == v,
                    Ok(calc) => if calc < v.header.next_write_offset {
                        &&& r == Err::<u64, StoreError>(
                            StoreError::DataShorterThanIndex {
                                calculated: calc,
                                next_write_offset: v.header.next_write_offset,
                            },
                        )
                        &&& final(self)@ == v
                    } else {
                        &&& r == Ok::<u64, StoreError>(calc)
                        &&& final(self)@ == (StoreView { height_highwater: v.header.max_height, ..v })
                    },
                }
            }),
    {
        let calculated = match self.files.validate_layout(files) {
            Ok(c) => c,
            Err(e) => {
                return Err(e);
            },
        };
        if calculated < self.header.next_write_offset {
            return Err(
                StoreError::DataShorterThanIndex {
                    calculated,
                    next_write_offset: self.header.next_write_offset,
                },
            );
        }
        self.height_highwater = self.header.max_height;
        Ok(calculated)
    }

    /// Seeds the contiguous run from the header. A recorded height other
    /// than zero and not below the lowest height is taken as the run's end;
    /// otherwise (zero is "unknown", as written by stores that do not record
    /// it) there is no run and the scan starts at the lowest height. Either
    /// way the slots above are then probed, up to the highest height written.
    pub fn seed_contiguity(&mut self) -> (r: Option<Probe>)
        requires
            old(self).wf(),
        ensures
            final(self).spec_files() == old(self).spec_files(),
            final(self).wf(),
            ({
                let v = old(self)@;
                let p = v.header.spec_persisted_contiguous_height();
                let min = v.header.min_height;
                if p != 0 && p >= min {
                    &&& final(self)@ == (StoreView { contiguous: Some(p), ..v })
                    &&& r == probe_after(min, p, Some(v.height_highwater))
                } else {
                    &&& final(self)@ == (StoreView { contiguous: None, ..v })
                    &&& r == if min > v.height_highwater {
                        None
                    } else {
                        match index_slot_spec(min, min) {
                            None => None,
                            Some(o) => Some(
                                Probe {
                                    prev: None,
                                    next: min,
                                    limit: Some(v.height_highwater),
                                    index_offset: o,
                                },
                            ),
                        }
                    }
                }
            }),
    {
        let p = self.header.persisted_contiguous_height();
        let limit = Some(self.height_highwater);
        let min = self.header.min_height;
        if p != 0 && p >= min {
            self.contiguous = Some(p);
            return self.next_probe(p, limit);
        }
        self.contiguous = None;
        if min > self.height_highwater {
            return None;
        }
        match self.index_entry_offset(min) {
            None => None,
            Some(o) => Some(Probe { prev: None, next: min, limit, index_offset: o }),
        }
    }

    /// Moves the recovery scan to the next block header to read, skipping
    /// the unused tail of a data file; `None` when the scan is over.
    pub fn recovery_next(&mut self, files: &BTreeMap<u32, u64>, end: u64) -> (r: Result<
        Option<HeaderAt>,
        StoreError,
    >)
        requires
            old(self).wf(),
        ensures
            final(self).spec_files() == old(self).spec_files(),
            final(self).wf(),
            r == recovery_scan(old(self)@.cap, files@, end, old(self)@.header.next_write_offset).0,
            final(self)@ == (StoreView {
                header: IndexFileHeader {
                    next_write_offset: recovery_scan(
                        old(self)@.cap,
                        files@,
                        end,
                        old(self)@.header.next_write_offset,
                    ).1,
                    ..old(self)@.header
                },
                ..old(self)@
            }),
    {
        let ghost v = self@;
        let cap = self.files.max_data_file_size();
        loop
            invariant
                self.wf(),
                v == old(self)@,
                self.spec_files() == old(self).spec_files(),
                cap == v.cap,
                self@ == (StoreView {
                    header: IndexFileHeader { next_write_offset: self@.header.next_write_offset, ..v.header },
                    ..v
                }),
                recovery_scan(v.cap, files@, end, self@.header.next_write_offset) == recovery_scan(
                    v.cap,
                    files@,
                    end,
                    v.header.next_write_offset,
                ),
            decreases u64::MAX - self@.header.next_write_offset,
        {
            let scan = self.header.next_write_offset;
            if scan >= end {
                assert(recovery_scan(v.cap, files@, end, scan) == (
                Ok::<Option<HeaderAt>, StoreError>(None),
                scan,
                ));
                return Ok(None);
            }
            let (file_idx, local_offset) = self.files.split_offset(scan);
            let file_size = match files.get(&file_idx) {
                Some(s) => *s,
                None => {
                    assert(!files@.contains_key(file_idx));
                    assert(recovery_scan(v.cap, files@, end, scan) == (
                    Ok::<Option<HeaderAt>, StoreError>(None),
                    scan,
                    ));
                    return Ok(None);
                },
            };
            assert(files@.contains_key(file_idx) && files@[file_idx] == file_size);
            let header_end = local_offset.saturating_add(22);
            assert(header_end == sat_add(local_offset, 22));
            if header_end > file_size {
                match cap {
                    None => {
                        assert(recovery_scan(v.cap, files@, end, scan) == (
                        Ok::<Option<HeaderAt>, StoreError>(None),
                        scan,
                        ));
                        return Ok(None);
                    },
                    Some(c) => {
                        let n2 = match advance_to_next_file(file_idx, c) {
                            Ok(o) => o,
                            Err(e) => {
                                return Err(e);
                            },
                        };
                        proof {
                            self.files.lemma_cap_positive();
                            if scan / c <= u32::MAX {
                                crate::layout::lemma_div_mod_step(scan, c);
                            }
                        }
                        assert(n2 > scan);
                        self.header.next_write_offset = n2;
                        continue;
                    },
                }
            }
            return Ok(Some(HeaderAt { scan, file_index: file_idx, local_offset, file_size }));
        }
    }

    /// After recovery read `read` where the block header at `at` should be:
    /// the block is taken if its height is not below the lowest height, its
    /// size is between one byte and [`BlockHeader::MAX_BLOCK_SIZE`], and it
    /// ends within its data file.
    pub fn recovery_on_header(&self, at: HeaderAt, read: &[u8]) -> (r: Result<
        RecoveryRead,
        StoreError,
    >)
        requires
            read@.len() <= BLOCK_HEADER_SIZE,
            at.local_offset + BLOCK_HEADER_SIZE <= at.file_size,
        ensures
            match recovery_header_spec(self@.header.min_height, at, read@) {
                Ok(None) => r matches Ok(RecoveryRead::Done),
                Err(e) => r == Err::<RecoveryRead, StoreError>(e),
                Ok(Some((f, l, size))) => r matches Ok(
                    RecoveryRead::ReadPayload { header, file_index, local_offset, size: s },
                ) && header.encoded() == recovered_header(read@) && file_index == f && local_offset
                    == l && s == size,
            },
    {
        let zero = zero_bytes(22);
        let bytes = overlay_bytes(zero.as_slice(), read);
        let header = match BlockHeader::deserialize(bytes.as_slice()) {
            Ok(h) => h,
            Err(_) => {
                return Ok(RecoveryRead::Done);
            },
        };
        proof {
            crate::le::lemma_u64_round_trip(header.height);
            crate::le::lemma_u32_round_trip(header.size);
            assert(bytes@.subrange(0, 8) =~= u64_le(header.height));
            assert(bytes@.subrange(8, 12) =~= u32_le(header.size));
        }
        if header.height < self.header.min_height || header.size == 0 || header.size
            > BlockHeader::MAX_BLOCK_SIZE {
            return Ok(RecoveryRead::Done);
        }
        let header_end = at.local_offset + 22;
        let block_end_local = match header_end.checked_add(header.size as u64) {
            Some(e) => e,
            None => {
                return Err(
                    StoreError::RecoveryBlockEndOverflow {
                        file_index: at.file_index,
                        local_offset: at.local_offset,
                        block_size: header.size,
                    },
                );
            },
        };
        if block_end_local > at.file_size {
            return Ok(RecoveryRead::Done);
        }
        Ok(
            RecoveryRead::ReadPayload {
                header,
                file_index: at.file_index,
                local_offset: header_end,
                size: header.size,
            },
        )
    }

    /// After recovery read `read` as the payload of the block at global
    /// offset `scan` with `header`: a payload that decompresses and matches
    /// the checksum is a recovered block, whose index entry is then written;
    /// anything else ends recovery (`None`).
    pub fn recovery_on_payload(&self, scan: u64, header: BlockHeader, read: &[u8]) -> (r: Result<
        Option<RecoveredBlock>,
        StoreError,
    >)
        requires
            read@.len() <= header.size,
        ensures
            match recovery_payload_spec(self@.header.min_height, scan, header, read@) {
                Ok(None) => r matches Ok(None),
                Err(e) => r == Err::<Option<RecoveredBlock>, StoreError>(e),
                Ok(Some((o, entry))) => r matches Ok(Some(rb)) && rb.height == header.height
                    && rb.scan == scan && rb.size == header.size && rb.index_offset == o
                    && rb.entry_bytes@ == entry,
            },
    {
        let zero = zero_bytes(header.size as usize);
        let compressed = overlay_bytes(zero.as_slice(), read);
        let block = match zstd_decompress(compressed.as_slice()) {
            Some(b) => b,
            None => {
                return Ok(None);
            },
        };
        if xxh64(block.as_slice(), 0) != header.checksum {
            return Ok(None);
        }
        let index_offset = match self.index_entry_offset(header.height) {
            Some(o) => o,
            None => {
                return Err(StoreError::InvalidBlockHeight);
            },
        };
        let entry = IndexEntry::new(scan, header.size);
        let entry_bytes = entry.to_bytes();
        Ok(Some(RecoveredBlock { height: header.height, scan, size: header.size, index_offset, entry_bytes }))
    }

    /// After the index entry of a recovered block was written: the highest
    /// height written rises to the block's height if higher, the scan moves
    /// past the block, and the contiguous run advances as after a write.
    pub fn recovery_commit(&mut self, block: &RecoveredBlock) -> (r: Result<
        Option<Probe>,
        StoreError,
    >)
        requires
            old(self).wf(),
        ensures
            final(self).spec_files() == old(self).spec_files(),
            final(self).wf(),
            ({
                let v = old(self)@;
                let end = block.scan + BLOCK_HEADER_SIZE + block.size;
                if end > u64::MAX {
                    r == Err::<Option<Probe>, StoreError>(
                        StoreError::RecoveryOffsetOverflow { offset: block.scan, block_size: block.size },
                    )
                } else {
                    let h = if raises(v.height_highwater, block.height) {
                        block.height
                    } else {
                        v.height_highwater
                    };
                    let w = StoreView {
                        header: IndexFileHeader { next_write_offset: end as u64, ..v.header },
                        height_highwater: h,
                        ..v
                    };
                    if !extends_run(v.contiguous, v.header.min_height, block.height) {
                        &&& r == Ok::<Option<Probe>, StoreError>(None)
                        &&& final(self)@ == w
                    } else {
                        &&& final(self)@ == (StoreView { contiguous: Some(block.height), ..w })
                        &&& r == Ok::<Option<Probe>, StoreError>(
                            probe_after(v.header.min_height, block.height, None),
                        )
                    }
                }
            }),
    {
        let end = match block.scan.checked_add(22) {
            Some(p) => match p.checked_add(block.size as u64) {
                Some(e) => e,
                None => {
                    return Err(
                        StoreError::RecoveryOffsetOverflow { offset: block.scan, block_size: block.size },
                    );
                },
            },
            None => {
                return Err(
                    StoreError::RecoveryOffsetOverflow { offset: block.scan, block_size: block.size },
                );
            },
        };
        self.update_highwater(block.height);
        self.header.next_write_offset = end;
        Ok(self.begin_advance(block.height))
    }

    /// Ends recovery: new data goes where the scan stopped.
    pub fn finish_recovery(&mut self)
        requires
            old(self).wf(),
        ensures
            final(self).spec_files() == old(self).spec_files(),
            final(self).wf(),
            final(self)@ == (StoreView {
                data_highwater: old(self)@.header.next_write_offset,
                ..old(self)@
            }),
    {
        self.data_highwater = self.header.next_write_offset;
    }
}

/// Whether two run ends are the same.
fn same_run(a: Option<u64>, b: Option<u64>) -> (r: bool)
    ensures
        r == (a == b),
{
    match (a, b) {
        (None, None) => true,
        (Some(x), Some(y)) => x == y,
        _ => false,
    }
}

impl View for Store {
    type V = StoreView;

    closed spec fn view(&self) -> StoreView {
        StoreView {
            header: self.header,
            cap: self.files.spec_max_data_file_size(),
            data_highwater: self.data_highwater,
            sync: self.sync,
            contiguous: self.contiguous,
            height_highwater: self.height_highwater,
        }
    }
}

/// After a clean close the contiguous height reaches the highest height
/// written, and reopening probes no slot.
pub proof fn law_clean_reopen_probes_nothing(min_height: u64, persisted: u64, highwater: u64)
    requires
        persisted == highwater,
        persisted < u64::MAX,
    ensures
        probe_after(min_height, persisted, Some(highwater)) is None,
{
}

} // verus!
