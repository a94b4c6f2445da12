//! The rules of the first store format (see [`crate::legacy`]), split into
//! steps around the reads and writes that the caller performs.

use crate::codec::{overlay, overlay_bytes, zero_bytes, zeros};
use crate::error::ErrorKind;
use crate::legacy::{
    fxhash64, DataBlockHeader, IndexEntry, IndexFileHeader, LEGACY_BLOCK_HEADER_SIZE,
    LEGACY_INDEX_ENTRY_SIZE, LEGACY_INDEX_HEADER_SIZE,
};
use crate::le::{u32_le, u64_from_le, u64_le};
use crate::model::read_at;
use vstd::prelude::*;

verus! {

/// Headers are checkpointed when a write raises the highest height to a
/// multiple of this.
pub const LEGACY_CHECKPOINT_INTERVAL: u64 = 1024;

/// What the first store format rejects.
#[derive(Clone, Copy, Debug, PartialEq, Eq)]
pub enum LegacyError {
    /// A write of a zero-length block.
    EmptyBlock,
    /// The height is below the lowest height, or its slot would lie beyond
    /// `u64::MAX`.
    InvalidBlockHeight,
    /// The end of the data would overflow `u64`.
    BlockTooLarge,
    /// The data file is shorter than the index header says.
    DataFileSmaller,
    /// The index entry and the block header disagree on the size.
    SizeMismatch,
    /// The stored size does not fit in a `usize`.
    BlockSizeTooLarge,
    /// The block read back does not match its checksum.
    ChecksumMismatch,
}

impl LegacyError {
    pub open spec fn spec_kind(self) -> ErrorKind {
        match self {
            LegacyError::EmptyBlock => ErrorKind::InvalidInput,
            LegacyError::InvalidBlockHeight => ErrorKind::InvalidInput,
            LegacyError::BlockTooLarge => ErrorKind::InvalidInput,
            _ => ErrorKind::InvalidData,
        }
    }

    /// The class of this error.
    pub fn kind(&self) -> (k: ErrorKind)
        ensures
            k == self.spec_kind(),
    {
        match self {
            LegacyError::EmptyBlock => ErrorKind::InvalidInput,
            LegacyError::InvalidBlockHeight => ErrorKind::InvalidInput,
            LegacyError::BlockTooLarge => ErrorKind::InvalidInput,
            _ => ErrorKind::InvalidData,
        }
    }
}

/// The encoding of the default header.
pub open spec fn legacy_default_header_bytes() -> Seq<u8> {
    u32_le(1) + u32_le(1024) + u64_le(1) + u64_le(0) + u64_le(0)
}

/// Offset of the slot for `height`, or `None` below the lowest height or
/// past `u64::MAX`.
pub open spec fn legacy_slot_spec(lowest: u64, height: u64) -> Option<u64> {
    if height < lowest || (height - lowest) * LEGACY_INDEX_ENTRY_SIZE + LEGACY_INDEX_HEADER_SIZE
        > u64::MAX {
        None
    } else {
        Some(((height - lowest) * LEGACY_INDEX_ENTRY_SIZE + LEGACY_INDEX_HEADER_SIZE) as u64)
    }
}

/// The writes that store a block: its header and bytes into the data file
/// (flushed when `sync`), then the entry into the index file.
pub struct LegacyWritePlan {
    pub offset: u64,
    /// FxHash of the block, as this machine computes it.
    pub checksum: u64,
    pub header_bytes: Vec<u8>,
    pub payload_offset: u64,
    pub sync: bool,
    pub index_offset: u64,
    pub entry_bytes: Vec<u8>,
    pub saved_offset: u64,
}

/// A rewrite of the index header.
pub struct LegacyCheckpoint {
    /// Flush the index file before writing the header.
    pub sync_index_first: bool,
    pub header_bytes: Vec<u8>,
}

/// The next slot to inspect while extending the contiguous height.
#[derive(Clone, Copy, Debug)]
pub struct LegacyProbe {
    pub prev: u64,
    pub next: u64,
    pub index_offset: u64,
}

/// The second step of a read.
pub enum LegacyReadStep {
    NotFound,
    /// Read the block header at `entry.offset` in the data file.
    ReadHeader { entry: IndexEntry },
}

/// State of a store of the first format.
#[derive(Debug)]
pub struct LegacyStore {
    header: IndexFileHeader,
    data_highwater: u64,
    sync: bool,
    max_contiguous_height: u64,
    height_highwater: u64,
}

/// Abstract state of a [`LegacyStore`].
pub struct LegacyView {
    pub header: IndexFileHeader,
    pub data_highwater: u64,
    pub sync: bool,
    pub max_contiguous_height: u64,
    pub height_highwater: u64,
}

impl View for LegacyStore {
    type V = LegacyView;

    closed spec fn view(&self) -> LegacyView {
        LegacyView {
            header: self.header,
            data_highwater: self.data_highwater,
            sync: self.sync,
            max_contiguous_height: self.max_contiguous_height,
            height_highwater: self.height_highwater,
        }
    }
}

/// The probe after the contiguous height reached `next`.
pub open spec fn legacy_probe_after(lowest: u64, next: u64) -> Option<LegacyProbe> {
    let n2 = if next == u64::MAX {
        0u64
    } else {
        (next + 1) as u64
    };
    match legacy_slot_spec(lowest, n2) {
        None => None,
        Some(o) => Some(LegacyProbe { prev: next, next: n2, index_offset: o }),
    }
}

/// Whether `p` stores `block` at `height` in a store whose state was `v`:
/// the block goes at the end of the data behind its header, and the entry
/// (the block's offset and size) into the slot.
pub open spec fn legacy_plan_stores(v: LegacyView, height: u64, block: Seq<u8>, p: LegacyWritePlan) -> bool {
    let io = legacy_slot_spec(v.header.lowest_block_height, height);
    &&& io == Some(p.index_offset)
    &&& p.offset == v.data_highwater
    &&& p.header_bytes@ == (DataBlockHeader {
        height,
        size: block.len() as u64,
        checksum: p.checksum,
    }).encoded()
    &&& p.payload_offset == v.data_highwater + LEGACY_BLOCK_HEADER_SIZE
    &&& p.sync == v.sync
    &&& p.entry_bytes@ == (IndexEntry { offset: p.offset, size: block.len() as u64 }).encoded()
    &&& p.saved_offset == v.data_highwater + block.len() + LEGACY_BLOCK_HEADER_SIZE
}

/// The outcome of planning a write of `block` at `height` with checksum
/// `checksum` in a store whose state was `v` and is `w` after.
pub open spec fn plan_write_outcome(
    v: LegacyView,
    height: u64,
    block: Seq<u8>,
    checksum: u64,
    r: Result<LegacyWritePlan, LegacyError>,
    w: LegacyView,
) -> bool {
    let size = block.len() + LEGACY_BLOCK_HEADER_SIZE;
    if block.len() == 0 {
        r == Err::<LegacyWritePlan, LegacyError>(LegacyError::EmptyBlock) && w == v
    } else if legacy_slot_spec(v.header.lowest_block_height, height) is None {
        r == Err::<LegacyWritePlan, LegacyError>(LegacyError::InvalidBlockHeight) && w == v
    } else if v.data_highwater + size > u64::MAX {
        r == Err::<LegacyWritePlan, LegacyError>(LegacyError::BlockTooLarge) && w == v
    } else {
        &&& w == (LegacyView { data_highwater: (v.data_highwater + size) as u64, ..v })
        &&& r matches Ok(p)
        &&& p.checksum == checksum
        &&& legacy_plan_stores(v, height, block, p)
    }
}

/// What the read steps give for `height` when every read is performed
/// against an index file holding `index` and a data file holding `data`,
/// and the checksum of the payload read comes out as `checksum`.
pub open spec fn legacy_read_outcome(
    lowest: u64,
    index: Seq<u8>,
    data: Seq<u8>,
    height: u64,
    checksum: u64,
) -> Result<
    Option<Seq<u8>>,
    LegacyError,
> {
    match legacy_slot_spec(lowest, height) {
        None => Err(LegacyError::InvalidBlockHeight),
        Some(io) => {
            let b = overlay(zeros(16), read_at(index, io as int, 16));
            let offset = u64_from_le(b.subrange(0, 8));
            let size = u64_from_le(b.subrange(8, 16));
            if size == 0 {
                Ok(None)
            } else {
                let hb = overlay(zeros(24), read_at(data, offset as int, 24));
                if u64_from_le(hb.subrange(8, 16)) != size {
                    Err(LegacyError::SizeMismatch)
                } else if size > usize::MAX {
                    Err(LegacyError::BlockSizeTooLarge)
                } else {
                    let payload = overlay(zeros(size as nat), read_at(data, offset + 24, size as nat));
                    if checksum != u64_from_le(hb.subrange(16, 24)) {
                        Err(LegacyError::ChecksumMismatch)
                    } else {
                        Ok(Some(payload))
                    }
                }
            }
        },
    }
}

/// The header written by a checkpoint: the loaded header with the data
/// size `saved_offset`.
pub open spec fn legacy_checkpoint_bytes(v: LegacyView, saved_offset: u64) -> Seq<u8> {
    (IndexFileHeader { data_file_size: saved_offset, ..v.header }).encoded()
}

impl LegacyStore {
    /// The header of a created or truncated store.
    pub fn fresh_header(minimum_height: u64) -> (h: IndexFileHeader)
        ensures
            h == (IndexFileHeader {
                version: 1,
                max_file_size_mb: 1024,
                lowest_block_height: minimum_height,
                highest_contiguous_block_height: 0,
                data_file_size: 0,
            }),
    {
        IndexFileHeader::default().with_lowest_block_height(minimum_height)
    }

    /// The header of an existing store from the bytes read at the start of
    /// its index file; a short read leaves the rest as in the default.
    pub fn header_from_read(read: &[u8]) -> (h: IndexFileHeader)
        requires
            read@.len() <= LEGACY_INDEX_HEADER_SIZE,
        ensures
            h.encoded() == overlay(legacy_default_header_bytes(), read@),
    {
        let d = IndexFileHeader::default();
        let base = d.to_bytes();
        assert(d.encoded() =~= legacy_default_header_bytes());
        let bytes = overlay_bytes(base.as_slice(), read);
        IndexFileHeader::from_bytes(bytes.as_slice())
    }

    /// The state after opening with `header`: new data goes after what the
    /// header records as written (and never before the first
    /// `LEGACY_INDEX_HEADER_SIZE` bytes), and both height counters stand one
    /// below `minimum_height` (zero for zero).
    pub fn new(header: IndexFileHeader, sync: bool, minimum_height: u64) -> (s: Self)
        ensures
            s@.header == header,
            s@.data_highwater == if header.data_file_size < LEGACY_INDEX_HEADER_SIZE {
                LEGACY_INDEX_HEADER_SIZE
            } else {
                header.data_file_size
            },
            s@.sync == sync,
            s@.max_contiguous_height == if minimum_height == 0 {
                0
            } else {
                (minimum_height - 1) as u64
            },
            s@.height_highwater == s@.max_contiguous_height,
    {
        let start = minimum_height.saturating_sub(1);
        let data_start = if header.data_file_size < 32 {
            32
        } else {
            header.data_file_size
        };
        LegacyStore {
            header,
            data_highwater: data_start,
            sync,
            max_contiguous_height: start,
            height_highwater: start,
        }
    }

    /// Checks an existing store: the data file must be as long as the
    /// header says. (A longer data file is not handled.)
    pub fn check_recovery(&self, data_file_size: u64) -> (r: Result<(), LegacyError>)
        requires
            data_file_size <= self@.header.data_file_size,
        ensures
            data_file_size == self@.header.data_file_size ==> r is Ok,
            data_file_size < self@.header.data_file_size ==> r == Err::<(), LegacyError>(
                LegacyError::DataFileSmaller,
            ),
    {
        if data_file_size == self.header.data_file_size {
            Ok(())
        } else {
            Err(LegacyError::DataFileSmaller)
        }
    }

    pub fn max_contiguous_height(&self) -> (h: u64)
        ensures
            h == self@.max_contiguous_height,
    {
        self.max_contiguous_height
    }

    /// Offset of the slot for `height`.
    pub fn index_entry_offset(&self, height: u64) -> (r: Option<u64>)
        ensures
            r == legacy_slot_spec(self@.header.lowest_block_height, height),
    {
        match height.checked_sub(self.header.lowest_block_height) {
            None => None,
            Some(d) => match d.checked_mul(16) {
                None => None,
                Some(m) => m.checked_add(32),
            },
        }
    }

    /// Validates a write of `block` at `height` and reserves its space; the
    /// block's checksum is computed here (see [`Self::plan_write`] for the
    /// rest, whatever the checksum came out as).
    pub fn prepare_write(&mut self, height: u64, block: &[u8]) -> (r: Result<
        LegacyWritePlan,
        LegacyError,
    >)
        requires
            block@.len() + LEGACY_BLOCK_HEADER_SIZE <= usize::MAX,
        ensures
            r matches Ok(p) ==> plan_write_outcome(old(self)@, height, block@, p.checksum, r,
                final(self)@),
            r matches Ok(p) ==> call_ensures(fxhash64, (block,), p.checksum),
            r is Err ==> plan_write_outcome(old(self)@, height, block@, 0, r, final(self)@),
    {
        let checksum = fxhash64(block);
        self.plan_write(height, block, checksum)
    }

    /// Validates a write of `block` at `height` whose checksum is
    /// `checksum` and reserves its space. Errors, in order: an empty block,
    /// a height without a slot, an end of data past `u64::MAX`; nothing
    /// changes on an error. The entry records the block's offset and size.
    pub fn plan_write(&mut self, height: u64, block: &[u8], checksum: u64) -> (r: Result<
        LegacyWritePlan,
        LegacyError,
    >)
        requires
            block@.len() + LEGACY_BLOCK_HEADER_SIZE <= usize::MAX,
        ensures
            plan_write_outcome(old(self)@, height, block@, checksum, r, final(self)@),
    {
        if block.len() == 0 {
            return Err(LegacyError::EmptyBlock);
        }
        let index_offset = match self.index_entry_offset(height) {
            Some(o) => o,
            None => {
                return Err(LegacyError::InvalidBlockHeight);
            },
        };
        let size_with_header = (block.len() + 24) as u64;
        let header = DataBlockHeader { height, size: block.len() as u64, checksum };
        let offset = self.data_highwater;
        let saved_offset = match offset.checked_add(size_with_header) {
            Some(s) => s,
            None => {
                return Err(LegacyError::BlockTooLarge);
            },
        };
        self.data_highwater = saved_offset;
        let entry = IndexEntry { offset, size: block.len() as u64 };
        Ok(
            LegacyWritePlan {
                offset,
                checksum,
                header_bytes: header.to_bytes(),
                payload_offset: offset + 24,
                sync: self.sync,
                index_offset,
                entry_bytes: entry.to_bytes(),
                saved_offset,
            },
        )
    }

    fn next_probe(&self, next: u64) -> (r: Option<LegacyProbe>)
        ensures
            r == legacy_probe_after(self@.header.lowest_block_height, next),
    {
        let n2 = next.wrapping_add(1);
        assert(n2 == if next == u64::MAX {
            0u64
        } else {
            (next + 1) as u64
        });
        match self.index_entry_offset(n2) {
            None => None,
            Some(o) => Some(LegacyProbe { prev: next, next: n2, index_offset: o }),
        }
    }

    /// After block `height` is written: if the contiguous height stood just
    /// below it, it becomes `height` and the slots above are probed.
    pub fn begin_advance(&mut self, height: u64) -> (r: Option<LegacyProbe>)
        ensures
            ({
                let prev0 = if height == 0 {
                    0u64
                } else {
                    (height - 1) as u64
                };
                let v = old(self)@;
                if v.max_contiguous_height != prev0 {
                    r == None::<LegacyProbe> && final(self)@ == v
                } else {
                    let first = if prev0 == u64::MAX {
                        0u64
                    } else {
                        (prev0 + 1) as u64
                    };
                    &&& final(self)@ == (LegacyView { max_contiguous_height: height, ..v })
                    &&& r == legacy_probe_after(v.header.lowest_block_height, first)
                }
            }),
    {
        let prev0 = height.saturating_sub(1);
        if self.max_contiguous_height != prev0 {
            return None;
        }
        self.max_contiguous_height = height;
        self.next_probe(prev0.wrapping_add(1))
    }

    /// One probe: `slot` is what was read at the probed slot (`None` when
    /// the read failed). A slot whose entry has a nonzero offset raises the
    /// contiguous height, if it still stands at `probe.prev`.
    pub fn advance_step(&mut self, probe: LegacyProbe, slot: Option<&[u8]>) -> (r: Option<
        LegacyProbe,
    >)
        requires
            slot matches Some(b) ==> b@.len() <= LEGACY_INDEX_ENTRY_SIZE,
        ensures
            ({
                let v = old(self)@;
                match slot {
                    None => r == None::<LegacyProbe> && final(self)@ == v,
                    Some(b) => {
                        let offset = u64_from_le(overlay(zeros(16), b@).subrange(0, 8));
                        if offset == 0 || v.max_contiguous_height != probe.prev {
                            r == None::<LegacyProbe> && final(self)@ == v
                        } else {
                            &&& final(self)@ == (LegacyView {
                                max_contiguous_height: probe.next,
                                ..v
                            })
                            &&& r == legacy_probe_after(v.header.lowest_block_height, probe.next)
                        }
                    },
                }
            }),
    {
        match slot {
            None => None,
            Some(b) => {
                let zero = zero_bytes(16);
                let bytes = overlay_bytes(zero.as_slice(), b);
                let entry = IndexEntry::from_bytes(bytes.as_slice());
                proof {
                    crate::le::lemma_u64_round_trip(entry.offset);
                    assert(bytes@.subrange(0, 8) =~= u64_le(entry.offset));
                }
                if entry.offset == 0 || self.max_contiguous_height != probe.prev {
                    return None;
                }
                self.max_contiguous_height = probe.next;
                self.next_probe(probe.next)
            },
        }
    }

    /// Records that block `height` was written; checkpoints when the
    /// highest height written rises to a multiple of
    /// [`LEGACY_CHECKPOINT_INTERVAL`].
    pub fn note_written(&mut self, height: u64, saved_offset: u64) -> (r: Option<LegacyCheckpoint>)
        ensures
            ({
                let v = old(self)@;
                if v.height_highwater < height {
                    &&& final(self)@ == (LegacyView { height_highwater: height, ..v })
                    &&& if height % LEGACY_CHECKPOINT_INTERVAL == 0 {
                        r matches Some(c) && c.sync_index_first == v.sync && c.header_bytes@
                            == legacy_checkpoint_bytes(v, saved_offset)
                    } else {
                        r == None::<LegacyCheckpoint>
                    }
                } else {
                    final(self)@ == v && r == None::<LegacyCheckpoint>
                }
            }),
    {
        if self.height_highwater < height {
            self.height_highwater = height;
            if height % 1024 == 0 {
                return Some(self.checkpoint(saved_offset));
            }
        }
        None
    }

    /// The header rewrite that records the data size `saved_offset`.
    pub fn checkpoint(&self, saved_offset: u64) -> (c: LegacyCheckpoint)
        ensures
            c.sync_index_first == self@.sync,
            c.header_bytes@ == legacy_checkpoint_bytes(self@, saved_offset),
    {
        let mut header = self.header;
        header.data_file_size = saved_offset;
        LegacyCheckpoint { sync_index_first: self.sync, header_bytes: header.to_bytes() }
    }

    /// The checkpoint made when the store is closed.
    pub fn close_checkpoint(&self) -> (c: LegacyCheckpoint)
        ensures
            c.sync_index_first == self@.sync,
            c.header_bytes@ == legacy_checkpoint_bytes(self@, self@.data_highwater),
    {
        self.checkpoint(self.data_highwater)
    }

    /// First step of a read: the slot to read for `height`.
    pub fn read_slot(&self, height: u64) -> (r: Result<u64, LegacyError>)
        ensures
            r == match legacy_slot_spec(self@.header.lowest_block_height, height) {
                Some(o) => Ok::<u64, LegacyError>(o),
                None => Err(LegacyError::InvalidBlockHeight),
            },
    {
        match self.index_entry_offset(height) {
            Some(o) => Ok(o),
            None => Err(LegacyError::InvalidBlockHeight),
        }
    }

    /// Second step: `slot` was read at the slot; a zero size means no block.
    pub fn on_slot(&self, slot: &[u8]) -> (r: LegacyReadStep)
        requires
            slot@.len() <= LEGACY_INDEX_ENTRY_SIZE,
        ensures
            ({
                let b = overlay(zeros(16), slot@);
                let size = u64_from_le(b.subrange(8, 16));
                if size == 0 {
                    r is NotFound
                } else {
                    r matches LegacyReadStep::ReadHeader { entry } && entry.encoded() == b
                }
            }),
    {
        let zero = zero_bytes(16);
        let bytes = overlay_bytes(zero.as_slice(), slot);
        let entry = IndexEntry::from_bytes(bytes.as_slice());
        proof {
            crate::le::lemma_u64_round_trip(entry.size);
            assert(bytes@.subrange(8, 16) =~= u64_le(entry.size));
        }
        if entry.size == 0 {
            LegacyReadStep::NotFound
        } else {
            LegacyReadStep::ReadHeader { entry }
        }
    }

    /// Third step: `read` was read at the entry's offset. The header must
    /// agree on the size; then `size` bytes are read at the returned offset.
    pub fn on_block_header(&self, entry: IndexEntry, read: &[u8]) -> (r: Result<
        (DataBlockHeader, u64, usize),
        LegacyError,
    >)
        requires
            read@.len() <= LEGACY_BLOCK_HEADER_SIZE,
            entry.offset + LEGACY_BLOCK_HEADER_SIZE <= u64::MAX,
        ensures
            ({
                let hb = overlay(zeros(24), read@);
                let size = u64_from_le(hb.subrange(8, 16));
                if size != entry.size {
                    r == Err::<(DataBlockHeader, u64, usize), LegacyError>(LegacyError::SizeMismatch)
                } else if entry.size > usize::MAX {
                    r == Err::<(DataBlockHeader, u64, usize), LegacyError>(
                        LegacyError::BlockSizeTooLarge,
                    )
                } else {
                    r matches Ok((h, off, n)) && h.encoded() == hb && off == entry.offset
                        + LEGACY_BLOCK_HEADER_SIZE && n == entry.size
                }
            }),
    {
        let zero = zero_bytes(24);
        let bytes = overlay_bytes(zero.as_slice(), read);
        let header = DataBlockHeader::from_bytes(bytes.as_slice());
        proof {
            crate::le::lemma_u64_round_trip(header.size);
            assert(bytes@.subrange(8, 16) =~= u64_le(header.size));
        }
        if header.size != entry.size {
            return Err(LegacyError::SizeMismatch);
        }
        if entry.size > usize::MAX as u64 {
            return Err(LegacyError::BlockSizeTooLarge);
        }
        Ok((header, entry.offset + 24, entry.size as usize))
    }

    /// Last step: `read` was read for the block (zero-padded to `size`); its
    /// checksum is computed here and checked by [`Self::check_payload`].
    pub fn on_payload(&self, header: DataBlockHeader, size: usize, read: &[u8]) -> (r: Result<
        Vec<u8>,
        LegacyError,
    >)
        requires
            read@.len() <= size,
        ensures
            match r {
                Ok(v) => v@ == overlay(zeros(size as nat), read@) && exists|s: &[u8]|
                    s@ == v@ && call_ensures(fxhash64, (s,), header.checksum),
                Err(e) => e == LegacyError::ChecksumMismatch && exists|s: &[u8], c: u64|
                    s@ == overlay(zeros(size as nat), read@) && call_ensures(fxhash64, (s,), c)
                        && c != header.checksum,
            },
    {
        let zero = zero_bytes(size);
        let block = overlay_bytes(zero.as_slice(), read);
        let hashed = block.as_slice();
        let checksum = fxhash64(hashed);
        proof {
            assert(call_ensures(fxhash64, (hashed,), checksum));
        }
        self.check_payload(header, block, checksum)
    }

    /// Checks a block read back whose checksum came out as `checksum`
    /// against its header.
    pub fn check_payload(&self, header: DataBlockHeader, block: Vec<u8>, checksum: u64) -> (r:
        Result<Vec<u8>, LegacyError>)
        ensures
            checksum != header.checksum ==> r == Err::<Vec<u8>, LegacyError>(
                LegacyError::ChecksumMismatch,
            ),
            checksum == header.checksum ==> (r matches Ok(v) && v@ == block@),
    {
        if checksum != header.checksum {
            return Err(LegacyError::ChecksumMismatch);
        }
        Ok(block)
    }
}

} // verus!
