//! Errors reported by the store's rules.

use vstd::prelude::*;

verus! {

/// The class of an error, in the sense of `std::io::ErrorKind`.
#[derive(Clone, Copy, Debug, PartialEq, Eq)]
pub enum ErrorKind {
    /// The caller asked for something the store does not accept.
    InvalidInput,
    /// What is on disk is inconsistent or corrupt.
    InvalidData,
}

/// Everything that the store's rules reject.
#[derive(Clone, Copy, Debug, PartialEq, Eq)]
pub enum StoreError {
    /// `max_data_files` was zero.
    MaxDataFilesZero,
    /// A write of a zero-length block.
    EmptyBlock,
    /// A block, or its compressed form, does not fit in a `u32` length.
    BlockTooLarge,
    /// The height lies below the store's lowest height, or its index slot
    /// would lie beyond `u64::MAX`.
    InvalidBlockHeight,
    /// The stored block is larger than one data file may be.
    BlockExceedsFileSize { size: u64, cap: u64 },
    /// The end of the block within its data file overflows `u64`.
    BlockEndOverflow { offset_within_file: u64, size: u64 },
    /// The data file number does not fit in a `u32`.
    FileIndexOverflow { file_number: u64, cap: u64 },
    /// The start of the data file after `file_index` overflows `u64`.
    NextFileOverflow { file_index: u32, cap: u64 },
    /// The end of the reserved space overflows `u64`.
    HighwaterOverflow { write_offset: u64, size: u64 },
    /// The index entry and the block header disagree on the block's size.
    SizeMismatch,
    /// The block read back does not match its checksum.
    ChecksumMismatch,
    /// The stored payload could not be decompressed.
    DecompressFailed,
    /// The stored block's position plus its header overflows `u64`.
    BlockOffsetOverflow,
    /// A data file below the highest one present is missing.
    MissingDataFile { index: u32 },
    /// More than one data file exists although files are not split.
    MultipleDataFiles,
    /// The data files' total size overflows `u64`.
    DataSizeOverflow { max_index: u32, cap: u64, last_size: u64 },
    /// The data files hold fewer bytes than the index header says were written.
    DataShorterThanIndex { calculated: u64, next_write_offset: u64 },
    /// During recovery, the end of a block within its file overflows `u64`.
    RecoveryBlockEndOverflow { file_index: u32, local_offset: u64, block_size: u32 },
    /// During recovery, the offset after a block overflows `u64`.
    RecoveryOffsetOverflow { offset: u64, block_size: u32 },
}

impl StoreError {
    /// The class of this error.
    pub open spec fn spec_kind(self) -> ErrorKind {
        match self {
            StoreError::MaxDataFilesZero => ErrorKind::InvalidInput,
            StoreError::EmptyBlock => ErrorKind::InvalidInput,
            StoreError::BlockTooLarge => ErrorKind::InvalidInput,
            StoreError::InvalidBlockHeight => ErrorKind::InvalidInput,
            StoreError::BlockExceedsFileSize { .. } => ErrorKind::InvalidInput,
            StoreError::BlockEndOverflow { .. } => ErrorKind::InvalidInput,
            StoreError::FileIndexOverflow { .. } => ErrorKind::InvalidInput,
            StoreError::HighwaterOverflow { .. } => ErrorKind::InvalidInput,
            _ => ErrorKind::InvalidData,
        }
    }

    /// The class of this error.
    pub fn kind(&self) -> (k: ErrorKind)
        ensures
            k == self.spec_kind(),
    {
        match self {
            StoreError::MaxDataFilesZero => ErrorKind::InvalidInput,
            StoreError::EmptyBlock => ErrorKind::InvalidInput,
            StoreError::BlockTooLarge => ErrorKind::InvalidInput,
            StoreError::InvalidBlockHeight => ErrorKind::InvalidInput,
            StoreError::BlockExceedsFileSize { .. } => ErrorKind::InvalidInput,
            StoreError::BlockEndOverflow { .. } => ErrorKind::InvalidInput,
            StoreError::FileIndexOverflow { .. } => ErrorKind::InvalidInput,
            StoreError::HighwaterOverflow { .. } => ErrorKind::InvalidInput,
            _ => ErrorKind::InvalidData,
        }
    }
}

} // verus!
