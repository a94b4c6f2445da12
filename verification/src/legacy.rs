//! The first store format: one index file (`.idx`) and one data file
//! (`.dat`), blocks stored uncompressed behind a 24-byte header and checked
//! with FxHash.
//!
//! Its index file opens with a 32-byte header; slot `h` lies at
//! `32 + 16 * (h - lowest height)`. Entries hold the data-file offset and
//! the size of a block.

use crate::le::{
    lemma_u32_from_le_inverse, lemma_u64_from_le_inverse, push_u32_le, push_u64_le, read_u32_le,
    read_u64_le, u32_le, u64_from_le, u64_le,
};
use crate::ffi::vec_into_boxed;
use bincode::error::DecodeError;
use vstd::arithmetic::power::pow;
use vstd::prelude::*;

verus! {

#[verifier::external_type_specification]
#[verifier::external_body]
pub struct ExDecodeError(DecodeError);

/// Size of an encoded [`IndexFileHeader`].
pub const LEGACY_INDEX_HEADER_SIZE: u64 = 32;

/// Size of an encoded [`IndexEntry`].
pub const LEGACY_INDEX_ENTRY_SIZE: u64 = 16;

/// Size of an encoded [`DataBlockHeader`].
pub const LEGACY_BLOCK_HEADER_SIZE: u64 = 24;

/// The `n` bytes of `x` least significant first.
pub open spec fn le_bytes(x: nat, n: nat) -> Seq<u8> {
    Seq::new(n, |i: int| ((x / pow(256, i as nat) as nat) % 256) as u8)
}

/// `bytes` is `x` in `bytes.len()` bytes, in one byte order or the other.
pub open spec fn native_bytes(bytes: Seq<u8>, x: nat) -> bool {
    bytes == le_bytes(x, bytes.len()) || bytes == le_bytes(x, bytes.len()).reverse()
}

/// Calls `u64::to_ne_bytes`: the eight bytes of `x` in the machine's byte
/// order, which is little- or big-endian.
#[verifier::external_body]
fn u64_ne_bytes(x: u64) -> (b: Vec<u8>)
    ensures
        b@.len() == 8,
        native_bytes(b@, x as nat),
{
    x.to_ne_bytes().to_vec()
}

/// Calls `usize::to_ne_bytes`: the bytes of `x` (as many as a `usize`
/// has) in the machine's byte order, which is little- or big-endian.
#[verifier::external_body]
fn usize_ne_bytes(x: usize) -> (b: Vec<u8>)
    ensures
        b@.len() * 8 == usize::BITS,
        native_bytes(b@, x as nat),
{
    x.to_ne_bytes().to_vec()
}

/// Calls `bincode::encode_to_vec` with the legacy configuration on one
/// `u64`; bincode's specification gives its eight little-endian bytes
/// (the encoding cannot fail: it writes into a `Vec`).
#[verifier::external_body]
fn bincode_encode_u64(x: u64) -> (b: Vec<u8>)
    ensures
        b@ == u64_le(x),
{
    match bincode::encode_to_vec(x, bincode::config::legacy()) {
        Ok(v) => v,
        Err(_) => Vec::new(),
    }
}

/// Calls `bincode::borrow_decode_from_slice` with the legacy configuration
/// for one `u64`: the first eight bytes little-endian; an error when there
/// are fewer.
#[verifier::external_body]
fn bincode_decode_u64(bytes: &[u8]) -> (r: Result<u64, DecodeError>)
    ensures
        match r {
            Ok(v) => bytes@.len() >= 8 && v == u64_from_le(bytes@.subrange(0, 8)),
            Err(_) => bytes@.len() < 8,
        },
{
    match bincode::borrow_decode_from_slice::<u64, _>(bytes, bincode::config::legacy()) {
        Ok((v, _)) => Ok(v),
        Err(e) => Err(e),
    }
}

/// Calls `fxhash::hash64` on the bytes. FxHash reads the bytes in the
/// machine's byte order and hashes their length as a `usize`, so its value
/// depends on the machine; nothing is claimed of it.
#[verifier::external_body]
pub fn fxhash64(data: &[u8]) -> (h: u64) {
    fxhash::hash64(data)
}

/// The header of a block passed across the C boundary: its id (never zero)
/// and its length.
#[derive(Debug, Clone, Copy)]
pub struct BlockHeader {
    pub id: u64,
    pub len: usize,
}

/// Why a [`BlockHeader`] could not be decoded.
#[derive(Debug)]
pub enum HeaderError {
    /// bincode failed: the bytes end early.
    Decode(DecodeError),
    /// The id is zero.
    ZeroId,
    /// The length does not fit in a `usize`.
    LengthOutOfRange,
}

impl BlockHeader {
    /// The bincode encoding (legacy configuration): id and length as
    /// little-endian `u64`s.
    pub open spec fn encoded(self) -> Seq<u8> {
        u64_le(self.id) + u64_le(self.len as u64)
    }

    /// Encodes the header.
    pub fn as_bytes(&self) -> (b: Box<[u8]>)
        ensures
            b@ == self.encoded(),
    {
        let mut out = bincode_encode_u64(self.id);
        let len = bincode_encode_u64(self.len as u64);
        crate::codec::push_all(&mut out, len.as_slice());
        vec_into_boxed(out)
    }

    /// Decodes a header from the start of `bytes`: the id, which must not be
    /// zero, then the length, which must fit in a `usize`.
    pub fn from_bytes(bytes: &[u8]) -> (r: Result<Self, HeaderError>)
        ensures
            bytes@.len() < 8 ==> r matches Err(HeaderError::Decode(_)),
            bytes@.len() >= 8 && u64_from_le(bytes@.subrange(0, 8)) == 0 ==> r matches Err(
                HeaderError::ZeroId,
            ),
            bytes@.len() >= 8 && u64_from_le(bytes@.subrange(0, 8)) != 0 && bytes@.len() < 16
                ==> r matches Err(HeaderError::Decode(_)),
            bytes@.len() >= 16 && u64_from_le(bytes@.subrange(0, 8)) != 0 && u64_from_le(
                bytes@.subrange(8, 16),
            ) > usize::MAX ==> r matches Err(HeaderError::LengthOutOfRange),
            bytes@.len() >= 16 && u64_from_le(bytes@.subrange(0, 8)) != 0 && u64_from_le(
                bytes@.subrange(8, 16),
            ) <= usize::MAX ==> (r matches Ok(h) && h.id == u64_from_le(bytes@.subrange(0, 8))
                && h.len == u64_from_le(bytes@.subrange(8, 16))),
    {
        let id = match bincode_decode_u64(bytes) {
            Ok(v) => v,
            Err(e) => {
                return Err(HeaderError::Decode(e));
            },
        };
        if id == 0 {
            return Err(HeaderError::ZeroId);
        }
        let rest = vstd::slice::slice_subrange(bytes, 8, bytes.len());
        assert(rest@ =~= bytes@.subrange(8, bytes@.len() as int));
        let len = match bincode_decode_u64(rest) {
            Ok(v) => v,
            Err(e) => {
                return Err(HeaderError::Decode(e));
            },
        };
        assert(rest@.len() >= 8 ==> rest@.subrange(0, 8) =~= bytes@.subrange(8, 16));
        if len > usize::MAX as u64 {
            return Err(HeaderError::LengthOutOfRange);
        }
        Ok(BlockHeader { id, len: len as usize })
    }
}

/// A block handed across the C boundary: its header and its bytes.
#[derive(Debug, Clone)]
pub struct Block {
    pub header: BlockHeader,
    pub data: Vec<u8>,
}

impl Block {
    /// The id and the length in the machine's byte order, then the bytes.
    pub fn as_bytes(&self) -> (b: Box<[u8]>)
        requires
            self.data@.len() == self.header.len,
        ensures
            b@.len() == 8 + usize::BITS / 8 + self.data@.len(),
            native_bytes(b@.subrange(0, 8), self.header.id as nat),
            native_bytes(b@.subrange(8, 8 + usize::BITS / 8), self.header.len as nat),
            b@.subrange(8 + usize::BITS / 8, b@.len() as int) == self.data@,
    {
        let mut out = u64_ne_bytes(self.header.id);
        let ghost first = out@;
        let len = usize_ne_bytes(self.header.len);
        crate::codec::push_all(&mut out, len.as_slice());
        let ghost mid = out@;
        crate::codec::push_all(&mut out, self.data.as_slice());
        assert(mid.subrange(0, 8) =~= first);
        assert(out@.subrange(0, 8) =~= first);
        assert(out@.subrange(8, 8 + usize::BITS / 8) =~= len@);
        assert(out@.subrange(8 + usize::BITS / 8, out@.len() as int) =~= self.data@);
        vec_into_boxed(out)
    }
}

impl Default for Block {
    fn default() -> (b: Self)
        ensures
            b.header.id == u64::MAX,
            b.header.len == 0,
            b.data@.len() == 0,
    {
        Block { header: BlockHeader { id: u64::MAX, len: 0 }, data: Vec::new() }
    }
}

/// The index entry of a block: where and how large it is.
#[derive(Clone, Copy, Debug)]
pub struct IndexEntry {
    pub offset: u64,
    pub size: u64,
}

impl IndexEntry {
    pub open spec fn encoded(self) -> Seq<u8> {
        u64_le(self.offset) + u64_le(self.size)
    }

    pub fn to_bytes(&self) -> (b: Vec<u8>)
        ensures
            b@ == self.encoded(),
    {
        let mut out: Vec<u8> = Vec::new();
        push_u64_le(&mut out, self.offset);
        push_u64_le(&mut out, self.size);
        assert(out@ =~= self.encoded());
        out
    }

    /// Decodes the 16 bytes of an entry.
    pub fn from_bytes(bytes: &[u8]) -> (e: Self)
        requires
            bytes@.len() == LEGACY_INDEX_ENTRY_SIZE,
        ensures
            e.encoded() == bytes@,
    {
        let e = IndexEntry { offset: read_u64_le(bytes, 0), size: read_u64_le(bytes, 8) };
        proof {
            lemma_u64_from_le_inverse(bytes@.subrange(0, 8));
            lemma_u64_from_le_inverse(bytes@.subrange(8, 16));
            assert(e.encoded() =~= bytes@);
        }
        e
    }
}

impl Default for IndexEntry {
    fn default() -> (e: Self)
        ensures
            e.offset == 0,
            e.size == 0,
    {
        IndexEntry { offset: 0, size: 0 }
    }
}

/// The header of the index file.
#[derive(Clone, Copy, Debug)]
pub struct IndexFileHeader {
    pub version: u32,
    /// Intended cap on the index file, in MiB.
    pub max_file_size_mb: u32,
    pub lowest_block_height: u64,
    pub highest_contiguous_block_height: u64,
    /// Bytes of the data file accounted for at the last checkpoint.
    pub data_file_size: u64,
}

impl IndexFileHeader {
    pub const INDEX_FILE_VERSION: u32 = 1;

    pub open spec fn encoded(self) -> Seq<u8> {
        u32_le(self.version) + u32_le(self.max_file_size_mb) + u64_le(self.lowest_block_height)
            + u64_le(self.highest_contiguous_block_height) + u64_le(self.data_file_size)
    }

    /// This header with another lowest height.
    pub fn with_lowest_block_height(self, lowest_block_height: u64) -> (h: Self)
        ensures
            h == (IndexFileHeader { lowest_block_height, ..self }),
    {
        IndexFileHeader { lowest_block_height, ..self }
    }

    pub fn to_bytes(&self) -> (b: Vec<u8>)
        ensures
            b@ == self.encoded(),
            b@.len() == LEGACY_INDEX_HEADER_SIZE,
    {
        let mut out: Vec<u8> = Vec::new();
        push_u32_le(&mut out, self.version);
        push_u32_le(&mut out, self.max_file_size_mb);
        push_u64_le(&mut out, self.lowest_block_height);
        push_u64_le(&mut out, self.highest_contiguous_block_height);
        push_u64_le(&mut out, self.data_file_size);
        assert(out@ =~= self.encoded());
        out
    }

    /// Decodes the 32 bytes of a header.
    pub fn from_bytes(bytes: &[u8]) -> (h: Self)
        requires
            bytes@.len() == LEGACY_INDEX_HEADER_SIZE,
        ensures
            h.encoded() == bytes@,
    {
        let h = IndexFileHeader {
            version: read_u32_le(bytes, 0),
            max_file_size_mb: read_u32_le(bytes, 4),
            lowest_block_height: read_u64_le(bytes, 8),
            highest_contiguous_block_height: read_u64_le(bytes, 16),
            data_file_size: read_u64_le(bytes, 24),
        };
        proof {
            lemma_u32_from_le_inverse(bytes@.subrange(0, 4));
            lemma_u32_from_le_inverse(bytes@.subrange(4, 8));
            lemma_u64_from_le_inverse(bytes@.subrange(8, 16));
            lemma_u64_from_le_inverse(bytes@.subrange(16, 24));
            lemma_u64_from_le_inverse(bytes@.subrange(24, 32));
            assert(h.encoded() =~= bytes@);
        }
        h
    }
}

impl Default for IndexFileHeader {
    fn default() -> (h: Self)
        ensures
            h.version == 1,
            h.max_file_size_mb == 1024,
            h.lowest_block_height == 1,
            h.highest_contiguous_block_height == 0,
            h.data_file_size == 0,
    {
        IndexFileHeader {
            version: 1,
            max_file_size_mb: 1024,
            lowest_block_height: 1,
            highest_contiguous_block_height: 0,
            data_file_size: 0,
        }
    }
}

/// The header in front of a block in the data file.
#[derive(Clone, Copy, Debug)]
pub struct DataBlockHeader {
    pub height: u64,
    pub size: u64,
    /// FxHash of the block.
    pub checksum: u64,
}

impl DataBlockHeader {
    pub open spec fn encoded(self) -> Seq<u8> {
        u64_le(self.height) + u64_le(self.size) + u64_le(self.checksum)
    }

    pub fn to_bytes(&self) -> (b: Vec<u8>)
        ensures
            b@ == self.encoded(),
    {
        let mut out: Vec<u8> = Vec::new();
        push_u64_le(&mut out, self.height);
        push_u64_le(&mut out, self.size);
        push_u64_le(&mut out, self.checksum);
        assert(out@ =~= self.encoded());
        out
    }

    pub fn from_bytes(bytes: &[u8]) -> (h: Self)
        requires
            bytes@.len() == LEGACY_BLOCK_HEADER_SIZE,
        ensures
            h.encoded() == bytes@,
    {
        let h = DataBlockHeader {
            height: read_u64_le(bytes, 0),
            size: read_u64_le(bytes, 8),
            checksum: read_u64_le(bytes, 16),
        };
        proof {
            lemma_u64_from_le_inverse(bytes@.subrange(0, 8));
            lemma_u64_from_le_inverse(bytes@.subrange(8, 16));
            lemma_u64_from_le_inverse(bytes@.subrange(16, 24));
            assert(h.encoded() =~= bytes@);
        }
        h
    }
}

/// A block returned to a C caller by the first format's read function:
/// the block's bytes; nothing (a null pointer) when there is no block; or,
/// on an error, the NUL-terminated message with a length of zero.
#[derive(Debug)]
pub struct FfiBlock {
    data: Option<Vec<u8>>,
    len: usize,
}

impl FfiBlock {
    /// The bytes behind the pointer (`None` for a null pointer).
    pub closed spec fn spec_data(&self) -> Option<Seq<u8>> {
        match self.data {
            Some(d) => Some(d@),
            None => None,
        }
    }

    /// The length reported to C.
    pub closed spec fn spec_len(&self) -> usize {
        self.len
    }

    /// The block handed to C for the outcome of a read. An error message
    /// must hold no NUL byte.
    pub fn from_read(r: Result<Option<Vec<u8>>, String>) -> (b: Self)
        requires
            r matches Err(m) ==> !vstd::utf8::encode_utf8(m@).contains(0u8),
        ensures
            match r {
                Ok(Some(v)) => b.spec_data() == Some(v@) && b.spec_len() == v@.len(),
                Ok(None) => b.spec_data() is None && b.spec_len() == 0,
                Err(m) => b.spec_data() == Some(vstd::utf8::encode_utf8(m@).push(0u8))
                    && b.spec_len() == 0,
            },
    {
        match r {
            Ok(Some(v)) => {
                let len = v.len();
                FfiBlock { data: Some(v), len }
            },
            Ok(None) => FfiBlock { data: None, len: 0 },
            Err(m) => {
                let mut bytes = vstd::slice::slice_to_vec(m.as_str().as_bytes());
                bytes.push(0u8);
                FfiBlock { data: Some(bytes), len: 0 }
            },
        }
    }

    /// Whether the pointer is null.
    pub fn is_null(&self) -> (n: bool)
        ensures
            n == self.spec_data() is None,
    {
        self.data.is_none()
    }

    /// The length reported to C.
    pub fn len(&self) -> (n: usize)
        ensures
            n == self.spec_len(),
    {
        self.len
    }

    /// The bytes behind the pointer; empty for a null pointer.
    pub fn bytes(&self) -> (s: &[u8])
        ensures
            s@ == match self.spec_data() {
                Some(d) => d,
                None => Seq::empty(),
            },
    {
        match &self.data {
            Some(d) => d.as_slice(),
            None => &[],
        }
    }
}

} // verus!
