//! On-disk records: the index file header, index entries and the header
//! that precedes every block in a data file. All integers are little-endian.

use crate::le::{
    lemma_le_of_zero, lemma_u16_from_le_inverse, lemma_u16_round_trip, lemma_u32_from_le_inverse,
    lemma_u32_round_trip, lemma_u64_from_le_inverse, lemma_u64_round_trip, push_u16_le, push_u32_le,
    push_u64_le, read_u16_le, read_u32_le, read_u64_le, u16_le, u32_le, u64_from_le, u64_le,
    u32_from_le,
};
use vstd::prelude::*;

verus! {

/// Size in bytes of an encoded [`IndexFileHeader`].
pub const INDEX_HEADER_SIZE: u64 = 64;

/// Size in bytes of an encoded [`IndexEntry`].
pub const INDEX_ENTRY_SIZE: u64 = 16;

/// Size in bytes of an encoded [`BlockHeader`].
pub const BLOCK_HEADER_SIZE: u64 = 22;

/// `read` laid over `base`: the first `read.len()` bytes come from `read`, the
/// rest from `base`. This is what a positional read into a buffer pre-filled
/// with `base` leaves behind when it returns fewer bytes than asked for.
pub open spec fn overlay(base: Seq<u8>, read: Seq<u8>) -> Seq<u8>
    recommends
        read.len() <= base.len(),
{
    read + base.subrange(read.len() as int, base.len() as int)
}

/// Executable form of [`overlay`].
pub fn overlay_bytes(base: &[u8], read: &[u8]) -> (out: Vec<u8>)
    requires
        read@.len() <= base@.len(),
    ensures
        out@ == overlay(base@, read@),
        out@.len() == base@.len(),
{
    let mut out: Vec<u8> = Vec::new();
    let mut i: usize = 0;
    while i < base.len()
        invariant
            read@.len() <= base@.len(),
            i <= base@.len(),
            out@.len() == i,
            forall|k: int|
                0 <= k < i ==> out@[k] == (if k < read@.len() {
                    read@[k]
                } else {
                    base@[k]
                }),
        decreases base@.len() - i,
    {
        if i < read.len() {
            out.push(read[i]);
        } else {
            out.push(base[i]);
        }
        i = i + 1;
    }
    assert(out@ =~= overlay(base@, read@));
    out
}

/// A run of `n` zero bytes.
pub open spec fn zeros(n: nat) -> Seq<u8> {
    Seq::new(n, |_i: int| 0u8)
}

/// Executable form of [`zeros`].
pub fn zero_bytes(n: usize) -> (out: Vec<u8>)
    ensures
        out@ == zeros(n as nat),
{
    let mut out: Vec<u8> = Vec::new();
    let mut i: usize = 0;
    while i < n
        invariant
            i <= n,
            out@ == zeros(i as nat),
        decreases n - i,
    {
        out.push(0u8);
        i = i + 1;
        assert(out@ =~= zeros(i as nat));
    }
    out
}

/// Appends every byte of `bytes` to `out`.
pub fn push_all(out: &mut Vec<u8>, bytes: &[u8])
    ensures
        final(out)@ == old(out)@ + bytes@,
{
    let mut i: usize = 0;
    while i < bytes.len()
        invariant
            i <= bytes@.len(),
            out@ == old(out)@ + bytes@.subrange(0, i as int),
        decreases bytes@.len() - i,
    {
        out.push(bytes[i]);
        i = i + 1;
        assert(out@ =~= old(out)@ + bytes@.subrange(0, i as int));
    }
    assert(bytes@.subrange(0, bytes@.len() as int) =~= bytes@);
}

/// Where and how large a (compressed) block is, as stored in the index file
/// at the slot for its height. A slot with zero offset and zero size is
/// vacant.
#[derive(Clone, Copy, Debug)]
pub struct IndexEntry {
    pub offset: u64,
    pub size: u32,
    pub reserved: [u8; 4],
}

impl IndexEntry {
    /// The encoding of this entry: offset, size, then the reserved bytes.
    pub open spec fn encoded(self) -> Seq<u8> {
        u64_le(self.offset) + u32_le(self.size) + self.reserved@
    }

    /// An entry for a block at `offset` of `size` bytes, reserved bytes zero.
    pub fn new(offset: u64, size: u32) -> (e: Self)
        ensures
            e.offset == offset,
            e.size == size,
            e.reserved@ == zeros(4),
    {
        let e = IndexEntry { offset, size, reserved: [0u8; 4] };
        assert(e.reserved@ =~= zeros(4));
        e
    }

    /// True when the slot holds no block.
    pub fn is_vacant(&self) -> (b: bool)
        ensures
            b == (self.offset == 0 && self.size == 0),
    {
        self.offset == 0 && self.size == 0
    }

    /// The 16-byte encoding of this entry.
    pub fn to_bytes(&self) -> (out: Vec<u8>)
        ensures
            out@ == self.encoded(),
            out@.len() == INDEX_ENTRY_SIZE,
    {
        let mut out: Vec<u8> = Vec::new();
        push_u64_le(&mut out, self.offset);
        push_u32_le(&mut out, self.size);
        push_all(&mut out, self.reserved.as_slice());
        assert(out@ =~= self.encoded());
        out
    }

    /// Decodes a 16-byte slot.
    pub fn from_bytes(bytes: &[u8]) -> (e: Self)
        requires
            bytes@.len() == INDEX_ENTRY_SIZE,
        ensures
            e.encoded() == bytes@,
            e.offset == u64_from_le(bytes@.subrange(0, 8)),
            e.size == u32_from_le(bytes@.subrange(8, 12)),
            e.reserved@ == bytes@.subrange(12, 16),
    {
        let offset = read_u64_le(bytes, 0);
        let size = read_u32_le(bytes, 8);
        let e = IndexEntry { offset, size, reserved: [bytes[12], bytes[13], bytes[14], bytes[15]] };
        proof {
            lemma_u64_from_le_inverse(bytes@.subrange(0, 8));
            lemma_u32_from_le_inverse(bytes@.subrange(8, 12));
            assert(e.reserved@ =~= bytes@.subrange(12, 16));
            assert(e.encoded() =~= bytes@);
        }
        e
    }
}

impl Default for IndexEntry {
    fn default() -> (e: Self)
        ensures
            e.offset == 0,
            e.size == 0,
            e.reserved@ == zeros(4),
    {
        IndexEntry::new(0, 0)
    }
}

/// Decoding an encoded entry gives the entry back, and the all-zero slot
/// decodes to a vacant entry.
pub proof fn lemma_index_entry_codec(e: IndexEntry, bytes: Seq<u8>)
    ensures
        e.encoded().len() == INDEX_ENTRY_SIZE,
        bytes.len() == INDEX_ENTRY_SIZE ==> (e.encoded() == bytes <==> (e.offset == u64_from_le(
            bytes.subrange(0, 8)) && e.size == u32_from_le(bytes.subrange(8, 12))
            && e.reserved@ == bytes.subrange(12, 16))),
        e.encoded() == zeros(INDEX_ENTRY_SIZE as nat) ==> e.offset == 0 && e.size == 0,
{
    lemma_u64_round_trip(e.offset);
    lemma_u32_round_trip(e.size);
    let enc = e.encoded();
    assert(enc.subrange(0, 8) =~= u64_le(e.offset));
    assert(enc.subrange(8, 12) =~= u32_le(e.size));
    assert(enc.subrange(12, 16) =~= e.reserved@);
    if bytes.len() == INDEX_ENTRY_SIZE {
        if e.offset == u64_from_le(bytes.subrange(0, 8)) && e.size == u32_from_le(
            bytes.subrange(8, 12)) && e.reserved@ == bytes.subrange(12, 16) {
            lemma_u64_from_le_inverse(bytes.subrange(0, 8));
            lemma_u32_from_le_inverse(bytes.subrange(8, 12));
            assert(enc =~= bytes);
        }
    }
    if enc == zeros(INDEX_ENTRY_SIZE as nat) {
        lemma_le_of_zero();
        assert(enc.subrange(0, 8) =~= u64_le(0));
        assert(enc.subrange(8, 12) =~= u32_le(0));
        lemma_u64_round_trip(0);
        lemma_u32_round_trip(0);
    }
}

/// The first 64 bytes of the index file.
///
/// The first eight reserved bytes carry the highest contiguous height known
/// at the last checkpoint (zero: unknown); the other sixteen stay zero.
#[derive(Clone, Copy, Debug)]
pub struct IndexFileHeader {
    pub version: u64,
    pub max_data_file_size: u64,
    pub min_height: u64,
    pub max_height: u64,
    pub next_write_offset: u64,
    pub reserved: [u8; 24],
}

impl IndexFileHeader {
    /// The version number that this library writes.
    pub const INDEX_FILE_VERSION: u64 = 1;

    pub open spec fn encoded(self) -> Seq<u8> {
        u64_le(self.version) + u64_le(self.max_data_file_size) + u64_le(self.min_height) + u64_le(
            self.max_height,
        ) + u64_le(self.next_write_offset) + self.reserved@
    }

    /// The contiguous height recorded in the reserved area.
    pub open spec fn spec_persisted_contiguous_height(self) -> u64 {
        u64_from_le(self.reserved@.subrange(0, 8))
    }

    /// The header of a fresh store: version 1, no file-size cap
    /// (`u64::MAX`), lowest height 1, nothing written, reserved area zero.
    pub open spec fn is_fresh(self) -> bool {
        &&& self.version == 1
        &&& self.max_data_file_size == u64::MAX
        &&& self.min_height == 1
        &&& self.max_height == 0
        &&& self.next_write_offset == 0
        &&& self.reserved@ == zeros(24)
    }

    /// Sets the lowest height accepted by the store.
    pub fn with_lowest_block_height(self, lowest_block_height: u64) -> (h: Self)
        ensures
            h == (IndexFileHeader { min_height: lowest_block_height, ..self }),
    {
        IndexFileHeader { min_height: lowest_block_height, ..self }
    }

    /// Reads the contiguous height recorded in the reserved area.
    pub fn persisted_contiguous_height(&self) -> (h: u64)
        ensures
            h == self.spec_persisted_contiguous_height(),
    {
        read_u64_le(self.reserved.as_slice(), 0)
    }

    /// Records `height` in the reserved area, leaving the rest unchanged.
    pub fn with_persisted_contiguous_height(self, height: u64) -> (h: Self)
        ensures
            h.version == self.version,
            h.max_data_file_size == self.max_data_file_size,
            h.min_height == self.min_height,
            h.max_height == self.max_height,
            h.next_write_offset == self.next_write_offset,
            h.reserved@ == u64_le(height) + self.reserved@.subrange(8, 24),
            h.spec_persisted_contiguous_height() == height,
    {
        let mut h = self;
        h.reserved[0] = (height & 0xff) as u8;
        h.reserved[1] = ((height >> 8) & 0xff) as u8;
        h.reserved[2] = ((height >> 16) & 0xff) as u8;
        h.reserved[3] = ((height >> 24) & 0xff) as u8;
        h.reserved[4] = ((height >> 32) & 0xff) as u8;
        h.reserved[5] = ((height >> 40) & 0xff) as u8;
        h.reserved[6] = ((height >> 48) & 0xff) as u8;
        h.reserved[7] = ((height >> 56) & 0xff) as u8;
        proof {
            assert(h.reserved@ =~= u64_le(height) + self.reserved@.subrange(8, 24));
            assert(h.reserved@.subrange(0, 8) =~= u64_le(height));
            lemma_u64_round_trip(height);
        }
        h
    }

    /// The 64-byte encoding of this header.
    pub fn to_bytes(&self) -> (out: Vec<u8>)
        ensures
            out@ == self.encoded(),
            out@.len() == INDEX_HEADER_SIZE,
    {
        let mut out: Vec<u8> = Vec::new();
        push_u64_le(&mut out, self.version);
        push_u64_le(&mut out, self.max_data_file_size);
        push_u64_le(&mut out, self.min_height);
        push_u64_le(&mut out, self.max_height);
        push_u64_le(&mut out, self.next_write_offset);
        push_all(&mut out, self.reserved.as_slice());
        assert(out@ =~= self.encoded());
        out
    }

    /// Decodes a 64-byte header.
    pub fn from_bytes(bytes: &[u8]) -> (h: Self)
        requires
            bytes@.len() == INDEX_HEADER_SIZE,
        ensures
            h.encoded() == bytes@,
    {
        let version = read_u64_le(bytes, 0);
        let max_data_file_size = read_u64_le(bytes, 8);
        let min_height = read_u64_le(bytes, 16);
        let max_height = read_u64_le(bytes, 24);
        let next_write_offset = read_u64_le(bytes, 32);
        let mut reserved = [0u8; 24];
        let mut i: usize = 0;
        while i < 24
            invariant
                bytes@.len() == INDEX_HEADER_SIZE,
                i <= 24,
                reserved@.len() == 24,
                forall|k: int| 0 <= k < i ==> reserved@[k] == bytes@[40 + k],
            decreases 24 - i,
        {
            reserved[i] = bytes[40 + i];
            i = i + 1;
        }
        let h = IndexFileHeader {
            version,
            max_data_file_size,
            min_height,
            max_height,
            next_write_offset,
            reserved,
        };
        proof {
            lemma_u64_from_le_inverse(bytes@.subrange(0, 8));
            lemma_u64_from_le_inverse(bytes@.subrange(8, 16));
            lemma_u64_from_le_inverse(bytes@.subrange(16, 24));
            lemma_u64_from_le_inverse(bytes@.subrange(24, 32));
            lemma_u64_from_le_inverse(bytes@.subrange(32, 40));
            assert(reserved@ =~= bytes@.subrange(40, 64));
            assert(h.encoded() =~= bytes@);
        }
        h
    }
}

impl Default for IndexFileHeader {
    fn default() -> (h: Self)
        ensures
            h.is_fresh(),
    {
        let h = IndexFileHeader {
            version: 1,
            max_data_file_size: u64::MAX,
            min_height: 1,
            max_height: 0,
            next_write_offset: 0,
            reserved: [0u8; 24],
        };
        assert(h.reserved@ =~= zeros(24));
        h
    }
}

/// Encoding is injective: equal encodings mean equal headers.
pub proof fn lemma_index_header_codec(a: IndexFileHeader, b: IndexFileHeader)
    ensures
        a.encoded().len() == INDEX_HEADER_SIZE,
        a.encoded() == b.encoded() ==> a == b,
{
    lemma_u64_round_trip(a.version);
    lemma_u64_round_trip(a.max_data_file_size);
    lemma_u64_round_trip(a.min_height);
    lemma_u64_round_trip(a.max_height);
    lemma_u64_round_trip(a.next_write_offset);
    if a.encoded() == b.encoded() {
        lemma_u64_round_trip(b.version);
        lemma_u64_round_trip(b.max_data_file_size);
        lemma_u64_round_trip(b.min_height);
        lemma_u64_round_trip(b.max_height);
        lemma_u64_round_trip(b.next_write_offset);
        let ea = a.encoded();
        let eb = b.encoded();
        assert(ea.subrange(0, 8) =~= u64_le(a.version));
        assert(eb.subrange(0, 8) =~= u64_le(b.version));
        assert(ea.subrange(8, 16) =~= u64_le(a.max_data_file_size));
        assert(eb.subrange(8, 16) =~= u64_le(b.max_data_file_size));
        assert(ea.subrange(16, 24) =~= u64_le(a.min_height));
        assert(eb.subrange(16, 24) =~= u64_le(b.min_height));
        assert(ea.subrange(24, 32) =~= u64_le(a.max_height));
        assert(eb.subrange(24, 32) =~= u64_le(b.max_height));
        assert(ea.subrange(32, 40) =~= u64_le(a.next_write_offset));
        assert(eb.subrange(32, 40) =~= u64_le(b.next_write_offset));
        assert(ea.subrange(40, 64) =~= a.reserved@);
        assert(eb.subrange(40, 64) =~= b.reserved@);
        assert(a.reserved@ =~= b.reserved@);
        assert(a.reserved == b.reserved);
    }
}

/// The header written in front of every block in a data file.
#[derive(Clone, Copy, Debug)]
pub struct BlockHeader {
    pub height: u64,
    /// Length of the stored (compressed) payload.
    pub size: u32,
    /// Checksum of the uncompressed block.
    pub checksum: u64,
    pub version: u16,
}

/// Why a block header could not be decoded.
#[derive(Clone, Copy, Debug, PartialEq, Eq)]
pub enum HeaderDecodeError {
    /// The buffer is not exactly [`BLOCK_HEADER_SIZE`] bytes long.
    InvalidSize,
}

impl HeaderDecodeError {
    /// The class of this error: what was read is malformed.
    pub fn kind(&self) -> (k: crate::error::ErrorKind)
        ensures
            k == crate::error::ErrorKind::InvalidData,
    {
        crate::error::ErrorKind::InvalidData
    }
}

impl BlockHeader {
    /// Upper bound on the payload size that recovery accepts (1 GiB).
    pub const MAX_BLOCK_SIZE: u32 = 1073741824;

    /// The version written in every new block header.
    pub const BLOCK_ENTRY_VERSION: u16 = 1;

    /// Encoded length in bytes.
    pub const SERIALIZED_SIZE: usize = 22;

    pub open spec fn encoded(self) -> Seq<u8> {
        u64_le(self.height) + u32_le(self.size) + u64_le(self.checksum) + u16_le(self.version)
    }

    /// The 22-byte encoding: height, size, checksum, version.
    pub fn serialize(self) -> (out: Vec<u8>)
        ensures
            out@ == self.encoded(),
            out@.len() == BLOCK_HEADER_SIZE,
    {
        let mut out: Vec<u8> = Vec::new();
        push_u64_le(&mut out, self.height);
        push_u32_le(&mut out, self.size);
        push_u64_le(&mut out, self.checksum);
        push_u16_le(&mut out, self.version);
        assert(out@ =~= self.encoded());
        out
    }

    /// Decodes a header; fails exactly when `buf` is not 22 bytes long.
    pub fn deserialize(buf: &[u8]) -> (r: Result<Self, HeaderDecodeError>)
        ensures
            buf@.len() != BLOCK_HEADER_SIZE ==> r == Err::<Self, HeaderDecodeError>(
                HeaderDecodeError::InvalidSize,
            ),
            buf@.len() == BLOCK_HEADER_SIZE ==> (r matches Ok(h) && h.encoded() == buf@),
    {
        if buf.len() != 22 {
            return Err(HeaderDecodeError::InvalidSize);
        }
        let height = read_u64_le(buf, 0);
        let size = read_u32_le(buf, 8);
        let checksum = read_u64_le(buf, 12);
        let version = read_u16_le(buf, 20);
        let h = BlockHeader { height, size, checksum, version };
        proof {
            lemma_u64_from_le_inverse(buf@.subrange(0, 8));
            lemma_u32_from_le_inverse(buf@.subrange(8, 12));
            lemma_u64_from_le_inverse(buf@.subrange(12, 20));
            lemma_u16_from_le_inverse(buf@.subrange(20, 22));
            assert(h.encoded() =~= buf@);
        }
        Ok(h)
    }
}

/// Encoding is injective: equal encodings mean equal block headers.
pub proof fn lemma_block_header_codec(a: BlockHeader, b: BlockHeader)
    ensures
        a.encoded().len() == BLOCK_HEADER_SIZE,
        a.encoded() == b.encoded() ==> a == b,
{
    lemma_u64_round_trip(a.height);
    lemma_u32_round_trip(a.size);
    lemma_u64_round_trip(a.checksum);
    lemma_u16_round_trip(a.version);
    if a.encoded() == b.encoded() {
        lemma_u64_round_trip(b.height);
        lemma_u32_round_trip(b.size);
        lemma_u64_round_trip(b.checksum);
        lemma_u16_round_trip(b.version);
        let ea = a.encoded();
        let eb = b.encoded();
        assert(ea.subrange(0, 8) =~= u64_le(a.height));
        assert(eb.subrange(0, 8) =~= u64_le(b.height));
        assert(ea.subrange(8, 12) =~= u32_le(a.size));
        assert(eb.subrange(8, 12) =~= u32_le(b.size));
        assert(ea.subrange(12, 20) =~= u64_le(a.checksum));
        assert(eb.subrange(12, 20) =~= u64_le(b.checksum));
        assert(ea.subrange(20, 22) =~= u16_le(a.version));
        assert(eb.subrange(20, 22) =~= u16_le(b.version));
    }
}

} // verus!
