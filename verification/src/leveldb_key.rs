//! Keys of the LevelDB database that blocks are imported from.
//!
//! A key is a one-byte prefix (`b` body, `h` header, `r` receipts) followed
//! by the block height in eight big-endian bytes and, for headers, a
//! 32-byte hash (or a single byte for the header-hash row). Keys built here
//! carry no hash: they serve as the start positions of iterators.

use crate::le::{lemma_u64_be_round_trip, push_u64_be, read_u64_be, u64_be, u64_from_be};
use vstd::prelude::*;

verus! {

/// Prefix byte of block bodies (`b`).
pub const BODY_PREFIX: u8 = 98;

/// Prefix byte of block headers and header hashes (`h`).
pub const HEADER_PREFIX: u8 = 104;

/// Prefix byte of block receipts (`r`).
pub const RECEIPTS_PREFIX: u8 = 114;

/// A LevelDB key, as far as the import reads it.
#[derive(Debug, Clone, Copy, PartialEq, Eq, Structural)]
pub enum LevelDBKey {
    Body(u64),
    Header(u64),
    HeaderHash(u64),
    Receipts(u64),
    /// The first key of the bodies.
    BodyStart,
    /// The first key of the headers.
    HeaderStart,
    /// The first key of the receipts.
    ReceiptsStart,
    /// A key of no kind the import knows.
    Invalid,
}

/// The key that the bytes `k` encode.
pub open spec fn key_from_bytes(k: Seq<u8>) -> LevelDBKey {
    if k.len() < 9 {
        LevelDBKey::Invalid
    } else {
        let h = u64_from_be(k.subrange(1, 9));
        if k[0] == BODY_PREFIX {
            LevelDBKey::Body(h)
        } else if k[0] == HEADER_PREFIX {
            if k.len() == 41 {
                LevelDBKey::Header(h)
            } else if k.len() == 10 {
                LevelDBKey::HeaderHash(h)
            } else {
                LevelDBKey::Invalid
            }
        } else if k[0] == RECEIPTS_PREFIX {
            LevelDBKey::Receipts(h)
        } else {
            LevelDBKey::Invalid
        }
    }
}

/// The bytes of a key: the prefix and, for a key with a height, the height
/// in big-endian (no hash). `Invalid` has none.
pub open spec fn key_bytes(key: LevelDBKey) -> Seq<u8> {
    match key {
        LevelDBKey::Body(h) => seq![BODY_PREFIX] + u64_be(h),
        LevelDBKey::Header(h) => seq![HEADER_PREFIX] + u64_be(h),
        LevelDBKey::HeaderHash(h) => seq![HEADER_PREFIX] + u64_be(h),
        LevelDBKey::Receipts(h) => seq![RECEIPTS_PREFIX] + u64_be(h),
        LevelDBKey::BodyStart => seq![BODY_PREFIX],
        LevelDBKey::HeaderStart => seq![HEADER_PREFIX],
        LevelDBKey::ReceiptsStart => seq![RECEIPTS_PREFIX],
        LevelDBKey::Invalid => Seq::empty(),
    }
}

impl LevelDBKey {
    /// The height of a key that has one.
    pub open spec fn spec_height(self) -> Option<u64> {
        match self {
            LevelDBKey::Body(h) => Some(h),
            LevelDBKey::Header(h) => Some(h),
            LevelDBKey::HeaderHash(h) => Some(h),
            LevelDBKey::Receipts(h) => Some(h),
            _ => None,
        }
    }

    /// The height of a body, header, header-hash or receipts key.
    pub fn height(&self) -> (h: Option<u64>)
        ensures
            h == self.spec_height(),
    {
        match self {
            LevelDBKey::Body(h) => Some(*h),
            LevelDBKey::Header(h) => Some(*h),
            LevelDBKey::HeaderHash(h) => Some(*h),
            LevelDBKey::Receipts(h) => Some(*h),
            _ => None,
        }
    }

    pub fn is_header(&self) -> (b: bool)
        ensures
            b == (*self is Header),
    {
        matches!(self, LevelDBKey::Header(_))
    }

    pub fn is_body(&self) -> (b: bool)
        ensures
            b == (*self is Body),
    {
        matches!(self, LevelDBKey::Body(_))
    }

    pub fn is_receipts(&self) -> (b: bool)
        ensures
            b == (*self is Receipts),
    {
        matches!(self, LevelDBKey::Receipts(_))
    }

    /// Reads a key from its bytes; any key of an unknown shape is
    /// `Invalid`.
    pub fn from_u8(key: &[u8]) -> (k: Self)
        ensures
            k == key_from_bytes(key@),
    {
        if key.len() < 9 {
            return LevelDBKey::Invalid;
        }
        let h = read_u64_be(key, 1);
        let first = key[0];
        if first == BODY_PREFIX {
            LevelDBKey::Body(h)
        } else if first == HEADER_PREFIX {
            if key.len() == 41 {
                LevelDBKey::Header(h)
            } else if key.len() == 10 {
                LevelDBKey::HeaderHash(h)
            } else {
                LevelDBKey::Invalid
            }
        } else if first == RECEIPTS_PREFIX {
            LevelDBKey::Receipts(h)
        } else {
            LevelDBKey::Invalid
        }
    }

    /// The bytes of the key.
    pub fn to_bytes(&self) -> (b: Vec<u8>)
        ensures
            b@ == key_bytes(*self),
    {
        let mut out: Vec<u8> = Vec::new();
        match self {
            LevelDBKey::Body(h) => {
                out.push(BODY_PREFIX);
                push_u64_be(&mut out, *h);
            },
            LevelDBKey::Header(h) => {
                out.push(HEADER_PREFIX);
                push_u64_be(&mut out, *h);
            },
            LevelDBKey::HeaderHash(h) => {
                out.push(HEADER_PREFIX);
                push_u64_be(&mut out, *h);
            },
            LevelDBKey::Receipts(h) => {
                out.push(RECEIPTS_PREFIX);
                push_u64_be(&mut out, *h);
            },
            LevelDBKey::BodyStart => {
                out.push(BODY_PREFIX);
            },
            LevelDBKey::HeaderStart => {
                out.push(HEADER_PREFIX);
            },
            LevelDBKey::ReceiptsStart => {
                out.push(RECEIPTS_PREFIX);
            },
            LevelDBKey::Invalid => {},
        }
        assert(out@ =~= key_bytes(*self));
        out
    }

    /// Calls `f` on the bytes of the key. An `Invalid` key has no bytes to
    /// give.
    pub fn as_slice<T, F: Fn(&[u8]) -> T>(&self, f: F) -> (r: T)
        requires
            !(*self is Invalid),
            forall|b: &[u8]| b@ == key_bytes(*self) ==> f.requires((b,)),
        ensures
            exists|b: &[u8]| b@ == key_bytes(*self) && f.ensures((b,), r),
    {
        let bytes = self.to_bytes();
        let s = bytes.as_slice();
        let r = f(s);
        assert(s@ == key_bytes(*self) && f.ensures((s,), r));
        r
    }
}

/// How a key starting with `h` reads: a header exactly when it is 41 bytes
/// long (prefix, 8-byte height, 32-byte hash), a header hash exactly when it
/// is 10 bytes long, and of no known kind at any other length; the height is
/// the eight big-endian bytes after the prefix.
pub proof fn law_header_keys_by_length(k: Seq<u8>)
    requires
        k.len() >= 1,
        k[0] == HEADER_PREFIX,
    ensures
        key_from_bytes(k) is Header <==> k.len() == 41,
        key_from_bytes(k) is HeaderHash <==> k.len() == 10,
        k.len() != 41 && k.len() != 10 ==> key_from_bytes(k) == LevelDBKey::Invalid,
        k.len() == 41 ==> key_from_bytes(k) == LevelDBKey::Header(u64_from_be(k.subrange(1, 9))),
        k.len() == 10 ==> key_from_bytes(k) == LevelDBKey::HeaderHash(
            u64_from_be(k.subrange(1, 9)),
        ),
{
}

/// Body and receipts keys are read by their prefix alone: any key of at
/// least nine bytes starting with `b` (or `r`) is the body (or receipts) key
/// of the height in the eight big-endian bytes after the prefix, whatever
/// follows; shorter keys are of no known kind.
pub proof fn law_body_and_receipts_keys(k: Seq<u8>)
    ensures
        k.len() < 9 ==> key_from_bytes(k) == LevelDBKey::Invalid,
        k.len() >= 9 && k[0] == BODY_PREFIX ==> key_from_bytes(k) == LevelDBKey::Body(
            u64_from_be(k.subrange(1, 9)),
        ),
        k.len() >= 9 && k[0] == RECEIPTS_PREFIX ==> key_from_bytes(k) == LevelDBKey::Receipts(
            u64_from_be(k.subrange(1, 9)),
        ),
        k.len() >= 9 && k[0] != BODY_PREFIX && k[0] != HEADER_PREFIX && k[0] != RECEIPTS_PREFIX
            ==> key_from_bytes(k) == LevelDBKey::Invalid,
{
}

/// Reading back the bytes of a body or receipts key gives the key; those of
/// a header key (which lack the hash) read as `Invalid`.
pub proof fn law_key_round_trip(key: LevelDBKey)
    ensures
        (key is Body || key is Receipts) ==> key_from_bytes(key_bytes(key)) == key,
        (key is Header || key is HeaderHash) ==> key_from_bytes(key_bytes(key)) is Invalid,
{
    if let Some(h) = key.spec_height() {
        lemma_u64_be_round_trip(h);
        let b = key_bytes(key);
        assert(b.subrange(1, 9) =~= u64_be(h));
    }
}

} // verus!
