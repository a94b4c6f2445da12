//! Calls into the outside crates that the store's logic relies on.

use vstd::prelude::*;

verus! {

/// The 64-bit xxHash of `data` with `seed`, as `xxhash_rust::xxh64::xxh64`
/// computes it.
pub uninterp spec fn xxh64_of(data: Seq<u8>, seed: u64) -> u64;

/// The zstd frame that `zstd::encode_all` produces for `data` at level 3.
pub uninterp spec fn zstd_encoded(data: Seq<u8>) -> Seq<u8>;

/// What `zstd::decode_all` gives back for `frame`; `None` when it reports an
/// error.
pub uninterp spec fn zstd_decoded(frame: Seq<u8>) -> Option<Seq<u8>>;

/// Calls `xxhash_rust::xxh64::xxh64`; the result is the hash named
/// [`xxh64_of`], a function of the bytes and the seed alone.
#[verifier::external_body]
pub fn xxh64(data: &[u8], seed: u64) -> (h: u64)
    ensures
        h == xxh64_of(data@, seed),
{
    xxhash_rust::xxh64::xxh64(data, seed)
}

/// Calls `zstd::encode_all` at level 3 on an in-memory source. Reading a
/// slice and writing a `Vec` cannot fail, so the call fails only when memory
/// runs out (and then panics, as allocation failure does). Claimed of the
/// result: it is the frame named [`zstd_encoded`]; it is not empty (a zstd
/// frame starts with a four-byte magic number); and `zstd::decode_all` gives
/// the input back from it (zstd is lossless).
#[verifier::external_body]
pub fn zstd_compress(data: &[u8]) -> (c: Vec<u8>)
    ensures
        c@ == zstd_encoded(data@),
        c@.len() > 0,
        zstd_decoded(c@) == Some(data@),
{
    zstd::encode_all(data, 3).expect("in-memory compression only fails when memory runs out")
}

/// Calls `zstd::decode_all` on an in-memory source; `None` when zstd reports
/// an error. The result is the one named [`zstd_decoded`].
#[verifier::external_body]
pub fn zstd_decompress(frame: &[u8]) -> (r: Option<Vec<u8>>)
    ensures
        match r {
            Some(d) => zstd_decoded(frame@) == Some(d@),
            None => zstd_decoded(frame@) == None::<Seq<u8>>,
        },
{
    zstd::decode_all(frame).ok()
}

} // verus!
