//! A model of files as byte sequences, for stating what reads return after
//! writes.

use crate::codec::{overlay, zeros};
use vstd::prelude::*;

verus! {

/// The bytes a positional read of `len` bytes at `off` returns from a file
/// holding `file`: those present, fewer at the end of the file.
pub open spec fn read_at(file: Seq<u8>, off: int, len: nat) -> Seq<u8> {
    if off >= file.len() {
        Seq::empty()
    } else if off + len <= file.len() {
        file.subrange(off, off + len)
    } else {
        file.subrange(off, file.len() as int)
    }
}

/// A file holding `file` after a positional write of `bytes` at `off`; a
/// write past the end extends it, with zeros in any gap.
pub open spec fn write_at(file: Seq<u8>, off: int, bytes: Seq<u8>) -> Seq<u8> {
    let end = off + bytes.len();
    let len = if end > file.len() {
        end
    } else {
        file.len() as int
    };
    Seq::new(
        len as nat,
        |i: int|
            if off <= i < end {
                bytes[i - off]
            } else if i < file.len() {
                file[i]
            } else {
                0u8
            },
    )
}

/// A read into a zeroed buffer of `len` bytes: the bytes present, then zeros.
pub open spec fn padded_read(file: Seq<u8>, off: int, len: nat) -> Seq<u8> {
    overlay(zeros(len), read_at(file, off, len))
}

/// The contents of data file `index`; a file not yet created reads as empty.
pub open spec fn data_file(data: Map<u32, Seq<u8>>, index: u32) -> Seq<u8> {
    if data.contains_key(index) {
        data[index]
    } else {
        Seq::empty()
    }
}

/// A write followed by a read of the same range gives the written bytes.
pub proof fn lemma_read_own_write(file: Seq<u8>, off: int, bytes: Seq<u8>)
    requires
        0 <= off,
    ensures
        read_at(write_at(file, off, bytes), off, bytes.len()) == bytes,
        write_at(file, off, bytes).len() >= off + bytes.len(),
{
    let w = write_at(file, off, bytes);
    if bytes.len() > 0 {
        assert(read_at(w, off, bytes.len()) =~= bytes);
    } else {
        assert(read_at(w, off, bytes.len()) =~= bytes);
    }
}

/// A write does not change what a read of a range that ends before it and
/// lies within the file returns.
pub proof fn lemma_read_before_write(file: Seq<u8>, off: int, bytes: Seq<u8>, roff: int, len: nat)
    requires
        0 <= roff,
        roff + len <= off,
        roff + len <= file.len(),
    ensures
        read_at(write_at(file, off, bytes), roff, len) == read_at(file, roff, len),
{
    let w = write_at(file, off, bytes);
    assert(read_at(w, roff, len) =~= read_at(file, roff, len));
}

/// A write does not change what a padded read of a disjoint range returns.
pub proof fn lemma_padded_read_disjoint_write(
    file: Seq<u8>,
    off: int,
    bytes: Seq<u8>,
    roff: int,
    len: nat,
)
    requires
        0 <= off,
        0 <= roff,
        roff + len <= off || off + bytes.len() <= roff,
    ensures
        padded_read(write_at(file, off, bytes), roff, len) == padded_read(file, roff, len),
{
    let w = write_at(file, off, bytes);
    assert(padded_read(w, roff, len) =~= padded_read(file, roff, len));
}

/// Padding a full read changes nothing.
pub proof fn lemma_overlay_full(n: nat, bytes: Seq<u8>)
    requires
        bytes.len() == n,
    ensures
        overlay(zeros(n), bytes) == bytes,
{
    assert(overlay(zeros(n), bytes) =~= bytes);
}

} // verus!
