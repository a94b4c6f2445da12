//! Placement of blocks across data files.
//!
//! With a file-size cap `c`, global offset `o` lives at local offset `o % c`
//! inside data file `o / c`. Without a cap there is a single data file and
//! global and local offsets coincide.

use crate::error::StoreError;
use vstd::prelude::*;

verus! {

/// `(file index, local offset)` of a global offset.
pub open spec fn split_offset_spec(cap: Option<u64>, global: u64) -> (u32, u64) {
    match cap {
        None => (0u32, global),
        Some(c) => {
            let idx = global / c;
            (if idx > u32::MAX {
                u32::MAX
            } else {
                idx as u32
            }, global % c)
        },
    }
}

/// Translates a global offset into `(file index, local offset)`. File
/// indices beyond `u32::MAX` saturate.
pub fn split_offset(cap: Option<u64>, global: u64) -> (r: (u32, u64))
    requires
        cap matches Some(c) ==> c > 0,
    ensures
        r == split_offset_spec(cap, global),
{
    match cap {
        None => (0, global),
        Some(c) => {
            let idx = global / c;
            let local = global % c;
            let idx32: u32 = if idx > 4294967295 {
                4294967295
            } else {
                idx as u32
            };
            (idx32, local)
        },
    }
}

/// The global offset at which data file `file_index + 1` starts.
pub open spec fn next_file_start_spec(file_index: u32, cap: u64) -> Result<u64, StoreError> {
    if file_index == u32::MAX || (file_index + 1) * cap > u64::MAX {
        Err(StoreError::NextFileOverflow { file_index, cap })
    } else {
        Ok(((file_index + 1) * cap) as u64)
    }
}

/// Computes the global offset at the start of the file after
/// `current_file_idx`; fails when it overflows.
pub fn advance_to_next_file(current_file_idx: u32, cap: u64) -> (r: Result<u64, StoreError>)
    ensures
        r == next_file_start_spec(current_file_idx, cap),
{
    match current_file_idx.checked_add(1) {
        None => Err(StoreError::NextFileOverflow { file_index: current_file_idx, cap }),
        Some(next) => match (next as u64).checked_mul(cap) {
            None => Err(StoreError::NextFileOverflow { file_index: current_file_idx, cap }),
            Some(start) => Ok(start),
        },
    }
}

/// Where a block of `size` bytes (header included) goes when the data
/// written so far ends at `current`: `(write offset, new end)`.
///
/// Without a cap the block goes at `current`. With a cap `c`, a block larger
/// than `c` is refused; otherwise it goes at `current` if it fits in the rest
/// of the current file, and at the start of the next file if it does not.
pub open spec fn reserve_spec(current: u64, cap: Option<u64>, size: u64) -> Result<
    (u64, u64),
    StoreError,
> {
    let placed: Result<u64, StoreError> = match cap {
        None => Ok(current),
        Some(c) => {
            if size > c {
                Err(StoreError::BlockExceedsFileSize { size, cap: c })
            } else if current % c + size > u64::MAX {
                Err(StoreError::BlockEndOverflow { offset_within_file: (current % c) as u64, size })
            } else if current % c + size <= c {
                Ok(current)
            } else if current / c > u32::MAX {
                Err(StoreError::FileIndexOverflow { file_number: (current / c) as u64, cap: c })
            } else {
                next_file_start_spec((current / c) as u32, c)
            }
        },
    };
    match placed {
        Err(e) => Err(e),
        Ok(w) => if w + size > u64::MAX {
            Err(StoreError::HighwaterOverflow { write_offset: w, size })
        } else {
            Ok((w, (w + size) as u64))
        },
    }
}

pub proof fn lemma_div_mod_step(current: u64, c: u64)
    requires
        c > 0,
        current / c + 1 <= u32::MAX + 1,
        (current / c + 1) * c <= u64::MAX,
    ensures
        (current / c + 1) * c > current,
        ((current / c + 1) * c) % (c as int) == 0,
{
    let q = current / c;
    let r = current % c;
    assert(current == q * c + r) by (nonlinear_arith)
        requires
            q == current / c,
            r == current % c,
            c > 0,
    ;
    assert((q + 1) * c == q * c + c) by (nonlinear_arith);
    assert(((q + 1) * c) % (c as int) == 0) by (nonlinear_arith)
        requires
            c > 0,
    ;
}

/// A block that fits in the rest of the current data file stays in it: with
/// a cap `c`, when the data ends at `current` and `current % c + size <= c`,
/// the space reserved starts at `current` and ends `size` bytes later. Without
/// a cap the space always starts at `current`.
pub proof fn law_reserve_stays_in_file_when_it_fits(current: u64, cap: Option<u64>, size: u64)
    requires
        cap matches Some(c) ==> c > 0 && current % c + size <= c,
        current + size <= u64::MAX,
    ensures
        reserve_spec(current, cap, size) == Ok::<(u64, u64), StoreError>(
            (current, (current + size) as u64),
        ),
{
}

/// A block larger than the file-size cap is refused, wherever the data ends.
pub proof fn law_reserve_refuses_block_larger_than_file(current: u64, c: u64, size: u64)
    requires
        size > c,
    ensures
        reserve_spec(current, Some(c), size) == Err::<(u64, u64), StoreError>(
            StoreError::BlockExceedsFileSize { size, cap: c },
        ),
{
}

/// A block that does not fit in the rest of the current data file (but fits
/// in a file) is placed at the start of the next data file, `(current / c + 1)
/// * c`, when that offset and its end are representable.
pub proof fn law_reserve_moves_to_next_file_when_full(current: u64, c: u64, size: u64)
    requires
        c > 0,
        size <= c,
        current % c + size > c,
        current / c < u32::MAX,
        (current / c + 1) * c + size <= u64::MAX,
    ensures
        reserve_spec(current, Some(c), size) == Ok::<(u64, u64), StoreError>(
            (((current / c + 1) * c) as u64, ((current / c + 1) * c + size) as u64),
        ),
        (current / c + 1) * c > current,
        ((current / c + 1) * c) % (c as int) == 0,
{
    assert((current / c + 1) * c <= u64::MAX) by (nonlinear_arith)
        requires
            (current / c + 1) * c + size <= u64::MAX,
            size >= 0,
    ;
    assert((current / c + 1) * c >= c) by (nonlinear_arith)
        requires
            c > 0,
            current / c >= 0,
    ;
    assert(current % c < c);
    let f = (current / c) as u32;
    assert(f == current / c);
    assert((f + 1) * c == (current / c + 1) * c);
    lemma_div_mod_step(current, c);
}

/// The reserved space leaves the current data file only when the block does
/// not fit in what is left of it: with a cap `c`, a reservation that does not
/// start at `current` starts a new data file and follows a block that would
/// have crossed the end of the current one.
pub proof fn law_reserve_moves_only_when_full(current: u64, c: u64, size: u64)
    requires
        c > 0,
        reserve_spec(current, Some(c), size) is Ok,
    ensures
        ({
            let (w, end) = reserve_spec(current, Some(c), size)->Ok_0;
            &&& end == w + size
            &&& w == current <==> current % c + size <= c
            &&& w != current ==> w == (current / c + 1) * c && w % c == 0
        }),
{
    let (w, end) = reserve_spec(current, Some(c), size)->Ok_0;
    if current % c + size > c {
        assert(current / c <= u32::MAX);
        lemma_div_mod_step(current, c);
    }
}

/// Reserved space starts at or after `current`, ends `size` bytes later, and,
/// with a cap, lies within a single data file.
pub proof fn lemma_reserve_placement(current: u64, cap: Option<u64>, size: u64)
    requires
        cap matches Some(c) ==> c > 0,
    ensures
        reserve_spec(current, cap, size) matches Ok((w, end)) ==> {
            &&& current <= w
            &&& end == w + size
            &&& (cap matches Some(c) ==> w % c + size <= c)
        },
{
    if let Ok((w, end)) = reserve_spec(current, cap, size) {
        if let Some(c) = cap {
            if current % c + size <= c {
            } else {
                lemma_div_mod_step(current, c);
            }
        }
    }
}

/// With a cap, a global offset is its file's start plus its local offset,
/// and the local offset lies within the file.
pub proof fn law_split_offset_inverse(c: u64, global: u64)
    requires
        c > 0,
        global / c <= u32::MAX,
    ensures
        split_offset_spec(Some(c), global).0 * c + split_offset_spec(Some(c), global).1 == global,
        split_offset_spec(Some(c), global).1 < c,
{
    vstd::arithmetic::div_mod::lemma_fundamental_div_mod(global as int, c as int);
    assert((global / c) * c == c * (global / c)) by (nonlinear_arith);
}

} // verus!
