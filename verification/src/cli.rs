//! The rules of the command-line tool: where the index and data files are,
//! how a store is copied, and how a block is shown.

use vstd::prelude::*;

verus! {

/// A path the command line did not give.
#[derive(Debug, Clone, Copy, PartialEq, Eq)]
pub enum PathError {
    /// Neither `--dbpath` nor `--index-path` was given.
    MissingIndexPath,
    /// Neither `--dbpath` nor `--data-path` was given.
    MissingDataPath,
}

impl PathError {
    /// The message shown to the user.
    pub fn message(&self) -> (m: &'static str)
        ensures
            *self == PathError::MissingIndexPath ==> m@ =~= "Either --dbpath or --index-path must be specified"@,
            *self == PathError::MissingDataPath ==> m@ =~= "Either --dbpath or --data-path must be specified"@,
    {
        match self {
            PathError::MissingIndexPath => "Either --dbpath or --index-path must be specified",
            PathError::MissingDataPath => "Either --dbpath or --data-path must be specified",
        }
    }
}

/// Resolves the index and data paths: each is its own option when given,
/// else the database path. The index path is resolved first.
pub fn path_resolver(db_path: Option<String>, index_path: Option<String>, data_path: Option<
    String,
>) -> (r: Result<(String, String), PathError>)
    ensures
        index_path is None && db_path is None ==> r == Err::<(String, String), PathError>(
            PathError::MissingIndexPath,
        ),
        (index_path is Some || db_path is Some) && data_path is None && db_path is None ==> r
            == Err::<(String, String), PathError>(PathError::MissingDataPath),
        (index_path is Some || db_path is Some) && (data_path is Some || db_path is Some) ==> (
        r matches Ok((i, d)) && i@ == (match index_path {
            Some(p) => p@,
            None => db_path.unwrap()@,
        }) && d@ == (match data_path {
            Some(p) => p@,
            None => db_path.unwrap()@,
        })),
{
    let index = match index_path {
        Some(p) => p,
        None => match &db_path {
            Some(p) => p.clone(),
            None => {
                return Err(PathError::MissingIndexPath);
            },
        },
    };
    let data = match data_path {
        Some(p) => p,
        None => match &db_path {
            Some(p) => p.clone(),
            None => {
                return Err(PathError::MissingDataPath);
            },
        },
    };
    Ok((index, data))
}

/// Where a copy starts: the lowest height of the target store and the first
/// height copied. Both are the given start block; without one, the source's
/// lowest height.
pub fn copy_start(start_block: Option<u64>, source_min_height: u64) -> (r: (u64, u64))
    ensures
        r == match start_block {
            Some(h) => (h, h),
            None => (source_min_height, source_min_height),
        },
{
    let target_min_height = match start_block {
        Some(h) => h,
        None => source_min_height,
    };
    let first = match start_block {
        Some(h) => h,
        None => target_min_height,
    };
    (target_min_height, first)
}

/// The height copied after `height`; `None` when it would overflow.
pub fn copy_next(height: u64) -> (r: Option<u64>)
    ensures
        height < u64::MAX ==> r == Some((height + 1) as u64),
        height == u64::MAX ==> r is None,
{
    height.checked_add(1)
}

/// The last height copied when the copy stopped at `height` (which was not
/// found): one below, or zero.
pub fn last_copied(height: u64) -> (h: u64)
    ensures
        h == if height == 0 {
            0
        } else {
            height - 1
        },
{
    height.saturating_sub(1)
}

/// The hex dump that `pretty_hex::pretty_hex` makes of `bytes`.
pub uninterp spec fn hex_dump(bytes: Seq<u8>) -> Seq<char>;

/// Calls `pretty_hex::pretty_hex`; the result is the dump named
/// [`hex_dump`], a function of the bytes alone.
#[verifier::external_body]
fn pretty_hex_of(bytes: &[u8]) -> (s: String)
    ensures
        s@ == hex_dump(bytes@),
{
    pretty_hex::pretty_hex(&bytes)
}

/// How a block is shown: its hex dump with addresses and ASCII.
pub fn render_block(block: &[u8]) -> (s: String)
    ensures
        s@ == hex_dump(block@),
{
    pretty_hex_of(block)
}

} // verus!
