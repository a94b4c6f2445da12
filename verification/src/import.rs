//! The rules of importing blocks from a LevelDB database.
//!
//! Headers, bodies and (optionally) receipts are walked side by side, in
//! key order. Each matching set is combined into one RLP list and written at
//! its height. The walk stops at the first row of the wrong kind and fails
//! when the rows' heights differ. Progress is reported every
//! [`PROGRESS_INTERVAL`] blocks.

use crate::leveldb_key::LevelDBKey;
use crate::store::{sync_mode_name, SyncMode};
use vstd::prelude::*;
use vstd::string::StrSliceExecFns;

verus! {

/// Blocks between two progress reports.
pub const PROGRESS_INTERVAL: u64 = 100000;

/// The RLP encoding of the list of byte strings `items`, as
/// `rlp::encode_list` produces it.
pub uninterp spec fn rlp_list_encoding(items: Seq<Seq<u8>>) -> Seq<u8>;

/// Calls `rlp::encode_list` on byte strings; the result is the encoding
/// named [`rlp_list_encoding`], a function of the items alone.
#[verifier::external_body]
fn rlp_encode_list(items: &[&[u8]]) -> (out: Vec<u8>)
    ensures
        out@ == rlp_list_encoding(items@.map_values(|s: &[u8]| s@)),
{
    rlp::encode_list::<&[u8], &[u8]>(items).to_vec()
}

/// What goes wrong in an import.
#[derive(Debug, Clone, Copy, PartialEq, Eq)]
pub enum ImportError {
    /// The sync mode is neither `sync` nor `async`.
    InvalidSyncMode,
    /// The rows read together are for different heights.
    HeightMismatch { body: LevelDBKey, header: LevelDBKey, receipts: Option<LevelDBKey> },
    /// The count of imported blocks overflows.
    CountOverflow,
}

/// Whether `a` and `b` hold the same characters.
fn str_equals(a: &str, b: &str) -> (r: bool)
    ensures
        r == (a@ == b@),
{
    let n = a.unicode_len();
    if n != b.unicode_len() {
        return false;
    }
    let mut i: usize = 0;
    while i < n
        invariant
            n == a@.len(),
            n == b@.len(),
            i <= n,
            forall|k: int| 0 <= k < i ==> a@[k] == b@[k],
        decreases n - i,
    {
        if a.get_char(i) != b.get_char(i) {
            return false;
        }
        i = i + 1;
    }
    assert(a@ =~= b@);
    true
}

/// The sync mode named `s`: `sync` or `async`.
pub open spec fn parse_sync_mode_spec(s: Seq<char>) -> Result<SyncMode, ImportError> {
    if s == sync_mode_name(SyncMode::Sync) {
        Ok(SyncMode::Sync)
    } else if s == sync_mode_name(SyncMode::Async) {
        Ok(SyncMode::Async)
    } else {
        Err(ImportError::InvalidSyncMode)
    }
}

/// The name of a sync mode reads back as that mode.
pub proof fn law_sync_mode_name_round_trip(m: SyncMode)
    ensures
        parse_sync_mode_spec(sync_mode_name(m)) == Ok::<SyncMode, ImportError>(m),
{
    assert(sync_mode_name(SyncMode::Sync) != sync_mode_name(SyncMode::Async));
}

/// Reads the sync mode of an import: `sync` or `async`.
pub fn parse_sync_mode(s: &str) -> (r: Result<SyncMode, ImportError>)
    ensures
        r == parse_sync_mode_spec(s@),
{
    let sync = "sync";
    let asynchronous = "async";
    proof {
        reveal_strlit("sync");
        reveal_strlit("async");
        assert(sync@ =~= seq!['s', 'y', 'n', 'c']);
        assert(asynchronous@ =~= seq!['a', 's', 'y', 'n', 'c']);
    }
    if str_equals(s, sync) {
        Ok(SyncMode::Sync)
    } else if str_equals(s, asynchronous) {
        Ok(SyncMode::Async)
    } else {
        Err(ImportError::InvalidSyncMode)
    }
}

/// The keys the body, header and receipts walks start from: the given
/// block's, or the first of each kind.
pub fn start_keys(start_block: Option<u64>) -> (r: (LevelDBKey, LevelDBKey, LevelDBKey))
    ensures
        r == match start_block {
            Some(h) => (LevelDBKey::Body(h), LevelDBKey::Header(h), LevelDBKey::Receipts(h)),
            None => (LevelDBKey::BodyStart, LevelDBKey::HeaderStart, LevelDBKey::ReceiptsStart),
        },
{
    match start_block {
        Some(h) => (LevelDBKey::Body(h), LevelDBKey::Header(h), LevelDBKey::Receipts(h)),
        None => (LevelDBKey::BodyStart, LevelDBKey::HeaderStart, LevelDBKey::ReceiptsStart),
    }
}

/// What to do with one set of rows.
#[derive(Debug, Clone, Copy, PartialEq, Eq)]
pub enum ImportStep {
    /// A row is of the wrong kind: the import is over.
    Stop,
    /// Combine the rows and write the block at `height`.
    Write { height: u64 },
}

/// The decision for a body row, a header row and, when receipts are
/// imported, a receipts row.
pub open spec fn import_step_spec(
    body: LevelDBKey,
    header: LevelDBKey,
    receipts: Option<LevelDBKey>,
) -> Result<ImportStep, ImportError> {
    if !(body is Body) || !(header is Header) || (receipts matches Some(r) && !(r is Receipts)) {
        Ok(ImportStep::Stop)
    } else if body.spec_height() != header.spec_height() || (receipts matches Some(r)
        && body.spec_height() != r.spec_height()) {
        Err(ImportError::HeightMismatch { body, header, receipts })
    } else {
        Ok(ImportStep::Write { height: body.spec_height().unwrap() })
    }
}

/// Decides what to do with one set of rows.
pub fn import_step(body: LevelDBKey, header: LevelDBKey, receipts: Option<LevelDBKey>) -> (r:
    Result<ImportStep, ImportError>)
    ensures
        r == import_step_spec(body, header, receipts),
{
    let receipts_ok = match receipts {
        Some(k) => k.is_receipts(),
        None => true,
    };
    if !body.is_body() || !header.is_header() || !receipts_ok {
        return Ok(ImportStep::Stop);
    }
    let bh = body.height();
    let mut same = bh == header.height();
    if let Some(k) = receipts {
        same = same && bh == k.height();
    }
    if !same {
        return Err(ImportError::HeightMismatch { body, header, receipts });
    }
    match bh {
        Some(h) => Ok(ImportStep::Write { height: h }),
        None => Ok(ImportStep::Stop),
    }
}

/// The block stored for one set of rows: the RLP list of the header, the
/// body and, when present, the receipts.
pub fn combine_rows(header: &[u8], body: &[u8], receipts: Option<&[u8]>) -> (out: Vec<u8>)
    ensures
        out@ == rlp_list_encoding(
            match receipts {
                Some(r) => seq![header@, body@, r@],
                None => seq![header@, body@],
            },
        ),
{
    match receipts {
        Some(r) => {
            let items = [header, body, r];
            let out = rlp_encode_list(&items);
            assert(items@.map_values(|s: &[u8]| s@) =~= seq![header@, body@, r@]);
            out
        },
        None => {
            let items = [header, body];
            let out = rlp_encode_list(&items);
            assert(items@.map_values(|s: &[u8]| s@) =~= seq![header@, body@]);
            out
        },
    }
}

/// The count of blocks imported so far.
pub struct ImportProgress {
    count: u64,
}

impl ImportProgress {
    pub closed spec fn spec_count(&self) -> u64 {
        self.count
    }

    pub fn new() -> (p: Self)
        ensures
            p.spec_count() == 0,
    {
        ImportProgress { count: 0 }
    }

    pub fn count(&self) -> (c: u64)
        ensures
            c == self.spec_count(),
    {
        self.count
    }

    /// Counts one more block; returns whether progress is to be reported.
    pub fn record(&mut self) -> (r: Result<bool, ImportError>)
        ensures
            old(self).spec_count() == u64::MAX ==> r == Err::<bool, ImportError>(
                ImportError::CountOverflow,
            ) && final(self).spec_count() == old(self).spec_count(),
            old(self).spec_count() < u64::MAX ==> final(self).spec_count() == old(self).spec_count()
                + 1 && r == Ok::<bool, ImportError>(
                final(self).spec_count() % PROGRESS_INTERVAL == 0,
            ),
    {
        match self.count.checked_add(1) {
            None => Err(ImportError::CountOverflow),
            Some(c) => {
                self.count = c;
                Ok(c % PROGRESS_INTERVAL == 0)
            },
        }
    }
}

} // verus!
