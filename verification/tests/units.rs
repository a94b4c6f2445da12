// Scenarios for the file names, the layout rules, the codecs, the values of
// the C boundary, the import rules and the command-line rules.

use std::collections::BTreeMap;

use blockstore::cli::{copy_next, copy_start, last_copied, path_resolver, render_block, PathError};
use blockstore::codec::{BlockHeader, HeaderDecodeError, IndexEntry, IndexFileHeader};
use blockstore::error::StoreError;
use blockstore::ffi::{
    invoke_with_handle, BlockResult, BorrowedSlice, OwnedSlice, StoreArgs, StoreArgsError,
    VoidResult,
};
use blockstore::file_set::FileSet;
use blockstore::import::{
    combine_rows, import_step, parse_sync_mode, start_keys, ImportError, ImportProgress,
    ImportStep,
};
use blockstore::layout::{advance_to_next_file, split_offset};
use blockstore::leveldb_key::LevelDBKey;
use blockstore::names::{data_file_name, parse_data_file_index};
use blockstore::store::{StoreOptions, SyncMode, DEFAULT_MAX_DATA_FILES};

#[test]
fn names_round_trip() {
    assert_eq!("blockdb_0.dat", data_file_name(0));
    assert_eq!("blockdb_42.dat", data_file_name(42));
    assert_eq!(Some(0), parse_data_file_index("blockdb_0.dat"));
    assert_eq!(Some(42), parse_data_file_index("blockdb_42.dat"));
    assert_eq!(None, parse_data_file_index("blockdb.idx"));
    assert_eq!(None, parse_data_file_index("blockdb_.dat"));
    assert_eq!(None, parse_data_file_index("blockdb_-1.dat"));
}

#[test]
fn names_edge_cases() {
    assert_eq!("blockdb_4294967295.dat", data_file_name(u32::MAX));
    assert_eq!(Some(u32::MAX), parse_data_file_index("blockdb_4294967295.dat"));
    assert_eq!(None, parse_data_file_index("blockdb_4294967296.dat"));
    assert_eq!(Some(7), parse_data_file_index("blockdb_+7.dat"));
    assert_eq!(Some(7), parse_data_file_index("blockdb_007.dat"));
    assert_eq!(None, parse_data_file_index("blockdb_7.da"));
    assert_eq!(None, parse_data_file_index("xblockdb_7.dat"));
}

#[test]
fn split_offset_single_file_mode() {
    let fs = FileSet::new(None, 4);
    assert_eq!((0, 0), fs.split_offset(0));
    assert_eq!((0, 1234), fs.split_offset(1234));
    assert_eq!((0, u64::MAX - 1), fs.split_offset(u64::MAX - 1));
}

#[test]
fn split_offset_multi_file() {
    let fs = FileSet::new(Some(1024), 4);
    assert_eq!((0, 0), fs.split_offset(0));
    assert_eq!((0, 1023), fs.split_offset(1023));
    assert_eq!((1, 0), fs.split_offset(1024));
    assert_eq!((2, 100), fs.split_offset(2148));
}

#[test]
fn split_offset_saturates_file_index() {
    assert_eq!((u32::MAX, 0), split_offset(Some(1), u64::MAX - 1));
    assert_eq!((3, 1), split_offset(Some(2), 7));
    assert_eq!((0, 7), split_offset(None, 7));
}

#[test]
fn lazy_open_caches_and_evicts() {
    let mut fs = FileSet::new(Some(1024), 2);
    assert_eq!(None, fs.insert(0));
    assert_eq!(None, fs.insert(1));
    fs.touch(0);
    assert!(fs.is_held(0));
    assert_eq!(Some(1), fs.insert(2));
    assert!(!fs.is_held(1));
    assert_eq!(Some(0), fs.insert(1));
    assert!(fs.is_held(1));
    assert_eq!(vec![2, 1], fs.held());
}

#[test]
fn evict_clears_cache_entry() {
    let mut fs = FileSet::new(Some(1024), 4);
    assert_eq!(None, fs.insert(0));
    fs.evict(0);
    assert!(!fs.is_held(0));
    assert_eq!(None, fs.insert(0));
    assert!(fs.is_held(0));
}

#[test]
fn zero_cap_means_single_file() {
    let fs = FileSet::new(Some(0), 0);
    assert_eq!(None, fs.max_data_file_size());
    assert_eq!((0, 5000), fs.split_offset(5000));
}

#[test]
fn layout_validation() {
    let fs = FileSet::new(Some(400), 4);
    let mut files = BTreeMap::new();
    assert_eq!(Ok(0), fs.validate_layout(&files));
    files.insert(0u32, 331u64);
    files.insert(1u32, 331u64);
    assert_eq!(Ok(731), fs.validate_layout(&files));
    files.remove(&0);
    assert_eq!(Err(StoreError::MissingDataFile { index: 0 }), fs.validate_layout(&files));
    let single = FileSet::new(None, 4);
    let mut two = BTreeMap::new();
    two.insert(0u32, 10u64);
    two.insert(1u32, 10u64);
    assert_eq!(Err(StoreError::MultipleDataFiles), single.validate_layout(&two));
}

#[test]
fn next_file_start() {
    assert_eq!(Ok(800), advance_to_next_file(1, 400));
    assert_eq!(
        Err(StoreError::NextFileOverflow { file_index: u32::MAX, cap: 400 }),
        advance_to_next_file(u32::MAX, 400)
    );
    assert_eq!(
        Err(StoreError::NextFileOverflow { file_index: 5, cap: u64::MAX }),
        advance_to_next_file(5, u64::MAX)
    );
}

#[test]
fn codec_round_trips() {
    let e = IndexEntry::new(0x0102_0304_0506_0708, 0x0a0b_0c0d);
    let b = e.to_bytes();
    assert_eq!(16, b.len());
    assert_eq!(&[8, 7, 6, 5, 4, 3, 2, 1, 0x0d, 0x0c, 0x0b, 0x0a, 0, 0, 0, 0], &b[..]);
    let back = IndexEntry::from_bytes(&b);
    assert_eq!((e.offset, e.size), (back.offset, back.size));
    assert!(IndexEntry::default().is_vacant());

    let h = IndexFileHeader::default().with_lowest_block_height(9);
    let hb = h.to_bytes();
    assert_eq!(64, hb.len());
    let h2 = IndexFileHeader::from_bytes(&hb);
    assert_eq!(9, h2.min_height);
    assert_eq!(u64::MAX, h2.max_data_file_size);
    assert_eq!(0, h2.persisted_contiguous_height());
    assert_eq!(77, h2.with_persisted_contiguous_height(77).persisted_contiguous_height());

    let bh = BlockHeader { height: 3, size: 5, checksum: 7, version: 1 };
    let s = bh.serialize();
    assert_eq!(22, s.len());
    assert_eq!(&[3, 0, 0, 0, 0, 0, 0, 0, 5, 0, 0, 0, 7, 0, 0, 0, 0, 0, 0, 0, 1, 0], &s[..]);
    let d = BlockHeader::deserialize(&s).unwrap();
    assert_eq!((3, 5, 7, 1), (d.height, d.size, d.checksum, d.version));
    assert_eq!(Err(HeaderDecodeError::InvalidSize), BlockHeader::deserialize(&s[..21]).map(|_| ()));
    assert_eq!(blockstore::error::ErrorKind::InvalidData, HeaderDecodeError::InvalidSize.kind());
}

#[test]
fn borrowed_slices() {
    let data = [1u8, 2, 3];
    let b = BorrowedSlice::from_slice(&data[..]);
    assert!(!b.is_null());
    assert_eq!(&[1, 2, 3], b.as_slice());
    let n: BorrowedSlice<'_, u8> = BorrowedSlice::null();
    assert!(n.is_null());
    assert_eq!(0, n.as_slice().len());
    let text = "héllo".as_bytes();
    assert_eq!(Ok("héllo"), BorrowedSlice::from_slice(text).as_str());
    let bad = [0xffu8, 0xfe];
    assert!(BorrowedSlice::from_slice(&bad[..]).as_str().is_err());
}

#[test]
fn owned_slices() {
    let o = OwnedSlice::from_vec(vec![4u8, 5, 6]);
    assert_eq!(3, o.len());
    assert_eq!(&[4, 5, 6], o.as_slice());
    let boxed = o.into_boxed_slice();
    assert_eq!(&[4, 5, 6], &boxed[..]);
    let again = OwnedSlice::from_boxed_slice(boxed);
    assert_eq!(&[4, 5, 6], again.as_slice());
    let s = OwnedSlice::from_string(String::from("ok"));
    assert_eq!(b"ok", s.as_slice());
}

#[test]
fn result_enums() {
    assert!(matches!(VoidResult::from_unit(), VoidResult::Success));
    assert!(matches!(VoidResult::from_result(Ok(())), VoidResult::Success));
    match VoidResult::from_result(Err(String::from("boom"))) {
        VoidResult::Error(m) => assert_eq!(b"boom", m.as_slice()),
        _ => panic!("expected an error"),
    }
    assert!(matches!(BlockResult::from_result(Ok(None)), BlockResult::NotFound));
    match BlockResult::from_result(Ok(Some(vec![1, 2]))) {
        BlockResult::Found(b) => assert_eq!(&[1, 2], b.as_slice()),
        _ => panic!("expected a block"),
    }
    match BlockResult::from_result(Err(String::from("bad"))) {
        BlockResult::Error(m) => assert_eq!(b"bad", m.as_slice()),
        _ => panic!("expected an error"),
    }
}

#[test]
fn handles_dispatch() {
    let r: VoidResult = invoke_with_handle(None::<u64>, |_h| VoidResult::Success);
    assert!(matches!(r, VoidResult::NullHandlePointer));
    let r: BlockResult = invoke_with_handle(Some(7u64), |h| BlockResult::from_result(Ok(Some(vec![h as u8]))));
    match r {
        BlockResult::Found(b) => assert_eq!(&[7], b.as_slice()),
        _ => panic!("expected a block"),
    }
    let r: BlockResult = invoke_with_handle(None::<u64>, |_h| BlockResult::NotFound);
    assert!(matches!(r, BlockResult::NullHandlePointer));
}

fn args<'a>(path: &'a [u8], cache_size: usize, cap: u64, files: usize) -> StoreArgs<'a> {
    StoreArgs {
        path: BorrowedSlice::from_slice(path),
        cache_size,
        max_data_file_size: cap,
        minimum_height: 0,
        max_data_files: files,
        truncate: true,
        sync: SyncMode::Sync,
    }
}

#[test]
fn store_args_to_options() {
    let (p, o) = args(b"/tmp/db", 1024, 0, 0).to_options().unwrap();
    assert_eq!("/tmp/db", p);
    assert_eq!(None, o.max_data_file_size);
    assert_eq!(DEFAULT_MAX_DATA_FILES, o.max_data_files);
    assert_eq!(0, o.minimum_height);
    assert!(o.truncate);
    let (_, o) = args(b"/tmp/db", 1024, 400, 3).to_options().unwrap();
    assert_eq!(Some(400), o.max_data_file_size);
    assert_eq!(3, o.max_data_files);
    assert!(matches!(args(b"/tmp/db", 0, 0, 0).to_options(), Err(StoreArgsError::ZeroCacheSize)));
    assert!(matches!(args(&[0xff], 0, 0, 0).to_options(), Err(StoreArgsError::PathNotUtf8(_))));
}

#[test]
fn options_defaults() {
    let o = StoreOptions::default();
    assert_eq!(1024, o.cache_size);
    assert!(!o.truncate);
    assert_eq!(SyncMode::Async, o.sync);
    assert_eq!(1, o.minimum_height);
    assert_eq!(None, o.max_data_file_size);
    assert_eq!("sync", SyncMode::Sync.as_str());
    assert_eq!("async", SyncMode::Async.as_str());
}

#[test]
fn leveldb_keys() {
    let mut body = vec![b'b'];
    body.extend_from_slice(&42u64.to_be_bytes());
    assert_eq!(LevelDBKey::Body(42), LevelDBKey::from_u8(&body));
    let mut header = vec![b'h'];
    header.extend_from_slice(&7u64.to_be_bytes());
    header.extend_from_slice(&[0u8; 32]);
    assert_eq!(LevelDBKey::Header(7), LevelDBKey::from_u8(&header));
    let mut hash = vec![b'h'];
    hash.extend_from_slice(&7u64.to_be_bytes());
    hash.push(b'n');
    assert_eq!(LevelDBKey::HeaderHash(7), LevelDBKey::from_u8(&hash));
    let mut receipts = vec![b'r'];
    receipts.extend_from_slice(&9u64.to_be_bytes());
    receipts.extend_from_slice(&[1u8; 32]);
    assert_eq!(LevelDBKey::Receipts(9), LevelDBKey::from_u8(&receipts));
    assert_eq!(LevelDBKey::Invalid, LevelDBKey::from_u8(b"b1234567"));
    assert_eq!(LevelDBKey::Invalid, LevelDBKey::from_u8(b"x12345678"));
    assert_eq!(LevelDBKey::Invalid, LevelDBKey::from_u8(&header[..20]));

    assert_eq!(body, LevelDBKey::Body(42).to_bytes());
    assert_eq!(LevelDBKey::Body(42), LevelDBKey::from_u8(&LevelDBKey::Body(42).to_bytes()));
    assert_eq!(LevelDBKey::Invalid, LevelDBKey::from_u8(&LevelDBKey::Header(7).to_bytes()));
    assert_eq!(vec![b'h'], LevelDBKey::HeaderStart.to_bytes());
    assert_eq!(9, LevelDBKey::Receipts(9).as_slice(|b| b.len()));
    assert_eq!(Some(42), LevelDBKey::Body(42).height());
    assert_eq!(None, LevelDBKey::BodyStart.height());
    assert!(LevelDBKey::Header(1).is_header());
    assert!(!LevelDBKey::HeaderHash(1).is_header());
    assert!(LevelDBKey::Body(1).is_body());
    assert!(LevelDBKey::Receipts(1).is_receipts());
}

#[test]
fn import_rules() {
    assert_eq!(Ok(SyncMode::Sync), parse_sync_mode("sync"));
    assert_eq!(Ok(SyncMode::Async), parse_sync_mode("async"));
    assert_eq!(Err(ImportError::InvalidSyncMode), parse_sync_mode("Sync"));
    assert_eq!(
        (LevelDBKey::BodyStart, LevelDBKey::HeaderStart, LevelDBKey::ReceiptsStart),
        start_keys(None)
    );
    assert_eq!((LevelDBKey::Body(5), LevelDBKey::Header(5), LevelDBKey::Receipts(5)), start_keys(Some(5)));
    assert_eq!(
        Ok(ImportStep::Write { height: 3 }),
        import_step(LevelDBKey::Body(3), LevelDBKey::Header(3), None)
    );
    assert_eq!(
        Ok(ImportStep::Write { height: 3 }),
        import_step(LevelDBKey::Body(3), LevelDBKey::Header(3), Some(LevelDBKey::Receipts(3)))
    );
    assert_eq!(Ok(ImportStep::Stop), import_step(LevelDBKey::Receipts(3), LevelDBKey::Header(3), None));
    assert_eq!(
        Ok(ImportStep::Stop),
        import_step(LevelDBKey::Body(3), LevelDBKey::Header(3), Some(LevelDBKey::Body(3)))
    );
    assert!(matches!(
        import_step(LevelDBKey::Body(3), LevelDBKey::Header(4), None),
        Err(ImportError::HeightMismatch { .. })
    ));
    assert!(matches!(
        import_step(LevelDBKey::Body(3), LevelDBKey::Header(3), Some(LevelDBKey::Receipts(2))),
        Err(ImportError::HeightMismatch { .. })
    ));
}

#[test]
fn rlp_combination() {
    // [ "\x01", "dog" ] and [ "", "cat", 256 zero bytes ]
    assert_eq!(vec![0xc5, 0x01, 0x83, b'd', b'o', b'g'], combine_rows(&[1], b"dog", None));
    let big = [0u8; 256];
    let out = combine_rows(&[], b"cat", Some(&big[..]));
    let payload = 1 + 4 + 3 + 256;
    assert_eq!(&[0xf9, (payload >> 8) as u8, (payload & 0xff) as u8, 0x80, 0x83], &out[..5]);
    assert_eq!(3 + payload, out.len());
}

#[test]
fn import_progress() {
    let mut p = ImportProgress::new();
    let mut reports = 0;
    for _ in 0..200_000 {
        if p.record().unwrap() {
            reports += 1;
        }
    }
    assert_eq!(200_000, p.count());
    assert_eq!(2, reports);
}

#[test]
fn path_resolution() {
    let s = |x: &str| Some(String::from(x));
    assert_eq!(Ok((String::from("d"), String::from("d"))), path_resolver(s("d"), None, None));
    assert_eq!(Ok((String::from("i"), String::from("d"))), path_resolver(s("d"), s("i"), None));
    assert_eq!(Ok((String::from("i"), String::from("x"))), path_resolver(None, s("i"), s("x")));
    assert_eq!(Err(PathError::MissingIndexPath), path_resolver(None, None, s("x")));
    assert_eq!(Err(PathError::MissingDataPath), path_resolver(None, s("i"), None));
    assert_eq!("Either --dbpath or --index-path must be specified", PathError::MissingIndexPath.message());
    assert_eq!("Either --dbpath or --data-path must be specified", PathError::MissingDataPath.message());
}

#[test]
fn copy_rules() {
    assert_eq!((5, 5), copy_start(Some(5), 1));
    assert_eq!((3, 3), copy_start(None, 3));
    assert_eq!(Some(8), copy_next(7));
    assert_eq!(None, copy_next(u64::MAX));
    assert_eq!(6, last_copied(7));
    assert_eq!(0, last_copied(0));
}

#[test]
fn block_rendering() {
    let dump = render_block(b"abc");
    assert!(dump.contains("61 62 63"));
    assert!(dump.contains("abc"));
}
