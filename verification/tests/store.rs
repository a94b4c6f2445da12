// Store scenarios run against an in-memory disk: the test performs the
// reads and writes that each step of the library asks for.

use std::collections::BTreeMap;

use blockstore::cache::BlockCache;
use blockstore::codec::{BlockHeader, IndexEntry, IndexFileHeader};
use blockstore::error::{ErrorKind, StoreError};
use blockstore::names::{data_file_name, INDEX_FILE_NAME};
use blockstore::store::{
    Probe, ReadStep, RecoveryRead, Store, StoreOptions, SyncMode, DEFAULT_MAX_DATA_FILES,
};

#[derive(Clone, Default)]
struct MemDisk {
    index: Option<Vec<u8>>,
    data: BTreeMap<u32, Vec<u8>>,
}

fn read_at(file: &[u8], off: u64, len: usize) -> Vec<u8> {
    let off = off as usize;
    if off >= file.len() {
        return Vec::new();
    }
    let end = std::cmp::min(file.len(), off + len);
    file[off..end].to_vec()
}

fn write_at(file: &mut Vec<u8>, off: u64, bytes: &[u8]) {
    let off = off as usize;
    if file.len() < off + bytes.len() {
        file.resize(off + bytes.len(), 0);
    }
    file[off..off + bytes.len()].copy_from_slice(bytes);
}

struct MemStore {
    store: Store,
    disk: MemDisk,
}

impl MemStore {
    fn open(mut disk: MemDisk, options: StoreOptions) -> Result<MemStore, StoreError> {
        Store::check_options(&options)?;
        let header = if options.truncate {
            disk.data.clear();
            let header = Store::fresh_header(&options);
            disk.index = Some(header.to_bytes());
            header
        } else {
            let index = disk.index.clone().unwrap_or_default();
            Store::header_from_read(&read_at(&index, 0, 64))
        };
        let mut s = MemStore { store: Store::from_header(header, &options), disk };
        if !options.truncate {
            s.recover()?;
        }
        Ok(s)
    }

    fn index(&self) -> &[u8] {
        self.disk.index.as_deref().unwrap_or(&[])
    }

    fn run_probes(&mut self, mut probe: Option<Probe>) {
        while let Some(p) = probe {
            let slot = read_at(self.index(), p.index_offset, 16);
            probe = self.store.advance_step(p, Some(&slot));
        }
    }

    fn recover(&mut self) -> Result<(), StoreError> {
        let files: BTreeMap<u32, u64> =
            self.disk.data.iter().map(|(k, v)| (*k, v.len() as u64)).collect();
        let end = self.store.begin_recovery(&files)?;
        let probe = self.store.seed_contiguity();
        self.run_probes(probe);
        while let Some(at) = self.store.recovery_next(&files, end)? {
            let file = self.disk.data.get(&at.file_index).cloned().unwrap_or_default();
            let hb = read_at(&file, at.local_offset, 22);
            let (header, local_offset, size) = match self.store.recovery_on_header(at, &hb)? {
                RecoveryRead::Done => break,
                RecoveryRead::ReadPayload { header, local_offset, size, .. } => {
                    (header, local_offset, size)
                }
            };
            let payload = read_at(&file, local_offset, size as usize);
            let Some(rb) = self.store.recovery_on_payload(at.scan, header, &payload)? else {
                break;
            };
            let mut index = self.disk.index.take().unwrap_or_default();
            write_at(&mut index, rb.index_offset, &rb.entry_bytes);
            self.disk.index = Some(index);
            let probe = self.store.recovery_commit(&rb)?;
            self.run_probes(probe);
        }
        self.store.finish_recovery();
        Ok(())
    }

    fn write_block(&mut self, height: u64, block: &[u8]) -> Result<(), StoreError> {
        let plan = self.store.prepare_write(height, block)?;
        let file = self.disk.data.entry(plan.file_index).or_default();
        write_at(file, plan.local_offset, &plan.header_bytes);
        write_at(file, plan.payload_offset, &plan.payload);
        let mut index = self.disk.index.take().unwrap_or_default();
        write_at(&mut index, plan.index_offset, &plan.entry_bytes);
        self.disk.index = Some(index);
        let probe = self.store.begin_advance(height);
        self.run_probes(probe);
        if let Some(c) = self.store.note_written(height, plan.saved_offset) {
            let mut index = self.disk.index.take().unwrap_or_default();
            write_at(&mut index, 0, &c.header_bytes);
            self.disk.index = Some(index);
        }
        Ok(())
    }

    fn read_block(&self, height: u64) -> Result<Option<Vec<u8>>, StoreError> {
        let io = self.store.read_slot(height)?;
        let slot = read_at(self.index(), io, 16);
        match self.store.on_slot(&slot) {
            ReadStep::NotFound => Ok(None),
            ReadStep::ReadHeader { entry, file_index, local_offset } => {
                let file = self.disk.data.get(&file_index).cloned().unwrap_or_default();
                let hb = read_at(&file, local_offset, 22);
                let p = self.store.on_block_header(entry, &hb)?;
                let file = self.disk.data.get(&p.file_index).cloned().unwrap_or_default();
                let payload = read_at(&file, p.local_offset, p.size as usize);
                self.store.on_payload(&p, &payload).map(Some)
            }
        }
    }

    fn checkpoint_now(&mut self) {
        let c = self.store.checkpoint(self.store.data_highwater());
        let mut index = self.disk.index.take().unwrap_or_default();
        write_at(&mut index, 0, &c.header_bytes);
        self.disk.index = Some(index);
    }

    /// Closes cleanly: the final checkpoint is written.
    fn close(mut self) -> MemDisk {
        let c = self.store.close_checkpoint();
        let mut index = self.disk.index.take().unwrap_or_default();
        write_at(&mut index, 0, &c.header_bytes);
        self.disk.index = Some(index);
        self.disk
    }

    /// Stops without the final checkpoint, as a crash would.
    fn crash(self) -> MemDisk {
        self.disk
    }
}

fn options(truncate: bool, sync: SyncMode, minimum_height: u64) -> StoreOptions {
    StoreOptions::for_new(1024, truncate, sync, minimum_height)
}

fn with_cap(cap: u64, truncate: bool, minimum_height: u64) -> StoreOptions {
    let mut o = StoreOptions::default();
    o.truncate = truncate;
    o.sync = SyncMode::Sync;
    o.minimum_height = minimum_height;
    o.max_data_file_size = Some(cap);
    o
}

fn incompressible(seed: u64, len: usize) -> Vec<u8> {
    (0..len as u64)
        .map(|i| xxhash_rust::xxh64::xxh64(&i.to_le_bytes(), seed).to_le_bytes()[0])
        .collect()
}

#[test]
fn header_size_test() {
    let header_size = std::mem::size_of::<IndexFileHeader>();
    let entry_size = std::mem::size_of::<IndexEntry>();
    assert_eq!(64, header_size, "index header must match Go format");
    assert_eq!(16, entry_size, "index entry must match Go format");
    assert!(header_size % entry_size == 0, "header size must be a multiple of entry size");
    assert_eq!(
        std::mem::align_of::<IndexFileHeader>(),
        std::mem::align_of::<IndexEntry>(),
        "header and entry must have same alignment for zero-copy serialization"
    );
    assert_eq!(22, BlockHeader::SERIALIZED_SIZE, "block entry header must match Go format");
}

#[test]
fn smoke_test() {
    let mut store = MemStore::open(MemDisk::default(), options(true, SyncMode::Async, 1)).unwrap();
    let block = vec![32; 1024];
    store.write_block(1, &block).unwrap();
    let block_read = store.read_block(1).unwrap().unwrap();
    assert_eq!(&block[..], &block_read[..]);
    assert_eq!(1, store.store.max_contiguous_height());
}

#[test]
fn recover_test() {
    let mut store = MemStore::open(MemDisk::default(), options(true, SyncMode::Sync, 1)).unwrap();
    store.write_block(1, &vec![32; 1024]).unwrap();
    assert_eq!(1, store.store.max_contiguous_height());
    let disk = store.crash();

    let mut store = MemStore::open(disk, options(false, SyncMode::Sync, 1)).unwrap();
    assert_eq!(1, store.store.max_contiguous_height());
    assert_eq!(1, store.store.height_highwater());

    store.checkpoint_now();
    let disk = store.crash();

    let store = MemStore::open(disk, options(false, SyncMode::Sync, 2048)).unwrap();
    assert_eq!(1, store.store.max_contiguous_height());
    assert_eq!(1, store.store.height_highwater());
}

#[test]
fn default_filename_test() {
    let mut store = MemStore::open(MemDisk::default(), options(true, SyncMode::Async, 1)).unwrap();
    store.write_block(1, &[1, 2, 3, 4]).unwrap();
    assert_eq!("blockdb.idx", INDEX_FILE_NAME);
    assert!(store.disk.index.is_some());
    assert_eq!("blockdb_0.dat", data_file_name(0));
    assert!(store.disk.data.contains_key(&0));
}

#[test]
fn height_zero_regression_test() {
    let first = vec![7; 256];
    let second = vec![9; 128];
    let mut store = MemStore::open(MemDisk::default(), options(true, SyncMode::Sync, 0)).unwrap();
    store.write_block(0, &first).unwrap();
    store.write_block(1, &second).unwrap();
    assert_eq!(Some(first.clone()), store.read_block(0).unwrap());
    assert_eq!(Some(second.clone()), store.read_block(1).unwrap());
    assert_eq!(1, store.store.max_contiguous_height());
    let disk = store.crash();

    let recovered = MemStore::open(disk, options(false, SyncMode::Sync, 999)).unwrap();
    assert_eq!(Some(first), recovered.read_block(0).unwrap());
    assert_eq!(Some(second), recovered.read_block(1).unwrap());
    assert_eq!(1, recovered.store.max_contiguous_height());
}

#[test]
fn data_splitting_writes_into_new_file() {
    let cap = 400u64;
    let mut store = MemStore::open(MemDisk::default(), with_cap(cap, true, 1)).unwrap();
    let block_a = incompressible(1, 300);
    let block_b = incompressible(2, 300);
    store.write_block(1, &block_a).unwrap();
    store.write_block(2, &block_b).unwrap();
    assert_eq!(Some(block_a.clone()), store.read_block(1).unwrap());
    assert_eq!(Some(block_b.clone()), store.read_block(2).unwrap());
    assert_eq!("blockdb_0.dat", data_file_name(0));
    assert_eq!("blockdb_1.dat", data_file_name(1));
    assert!(store.disk.data.contains_key(&0), "file 0 must exist");
    assert!(store.disk.data.contains_key(&1), "file 1 must exist after split");
    assert!(store.disk.data[&0].len() as u64 <= cap);
}

#[test]
fn block_larger_than_cap_is_rejected() {
    let mut store = MemStore::open(MemDisk::default(), with_cap(256, true, 1)).unwrap();
    let huge = incompressible(0xDEAD_BEEF, 4096);
    let err = store.write_block(1, &huge).unwrap_err();
    assert_eq!(err.kind(), ErrorKind::InvalidInput);
}

#[test]
fn multi_file_reopen_round_trips() {
    let cap = 400u64;
    let block_a = incompressible(11, 300);
    let block_b = incompressible(22, 300);
    let block_c = incompressible(33, 300);
    let mut store = MemStore::open(MemDisk::default(), with_cap(cap, true, 1)).unwrap();
    store.write_block(1, &block_a).unwrap();
    store.write_block(2, &block_b).unwrap();
    store.write_block(3, &block_c).unwrap();
    let disk = store.close();

    let reopened = MemStore::open(disk, with_cap(cap, false, 1)).unwrap();
    assert_eq!(Some(block_a), reopened.read_block(1).unwrap());
    assert_eq!(Some(block_b), reopened.read_block(2).unwrap());
    assert_eq!(Some(block_c), reopened.read_block(3).unwrap());
    assert_eq!(3, reopened.store.max_contiguous_height());
}

#[test]
fn missing_intermediate_data_file_is_corruption() {
    let cap = 400u64;
    let mut store = MemStore::open(MemDisk::default(), with_cap(cap, true, 1)).unwrap();
    for h in 1..=4u64 {
        store.write_block(h, &incompressible(h, 300)).unwrap();
    }
    let mut disk = store.close();
    assert!(disk.data.contains_key(&0) && disk.data.contains_key(&1));
    disk.data.remove(&0);
    let err = MemStore::open(disk, with_cap(cap, false, 1)).err().unwrap();
    assert_eq!(err.kind(), ErrorKind::InvalidData);
    assert_eq!(err, StoreError::MissingDataFile { index: 0 });
}

#[test]
fn multi_file_recovery_skips_partial_tail() {
    let cap = 400u64;
    let block_a = incompressible(0xAA, 300);
    let block_b = incompressible(0xBB, 300);
    let mut store = MemStore::open(MemDisk::default(), with_cap(cap, true, 1)).unwrap();
    store.write_block(1, &block_a).unwrap();
    store.write_block(2, &block_b).unwrap();
    let disk = store.crash();
    assert!(disk.data.contains_key(&0));
    assert!(disk.data.contains_key(&1));

    let reopened = MemStore::open(disk, with_cap(cap, false, 1)).unwrap();
    assert_eq!(Some(block_a), reopened.read_block(1).unwrap());
    assert_eq!(Some(block_b), reopened.read_block(2).unwrap());
    assert_eq!(2, reopened.store.max_contiguous_height());
}

// Scenarios beyond the original's tests.

#[test]
fn out_of_order_writes_fill_the_gap() {
    let mut store = MemStore::open(MemDisk::default(), options(true, SyncMode::Async, 1)).unwrap();
    store.write_block(3, b"three").unwrap();
    store.write_block(2, b"two").unwrap();
    assert_eq!(0, store.store.max_contiguous_height());
    assert_eq!(3, store.store.height_highwater());
    store.write_block(1, b"one").unwrap();
    assert_eq!(3, store.store.max_contiguous_height());
    assert_eq!(Some(b"two".to_vec()), store.read_block(2).unwrap());
    assert_eq!(None, store.read_block(4).unwrap());
}

#[test]
fn sequential_writes_keep_contiguity() {
    let mut store = MemStore::open(MemDisk::default(), options(true, SyncMode::Async, 1)).unwrap();
    let data = vec![32; 1024];
    for h in 1..=300u64 {
        store.write_block(h, &data).unwrap();
    }
    assert_eq!(300, store.store.max_contiguous_height());
}

#[test]
fn write_errors() {
    let mut store = MemStore::open(MemDisk::default(), options(true, SyncMode::Async, 5)).unwrap();
    assert_eq!(Err(StoreError::EmptyBlock), store.write_block(5, &[]));
    assert_eq!(StoreError::EmptyBlock.kind(), ErrorKind::InvalidInput);
    assert_eq!(Err(StoreError::InvalidBlockHeight), store.write_block(4, b"x"));
    assert_eq!(Err(StoreError::InvalidBlockHeight), store.read_block(4));
    assert_eq!(Err(StoreError::InvalidBlockHeight), store.write_block(u64::MAX, b"x"));
    assert_eq!(store.store.data_highwater(), 0);
}

#[test]
fn zero_max_data_files_is_refused() {
    let mut o = StoreOptions::default();
    o.max_data_files = 0;
    let err = MemStore::open(MemDisk::default(), o).err().unwrap();
    assert_eq!(err, StoreError::MaxDataFilesZero);
    assert_eq!(err.kind(), ErrorKind::InvalidInput);
    assert_eq!(10, DEFAULT_MAX_DATA_FILES);
}

#[test]
fn corrupt_payload_is_detected() {
    let mut store = MemStore::open(MemDisk::default(), options(true, SyncMode::Async, 1)).unwrap();
    store.write_block(1, &vec![5u8; 100]).unwrap();
    let file = store.disk.data.get_mut(&0).unwrap();
    let last = file.len() - 1;
    file[last] ^= 0xff;
    let err = store.read_block(1).unwrap_err();
    assert!(err == StoreError::ChecksumMismatch || err == StoreError::DecompressFailed);
    assert_eq!(err.kind(), ErrorKind::InvalidData);
}

#[test]
fn size_mismatch_is_detected() {
    let mut store = MemStore::open(MemDisk::default(), options(true, SyncMode::Async, 1)).unwrap();
    store.write_block(1, &vec![5u8; 100]).unwrap();
    let file = store.disk.data.get_mut(&0).unwrap();
    file[8] ^= 0x01;
    assert_eq!(Err(StoreError::SizeMismatch), store.read_block(1));
}

#[test]
fn data_shorter_than_index_is_corruption() {
    let mut store = MemStore::open(MemDisk::default(), options(true, SyncMode::Async, 1)).unwrap();
    store.write_block(1, &vec![5u8; 100]).unwrap();
    let mut disk = store.close();
    disk.data.get_mut(&0).unwrap().truncate(10);
    let err = MemStore::open(disk, options(false, SyncMode::Async, 1)).err().unwrap();
    assert!(matches!(err, StoreError::DataShorterThanIndex { calculated: 10, .. }));
}

#[test]
fn checkpoint_every_interval() {
    let mut store = MemStore::open(MemDisk::default(), options(true, SyncMode::Async, 1)).unwrap();
    for h in 1..=1024u64 {
        store.write_block(h, &[h as u8, 1]).unwrap();
    }
    let header = IndexFileHeader::from_bytes(&store.index()[0..64]);
    assert_eq!(1024, header.max_height);
    assert_eq!(1024, header.persisted_contiguous_height());
    assert_eq!(store.store.data_highwater(), header.next_write_offset);
}

#[test]
fn reopen_after_close_keeps_counters() {
    let mut store = MemStore::open(MemDisk::default(), options(true, SyncMode::Sync, 1)).unwrap();
    store.write_block(1, b"a").unwrap();
    store.write_block(2, b"b").unwrap();
    store.write_block(4, b"d").unwrap();
    let disk = store.close();
    let store = MemStore::open(disk, options(false, SyncMode::Sync, 1)).unwrap();
    assert_eq!(2, store.store.max_contiguous_height());
    assert_eq!(4, store.store.height_highwater());
    assert_eq!(Some(b"d".to_vec()), store.read_block(4).unwrap());
}

// A read-through cache in front of the in-memory store.
struct CachedMem {
    inner: MemStore,
    cache: BlockCache,
}

enum CachedRead {
    Hit(Vec<u8>),
    Miss(Option<Vec<u8>>),
}

impl CachedMem {
    fn open(cache_bytes: usize) -> CachedMem {
        let mut o = options(true, SyncMode::Sync, 1);
        o.cache_size = cache_bytes;
        let inner = MemStore::open(MemDisk::default(), o).unwrap();
        CachedMem { inner, cache: BlockCache::new(cache_bytes) }
    }

    fn read_block(&mut self, height: u64) -> Result<CachedRead, StoreError> {
        if let Some(b) = self.cache.lookup(height) {
            return Ok(CachedRead::Hit(b));
        }
        let read = self.inner.read_block(height)?;
        Ok(CachedRead::Miss(self.cache.on_store_read(height, read)))
    }

    fn write_block(&mut self, height: u64, data: &[u8]) -> Result<(), StoreError> {
        self.inner.write_block(height, data)?;
        self.cache.on_store_write(height, data);
        Ok(())
    }
}

fn bytes_of(r: CachedRead) -> Vec<u8> {
    match r {
        CachedRead::Hit(b) => b,
        CachedRead::Miss(b) => b.unwrap(),
    }
}

#[test]
fn read_populates_cache() {
    let mut store = CachedMem::open(1 << 20);
    let block = vec![0xABu8; 256];
    store.write_block(1, &block).unwrap();
    let first = store.read_block(1).unwrap();
    let second = store.read_block(1).unwrap();
    assert!(matches!(second, CachedRead::Hit(_)), "second read must hit the cache");
    assert_eq!(&block[..], &bytes_of(first)[..]);
    assert_eq!(&block[..], &bytes_of(second)[..]);
}

#[test]
fn read_miss_populates_cache() {
    let mut store = CachedMem::open(1 << 20);
    let block = vec![0xABu8; 256];
    store.write_block(1, &block).unwrap();
    store.cache = BlockCache::new(1 << 20);
    let first = store.read_block(1).unwrap();
    assert!(matches!(first, CachedRead::Miss(Some(_))));
    let second = store.read_block(1).unwrap();
    assert!(matches!(second, CachedRead::Hit(_)));
    assert_eq!(&block[..], &bytes_of(second)[..]);
}

#[test]
fn write_overrides_cache_at_same_height() {
    let mut store = CachedMem::open(1 << 20);
    let first = vec![0x11u8; 128];
    let second = vec![0x22u8; 128];
    store.write_block(1, &first).unwrap();
    let read_first = bytes_of(store.read_block(1).unwrap());
    assert_eq!(&first[..], &read_first[..]);
    store.write_block(1, &second).unwrap();
    let read_second = store.read_block(1).unwrap();
    assert!(matches!(read_second, CachedRead::Hit(_)));
    let read_second = bytes_of(read_second);
    assert_eq!(&second[..], &read_second[..]);
    assert!(read_first != read_second, "cache must hold the new value, not the old");
}

#[test]
fn oversize_block_bypasses_cache() {
    let mut store = CachedMem::open(64);
    let block = vec![0xCDu8; 2048];
    store.write_block(1, &block).unwrap();
    let read = store.read_block(1).unwrap();
    assert!(matches!(read, CachedRead::Miss(Some(_))));
    assert_eq!(&block[..], &bytes_of(read)[..]);
}

#[test]
fn small_cache_evicts_but_reads_still_succeed() {
    let mut store = CachedMem::open(4096);
    for h in 1..=50u64 {
        let block = vec![h as u8; 256];
        store.write_block(h, &block).unwrap();
    }
    let block = store.read_block(1).unwrap();
    assert!(matches!(block, CachedRead::Miss(Some(_))));
    let block = bytes_of(block);
    assert_eq!(256, block.len());
    assert_eq!(1u8, block[0]);
}

#[test]
fn stored_payload_is_compressed_and_checksummed() {
    let mut store = MemStore::open(MemDisk::default(), options(true, SyncMode::Async, 1)).unwrap();
    let block = vec![32u8; 1024];
    store.write_block(1, &block).unwrap();
    let file = &store.disk.data[&0];
    assert!(file.len() < 22 + 200, "a repetitive block must shrink");
    let header = BlockHeader::deserialize(&file[0..22]).unwrap();
    assert_eq!(1, header.height);
    assert_eq!(1, header.version);
    assert_eq!(file.len() - 22, header.size as usize);
    assert_eq!(xxhash_rust::xxh64::xxh64(&block, 0), header.checksum);
    assert_eq!(zstd::decode_all(&file[22..]).unwrap(), block);
}

#[test]
fn lowest_height_zero_missing_claims_nothing() {
    let mut store = MemStore::open(MemDisk::default(), options(true, SyncMode::Async, 0)).unwrap();
    store.write_block(1, &[1u8; 8]).unwrap();
    assert_eq!(None, store.store.contiguous_height());
    assert_eq!(0, store.store.max_contiguous_height());
    store.write_block(0, &[0u8; 8]).unwrap();
    assert_eq!(Some(1), store.store.contiguous_height());
    assert_eq!(1, store.store.max_contiguous_height());
}

#[test]
fn block_reads_back_after_later_writes() {
    let mut store = MemStore::open(MemDisk::default(), with_cap(400, true, 1)).unwrap();
    let blocks: Vec<Vec<u8>> = (1..=6u64).map(|h| incompressible(h, 150)).collect();
    for (i, b) in blocks.iter().enumerate() {
        store.write_block(i as u64 + 1, b).unwrap();
    }
    for (i, b) in blocks.iter().enumerate() {
        assert_eq!(Some(b.clone()), store.read_block(i as u64 + 1).unwrap());
    }
}

#[test]
fn blocks_read_back_after_later_writes_and_reopen() {
    let mut store = MemStore::open(MemDisk::default(), with_cap(400, true, 1)).unwrap();
    let blocks: Vec<Vec<u8>> = (1..=5u64).map(|h| incompressible(h + 10, 120)).collect();
    for h in [3u64, 1, 5, 2, 4] {
        store.write_block(h, &blocks[h as usize - 1]).unwrap();
    }
    let disk = store.close();
    let index_before = disk.index.clone();
    let reopened = MemStore::open(disk, with_cap(400, false, 1)).unwrap();
    assert_eq!(index_before, reopened.disk.index);
    for (i, b) in blocks.iter().enumerate() {
        let first = reopened.read_block(i as u64 + 1).unwrap();
        assert_eq!(Some(b.clone()), first);
        // A read changes nothing, so a second read gives the same.
        assert_eq!(first, reopened.read_block(i as u64 + 1).unwrap());
    }
    assert_eq!(5, reopened.store.max_contiguous_height());
}
