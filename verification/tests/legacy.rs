// Scenarios for the first store format, run against an in-memory disk.

use blockstore::legacy::{
    Block, BlockHeader, FfiBlock, HeaderError, IndexEntry, IndexFileHeader,
};
use blockstore::legacy_store::{LegacyError, LegacyReadStep, LegacyStore};

fn read_at(file: &[u8], off: u64, len: usize) -> Vec<u8> {
    let off = off as usize;
    if off >= file.len() {
        return Vec::new();
    }
    let end = std::cmp::min(file.len(), off + len);
    file[off..end].to_vec()
}

fn write_at(file: &mut Vec<u8>, off: u64, bytes: &[u8]) {
    let off = off as usize;
    if file.len() < off + bytes.len() {
        file.resize(off + bytes.len(), 0);
    }
    file[off..off + bytes.len()].copy_from_slice(bytes);
}

struct LegacyMem {
    store: LegacyStore,
    index: Vec<u8>,
    data: Vec<u8>,
}

impl LegacyMem {
    fn new(index: Vec<u8>, data: Vec<u8>, truncate: bool, sync: bool, minimum_height: u64) -> Result<LegacyMem, LegacyError> {
        let (index, data, header) = if truncate {
            let header = LegacyStore::fresh_header(minimum_height);
            (header.to_bytes(), Vec::new(), header)
        } else {
            let header = LegacyStore::header_from_read(&read_at(&index, 0, 32));
            (index, data, header)
        };
        let store = LegacyStore::new(header, sync, minimum_height);
        if !truncate {
            assert!(data.len() as u64 <= header.data_file_size, "not handled");
            store.check_recovery(data.len() as u64)?;
        }
        Ok(LegacyMem { store, index, data })
    }

    fn write_block(&mut self, height: u64, block: &[u8]) -> Result<(), LegacyError> {
        let plan = self.store.prepare_write(height, block)?;
        write_at(&mut self.data, plan.offset, &plan.header_bytes);
        write_at(&mut self.data, plan.payload_offset, block);
        write_at(&mut self.index, plan.index_offset, &plan.entry_bytes);
        let mut probe = self.store.begin_advance(height);
        while let Some(p) = probe {
            let slot = read_at(&self.index, p.index_offset, 16);
            probe = self.store.advance_step(p, Some(&slot));
        }
        if let Some(c) = self.store.note_written(height, plan.saved_offset) {
            write_at(&mut self.index, 0, &c.header_bytes);
        }
        Ok(())
    }

    fn read_block(&self, height: u64) -> Result<Option<Vec<u8>>, LegacyError> {
        let io = self.store.read_slot(height)?;
        let slot = read_at(&self.index, io, 16);
        match self.store.on_slot(&slot) {
            LegacyReadStep::NotFound => Ok(None),
            LegacyReadStep::ReadHeader { entry } => {
                let hb = read_at(&self.data, entry.offset, 24);
                let (h, off, n) = self.store.on_block_header(entry, &hb)?;
                let payload = read_at(&self.data, off, n);
                self.store.on_payload(h, n, &payload).map(Some)
            }
        }
    }

    fn close(self) -> (Vec<u8>, Vec<u8>) {
        let mut index = self.index;
        let c = self.store.close_checkpoint();
        write_at(&mut index, 0, &c.header_bytes);
        (index, self.data)
    }
}

#[test]
fn store_header_size_test() {
    let header_size = std::mem::size_of::<IndexFileHeader>();
    let entry_size = std::mem::size_of::<IndexEntry>();
    assert!(header_size % entry_size == 0, "header size must be a multiple of the entry size");
}

#[test]
fn store_smoke_test() {
    let mut store = LegacyMem::new(Vec::new(), Vec::new(), true, false, 1).unwrap();
    let block = vec![32; 1024];
    store.write_block(1, &block).unwrap();
    let block_read = store.read_block(1).unwrap().unwrap();
    assert_eq!(block, block_read);
    assert_eq!(1, store.store.max_contiguous_height());
}

#[test]
fn legacy_entries_record_the_data_offset() {
    let mut store = LegacyMem::new(Vec::new(), Vec::new(), true, false, 1).unwrap();
    store.write_block(1, &vec![32; 1024]).unwrap();
    store.write_block(2, &vec![33; 16]).unwrap();
    assert_eq!(2, store.store.max_contiguous_height());
    // Block 2's data starts after the index header's size, block 1's
    // header and block 1.
    let entry = IndexEntry::from_bytes(&store.index[48..64]);
    assert_eq!((32 + 24 + 1024, 16), (entry.offset, entry.size));
    assert_eq!(Ok(Some(vec![33; 16])), store.read_block(2));
    assert_eq!(Ok(Some(vec![32; 1024])), store.read_block(1));
}

#[test]
fn legacy_write_errors_and_reopen() {
    let mut store = LegacyMem::new(Vec::new(), Vec::new(), true, true, 3).unwrap();
    assert_eq!(Err(LegacyError::EmptyBlock), store.write_block(3, &[]));
    assert_eq!(Err(LegacyError::InvalidBlockHeight), store.write_block(2, b"x"));
    assert_eq!(Ok(None), store.read_block(9));
    store.write_block(3, b"abc").unwrap();
    let (index, data) = store.close();
    let header = IndexFileHeader::from_bytes(&index[0..32]);
    assert_eq!(3, header.lowest_block_height);
    assert_eq!(32 + 24 + 3, header.data_file_size);
    let reopened = LegacyMem::new(index.clone(), data.clone(), false, true, 3).unwrap();
    assert_eq!(Some(b"abc".to_vec()), reopened.read_block(3).unwrap());
    let mut short = data;
    short.truncate(40);
    assert_eq!(Err(LegacyError::DataFileSmaller), LegacyMem::new(index, short, false, true, 3).map(|_| ()));
}

#[test]
fn legacy_write_after_reopen_keeps_earlier_blocks() {
    let mut store = LegacyMem::new(Vec::new(), Vec::new(), true, false, 1).unwrap();
    store.write_block(1, b"first").unwrap();
    let (index, data) = store.close();
    let mut reopened = LegacyMem::new(index, data, false, false, 1).unwrap();
    reopened.write_block(2, b"second").unwrap();
    // The second block goes after the first, not over it.
    let entry = IndexEntry::from_bytes(&reopened.index[48..64]);
    assert_eq!((32 + 24 + 5, 6), (entry.offset, entry.size));
    assert_eq!(Ok(Some(b"first".to_vec())), reopened.read_block(1));
    assert_eq!(Ok(Some(b"second".to_vec())), reopened.read_block(2));
    let (index, data) = reopened.close();
    let header = IndexFileHeader::from_bytes(&index[0..32]);
    assert_eq!((32 + 24 + 5 + 24 + 6) as u64, header.data_file_size);
    assert_eq!(header.data_file_size, data.len() as u64);
}

#[test]
fn legacy_block_header_codec() {
    let h = BlockHeader { id: 5, len: 300 };
    let b = h.as_bytes();
    assert_eq!(&[5, 0, 0, 0, 0, 0, 0, 0, 44, 1, 0, 0, 0, 0, 0, 0], &b[..]);
    let back = BlockHeader::from_bytes(&b).unwrap();
    assert_eq!((5, 300), (back.id, back.len));
    assert!(matches!(BlockHeader::from_bytes(&[0u8; 16]), Err(HeaderError::ZeroId)));
    assert!(matches!(BlockHeader::from_bytes(&b[..10]), Err(HeaderError::Decode(_))));
    assert!(matches!(BlockHeader::from_bytes(&b[..4]), Err(HeaderError::Decode(_))));
}

#[test]
fn legacy_block_bytes() {
    let block = Block { header: BlockHeader { id: 2, len: 3 }, data: vec![7, 8, 9] };
    let b = block.as_bytes();
    let w = std::mem::size_of::<usize>();
    assert_eq!(8 + w + 3, b.len());
    assert_eq!(&2u64.to_ne_bytes(), &b[0..8]);
    assert_eq!(&3usize.to_ne_bytes()[..], &b[8..8 + w]);
    assert_eq!(&[7, 8, 9], &b[8 + w..]);
    let d = Block::default();
    assert_eq!((u64::MAX, 0), (d.header.id, d.header.len));
    assert!(d.data.is_empty());
}

#[test]
fn legacy_ffi_block() {
    let b = FfiBlock::from_read(Ok(Some(vec![1, 2, 3])));
    assert_eq!((false, 3), (b.is_null(), b.len()));
    assert_eq!(&[1, 2, 3], b.bytes());
    let n = FfiBlock::from_read(Ok(None));
    assert_eq!((true, 0), (n.is_null(), n.len()));
    let e = FfiBlock::from_read(Err(String::from("bad")));
    assert_eq!((false, 0), (e.is_null(), e.len()));
    assert_eq!(b"bad\0", e.bytes());
}
