# blockstore

A store of blockchain blocks keyed by height, with its rules proved in Verus.

Blocks may arrive in any order. Each block is compressed (zstd), checked by
an xxHash64 of its uncompressed bytes, and appended to the data files
`blockdb_N.dat` behind a 22-byte header; an index file `blockdb.idx` holds a
64-byte header and one 16-byte slot per height. With a file-size cap, a block
never crosses a data-file boundary. After an unclean shutdown the data past
the last checkpoint is scanned and its index entries are rebuilt. The store
tracks the highest height below which no block is missing.

## Layout

- `src/` — the verified library. The store's operations are split into
  steps; the caller performs the file reads and writes each step asks for and
  hands back what it read.
  - `codec`, `le`, `names`: on-disk records and file names.
  - `layout`, `file_set`: placement of blocks across data files, layout
    checks, the bookkeeping of open data-file handles.
  - `store`: writes, reads, checkpoints, contiguity tracking and recovery.
  - `model`, `laws`: files as byte sequences, and the properties proved of
    reads after writes, recovery, contiguity and checkpoints.
  - `cache`: the byte-budgeted read cache.
  - `ffi`: values exchanged with C callers.
  - `leveldb_key`, `import`, `cli`: the rules of the command-line tool.
  - `legacy`, `legacy_store`: the first store format.
  - `outside`: the calls into xxhash and zstd.
- `app/` — files, the C interface and the command-line tool around the
  library.
- `tests/` — scenarios, run against an in-memory disk.
