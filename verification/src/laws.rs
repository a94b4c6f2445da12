//! Properties of the store that span several operations.

use crate::codec::{overlay, zeros, BlockHeader, IndexFileHeader, BLOCK_HEADER_SIZE, INDEX_ENTRY_SIZE, INDEX_HEADER_SIZE};
use crate::layout::{lemma_reserve_placement, split_offset_spec};
use crate::le::{lemma_u32_round_trip, lemma_u64_round_trip, u32_le, u64_le};
use crate::model::{
    data_file, padded_read, lemma_overlay_full, lemma_padded_read_disjoint_write, lemma_read_before_write,
    lemma_read_own_write, read_at, write_at,
};
use crate::outside::xxh64_of;
use crate::store::{
    cap_of, checkpoint_header_bytes, default_header_bytes, extends_run, index_slot_spec, persisted_contiguous, plan_places,
    plan_stores, probe_after, read_outcome, recovery_header_spec,
    recovery_payload_spec, slot_entry, HeaderAt, PayloadRead, Probe, ReadStep, Store, StoreView, WritePlan,
};
use crate::error::StoreError;
use crate::legacy_store::{legacy_probe_after, LegacyProbe, legacy_plan_stores, legacy_read_outcome, LegacyError, LegacyView, LegacyWritePlan};
use vstd::prelude::*;

verus! {

proof fn lemma_same_file(o: u64, c: u64, k: u64)
    requires
        c > 0,
        o % c + k < c,
    ensures
        (o + k) / (c as int) == o / c,
        (o + k) % (c as int) == o % c + k,
{
    let q = o / c;
    let r = o % c;
    vstd::arithmetic::div_mod::lemma_fundamental_div_mod(o as int, c as int);
    assert(o + k == q * c + (r + k)) by (nonlinear_arith)
        requires
            o == c * q + r,
    ;
    vstd::arithmetic::div_mod::lemma_fundamental_div_mod_converse(
        o + k,
        c as int,
        q as int,
        (r + k) as int,
    );
}

/// A block written by a write plan reads back: performing the writes of a
/// plan for `block` at `height` (block header and payload into the data file,
/// entry into the index slot), whatever the files held before, makes the
/// read steps for `height` give `block`.
pub proof fn law_read_after_write(
    v: StoreView,
    height: u64,
    block: Seq<u8>,
    plan: WritePlan,
    index: Seq<u8>,
    data: Map<u32, Seq<u8>>,
)
    requires
        plan_stores(v, height, block, plan),
        v.cap matches Some(c) ==> c > 0,
    ensures
        ({
            let f = plan.file_index;
            let file = write_at(
                write_at(data_file(data, f), plan.local_offset as int, plan.header_bytes@),
                plan.payload_offset as int,
                plan.payload@,
            );
            read_outcome(
                v.header.min_height,
                v.cap,
                write_at(index, plan.index_offset as int, plan.entry_bytes@),
                data.insert(f, file),
                height,
            ) == Ok::<Option<Seq<u8>>, crate::error::StoreError>(Some(block))
        }),
{
    let f = plan.file_index;
    let l = plan.local_offset;
    let c = plan.payload@;
    let clen = c.len() as u32;
    let swh = (c.len() + BLOCK_HEADER_SIZE) as u64;
    let x = write_at(data_file(data, f), l as int, plan.header_bytes@);
    let file = write_at(x, plan.payload_offset as int, c);
    let index2 = write_at(index, plan.index_offset as int, plan.entry_bytes@);
    let data2 = data.insert(f, file);
    let hdr = BlockHeader { height, size: clen, checksum: xxh64_of(block, 0), version: 1 };
    // The index slot reads back the entry.
    lemma_read_own_write(index, plan.index_offset as int, plan.entry_bytes@);
    let slot = read_at(index2, plan.index_offset as int, INDEX_ENTRY_SIZE as nat);
    assert(slot == plan.entry_bytes@);
    lemma_overlay_full(INDEX_ENTRY_SIZE as nat, slot);
    lemma_u64_round_trip(plan.offset);
    lemma_u32_round_trip(clen);
    assert(slot.subrange(0, 8) =~= u64_le(plan.offset));
    assert(slot.subrange(8, 12) =~= u32_le(clen));
    assert(slot_entry(slot) == (plan.offset, clen));
    // Placement: the block lies in one data file, after the header.
    lemma_reserve_placement(v.data_highwater, v.cap, swh);
    assert(plan.offset + BLOCK_HEADER_SIZE <= u64::MAX);
    let o2 = (plan.offset + BLOCK_HEADER_SIZE) as u64;
    match v.cap {
        None => {},
        Some(cp) => {
            lemma_same_file(plan.offset, cp, BLOCK_HEADER_SIZE as u64);
        },
    }
    assert(split_offset_spec(v.cap, o2) == (f, (l + BLOCK_HEADER_SIZE) as u64));
    assert(data_file(data2, f) == file);
    // The block header reads back.
    lemma_read_own_write(data_file(data, f), l as int, plan.header_bytes@);
    lemma_read_before_write(
        x,
        plan.payload_offset as int,
        c,
        l as int,
        BLOCK_HEADER_SIZE as nat,
    );
    let hb_read = read_at(file, l as int, BLOCK_HEADER_SIZE as nat);
    assert(hb_read == plan.header_bytes@);
    lemma_overlay_full(BLOCK_HEADER_SIZE as nat, hb_read);
    assert(hb_read.subrange(8, 12) =~= u32_le(clen));
    lemma_u64_round_trip(xxh64_of(block, 0));
    assert(hb_read.subrange(12, 20) =~= u64_le(xxh64_of(block, 0)));
    // The payload reads back.
    lemma_read_own_write(x, plan.payload_offset as int, c);
    lemma_overlay_full(clen as nat, c);
}


/// Two offsets in the same data file keep their distance as local offsets.
proof fn lemma_same_file_before(a: u64, len: u64, w: u64, c: u64)
    requires
        c > 0,
        a + len <= w,
        a / c == w / c,
    ensures
        a % c + len <= w % c,
{
    vstd::arithmetic::div_mod::lemma_fundamental_div_mod(a as int, c as int);
    vstd::arithmetic::div_mod::lemma_fundamental_div_mod(w as int, c as int);
}

/// The data files after the writes of `plan`.
pub open spec fn data_after(data: Map<u32, Seq<u8>>, plan: WritePlan) -> Map<u32, Seq<u8>> {
    let f = plan.file_index;
    data.insert(
        f,
        write_at(
            write_at(data_file(data, f), plan.local_offset as int, plan.header_bytes@),
            plan.payload_offset as int,
            plan.payload@,
        ),
    )
}

/// A read of `len` bytes at global offset `a`, ending at or before where
/// `plan` writes, reads the same after the plan's data writes.
proof fn lemma_read_before_plan(
    v: StoreView,
    height: u64,
    block: Seq<u8>,
    plan: WritePlan,
    data: Map<u32, Seq<u8>>,
    a: u64,
    len: u64,
)
    requires
        plan_places(v, height, block, plan),
        v.cap matches Some(c) ==> c > 0 && plan.offset / c <= u32::MAX,
        a + len <= plan.offset,
    ensures
        ({
            let (f, l) = split_offset_spec(v.cap, a);
            padded_read(data_file(data_after(data, plan), f), l as int, len as nat) == padded_read(
                data_file(data, f),
                l as int,
                len as nat,
            )
        }),
{
    let (f, l) = split_offset_spec(v.cap, a);
    let f2 = plan.file_index;
    let x = write_at(data_file(data, f2), plan.local_offset as int, plan.header_bytes@);
    if f == f2 {
        match v.cap {
            None => {},
            Some(c) => {
                assert(a / c <= plan.offset / c) by (nonlinear_arith)
                    requires
                        a <= plan.offset,
                        c > 0,
                ;
                lemma_same_file_before(a, len, plan.offset, c);
            },
        }
        assert(l + len <= plan.local_offset);
        lemma_padded_read_disjoint_write(
            data_file(data, f2),
            plan.local_offset as int,
            plan.header_bytes@,
            l as int,
            len as nat,
        );
        lemma_padded_read_disjoint_write(
            x,
            plan.payload_offset as int,
            plan.payload@,
            l as int,
            len as nat,
        );
    }
}

/// A later write of another height leaves the read of a block alone: if
/// the block stored at `h` (as its index slot says) ends at or before the
/// data written so far, performing the writes of a plan for `height != h`
/// changes neither the slot of `h` nor what the read steps give for `h`.
/// (With a cap, the plan's data file index is taken to fit in a `u32`.)
pub proof fn law_later_write_keeps_read(
    v: StoreView,
    height: u64,
    block: Seq<u8>,
    plan: WritePlan,
    index: Seq<u8>,
    data: Map<u32, Seq<u8>>,
    h: u64,
)
    requires
        plan_places(v, height, block, plan),
        v.cap matches Some(c) ==> c > 0 && plan.offset / c <= u32::MAX,
        h != height,
        index_slot_spec(v.header.min_height, h) matches Some(io) ==> ({
            let (o, s) = slot_entry(read_at(index, io as int, INDEX_ENTRY_SIZE as nat));
            s == 0 || o + BLOCK_HEADER_SIZE + s <= v.data_highwater
        }),
    ensures
        ({
            let index2 = write_at(index, plan.index_offset as int, plan.entry_bytes@);
            &&& read_outcome(v.header.min_height, v.cap, index2, data_after(data, plan), h)
                == read_outcome(v.header.min_height, v.cap, index, data, h)
            &&& index_slot_spec(v.header.min_height, h) matches Some(io) ==> slot_entry(
                read_at(index2, io as int, INDEX_ENTRY_SIZE as nat),
            ) == slot_entry(read_at(index, io as int, INDEX_ENTRY_SIZE as nat))
        }),
{
    let min = v.header.min_height;
    let index2 = write_at(index, plan.index_offset as int, plan.entry_bytes@);
    let data2 = data_after(data, plan);
    let c = plan.payload@;
    let swh = (c.len() + BLOCK_HEADER_SIZE) as u64;
    lemma_reserve_placement(v.data_highwater, v.cap, swh);
    if let Some(io) = index_slot_spec(min, h) {
        let io2 = plan.index_offset;
        if h < height {
            assert(io + INDEX_ENTRY_SIZE <= io2);
        } else {
            assert(io2 + INDEX_ENTRY_SIZE <= io);
        }
        lemma_padded_read_disjoint_write(index, io2 as int, plan.entry_bytes@, io as int, 16);
        assert(padded_read(index2, io as int, 16) == padded_read(index, io as int, 16));
        let (o, s) = slot_entry(read_at(index, io as int, INDEX_ENTRY_SIZE as nat));
        assert(slot_entry(read_at(index2, io as int, INDEX_ENTRY_SIZE as nat)) == (o, s));
        if s != 0 {
            lemma_read_before_plan(v, height, block, plan, data, o, BLOCK_HEADER_SIZE as u64);
            if o + BLOCK_HEADER_SIZE <= u64::MAX {
                lemma_read_before_plan(
                    v,
                    height,
                    block,
                    plan,
                    data,
                    (o + BLOCK_HEADER_SIZE) as u64,
                    s as u64,
                );
            }
        }
    }
}

/// The index file after the slot writes of each of `writes` in turn (each
/// a later write: the store's state, height, block and plan).
pub open spec fn index_after_writes(
    index: Seq<u8>,
    writes: Seq<(StoreView, u64, Seq<u8>, WritePlan)>,
) -> Seq<u8>
    decreases writes.len(),
{
    if writes.len() == 0 {
        index
    } else {
        let p = writes.last().3;
        write_at(
            index_after_writes(index, writes.drop_last()),
            p.index_offset as int,
            p.entry_bytes@,
        )
    }
}

/// The data files after the data writes of each of `writes` in turn.
pub open spec fn data_after_writes(
    data: Map<u32, Seq<u8>>,
    writes: Seq<(StoreView, u64, Seq<u8>, WritePlan)>,
) -> Map<u32, Seq<u8>>
    decreases writes.len(),
{
    if writes.len() == 0 {
        data
    } else {
        data_after(data_after_writes(data, writes.drop_last()), writes.last().3)
    }
}

/// `w` is a write made after the plan `p1` for `h1` reserved its space: a
/// plan for another height in a store with the same lowest height and cap,
/// whose data written so far reaches past `p1`'s block.
pub open spec fn later_write(
    v1: StoreView,
    h1: u64,
    p1: WritePlan,
    w: (StoreView, u64, Seq<u8>, WritePlan),
) -> bool {
    &&& plan_places(w.0, w.1, w.2, w.3)
    &&& w.0.header.min_height == v1.header.min_height
    &&& w.0.cap == v1.cap
    &&& w.1 != h1
    &&& p1.saved_offset <= w.0.data_highwater
    &&& (w.0.cap matches Some(c) ==> w.3.offset / c <= u32::MAX)
}

proof fn lemma_read_survives_writes(
    v1: StoreView,
    h1: u64,
    b1: Seq<u8>,
    p1: WritePlan,
    later: Seq<(StoreView, u64, Seq<u8>, WritePlan)>,
    index: Seq<u8>,
    data: Map<u32, Seq<u8>>,
)
    requires
        plan_stores(v1, h1, b1, p1),
        v1.cap matches Some(c) ==> c > 0,
        forall|k: int| 0 <= k < later.len() ==> #[trigger] later_write(v1, h1, p1, later[k]),
    ensures
        ({
            let index1 = write_at(index, p1.index_offset as int, p1.entry_bytes@);
            let index2 = index_after_writes(index1, later);
            &&& read_outcome(
                v1.header.min_height,
                v1.cap,
                index2,
                data_after_writes(data_after(data, p1), later),
                h1,
            ) == Ok::<Option<Seq<u8>>, crate::error::StoreError>(Some(b1))
            &&& slot_entry(read_at(index2, p1.index_offset as int, INDEX_ENTRY_SIZE as nat)) == (
                p1.offset,
                p1.payload@.len() as u32,
            )
        }),
    decreases later.len(),
{
    let index1 = write_at(index, p1.index_offset as int, p1.entry_bytes@);
    let clen = p1.payload@.len() as u32;
    lemma_reserve_placement(v1.data_highwater, v1.cap, (p1.payload@.len() + BLOCK_HEADER_SIZE) as u64);
    if later.len() == 0 {
        law_read_after_write(v1, h1, b1, p1, index, data);
        lemma_read_own_write(index, p1.index_offset as int, p1.entry_bytes@);
        let slot = read_at(index1, p1.index_offset as int, INDEX_ENTRY_SIZE as nat);
        lemma_overlay_full(INDEX_ENTRY_SIZE as nat, slot);
        lemma_u64_round_trip(p1.offset);
        lemma_u32_round_trip(clen);
        assert(slot.subrange(0, 8) =~= u64_le(p1.offset));
        assert(slot.subrange(8, 12) =~= u32_le(clen));
    } else {
        let init = later.drop_last();
        assert forall|k: int| 0 <= k < init.len() implies #[trigger] later_write(v1, h1, p1, init[k]) by {
            assert(init[k] == later[k]);
            assert(later_write(v1, h1, p1, later[k]));
        }
        lemma_read_survives_writes(v1, h1, b1, p1, init, index, data);
        let w = later.last();
        assert(later_write(v1, h1, p1, later[later.len() - 1]));
        law_later_write_keeps_read(
            w.0,
            w.1,
            w.2,
            w.3,
            index_after_writes(index1, init),
            data_after_writes(data_after(data, p1), init),
            h1,
        );
    }
}

/// A block reads back however many writes of other heights follow its own:
/// after the writes of the plan `p1` for `b1` at `h1`, then those of each
/// later write in turn (each for another height, made once the data written
/// reached past `p1`'s block, as every later reservation does), the read
/// steps for `h1` give `b1`. (With a cap, each later plan's data file index
/// is taken to fit in a `u32`.)
pub proof fn law_read_survives_later_writes(
    v1: StoreView,
    h1: u64,
    b1: Seq<u8>,
    p1: WritePlan,
    later: Seq<(StoreView, u64, Seq<u8>, WritePlan)>,
    index: Seq<u8>,
    data: Map<u32, Seq<u8>>,
)
    requires
        plan_stores(v1, h1, b1, p1),
        v1.cap matches Some(c) ==> c > 0,
        forall|k: int| 0 <= k < later.len() ==> #[trigger] later_write(v1, h1, p1, later[k]),
    ensures
        read_outcome(
            v1.header.min_height,
            v1.cap,
            index_after_writes(write_at(index, p1.index_offset as int, p1.entry_bytes@), later),
            data_after_writes(data_after(data, p1), later),
            h1,
        ) == Ok::<Option<Seq<u8>>, crate::error::StoreError>(Some(b1)),
{
    lemma_read_survives_writes(v1, h1, b1, p1, later, index, data);
}

/// Reads survive a clean close and reopen: rewriting the index header with
/// the checkpoint of a store in state `v` leaves every height's read as it
/// was, and the store reopened on that index (whose header `h` is decoded
/// from the bytes read at the start of the index file, as
/// [`Store::header_from_read`] does) has the same lowest height and
/// file-size cap, so its reads give what the closed store's gave.
pub proof fn law_reads_survive_reopen(
    v: StoreView,
    saved_offset: u64,
    index: Seq<u8>,
    data: Map<u32, Seq<u8>>,
    height: u64,
    h: IndexFileHeader,
)
    requires
        v.cap == cap_of(v.header.max_data_file_size),
        h.encoded() == overlay(
            default_header_bytes(),
            read_at(
                write_at(index, 0, checkpoint_header_bytes(v, saved_offset)),
                0,
                INDEX_HEADER_SIZE as nat,
            ),
        ),
    ensures
        h.min_height == v.header.min_height,
        cap_of(h.max_data_file_size) == v.cap,
        read_outcome(
            h.min_height,
            cap_of(h.max_data_file_size),
            write_at(index, 0, checkpoint_header_bytes(v, saved_offset)),
            data,
            height,
        ) == read_outcome(v.header.min_height, v.cap, index, data, height),
{
    let ck = checkpoint_header_bytes(v, saved_offset);
    let index2 = write_at(index, 0, ck);
    assert(ck.len() == INDEX_HEADER_SIZE);
    lemma_read_own_write(index, 0, ck);
    assert(overlay(default_header_bytes(), ck) =~= ck);
    law_checkpoint_round_trip(v, saved_offset, h);
    if let Some(io) = index_slot_spec(v.header.min_height, height) {
        lemma_padded_read_disjoint_write(index, 0, ck, io as int, INDEX_ENTRY_SIZE as nat);
        assert(slot_entry(read_at(index2, io as int, INDEX_ENTRY_SIZE as nat)) == slot_entry(
            read_at(index, io as int, INDEX_ENTRY_SIZE as nat),
        ));
    }
}

/// What a read made of the four read steps returns, from each step's result.
pub open spec fn read_steps_result(
    at: Result<u64, StoreError>,
    step: ReadStep,
    header: Result<PayloadRead, StoreError>,
    payload: Result<Vec<u8>, StoreError>,
) -> Result<Option<Seq<u8>>, StoreError> {
    match at {
        Err(e) => Err(e),
        Ok(_) => match step {
            ReadStep::NotFound => Ok(None),
            ReadStep::ReadHeader { .. } => match header {
                Err(e) => Err(e),
                Ok(_) => match payload {
                    Err(e) => Err(e),
                    Ok(v) => Ok(Some(v@)),
                },
            },
        },
    }
}

/// A read is what [`read_outcome`] says, and only reads: when the four read
/// steps of a store `s` for `height` are run, each on the bytes read from an
/// index file holding `index` and data files holding `data` where the step
/// before asked, the read returns `read_outcome` of those files. Every step
/// takes the store by shared reference and asks for no write, so a read
/// changes neither the store nor the files, and a second read of the same
/// height returns the same.
pub proof fn law_read_steps_give_read_outcome(
    s: Store,
    height: u64,
    index: Seq<u8>,
    data: Map<u32, Seq<u8>>,
    at: Result<u64, StoreError>,
    slot: &[u8],
    step: ReadStep,
    header_read: &[u8],
    header: Result<PayloadRead, StoreError>,
    payload_read: &[u8],
    payload: Result<Vec<u8>, StoreError>,
)
    requires
        s.wf(),
        call_ensures(Store::read_slot, (&s, height), at),
        at matches Ok(io) ==> slot@ == read_at(index, io as int, INDEX_ENTRY_SIZE as nat)
            && call_ensures(Store::on_slot, (&s, slot), step),
        at is Ok ==> (step matches ReadStep::ReadHeader { entry, file_index, local_offset }
            ==> header_read@ == read_at(
            data_file(data, file_index),
            local_offset as int,
            BLOCK_HEADER_SIZE as nat,
        ) && call_ensures(Store::on_block_header, (&s, entry, header_read), header)),
        at is Ok && step is ReadHeader ==> (header matches Ok(p) ==> payload_read@ == read_at(
            data_file(data, p.file_index),
            p.local_offset as int,
            p.size as nat,
        ) && call_ensures(Store::on_payload, (&s, &p, payload_read), payload)),
    ensures
        read_steps_result(at, step, header, payload) == read_outcome(
            s@.header.min_height,
            s@.cap,
            index,
            data,
            height,
        ),
{
    if let Ok(io) = at {
        if let ReadStep::ReadHeader { entry, file_index, local_offset } = step {
            if let Ok(p) = header {
                lemma_u64_round_trip(p.header.checksum);
                let hb = overlay(zeros(BLOCK_HEADER_SIZE as nat), header_read@);
                assert(hb.subrange(12, 20) =~= u64_le(p.header.checksum));
            }
        }
    }
}

/// A block written by a write plan is found again by recovery: when the
/// recovery scan reaches the plan's offset in the data file the plan wrote,
/// it reads the plan's block header, takes the block (if its stored size is
/// at most [`BlockHeader::MAX_BLOCK_SIZE`]), produces the very index slot and
/// entry that the plan wrote, and moves on to the plan's end of data.
pub proof fn law_recovery_reindexes(
    v: StoreView,
    height: u64,
    block: Seq<u8>,
    plan: WritePlan,
    data_file_before: Seq<u8>,
)
    requires
        plan_stores(v, height, block, plan),
        v.cap matches Some(c) ==> c > 0,
        plan.payload@.len() <= BlockHeader::MAX_BLOCK_SIZE,
        data_file_before.len() <= u64::MAX,
    ensures
        ({
            let l = plan.local_offset;
            let clen = plan.payload@.len() as u32;
            let file = write_at(
                write_at(data_file_before, l as int, plan.header_bytes@),
                plan.payload_offset as int,
                plan.payload@,
            );
            let at = HeaderAt {
                scan: plan.offset,
                file_index: plan.file_index,
                local_offset: l,
                file_size: file.len() as u64,
            };
            let hdr = BlockHeader { height, size: clen, checksum: xxh64_of(block, 0), version: 1 };
            &&& file.len() <= u64::MAX
            &&& recovery_header_spec(
                v.header.min_height,
                at,
                read_at(file, l as int, BLOCK_HEADER_SIZE as nat),
            ) == Ok::<Option<(u32, u64, u32)>, crate::error::StoreError>(
                Some((plan.file_index, plan.payload_offset, clen)),
            )
            &&& hdr.encoded() == plan.header_bytes@
            &&& recovery_payload_spec(
                v.header.min_height,
                plan.offset,
                hdr,
                read_at(file, plan.payload_offset as int, clen as nat),
            ) == Ok::<Option<(u64, Seq<u8>)>, crate::error::StoreError>(
                Some((plan.index_offset, plan.entry_bytes@)),
            )
            &&& plan.offset + BLOCK_HEADER_SIZE + clen == plan.saved_offset
        }),
{
    let l = plan.local_offset;
    let c = plan.payload@;
    let clen = c.len() as u32;
    let swh = (c.len() + BLOCK_HEADER_SIZE) as u64;
    let x = write_at(data_file_before, l as int, plan.header_bytes@);
    let file = write_at(x, plan.payload_offset as int, c);
    lemma_reserve_placement(v.data_highwater, v.cap, swh);
    match v.cap {
        None => {},
        Some(cp) => {
            assert(l == plan.offset % cp);
            assert(plan.offset % cp <= plan.offset) by (nonlinear_arith)
                requires
                    cp > 0,
            ;
        },
    }
    assert(l <= plan.offset);
    lemma_read_own_write(data_file_before, l as int, plan.header_bytes@);
    lemma_read_own_write(x, plan.payload_offset as int, c);
    lemma_read_before_write(
        x,
        plan.payload_offset as int,
        c,
        l as int,
        BLOCK_HEADER_SIZE as nat,
    );
    let hb = read_at(file, l as int, BLOCK_HEADER_SIZE as nat);
    assert(hb == plan.header_bytes@);
    lemma_overlay_full(BLOCK_HEADER_SIZE as nat, hb);
    lemma_u64_round_trip(height);
    lemma_u32_round_trip(clen);
    assert(hb.subrange(0, 8) =~= u64_le(height));
    assert(hb.subrange(8, 12) =~= u32_le(clen));
    let pr = read_at(file, plan.payload_offset as int, clen as nat);
    assert(pr == c);
    lemma_overlay_full(clen as nat, c);
    assert(file.len() == plan.payload_offset + c.len() || file.len() == x.len());
}

/// Whether the index slot for `height` holds a block (is not all zero in its
/// offset and size).
pub open spec fn slot_occupied(index: Seq<u8>, min_height: u64, height: u64) -> bool {
    match index_slot_spec(min_height, height) {
        None => false,
        Some(o) => {
            let (offset, size) = slot_entry(read_at(index, o as int, INDEX_ENTRY_SIZE as nat));
            !(offset == 0 && size == 0)
        },
    }
}

/// Every height from `min_height` to `top` has an occupied slot.
pub open spec fn contiguous_upto(index: Seq<u8>, min_height: u64, top: u64) -> bool {
    forall|h: u64| min_height <= h <= top ==> #[trigger] slot_occupied(index, min_height, h)
}

/// Writing an occupied entry into the slot of `height` keeps every other
/// slot as it was, and the contiguous run below `height` with it; if the
/// run reached `height - 1`, it now reaches `height`.
pub proof fn law_write_extends_contiguity(
    index: Seq<u8>,
    min_height: u64,
    top: u64,
    height: u64,
    entry: Seq<u8>,
)
    requires
        contiguous_upto(index, min_height, top),
        top < height,
        entry.len() == INDEX_ENTRY_SIZE,
        index_slot_spec(min_height, height) is Some,
        !(slot_entry(entry).0 == 0 && slot_entry(entry).1 == 0),
    ensures
        ({
            let o = index_slot_spec(min_height, height).unwrap();
            let index2 = write_at(index, o as int, entry);
            &&& contiguous_upto(index2, min_height, top)
            &&& slot_occupied(index2, min_height, height)
            &&& top + 1 == height ==> contiguous_upto(index2, min_height, height)
        }),
{
    let o = index_slot_spec(min_height, height).unwrap();
    let index2 = write_at(index, o as int, entry);
    assert forall|h: u64| min_height <= h <= top implies #[trigger] slot_occupied(
        index2,
        min_height,
        h,
    ) by {
        assert(slot_occupied(index, min_height, h));
        let oh = index_slot_spec(min_height, h).unwrap();
        assert(oh + INDEX_ENTRY_SIZE <= o);
        lemma_padded_read_disjoint_write(index, o as int, entry, oh as int, INDEX_ENTRY_SIZE as nat);
    }
    lemma_read_own_write(index, o as int, entry);
    lemma_overlay_full(INDEX_ENTRY_SIZE as nat, entry);
    if top + 1 == height {
        assert forall|h: u64| min_height <= h <= height implies #[trigger] slot_occupied(
            index2,
            min_height,
            h,
        ) by {
            if h <= top {
            }
        }
    }
}

/// Writing an occupied entry into the slot of `height` leaves every
/// occupied slot occupied.
proof fn lemma_write_keeps_occupied(
    index: Seq<u8>,
    min_height: u64,
    height: u64,
    entry: Seq<u8>,
    h: u64,
)
    requires
        entry.len() == INDEX_ENTRY_SIZE,
        index_slot_spec(min_height, height) is Some,
        !(slot_entry(entry).0 == 0 && slot_entry(entry).1 == 0),
        slot_occupied(index, min_height, h) || h == height,
    ensures
        slot_occupied(
            write_at(index, index_slot_spec(min_height, height).unwrap() as int, entry),
            min_height,
            h,
        ),
{
    let o = index_slot_spec(min_height, height).unwrap();
    if h == height {
        lemma_read_own_write(index, o as int, entry);
        lemma_overlay_full(INDEX_ENTRY_SIZE as nat, entry);
    } else {
        let oh = index_slot_spec(min_height, h).unwrap();
        if h < height {
            assert(oh + INDEX_ENTRY_SIZE <= o);
        } else {
            assert(o + INDEX_ENTRY_SIZE <= oh);
        }
        lemma_padded_read_disjoint_write(index, o as int, entry, oh as int, INDEX_ENTRY_SIZE as nat);
    }
}

/// What a contiguous run claims of an index: every slot from the lowest
/// height to its end is occupied (no run claims nothing).
pub open spec fn run_holds(index: Seq<u8>, min_height: u64, run: Option<u64>) -> bool {
    match run {
        None => true,
        Some(c) => contiguous_upto(index, min_height, c),
    }
}

/// Writing an occupied entry into the slot of `height` keeps what a run
/// claims and occupies that slot.
pub proof fn law_write_keeps_run(
    index: Seq<u8>,
    min_height: u64,
    run: Option<u64>,
    height: u64,
    entry: Seq<u8>,
)
    requires
        run_holds(index, min_height, run),
        entry.len() == INDEX_ENTRY_SIZE,
        index_slot_spec(min_height, height) is Some,
        !(slot_entry(entry).0 == 0 && slot_entry(entry).1 == 0),
    ensures
        ({
            let index2 = write_at(index, index_slot_spec(min_height, height).unwrap() as int, entry);
            &&& run_holds(index2, min_height, run)
            &&& slot_occupied(index2, min_height, height)
        }),
{
    let index2 = write_at(index, index_slot_spec(min_height, height).unwrap() as int, entry);
    lemma_write_keeps_occupied(index, min_height, height, entry, height);
    if let Some(c) = run {
        assert forall|h: u64| min_height <= h <= c implies #[trigger] slot_occupied(
            index2,
            min_height,
            h,
        ) by {
            assert(slot_occupied(index, min_height, h));
            lemma_write_keeps_occupied(index, min_height, height, entry, h);
        }
    }
}

/// The contiguous run is only ever extended onto an occupied slot: if the
/// run's claim holds and the block at `height` extends it (see
/// [`extends_run`]) and is present, the extended run's claim holds. With
/// no run, this is the lowest height's slot: a run never starts above an
/// empty lowest slot.
pub proof fn law_extending_keeps_run(index: Seq<u8>, min_height: u64, run: Option<u64>, height: u64)
    requires
        run_holds(index, min_height, run),
        extends_run(run, min_height, height),
        slot_occupied(index, min_height, height),
    ensures
        run_holds(index, min_height, Some(height)),
{
    match run {
        None => {
            assert forall|h: u64| min_height <= h <= height implies #[trigger] slot_occupied(
                index,
                min_height,
                h,
            ) by {
                assert(h == height);
            }
        },
        Some(c) => {
            law_probe_extends_contiguity(index, min_height, c);
        },
    }
}

/// After the contiguous height reaches `n`, the store looks at the very next
/// height: when `n + 1` is within the limit (if any) and has an index slot,
/// the probe reads slot `n + 1`, at `(n + 1 - min_height) * 16 + 64` in the
/// index file, and keeps the limit.
pub proof fn law_probe_moves_to_next_height(min_height: u64, n: u64, limit: Option<u64>)
    requires
        n < u64::MAX,
        min_height <= n + 1,
        (n + 1 - min_height) * 16 + 64 <= u64::MAX,
        limit matches Some(l) ==> n < l,
    ensures
        probe_after(min_height, n, limit) == Some(
            Probe {
                prev: Some(n),
                next: (n + 1) as u64,
                limit,
                index_offset: ((n + 1 - min_height) * 16 + 64) as u64,
            },
        ),
{
}

/// A probe never looks above its limit, nor below the lowest height: after
/// height `n` at or above the limit `l`, or when `n + 1` is below the lowest
/// height, there is no next probe.
pub proof fn law_probe_stays_within_bounds(min_height: u64, n: u64, limit: Option<u64>)
    requires
        n < u64::MAX,
    ensures
        limit matches Some(l) && n >= l ==> probe_after(min_height, n, limit) is None,
        n + 1 < min_height ==> probe_after(min_height, n, limit) is None,
{
}

/// In the first store format, after the contiguous height reaches `n` the
/// next probe reads slot `n + 1`, at `(n + 1 - lowest) * 16 + 32` in the
/// index file, whenever that height has a slot; below the lowest height
/// there is none.
pub proof fn law_legacy_probe_moves_to_next_height(lowest: u64, n: u64)
    requires
        n < u64::MAX,
    ensures
        lowest <= n + 1 && (n + 1 - lowest) * 16 + 32 <= u64::MAX ==> legacy_probe_after(lowest, n)
            == Some(
            LegacyProbe {
                prev: n,
                next: (n + 1) as u64,
                index_offset: ((n + 1 - lowest) * 16 + 32) as u64,
            },
        ),
        n + 1 < lowest ==> legacy_probe_after(lowest, n) is None,
{
}

/// The probes the store makes extend the run they start from: the probe
/// after a run ending at `end` (below `u64::MAX`) looks at `end + 1`.
pub proof fn law_probe_follows_run(min_height: u64, end: u64, limit: Option<u64>)
    requires
        end < u64::MAX,
    ensures
        probe_after(min_height, end, limit) matches Some(p) ==> p.prev == Some(end)
            && extends_run(p.prev, min_height, p.next),
{
}

/// A probe only raises the contiguous height onto an occupied slot: if the
/// run reaches `top`, slot `top + 1` is read occupied, then the run reaches
/// `top + 1`.
pub proof fn law_probe_extends_contiguity(index: Seq<u8>, min_height: u64, top: u64)
    requires
        contiguous_upto(index, min_height, top),
        top < u64::MAX,
        slot_occupied(index, min_height, (top + 1) as u64),
    ensures
        contiguous_upto(index, min_height, (top + 1) as u64),
{
    assert forall|h: u64| min_height <= h <= top + 1 implies #[trigger] slot_occupied(
        index,
        min_height,
        h,
    ) by {
        if h <= top {
        }
    }
}

/// A checkpointed header, read back, carries the end of data, the highest
/// height written and the contiguous height of the store it came from, along
/// with its lowest height and file-size cap.
pub proof fn law_checkpoint_round_trip(v: StoreView, saved_offset: u64, h: IndexFileHeader)
    requires
        h.encoded() == checkpoint_header_bytes(v, saved_offset),
    ensures
        h.min_height == v.header.min_height,
        h.max_data_file_size == v.header.max_data_file_size,
        h.version == v.header.version,
        h.max_height == v.height_highwater,
        h.next_write_offset == saved_offset,
        h.spec_persisted_contiguous_height() == persisted_contiguous(v),
{
    let b = checkpoint_header_bytes(v, saved_offset);
    let e = h.encoded();
    lemma_u64_round_trip(h.version);
    lemma_u64_round_trip(h.max_data_file_size);
    lemma_u64_round_trip(h.min_height);
    lemma_u64_round_trip(h.max_height);
    lemma_u64_round_trip(h.next_write_offset);
    lemma_u64_round_trip(v.header.version);
    lemma_u64_round_trip(v.header.max_data_file_size);
    lemma_u64_round_trip(v.header.min_height);
    lemma_u64_round_trip(v.height_highwater);
    lemma_u64_round_trip(saved_offset);
    lemma_u64_round_trip(persisted_contiguous(v));
    assert(e.subrange(0, 8) =~= u64_le(h.version));
    assert(b.subrange(0, 8) =~= u64_le(v.header.version));
    assert(e.subrange(8, 16) =~= u64_le(h.max_data_file_size));
    assert(b.subrange(8, 16) =~= u64_le(v.header.max_data_file_size));
    assert(e.subrange(16, 24) =~= u64_le(h.min_height));
    assert(b.subrange(16, 24) =~= u64_le(v.header.min_height));
    assert(e.subrange(24, 32) =~= u64_le(h.max_height));
    assert(b.subrange(24, 32) =~= u64_le(v.height_highwater));
    assert(e.subrange(32, 40) =~= u64_le(h.next_write_offset));
    assert(b.subrange(32, 40) =~= u64_le(saved_offset));
    assert(h.reserved@.subrange(0, 8) =~= e.subrange(40, 48));
    assert(b.subrange(40, 48) =~= u64_le(persisted_contiguous(v)));
}

/// In the first store format, a block reads back after its writes, when the
/// checksum computed on reading (`checksum`) is the one computed on writing
/// (FxHash of the same bytes on the same machine).
pub proof fn law_legacy_read_after_write(
    v: LegacyView,
    height: u64,
    block: Seq<u8>,
    plan: LegacyWritePlan,
    index: Seq<u8>,
    data: Seq<u8>,
    checksum: u64,
)
    requires
        legacy_plan_stores(v, height, block, plan),
        checksum == plan.checksum,
        block.len() > 0,
        block.len() <= usize::MAX,
    ensures
        legacy_read_outcome(
            v.header.lowest_block_height,
            write_at(index, plan.index_offset as int, plan.entry_bytes@),
            write_at(
                write_at(data, plan.offset as int, plan.header_bytes@),
                plan.payload_offset as int,
                block,
            ),
            height,
            checksum,
        ) == Ok::<Option<Seq<u8>>, LegacyError>(Some(block)),
{
    let len = block.len() as u64;
    let io = plan.index_offset;
    let index2 = write_at(index, io as int, plan.entry_bytes@);
    let x = write_at(data, plan.offset as int, plan.header_bytes@);
    let data2 = write_at(x, plan.payload_offset as int, block);
    lemma_u64_round_trip(plan.offset);
    lemma_u64_round_trip(len);
    lemma_u64_round_trip(height);
    lemma_u64_round_trip(plan.checksum);
    lemma_read_own_write(index, io as int, plan.entry_bytes@);
    let slot = read_at(index2, io as int, 16);
    assert(slot == plan.entry_bytes@);
    lemma_overlay_full(16, slot);
    assert(slot.subrange(0, 8) =~= u64_le(plan.offset));
    assert(slot.subrange(8, 16) =~= u64_le(len));
    lemma_read_own_write(data, plan.offset as int, plan.header_bytes@);
    lemma_read_before_write(x, plan.payload_offset as int, block, plan.offset as int, 24);
    let hb = read_at(data2, plan.offset as int, 24);
    assert(hb == plan.header_bytes@);
    lemma_overlay_full(24, hb);
    assert(hb.subrange(8, 16) =~= u64_le(len));
    assert(hb.subrange(16, 24) =~= u64_le(plan.checksum));
    lemma_read_own_write(x, plan.payload_offset as int, block);
    lemma_overlay_full(len as nat, block);
}

/// The end of the contiguous run found by probing upward from `end` over
/// the heights present in `present`, below `bound`: the probe moves to
/// `end + 1` while that height is present and below `bound`. This is what
/// [`crate::store::Store::advance_step`] does, one slot at a time, when the
/// occupied slots of the index are those of `present` (none at or above
/// `bound`).
pub open spec fn probe_run(present: Set<u64>, end: u64, bound: u64) -> u64
    decreases bound - end,
{
    if end >= bound || end + 1 >= bound || !present.contains((end + 1) as u64) {
        end
    } else {
        probe_run(present, (end + 1) as u64, bound)
    }
}

/// The run after the block at `height` is written, the heights present
/// then being `present`: if the block extends the run, the run ends at
/// `height` ([`crate::store::Store::begin_advance`]) and is then probed
/// upward; otherwise it is unchanged.
pub open spec fn run_after_write(
    present: Set<u64>,
    min_height: u64,
    bound: u64,
    run: Option<u64>,
    height: u64,
) -> Option<u64> {
    if extends_run(run, min_height, height) {
        Some(probe_run(present, height, bound))
    } else {
        run
    }
}

/// The heights written by the first `k` writes of `order`.
pub open spec fn written(order: Seq<u64>, k: int) -> Set<u64> {
    order.subrange(0, k).to_set()
}

/// The run after the first `k` writes of `order`, starting with no run.
pub open spec fn run_after_writes(order: Seq<u64>, min_height: u64, bound: u64, k: nat) -> Option<u64>
    decreases k,
{
    if k == 0 || k > order.len() {
        None
    } else {
        run_after_write(
            written(order, k as int),
            min_height,
            bound,
            run_after_writes(order, min_height, bound, (k - 1) as nat),
            order[k - 1],
        )
    }
}

/// The longest run of the heights `present` from the lowest height.
pub open spec fn longest_run(present: Set<u64>, min_height: u64, bound: u64) -> Option<u64> {
    if present.contains(min_height) {
        Some(probe_run(present, min_height, bound))
    } else {
        None
    }
}

proof fn lemma_probe_run_facts(present: Set<u64>, end: u64, bound: u64)
    ensures
        probe_run(present, end, bound) >= end,
        end < bound ==> probe_run(present, end, bound) < bound,
        forall|x: u64| end < x <= probe_run(present, end, bound) ==> present.contains(x),
        end < bound ==> (probe_run(present, end, bound) + 1 >= bound || !present.contains(
            (probe_run(present, end, bound) + 1) as u64,
        )),
    decreases bound - end,
{
    if end >= bound || end + 1 >= bound || !present.contains((end + 1) as u64) {
    } else {
        lemma_probe_run_facts(present, (end + 1) as u64, bound);
    }
}

proof fn lemma_probe_run_skip(present: Set<u64>, s: u64, t: u64, bound: u64)
    requires
        s <= t < bound,
        forall|x: u64| s < x <= t ==> present.contains(x),
    ensures
        probe_run(present, s, bound) == probe_run(present, t, bound),
    decreases t - s,
{
    if s < t {
        assert(present.contains((s + 1) as u64));
        lemma_probe_run_skip(present, (s + 1) as u64, t, bound);
    }
}

proof fn lemma_probe_run_add_far(present: Set<u64>, s: u64, h: u64, bound: u64)
    requires
        h > probe_run(present, s, bound) + 1,
    ensures
        probe_run(present.insert(h), s, bound) == probe_run(present, s, bound),
    decreases bound - s,
{
    lemma_probe_run_facts(present, s, bound);
    if s >= bound || s + 1 >= bound || !present.contains((s + 1) as u64) {
        assert((s + 1) as u64 != h);
    } else {
        lemma_probe_run_add_far(present, (s + 1) as u64, h, bound);
    }
}

proof fn lemma_runs_track_longest(order: Seq<u64>, min_height: u64, bound: u64, k: nat)
    requires
        k <= order.len(),
        order.no_duplicates(),
        forall|i: int| 0 <= i < order.len() ==> min_height <= #[trigger] order[i] < bound,
    ensures
        run_after_writes(order, min_height, bound, k) == longest_run(
            written(order, k as int),
            min_height,
            bound,
        ),
    decreases k,
{
    if k == 0 {
        assert(written(order, 0) =~= Set::<u64>::empty());
    } else {
        let km = (k - 1) as nat;
        lemma_runs_track_longest(order, min_height, bound, km);
        let w = written(order, km as int);
        let h = order[km as int];
        let w2 = written(order, k as int);
        assert(order.subrange(0, k as int) =~= order.subrange(0, km as int).push(h));
        broadcast use vstd::seq_lib::group_seq_properties;
        assert(w2 =~= w.insert(h));
        assert(!w.contains(h)) by {
            if w.contains(h) {
                let j = choose|j: int| 0 <= j < km && order.subrange(0, km as int)[j] == h;
                assert(order[j] == order[km as int]);
            }
        }
        let run = longest_run(w, min_height, bound);
        match run {
            None => {},
            Some(e) => {
                lemma_probe_run_facts(w, min_height, bound);
                lemma_probe_run_facts(w2, min_height, bound);
                if extends_run(run, min_height, h) {
                    assert forall|x: u64| min_height < x <= h implies w2.contains(x) by {
                        if x <= e {
                        }
                    }
                    lemma_probe_run_skip(w2, min_height, h, bound);
                } else {
                    assert(h > e + 1) by {
                        if h <= e {
                            if h == min_height {
                            } else {
                                assert(w.contains(h));
                            }
                        }
                    }
                    lemma_probe_run_add_far(w, min_height, h, bound);
                }
            },
        }
    }
}

/// The contiguous run does not depend on the order of the writes: writing
/// every height from the lowest height up to `bound - 1` exactly once, in
/// any order, leaves the run ending at `bound - 1`.
pub proof fn law_run_ignores_write_order(order: Seq<u64>, min_height: u64, bound: u64)
    requires
        order.no_duplicates(),
        forall|i: int| 0 <= i < order.len() ==> min_height <= #[trigger] order[i] < bound,
        forall|x: u64| min_height <= x < bound ==> #[trigger] order.contains(x),
        min_height < bound,
    ensures
        run_after_writes(order, min_height, bound, order.len()) == Some((bound - 1) as u64),
{
    lemma_runs_track_longest(order, min_height, bound, order.len());
    let w = written(order, order.len() as int);
    assert(order.subrange(0, order.len() as int) =~= order);
    assert forall|x: u64| min_height <= x < bound implies w.contains(x) by {
        assert(order.contains(x));
        broadcast use vstd::seq_lib::group_seq_properties;
    }
    assert(w.contains(min_height));
    lemma_probe_run_facts(w, min_height, bound);
}

} // verus!
