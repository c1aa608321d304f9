//! Region files: 32 x 32 chunk slots, a sector-offset table and a timestamp table,
//! then the chunk data in 4096-byte sectors.
use vstd::prelude::*;
use crate::archive::slice_from;
use crate::bytes::{be32, be32_at, be32_bytes, be_u32_at, lemma_be32_roundtrip, read_be_u32};
use crate::lce_region::{chunk_sectors, region_tables, sectors_for, slot_index, sorted_put, splice4};
use crate::error::ConversionError;
use crate::text::to_owned_string;

verus! {

/// One slot of a region's offset table.
#[derive(Debug, Clone, Copy, Default)]
pub struct RegionEntry {
    pub offset: u32,
    pub sector_count: u32,
    pub timestamp: u32,
    pub exists: bool,
}

/// A parsed Xbox 360 region file: `entries[x][z]` is the slot of chunk `(x, z)`.
#[derive(Debug, Clone)]
pub struct Xbox360Region {
    pub entries: Vec<Vec<RegionEntry>>,
    pub raw_data: Vec<u8>,
}

/// The slot of chunk `(x, z)` as stored in a region file's tables: the offset word
/// holds the sector offset in its upper 24 bits and the sector count in its low 8.
pub open spec fn spec_region_entry(data: Seq<u8>, x: int, z: int) -> RegionEntry {
    let index = z * 32 + x;
    let raw = be32_at(data, index * 4);
    let offset = raw / 256;
    let count = raw % 256;
    RegionEntry {
        offset: offset as u32,
        sector_count: count as u32,
        timestamp: be32_at(data, 4096 + index * 4) as u32,
        exists: raw != 0 && count != 0,
    }
}

impl Xbox360Region {
    /// The region has a 32 x 32 table, and every slot marked present spans at least
    /// one sector.
    pub open spec fn wf(&self) -> bool {
        &&& self.entries@.len() == 32
        &&& forall|x: int| 0 <= x < 32 ==> (#[trigger] self.entries@[x])@.len() == 32
        &&& forall|x: int, z: int| 0 <= x < 32 && 0 <= z < 32 && (#[trigger] self.entries@[x]@[z]).exists
            ==> self.entries@[x]@[z].sector_count > 0
    }
}

/// Parses the two 4096-byte tables of an Xbox 360 region file.
pub fn parse_xbox360_region(data: &[u8]) -> (r: Result<Xbox360Region, ConversionError>)
    ensures
        data@.len() < 8192 <==> r matches Err(ConversionError::InvalidFormat(_)),
        data@.len() < 8192 <==> r is Err,
        r matches Ok(region) ==> region.wf() && region.raw_data@ == data@
            && forall|x: int, z: int| 0 <= x < 32 && 0 <= z < 32
                ==> #[trigger] region.entries@[x]@[z] == spec_region_entry(data@, x, z),
{
    if data.len() < 8192 {
        return Err(ConversionError::InvalidFormat(to_owned_string(
            "Region data too short, need at least 8192 bytes for header",
        )));
    }
    let mut entries: Vec<Vec<RegionEntry>> = Vec::new();
    let mut x: usize = 0;
    while x < 32
        invariant
            data@.len() >= 8192,
            x <= 32,
            entries@.len() == x,
            forall|i: int| 0 <= i < x ==> (#[trigger] entries@[i])@.len() == 32,
            forall|i: int, z: int| 0 <= i < x && 0 <= z < 32
                ==> #[trigger] entries@[i]@[z] == spec_region_entry(data@, i, z),
        decreases 32 - x,
    {
        let mut column: Vec<RegionEntry> = Vec::new();
        let mut z: usize = 0;
        while z < 32
            invariant
                data@.len() >= 8192,
                x < 32,
                z <= 32,
                column@.len() == z,
                forall|j: int| 0 <= j < z ==> #[trigger] column@[j] == spec_region_entry(data@, x as int, j),
            decreases 32 - z,
        {
            let index = z * 32 + x;
            let offset_raw = be_u32_at(data, index * 4);
            let timestamp_raw = be_u32_at(data, 4096 + index * 4);
            let offset = offset_raw >> 8;
            let sector_count = offset_raw & 0xFF;
            proof {
                crate::lce_region::lemma_shift_mask(offset_raw);
            }
            column.push(RegionEntry {
                offset,
                sector_count,
                timestamp: timestamp_raw,
                exists: offset_raw != 0 && sector_count != 0,
            });
            z += 1;
        }
        entries.push(column);
        x += 1;
    }
    Ok(Xbox360Region { entries, raw_data: vstd::slice::slice_to_vec(data) })
}

/// Reads the sectors of chunk `(x, z)` of a region: `sector_count` whole sectors from
/// sector `offset`.
pub fn read_region_chunk(region: &Xbox360Region, x: usize, z: usize) -> (r: Result<Vec<u8>, ConversionError>)
    requires
        region.wf(),
    ensures
        (x >= 32 || z >= 32) ==> r matches Err(ConversionError::InvalidFormat(_)),
        x < 32 && z < 32 ==> ({
            let e = region.entries@[x as int]@[z as int];
            let start = e.offset * 4096;
            let end = start + e.sector_count * 4096;
            &&& (!e.exists <==> (r matches Err(ConversionError::MissingData(_))))
            &&& (e.exists && end > region.raw_data@.len() <==> (r matches Err(ConversionError::InvalidFormat(_))))
            &&& (e.exists && end <= region.raw_data@.len() <==> r is Ok)
            &&& (r matches Ok(v) ==> v@ == region.raw_data@.subrange(start, end))
        }),
{
    if x >= 32 || z >= 32 {
        return Err(ConversionError::InvalidFormat(to_owned_string("Chunk coordinates out of range")));
    }
    let entry = region.entries[x][z];
    if !entry.exists {
        return Err(ConversionError::MissingData(to_owned_string("Chunk does not exist in region")));
    }
    let sector_offset: u64 = entry.offset as u64 * 4096;
    let total_size: u64 = entry.sector_count as u64 * 4096;
    if sector_offset + total_size > region.raw_data.len() as u64 {
        return Err(ConversionError::InvalidFormat(to_owned_string("Chunk data exceeds region data length")));
    }
    let so = sector_offset as usize;
    let ts = total_size as usize;
    Ok(vstd::slice::slice_to_vec(slice_from(region.raw_data.as_slice(), so, so + ts)))
}

/// The chunk stored at the slot with table index `index` of a Java region file, if
/// it is present and whole: the 4-byte length, the compression byte and the
/// payload, as `(x, z, bytes)`.
pub open spec fn spec_mcr_slot(data: Seq<u8>, index: int) -> Option<(usize, usize, Seq<u8>)> {
    let raw = be32_at(data, index * 4);
    let file_offset = (raw / 256) * 4096;
    if raw == 0 || file_offset + 5 > data.len() {
        None
    } else {
        let chunk_len = be32_at(data, file_offset);
        if chunk_len == 0 || file_offset + 5 + chunk_len > data.len() {
            None
        } else {
            Some(((index % 32) as usize, (index / 32) as usize, data.subrange(file_offset, file_offset + 5 + chunk_len)))
        }
    }
}

/// The chunks of the first `n` table slots of a Java region file, in table order.
pub open spec fn spec_mcr_chunks(data: Seq<u8>, n: int) -> Seq<(usize, usize, Seq<u8>)>
    decreases n,
{
    if n <= 0 {
        Seq::empty()
    } else {
        let prev = spec_mcr_chunks(data, n - 1);
        match spec_mcr_slot(data, n - 1) {
            Some(c) => prev.push(c),
            None => prev,
        }
    }
}

/// The view of a list of chunks.
pub open spec fn chunks_view(v: Seq<(usize, usize, Vec<u8>)>) -> Seq<(usize, usize, Seq<u8>)> {
    v.map_values(|c: (usize, usize, Vec<u8>)| (c.0, c.1, c.2@))
}

/// Reads every present, whole chunk of a Java `.mcr` region file.
pub fn read_java_mcr_region(data: &[u8]) -> (r: Result<Vec<(usize, usize, Vec<u8>)>, ConversionError>)
    ensures
        data@.len() < 8192 <==> r is Err,
        data@.len() < 8192 <==> r matches Err(ConversionError::InvalidFormat(_)),
        r matches Ok(v) ==> chunks_view(v@) == spec_mcr_chunks(data@, 1024),
{
    if data.len() < 8192 {
        return Err(ConversionError::InvalidFormat(to_owned_string("MCR data too short")));
    }
    let mut chunks: Vec<(usize, usize, Vec<u8>)> = Vec::new();
    let n = data.len();
    let mut index: usize = 0;
    while index < 1024
        invariant
            n == data@.len(),
            n >= 8192,
            index <= 1024,
            chunks_view(chunks@) == spec_mcr_chunks(data@, index as int),
        decreases 1024 - index,
    {
        let x = index % 32;
        let z = index / 32;
        let offset_raw = be_u32_at(data, index * 4);
        proof {
            crate::lce_region::lemma_shift_mask(offset_raw);
        }
        if offset_raw != 0 {
            let file_offset: u64 = ((offset_raw >> 8) as u64) * 4096;
            if file_offset + 5 <= n as u64 {
                let fo = file_offset as usize;
                let chunk_len = be_u32_at(data, fo) as u64;
                if chunk_len != 0 && file_offset + 5 + chunk_len <= n as u64 {
                    let chunk_data = vstd::slice::slice_to_vec(slice_from(data, fo, fo + 5 + chunk_len as usize));
                    let ghost before = chunks_view(chunks@);
                    chunks.push((x, z, chunk_data));
                    assert(chunks_view(chunks@) =~= before.push((x, z, chunk_data@)));
                }
            }
        }
        index += 1;
    }
    Ok(chunks)
}

/// Reads a Java `.mca` region file; its table has the same layout as `.mcr`.
pub fn read_java_mca_region(data: &[u8]) -> (r: Result<Vec<(usize, usize, Vec<u8>)>, ConversionError>)
    ensures
        data@.len() < 8192 <==> r is Err,
        data@.len() < 8192 <==> r matches Err(ConversionError::InvalidFormat(_)),
        r matches Ok(v) ==> chunks_view(v@) == spec_mcr_chunks(data@, 1024),
{
    read_java_mcr_region(data)
}

proof fn lemma_splice4_index(s: Seq<u8>, pos: int, w: Seq<u8>, j: int)
    requires
        0 <= pos,
        pos + 4 <= s.len(),
        w.len() == 4,
        0 <= j < s.len(),
    ensures
        splice4(s, pos, w).len() == s.len(),
        splice4(s, pos, w)[j] == (if pos <= j < pos + 4 { w[j - pos] } else { s[j] }),
{
}

/// Filling in a region file's tables writes only its two header sectors: the length
/// stays, and every byte from 8192 on is as it was.
pub proof fn lemma_tables_touch_only_header(h: Seq<u8>, offs: Seq<((i32, i32), (u32, u32, u32))>, n: int)
    requires
        h.len() >= 8192,
        n <= offs.len(),
    ensures
        region_tables(h, offs, n).len() == h.len(),
        forall|j: int| 8192 <= j < h.len() ==> #[trigger] region_tables(h, offs, n)[j] == h[j],
    decreases n,
{
    if n > 0 {
        lemma_tables_touch_only_header(h, offs, n - 1);
        let prev = region_tables(h, offs, n - 1);
        let (k, (start, count, ts)) = offs[n - 1];
        let idx = slot_index(k);
        assert(0 <= idx < 1024);
        let word = (((start as int * 256) % 0x100000000) + count % 256) as u32;
        let t1 = splice4(prev, idx * 4, be32_bytes(word));
        assert forall|j: int| 8192 <= j < h.len() implies #[trigger] region_tables(h, offs, n)[j] == h[j] by {
            lemma_splice4_index(prev, idx * 4, be32_bytes(word), j);
            lemma_splice4_index(t1, 4096 + idx * 4, be32_bytes(ts), j);
        }
        lemma_splice4_index(prev, idx * 4, be32_bytes(word), 0);
        lemma_splice4_index(t1, 4096 + idx * 4, be32_bytes(ts), 0);
    }
}

/// The slots below `n` of a region whose table is empty but for slot `idx`, which
/// holds chunk record `c`.
proof fn lemma_single_slot_chunks(data: Seq<u8>, idx: int, c: (usize, usize, Seq<u8>), n: int)
    requires
        0 <= idx < 1024,
        0 <= n <= 1024,
        data.len() >= 8192,
        spec_mcr_slot(data, idx) == Some(c),
        forall|i: int| 0 <= i < 1024 && i != idx ==> #[trigger] be32_at(data, i * 4) == 0,
    ensures
        spec_mcr_chunks(data, n) == (if n > idx { seq![c] } else { Seq::empty() }),
    decreases n,
{
    if n > 0 {
        lemma_single_slot_chunks(data, idx, c, n - 1);
        if n - 1 != idx {
            assert(be32_at(data, (n - 1) * 4) == 0);
        }
    }
}

/// A region file holding one chunk reads back as that chunk: after adding the data `d`
/// at `(x, z)` to an empty region file and filling in its tables, reading its chunk
/// records gives exactly one, in the slot of `(x, z)` (its coordinates modulo 32),
/// holding the big-endian length of `d`, the compression byte 2 and `d`.
#[verifier::rlimit(40)]
pub proof fn lemma_one_chunk_region_reads_back(x: i32, z: i32, d: Seq<u8>, ts: u32)
    requires
        0 < d.len() <= 1048576,
    ensures
        ({
            let h = Seq::new(8192, |i: int| 0u8) + chunk_sectors(d);
            let offs = sorted_put(Seq::<((i32, i32), (u32, u32, u32))>::empty(), (x, z), (2u32, sectors_for(d.len() as int) as u32, ts));
            spec_mcr_chunks(region_tables(h, offs, offs.len() as int), 1024)
                == seq![((x as int % 32) as usize, (z as int % 32) as usize, be32_bytes(d.len() as u32) + seq![2u8] + d)]
        }),
{
    let h = Seq::new(8192, |i: int| 0u8) + chunk_sectors(d);
    let empty = Seq::<((i32, i32), (u32, u32, u32))>::empty();
    let count = sectors_for(d.len() as int) as u32;
    let offs = sorted_put(empty, (x, z), (2u32, count, ts));
    assert(offs =~= seq![((x, z), (2u32, count, ts))]);
    let cs = chunk_sectors(d);
    let len = d.len() as int;
    assert(sectors_for(len) * 4096 >= 5 + len) by (nonlinear_arith)
        requires sectors_for(len) == (5 + len + 4095) / 4096, len >= 0;
    assert(sectors_for(len) <= 257) by (nonlinear_arith)
        requires sectors_for(len) == (5 + len + 4095) / 4096, 0 <= len <= 1048576;
    assert(cs.len() == sectors_for(len) * 4096);
    let idx = slot_index((x, z));
    assert(0 <= idx < 1024);
    let word = (((2u32 as int * 256) % 0x100000000) + count % 256) as u32;
    assert(word == 512 + count % 256);
    let t1 = splice4(h, idx * 4, be32_bytes(word));
    let data = splice4(t1, 4096 + idx * 4, be32_bytes(ts));
    assert(region_tables(h, offs, 0) == h);
    assert(region_tables(h, offs, 1) == data);
    assert(data.len() == h.len());
    assert forall|j: int| 0 <= j < data.len() implies #[trigger] data[j] == (
        if idx * 4 <= j < idx * 4 + 4 { be32_bytes(word)[j - idx * 4] }
        else if 4096 + idx * 4 <= j < 4096 + idx * 4 + 4 { be32_bytes(ts)[j - 4096 - idx * 4] }
        else { h[j] }) by {
        lemma_splice4_index(h, idx * 4, be32_bytes(word), j);
        lemma_splice4_index(t1, 4096 + idx * 4, be32_bytes(ts), j);
    }
    assert forall|i: int| 0 <= i < 1024 && i != idx implies #[trigger] be32_at(data, i * 4) == 0 by {
        assert(data[i * 4] == 0u8 && data[i * 4 + 1] == 0u8 && data[i * 4 + 2] == 0u8 && data[i * 4 + 3] == 0u8);
    }
    lemma_be32_roundtrip(word);
    lemma_be32_roundtrip(d.len() as u32);
    assert(be32_at(data, idx * 4) == be32(be32_bytes(word)[0], be32_bytes(word)[1], be32_bytes(word)[2], be32_bytes(word)[3]));
    assert(be32_at(data, idx * 4) == word);
    assert(word / 256 == 2);
    assert forall|t: int| 0 <= t < cs.len() implies #[trigger] data[8192 + t] == cs[t] by {
        assert(h[8192 + t] == cs[t]);
    }
    assert(be32_at(data, 8192) == be32(cs[0], cs[1], cs[2], cs[3]));
    assert(cs[0] == be32_bytes(d.len() as u32)[0]);
    assert(cs[1] == be32_bytes(d.len() as u32)[1]);
    assert(cs[2] == be32_bytes(d.len() as u32)[2]);
    assert(cs[3] == be32_bytes(d.len() as u32)[3]);
    assert(be32_at(data, 8192) == len);
    let rec = be32_bytes(d.len() as u32) + seq![2u8] + d;
    assert(data.subrange(8192, 8192 + 5 + len) =~= rec) by {
        assert forall|t: int| 0 <= t < 5 + len implies data.subrange(8192, 8192 + 5 + len)[t] == rec[t] by {
            assert(data[8192 + t] == cs[t]);
        }
    }
    let c = ((idx % 32) as usize, (idx / 32) as usize, rec);
    assert(spec_mcr_slot(data, idx) == Some(c));
    assert(idx % 32 == x as int % 32 && idx / 32 == z as int % 32);
    lemma_single_slot_chunks(data, idx, c, 1024);
}

} // verus!
