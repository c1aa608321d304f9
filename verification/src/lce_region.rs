//! Writing Legacy Console Edition region files.
use vstd::prelude::*;
use crate::bytes::{be32_bytes, push_be_u32};
use crate::error::ConversionError;
use crate::text::to_owned_string;

verus! {

/// Splitting a region offset word into its sector offset and sector count.
pub proof fn lemma_shift_mask(v: u32)
    by (bit_vector)
    ensures
        v >> 8 == v / 256,
        v & 0xFF == v % 256,
{
}

/// The offset word of a region table slot: the sector offset shifted into the upper
/// 24 bits (higher bits are lost) and the low 8 bits of the sector count.
pub proof fn lemma_offset_word(start: u32, count: u32)
    by (bit_vector)
    ensures
        (start << 8) | (count & 0xFF) == ((start as int * 256) % 0x100000000) + count % 256,
{
}

/// Seconds since the Unix epoch from the system clock (`SystemTime::now`), 0 when the
/// clock reads before the epoch. Nothing is promised of the value: it is the time.
#[verifier::external_body]
pub(crate) fn unix_time_secs() -> u64 {
    std::time::SystemTime::now().duration_since(std::time::UNIX_EPOCH).unwrap_or_default().as_secs()
}

/// The order of chunk coordinates: by `x`, then by `z`.
pub open spec fn coord_lt(a: (i32, i32), b: (i32, i32)) -> bool {
    a.0 < b.0 || (a.0 == b.0 && a.1 < b.1)
}

/// `s` is strictly increasing in its keys.
pub open spec fn sorted_keys<V>(s: Seq<((i32, i32), V)>) -> bool {
    forall|i: int, j: int| 0 <= i < j < s.len() ==> coord_lt(#[trigger] s[i].0, #[trigger] s[j].0)
}

/// The first position of `s` whose key is not below `k`.
pub open spec fn lower_bound<V>(s: Seq<((i32, i32), V)>, k: (i32, i32)) -> int
    decreases s.len(),
{
    if s.len() == 0 {
        0
    } else if !coord_lt(s[0].0, k) {
        0
    } else {
        lower_bound(s.drop_first(), k) + 1
    }
}

/// `s` with `k` bound to `v`, kept in key order.
pub open spec fn sorted_put<V>(s: Seq<((i32, i32), V)>, k: (i32, i32), v: V) -> Seq<((i32, i32), V)> {
    let i = lower_bound(s, k);
    if i < s.len() && s[i].0 == k { s.update(i, (k, v)) } else { s.insert(i, (k, v)) }
}

proof fn lemma_lower_bound<V>(s: Seq<((i32, i32), V)>, k: (i32, i32))
    ensures
        0 <= lower_bound(s, k) <= s.len(),
        lower_bound(s, k) < s.len() ==> !coord_lt(s[lower_bound(s, k)].0, k),
        forall|j: int| 0 <= j < lower_bound(s, k) ==> coord_lt(#[trigger] s[j].0, k),
    decreases s.len(),
{
    if s.len() > 0 && coord_lt(s[0].0, k) {
        lemma_lower_bound(s.drop_first(), k);
        assert forall|j: int| 1 <= j < lower_bound(s, k) implies coord_lt(#[trigger] s[j].0, k) by {
            assert(s[j] == s.drop_first()[j - 1]);
        }
    }
}

proof fn lemma_lower_bound_unique<V>(s: Seq<((i32, i32), V)>, k: (i32, i32), i: int)
    requires
        0 <= i <= s.len(),
        i < s.len() ==> !coord_lt(s[i].0, k),
        forall|j: int| 0 <= j < i ==> coord_lt(#[trigger] s[j].0, k),
    ensures
        lower_bound(s, k) == i,
    decreases s.len(),
{
    lemma_lower_bound(s, k);
    let b = lower_bound(s, k);
    if b < i {
        assert(coord_lt(s[b].0, k));
    } else if b > i {
        assert(coord_lt(s[i].0, k));
    }
}

/// The places a region file records, without the timestamps: each chunk position with
/// its first sector and sector count.
pub open spec fn places(offs: Seq<((i32, i32), (u32, u32, u32))>) -> Seq<((i32, i32), (u32, u32))> {
    offs.map_values(|o: ((i32, i32), (u32, u32, u32))| (o.0, (o.1.0, o.1.1)))
}

proof fn lemma_places_lower_bound(s: Seq<((i32, i32), (u32, u32, u32))>, k: (i32, i32))
    ensures
        lower_bound(places(s), k) == lower_bound(s, k),
    decreases s.len(),
{
    if s.len() > 0 {
        assert(places(s).drop_first() =~= places(s.drop_first()));
        lemma_places_lower_bound(s.drop_first(), k);
    }
}

/// Recording a chunk and then dropping the timestamps is recording its place.
pub proof fn lemma_places_sorted_put(s: Seq<((i32, i32), (u32, u32, u32))>, k: (i32, i32), a: u32, b: u32, t: u32)
    ensures
        places(sorted_put(s, k, (a, b, t))) == sorted_put(places(s), k, (a, b)),
{
    lemma_places_lower_bound(s, k);
    lemma_lower_bound(s, k);
    let i = lower_bound(s, k);
    if i < s.len() && s[i].0 == k {
        assert(places(s.update(i, (k, (a, b, t)))) =~= places(s).update(i, (k, (a, b))));
    } else {
        assert(places(s.insert(i, (k, (a, b, t)))) =~= places(s).insert(i, (k, (a, b))));
    }
}

/// The 4-byte run of `s` at `pos` replaced by `w`.
pub open spec fn splice4(s: Seq<u8>, pos: int, w: Seq<u8>) -> Seq<u8> {
    s.subrange(0, pos) + w + s.subrange(pos + 4, s.len() as int)
}

/// The table slot of chunk `(x, z)`: its coordinates modulo 32.
pub open spec fn slot_index(k: (i32, i32)) -> int {
    (k.1 as int % 32) * 32 + (k.0 as int % 32)
}

/// The region table entries written for the first `n` chunks of `offs` (in key
/// order) onto `h`: the offset word at `4 * slot`, the timestamp at `4096 + 4 * slot`.
pub open spec fn region_tables(h: Seq<u8>, offs: Seq<((i32, i32), (u32, u32, u32))>, n: int) -> Seq<u8>
    decreases n,
{
    if n <= 0 {
        h
    } else {
        let prev = region_tables(h, offs, n - 1);
        let (k, (start, count, ts)) = offs[n - 1];
        let idx = slot_index(k);
        let word = (((start as int * 256) % 0x100000000) + count % 256) as u32;
        splice4(splice4(prev, idx * 4, be32_bytes(word)), 4096 + idx * 4, be32_bytes(ts))
    }
}

/// The number of 4096-byte sectors that hold a chunk of `len` bytes with its 5-byte
/// header.
pub open spec fn sectors_for(len: int) -> int {
    (5 + len + 4095) / 4096
}

/// The bytes a chunk of data occupies in a region file: its big-endian length, the
/// compression byte 2, the data, then zeros up to a whole sector.
pub open spec fn chunk_sectors(data: Seq<u8>) -> Seq<u8> {
    be32_bytes(data.len() as u32) + seq![2u8] + data
        + Seq::new((sectors_for(data.len() as int) * 4096 - 5 - data.len()) as nat, |i: int| 0u8)
}

/// A Legacy Console Edition region file being assembled: two header sectors and the
/// chunks added so far, each starting on a sector boundary.
pub struct LceRegionFile {
    sectors: Vec<u8>,
    offsets: Vec<((i32, i32), (u32, u32, u32))>,
    next_sector: u32,
}

impl LceRegionFile {
    /// The sectors hold the header and whole sectors up to `next_sector`; the chunk
    /// records are in coordinate order, each key once.
    pub closed spec fn wf(&self) -> bool {
        &&& self.next_sector >= 2
        &&& self.sectors@.len() == self.next_sector as int * 4096
        &&& sorted_keys(self.offsets@)
    }

    /// The bytes assembled so far, header sectors included.
    pub closed spec fn sectors_view(&self) -> Seq<u8> {
        self.sectors@
    }

    /// The chunk records so far in coordinate order: `(x, z)` to
    /// `(first sector, sector count, timestamp)`.
    pub closed spec fn offsets_view(&self) -> Seq<((i32, i32), (u32, u32, u32))> {
        self.offsets@
    }

    /// The first free sector.
    pub closed spec fn next_sector_view(&self) -> u32 {
        self.next_sector
    }

    /// An empty region file: two zeroed header sectors, no chunks.
    pub fn new() -> (r: Self)
        ensures
            r.wf(),
            r.sectors_view() == Seq::new(8192, |i: int| 0u8),
            r.offsets_view().len() == 0,
            r.next_sector_view() == 2,
    {
        let sectors: Vec<u8> = vec![0u8; 8192];
        assert(sectors@ =~= Seq::new(8192, |i: int| 0u8));
        LceRegionFile { sectors, offsets: Vec::new(), next_sector: 2 }
    }

    /// Whether `add_chunk` can take `len` bytes without the sector count passing
    /// `u32::MAX` (a chunk over 1 MiB is refused by `add_chunk` itself).
    pub fn can_hold(&self, len: usize) -> (r: bool)
        ensures
            r == (len > 1048576 || self.next_sector_view() + sectors_for(len as int) <= u32::MAX),
    {
        len > 1048576 || (self.next_sector as u64) + ((5 + len as u64 + 4095) / 4096) <= 0xFFFF_FFFF
    }

    /// Appends a chunk's data, sector-aligned, and records where it lies; a chunk
    /// larger than 1 MiB is refused and nothing changes.
    pub fn add_chunk(&mut self, chunk_x: i32, chunk_z: i32, data: &[u8]) -> (r: Result<(), ConversionError>)
        requires
            old(self).wf(),
            data@.len() > 1048576 || old(self).next_sector_view() + sectors_for(data@.len() as int) <= u32::MAX,
        ensures
            final(self).wf(),
            data@.len() > 1048576 <==> r matches Err(ConversionError::InvalidFormat(_)),
            data@.len() > 1048576 <==> r is Err,
            r is Err ==> *final(self) == *old(self),
            r is Ok ==> {
                &&& final(self).sectors_view() == old(self).sectors_view() + chunk_sectors(data@)
                &&& final(self).next_sector_view() == old(self).next_sector_view() + sectors_for(data@.len() as int)
                &&& final(self).offsets_view() == sorted_put(old(self).offsets_view(), (chunk_x, chunk_z),
                    (old(self).next_sector_view(), sectors_for(data@.len() as int) as u32,
                     final(self).offsets_view()[lower_bound(old(self).offsets_view(), (chunk_x, chunk_z))].1.2))
            },
    {
        if data.len() > 1024 * 1024 {
            return Err(ConversionError::InvalidFormat(to_owned_string("Chunk data too large")));
        }
        let total_size = 5 + data.len();
        let sectors_needed = ((total_size + 4096 - 1) / 4096) as u32;
        let sector_start = self.next_sector;
        assert(sectors_needed == sectors_for(data@.len() as int));
        assert(sectors_needed * 4096 >= total_size) by (nonlinear_arith)
            requires sectors_needed == (total_size + 4095) / 4096;
        let padding = sectors_needed as usize * 4096 - total_size;
        let ghost before = self.sectors@;
        push_be_u32(&mut self.sectors, data.len() as u32);
        self.sectors.push(2);
        let mut i: usize = 0;
        while i < data.len()
            invariant
                i <= data@.len(),
                self.offsets == old(self).offsets,
                self.next_sector == old(self).next_sector,
                self.sectors@ == before + be32_bytes(data@.len() as u32) + seq![2u8] + data@.subrange(0, i as int),
            decreases data@.len() - i,
        {
            let ghost s0 = self.sectors@;
            self.sectors.push(data[i]);
            assert(data@.subrange(0, i + 1) =~= data@.subrange(0, i as int).push(data@[i as int]));
            assert(self.sectors@ =~= before + be32_bytes(data@.len() as u32) + seq![2u8] + data@.subrange(0, i + 1));
            i += 1;
        }
        assert(data@.subrange(0, data@.len() as int) =~= data@);
        let ghost mid = self.sectors@;
        let mut p: usize = 0;
        while p < padding
            invariant
                p <= padding,
                self.offsets == old(self).offsets,
                self.next_sector == old(self).next_sector,
                self.sectors@ == mid + Seq::new(p as nat, |j: int| 0u8),
            decreases padding - p,
        {
            self.sectors.push(0);
            assert(self.sectors@ =~= mid + Seq::new((p + 1) as nat, |j: int| 0u8));
            p += 1;
        }
        assert(self.sectors@ =~= before + chunk_sectors(data@));
        let timestamp = unix_time_secs() as u32;
        self.put_offset((chunk_x, chunk_z), (sector_start, sectors_needed, timestamp));
        self.next_sector = sector_start + sectors_needed;
        assert(self.sectors@.len() == self.next_sector as int * 4096);
        Ok(())
    }

    fn put_offset(&mut self, k: (i32, i32), v: (u32, u32, u32))
        requires
            sorted_keys(old(self).offsets@),
        ensures
            final(self).offsets@ == sorted_put(old(self).offsets@, k, v),
            final(self).offsets@[lower_bound(old(self).offsets@, k)] == (k, v),
            sorted_keys(final(self).offsets@),
            final(self).sectors == old(self).sectors,
            final(self).next_sector == old(self).next_sector,
    {
        let n = self.offsets.len();
        let mut i: usize = 0;
        while i < n && key_below(&self.offsets, i, k)
            invariant
                n == self.offsets@.len(),
                i <= n,
                forall|j: int| 0 <= j < i ==> coord_lt(#[trigger] self.offsets@[j].0, k),
            decreases n - i,
        {
            i += 1;
        }
        let ghost s = self.offsets@;
        proof {
            lemma_lower_bound_unique(s, k, i as int);
        }
        if i < n && self.offsets[i].0.0 == k.0 && self.offsets[i].0.1 == k.1 {
            self.offsets.set(i, (k, v));
            proof {
                assert forall|a: int, b: int| 0 <= a < b < self.offsets@.len()
                    implies coord_lt(#[trigger] self.offsets@[a].0, #[trigger] self.offsets@[b].0) by {
                    assert(coord_lt(s[a].0, s[b].0));
                }
            }
        } else {
            self.offsets.insert(i, (k, v));
            proof {
                let t = self.offsets@;
                assert(t == s.insert(i as int, (k, v)));
                assert forall|a: int, b: int| 0 <= a < b < t.len()
                    implies coord_lt(#[trigger] t[a].0, #[trigger] t[b].0) by {
                    if b < i {
                        assert(coord_lt(s[a].0, s[b].0));
                    } else if b == i {
                        assert(coord_lt(s[a].0, k));
                    } else if a == i {
                        assert(!coord_lt(s[b - 1].0, k));
                        if b - 1 > i {
                            assert(coord_lt(s[i as int].0, s[b - 1].0));
                        }
                    } else if a < i {
                        assert(coord_lt(s[a].0, k));
                        assert(!coord_lt(s[b - 1].0, k));
                    } else {
                        assert(coord_lt(s[a - 1].0, s[b - 1].0));
                    }
                }
            }
        }
    }
}

fn key_below(offs: &Vec<((i32, i32), (u32, u32, u32))>, i: usize, k: (i32, i32)) -> (r: bool)
    requires
        i < offs@.len(),
    ensures
        r == coord_lt(offs@[i as int].0, k),
{
    let key = offs[i].0;
    key.0 < k.0 || (key.0 == k.0 && key.1 < k.1)
}

/// `x & 31` is the Euclidean remainder of `x` by 32.
pub proof fn lemma_and31(x: i32)
    by (bit_vector)
    ensures
        0 <= x & 31 < 32,
        (x & 31) as int == x as int % 32,
{
}

/// Overwrites the four bytes at `pos` with the big-endian bytes of `w`.
pub fn set_be_u32(v: &mut Vec<u8>, pos: usize, w: u32)
    requires
        pos + 4 <= old(v)@.len(),
    ensures
        final(v)@ == splice4(old(v)@, pos as int, be32_bytes(w)),
{
    proof { crate::bytes::lemma_u32_split(w); }
    let _ = v.len();
    v.set(pos, (w >> 24) as u8);
    v.set(pos + 1, ((w >> 16) & 0xff) as u8);
    v.set(pos + 2, ((w >> 8) & 0xff) as u8);
    v.set(pos + 3, (w & 0xff) as u8);
    assert(v@ =~= splice4(old(v)@, pos as int, be32_bytes(w)));
}

impl LceRegionFile {
    /// The region file's bytes: the assembled sectors with the offset and timestamp
    /// tables filled in for every recorded chunk, in coordinate order (a later chunk
    /// with the same slot overwrites an earlier one).
    pub fn build(self) -> (r: Result<Vec<u8>, ConversionError>)
        requires
            self.wf(),
        ensures
            r matches Ok(v) && v@ == region_tables(self.sectors_view(), self.offsets_view(), self.offsets_view().len() as int),
    {
        let LceRegionFile { mut sectors, offsets, next_sector } = self;
        let n = offsets.len();
        let ghost h = sectors@;
        let mut i: usize = 0;
        while i < n
            invariant
                n == offsets@.len(),
                i <= n,
                sectors@.len() == h.len(),
                h.len() >= 8192,
                sectors@ == region_tables(h, offsets@, i as int),
            decreases n - i,
        {
            let (key, (sector_start, sector_count, timestamp)) = offsets[i];
            let local_x = (key.0 & 31) as usize;
            let local_z = (key.1 & 31) as usize;
            proof {
                lemma_and31(key.0);
                lemma_and31(key.1);
                lemma_offset_word(sector_start, sector_count);
            }
            let index = local_z * 32 + local_x;
            let offset_val = (sector_start << 8) | (sector_count & 0xFF);
            set_be_u32(&mut sectors, index * 4, offset_val);
            set_be_u32(&mut sectors, 4096 + index * 4, timestamp);
            i += 1;
        }
        Ok(sectors)
    }
}

/// Adding a chunk and then building: the region file built after the chunk was added
/// is the one built before, followed by the chunk's sectors (its big-endian length, the
/// compression byte 2, the data, zeros up to a sector boundary); every byte from 8192
/// up to the old length is unchanged, so the chunks added earlier stay as they were.
pub proof fn lemma_add_then_build(before: LceRegionFile, after: LceRegionFile, data: Seq<u8>)
    requires
        before.wf(),
        after.wf(),
        after.sectors_view() == before.sectors_view() + chunk_sectors(data),
    ensures
        ({
            let b0 = region_tables(before.sectors_view(), before.offsets_view(), before.offsets_view().len() as int);
            let b1 = region_tables(after.sectors_view(), after.offsets_view(), after.offsets_view().len() as int);
            &&& b1.len() == b0.len() + chunk_sectors(data).len()
            &&& b1.subrange(8192, b0.len() as int) == b0.subrange(8192, b0.len() as int)
            &&& b1.subrange(b0.len() as int, b1.len() as int) == chunk_sectors(data)
        }),
{
    let h0 = before.sectors_view();
    let h1 = after.sectors_view();
    crate::region::lemma_tables_touch_only_header(h0, before.offsets_view(), before.offsets_view().len() as int);
    crate::region::lemma_tables_touch_only_header(h1, after.offsets_view(), after.offsets_view().len() as int);
    let b0 = region_tables(h0, before.offsets_view(), before.offsets_view().len() as int);
    let b1 = region_tables(h1, after.offsets_view(), after.offsets_view().len() as int);
    assert(b1.subrange(8192, b0.len() as int) =~= b0.subrange(8192, b0.len() as int)) by {
        assert forall|j: int| 8192 <= j < h0.len() implies b1[j] == b0[j] by {
            assert(h1[j] == h0[j]);
        }
    }
    assert(b1.subrange(b0.len() as int, b1.len() as int) =~= chunk_sectors(data)) by {
        assert forall|j: int| h0.len() <= j < h1.len() implies b1[j] == chunk_sectors(data)[j - h0.len()] by {
            assert(h1[j] == chunk_sectors(data)[j - h0.len()]);
        }
    }
}

} // verus!
