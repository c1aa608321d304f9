//! Xbox 360 STFS packages and the savegame compression inside them.
use vstd::prelude::*;
use vstd::slice::slice_to_vec;
use vstd::wrapping::{u32_specs, usize_specs};
use crate::archive::slice_from;
use crate::bytes::{push_bytes, be16_at, be32_at, be_u16_at, be_u32_at, le16_at, le24_at, le_u16_at, le_u24_at, read_be_u32};
use crate::error::ConversionError;
use crate::rle::{lemma_expand_bounded, repeat, rle_expand, rle_expand_bounded};
use crate::compress::{zlib_decode, zlib_decoded};
use crate::text::{str_eq, push_decimal, string_from_utf8_lossy, string_push_str, to_owned_string, utf8_lossy};

verus! {

/// The magic of an STFS package (`CON `).
pub const CON_MAGIC: u32 = 0x434F4E20;

/// Whether `data` begins with the STFS package magic.
pub fn is_stfs_package(data: &[u8]) -> (r: bool)
    ensures
        r == (data@.len() >= 4 && be32_at(data@, 0) == CON_MAGIC),
{
    if data.len() < 4 {
        return false;
    }
    read_be_u32(slice_from(data, 0, 4)) == CON_MAGIC
}

/// The volume descriptor of an STFS package.
pub struct StfsVD {
    pub size: u8,
    pub block_separation: u8,
    pub file_table_block_count: u16,
    pub file_table_block_num: i32,
    pub alloc_block_count: u32,
    pub unallocated_block_count: u32,
}

/// The volume descriptor read from the start of `d`.
pub open spec fn vd_matches(vd: StfsVD, d: Seq<u8>) -> bool {
    &&& vd.size == d[0]
    &&& vd.block_separation == d[2]
    &&& vd.file_table_block_count == le16_at(d, 3)
    &&& vd.file_table_block_num == le24_at(d, 5)
    &&& vd.alloc_block_count == be32_at(d, 0x1C)
    &&& vd.unallocated_block_count == be32_at(d, 0x20)
}

fn read_stfs_vd(data: &[u8]) -> (r: Result<StfsVD, ConversionError>)
    ensures
        data@.len() < 0x24 <==> r is Err,
        r is Err ==> r matches Err(ConversionError::InvalidFormat(_)),
        r matches Ok(vd) ==> vd_matches(vd, data@),
{
    if data.len() < 0x24 {
        return Err(ConversionError::InvalidFormat(to_owned_string("STFS VD too short")));
    }
    let size = data[0];
    let block_separation = data[2];
    let file_table_block_count = le_u16_at(data, 3);
    let file_table_block_num = le_u24_at(data, 5);
    let alloc_block_count = be_u32_at(data, 0x1C);
    let unallocated_block_count = be_u32_at(data, 0x20);
    Ok(StfsVD { size, block_separation, file_table_block_count, file_table_block_num, alloc_block_count, unallocated_block_count })
}

/// One entry of a hash table: a block hash, a status byte and the next block of the
/// chain.
pub struct HashEntry {
    pub hash: Vec<u8>,
    pub status: u8,
    pub next_block: i32,
}

/// The hash entry whose 24 bytes begin at `off`.
pub open spec fn hash_entry_matches(e: HashEntry, d: Seq<u8>, off: int) -> bool {
    &&& e.hash@ == d.subrange(off, off + 20)
    &&& e.status == d[off + 20]
    &&& e.next_block == le24_at(d, off + 21)
}

fn read_hash_entry(data: &[u8], off: usize) -> (r: HashEntry)
    requires
        off + 24 <= data@.len(),
    ensures
        hash_entry_matches(r, data@, off as int),
{
    let _n = data.len();
    let hash = slice_to_vec(slice_from(data, off, off + 20));
    let status = data[off + 20];
    let next_block = le_u24_at(data, off + 21);
    HashEntry { hash, status, next_block }
}

/// The hash block backing data block `block_num` at level 0 of the hash tree.
pub open spec fn level_0_backing(block_num: u32, step: (u32, u32), sex: u8) -> u32 {
    let psex = sex as u32;
    if block_num < 0xAA {
        0
    } else {
        let num = u32_specs::wrapping_add(
            u32_specs::wrapping_mul((block_num / 0xAA) as u32, step.0),
            (((block_num / 0x70E4) + 1) as u32) << psex,
        );
        if block_num / 0x70E4 == 0 { num } else { u32_specs::wrapping_add(num, 1u32 << psex) }
    }
}

/// The hash block backing data block `block_num` at level 1 of the hash tree.
pub open spec fn level_1_backing(block_num: u32, step: (u32, u32), sex: u8) -> u32 {
    let psex = sex as u32;
    if block_num < 0x70E4 {
        step.0
    } else {
        u32_specs::wrapping_add(1u32 << psex, u32_specs::wrapping_mul((block_num / 0x70E4) as u32, step.1))
    }
}

/// The hash block backing data block `block_num` at `level` of the hash tree.
pub open spec fn level_n_backing(block_num: u32, level: u8, step: (u32, u32), sex: u8) -> u32 {
    if level == 0 {
        level_0_backing(block_num, step, sex)
    } else if level == 1 {
        level_1_backing(block_num, step, sex)
    } else if level == 2 {
        step.1
    } else {
        0
    }
}

fn compute_level_0_backing_hash_block_number(block_num: u32, block_step: &[u32; 2], package_sex: u8) -> (r: u32)
    requires
        package_sex <= 1,
    ensures
        r == level_0_backing(block_num, (block_step[0], block_step[1]), package_sex),
{
    let psex = package_sex as u32;
    if block_num < 0xAA {
        return 0;
    }
    let mut num = (block_num / 0xAA).wrapping_mul(block_step[0]);
    num = num.wrapping_add(((block_num / 0x70E4) + 1) << psex);
    if block_num / 0x70E4 == 0 {
        return num;
    }
    num.wrapping_add(1 << psex)
}

fn compute_level_1_backing_hash_block_number(block_num: u32, block_step: &[u32; 2], package_sex: u8) -> (r: u32)
    requires
        package_sex <= 1,
    ensures
        r == level_1_backing(block_num, (block_step[0], block_step[1]), package_sex),
{
    let psex = package_sex as u32;
    if block_num < 0x70E4 {
        return block_step[0];
    }
    (1u32 << psex).wrapping_add((block_num / 0x70E4).wrapping_mul(block_step[1]))
}

fn compute_level_n_backing_hash_block_number(block_num: u32, level: u8, block_step: &[u32; 2], package_sex: u8) -> (r: u32)
    requires
        package_sex <= 1,
    ensures
        r == level_n_backing(block_num, level, (block_step[0], block_step[1]), package_sex),
{
    match level {
        0 => compute_level_0_backing_hash_block_number(block_num, block_step, package_sex),
        1 => compute_level_1_backing_hash_block_number(block_num, block_step, package_sex),
        2 => block_step[1],
        _ => 0,
    }
}

/// The "sex" of a package, from its volume descriptor's block separation: 1 when
/// bit 0 is clear.
pub open spec fn package_sex_of(block_separation: u8) -> u8 {
    (!block_separation) & 1u8
}

/// The block steps of the hash tree of a package of sex `sex`.
pub open spec fn block_step_of(sex: u8) -> (u32, u32) {
    if sex == 0 { (0xAB, 0x718F) } else { (0xAC, 0x723A) }
}

/// The address of the first hash table: the header size rounded up to 4 KiB.
pub open spec fn first_hash_addr_of(header_size: u32) -> u32 {
    u32_specs::wrapping_add(header_size, 0x0FFF) & !0x0FFFu32
}

/// The depth of the hash tree a package of `alloc` blocks needs.
pub open spec fn top_level_of(alloc: u32) -> Option<u8> {
    if alloc <= 0xAA {
        Some(0)
    } else if alloc <= 0x70E4 {
        Some(1)
    } else if alloc <= 0x4AF768 {
        Some(2)
    } else {
        None
    }
}

/// The number of entries of the top hash table of a package of `alloc` blocks.
pub open spec fn top_entry_count(alloc: u32, level: u8) -> int {
    let divisor: int = if level == 0 { 1 } else if level == 1 { 0xAA } else { 0x70E4 };
    (alloc as int) / divisor + if alloc > 0x70E4 && alloc % 0x70E4 != 0 {
        1int
    } else if alloc > 0xAA && alloc % 0xAA != 0 {
        1int
    } else {
        0int
    }
}

/// The address of the top hash table.
pub open spec fn top_addr_of(header_size: u32, block_separation: u8, level: u8) -> u32 {
    let sex = package_sex_of(block_separation);
    let step = block_step_of(sex);
    let top_true_block = level_n_backing(0, level, step, sex);
    let base_addr = u32_specs::wrapping_add(top_true_block << 12u32, first_hash_addr_of(header_size));
    u32_specs::wrapping_add(base_addr, ((block_separation & 2u8) as u32) << 11u32)
}

/// The top hash table read from `top_addr` on: up to `count` entries, stopping at
/// the first that does not fit in the data.
pub open spec fn top_table_matches(t: Seq<HashEntry>, d: Seq<u8>, top_addr: int, count: int) -> bool {
    &&& t.len() <= count
    &&& hash_entries_at(t, d, top_addr)
    &&& t.len() < count ==> top_addr + 24 * t.len() + 24 > d.len()
}

/// Entry `i` of `t` is the hash entry at `top_addr + 24 * i`, which lies within `d`.
pub open spec fn hash_entries_at(t: Seq<HashEntry>, d: Seq<u8>, top_addr: int) -> bool {
    forall|i: int| 0 <= i < t.len() ==> top_addr + 24 * i + 24 <= d.len() && hash_entry_matches(#[trigger] t[i], d, top_addr + 24 * i)
}

/// A parsed STFS package: the raw data and what its header says of the layout of its
/// hash tree.
pub struct StfsPackage<'a> {
    pub data: &'a [u8],
    pub header_size: u32,
    pub vd: StfsVD,
    pub package_sex: u8,
    pub block_step: [u32; 2],
    pub first_hash_addr: u32,
    pub top_level: u8,
    pub top_table: Vec<HashEntry>,
    pub alloc_block_count: u32,
}

/// Whether data is refused as an STFS savegame package header: shorter than 1 KiB, a
/// wrong magic, a content type other than 1 (savegame), a file system other than
/// STFS, no allocated blocks, or more blocks than a three-level hash tree holds.
pub open spec fn stfs_header_refused(d: Seq<u8>) -> bool {
    d.len() < 0x400 || be32_at(d, 0) != CON_MAGIC || be32_at(d, 0x344) != 1
        || be32_at(d, 0x3A9) != 0 || be32_at(d, 0x395) == 0 || be32_at(d, 0x395) > 0x4AF768
}

impl<'a> StfsPackage<'a> {
    /// The package's fields agree with one another as `parse` sets them.
    #[verifier::opaque]
    pub open spec fn wf(&self) -> bool {
        &&& self.data@.len() >= 0x400
        &&& self.header_size == be32_at(self.data@, 0x340)
        &&& vd_matches(self.vd, self.data@.subrange(0x379, self.data@.len() as int))
        &&& self.package_sex == package_sex_of(self.vd.block_separation)
        &&& self.package_sex <= 1
        &&& (self.block_step[0], self.block_step[1]) == block_step_of(self.package_sex)
        &&& self.first_hash_addr == first_hash_addr_of(self.header_size)
        &&& top_level_of(self.alloc_block_count) == Some(self.top_level)
        &&& self.alloc_block_count == self.vd.alloc_block_count
        &&& self.alloc_block_count > 0
        &&& top_table_matches(self.top_table@, self.data@,
            top_addr_of(self.header_size, self.vd.block_separation, self.top_level) as int,
            top_entry_count(self.alloc_block_count, self.top_level))
    }

    /// The step pair of the package.
    pub open spec fn step(&self) -> (u32, u32) {
        (self.block_step[0], self.block_step[1])
    }

    /// Parses the header of an STFS savegame package. Fails (with an invalid-format
    /// error) on data shorter than 1 KiB, a wrong magic, a content type other than 1
    /// (savegame), a file system other than STFS, no allocated blocks, or more blocks
    /// than a three-level hash tree holds.
    pub fn parse(data: &'a [u8]) -> (r: Result<Self, ConversionError>)
        ensures
            r is Err <==> stfs_header_refused(data@),
            r is Err ==> r matches Err(ConversionError::InvalidFormat(_)),
            r matches Ok(p) ==> p.wf() && p.data@ == data@,
    {
        if data.len() < 0x400 {
            return Err(ConversionError::InvalidFormat(to_owned_string("STFS data too short for header")));
        }
        if !is_stfs_package(data) {
            return Err(ConversionError::InvalidFormat(to_owned_string("Not a valid STFS package")));
        }
        let header_size = be_u32_at(data, 0x340);
        let content_type = be_u32_at(data, 0x344);
        if content_type != 1 {
            let mut m = to_owned_string("Not a savegame (content_type=");
            push_decimal(&mut m, content_type as u64);
            string_push_str(&mut m, ")");
            return Err(ConversionError::InvalidFormat(m));
        }
        let file_system = be_u32_at(data, 0x3A9);
        if file_system != 0 {
            return Err(ConversionError::InvalidFormat(to_owned_string("Not STFS format")));
        }
        let vd = read_stfs_vd(slice_from(data, 0x379, data.len()))?;
        let ghost vdd = data@.subrange(0x379, data@.len() as int);
        assert(vd.alloc_block_count == be32_at(data@, 0x395)) by {
            assert(vdd[0x1C] == data@[0x395] && vdd[0x1D] == data@[0x396] && vdd[0x1E] == data@[0x397] && vdd[0x1F] == data@[0x398]);
        }
        let alloc_block_count = vd.alloc_block_count;
        if alloc_block_count == 0 {
            return Err(ConversionError::InvalidFormat(to_owned_string("No allocated blocks")));
        }
        let package_sex = (!vd.block_separation) & 1;
        proof {
            let b = vd.block_separation;
            assert(((!b) & 1u8) <= 1) by (bit_vector);
        }
        let block_step: [u32; 2] = if package_sex == 0 { [0xAB, 0x718F] } else { [0xAC, 0x723A] };
        let first_hash_addr = header_size.wrapping_add(0x0FFF) & !0x0FFFu32;
        let top_level: u8 = if alloc_block_count <= 0xAA {
            0
        } else if alloc_block_count <= 0x70E4 {
            1
        } else if alloc_block_count <= 0x4AF768 {
            2
        } else {
            return Err(ConversionError::InvalidFormat(to_owned_string("Too many allocated blocks")));
        };
        let top_true_block = compute_level_n_backing_hash_block_number(0, top_level, &block_step, package_sex);
        assert(top_true_block <= 0x723A);
        let base_addr = (top_true_block << 12u32).wrapping_add(first_hash_addr);
        let top_addr = base_addr.wrapping_add(((vd.block_separation & 2) as u32) << 11u32);
        let divisor: u32 = if top_level == 0 { 1 } else if top_level == 1 { 0xAA } else { 0x70E4 };
        let mut entry_count = alloc_block_count / divisor;
        if alloc_block_count > 0x70E4 && alloc_block_count % 0x70E4 != 0 {
            entry_count += 1;
        } else if alloc_block_count > 0xAA && alloc_block_count % 0xAA != 0 {
            entry_count += 1;
        }
        let mut top_table: Vec<HashEntry> = Vec::new();
        let n = data.len();
        let mut i: u32 = 0;
        while i < entry_count && top_addr as u64 + (i as u64) * 24 + 24 <= n as u64
            invariant
                n == data@.len(),
                i <= entry_count,
                top_table@.len() == i,
                hash_entries_at(top_table@, data@, top_addr as int),
            decreases entry_count - i,
        {
            let off: u64 = top_addr as u64 + (i as u64) * 24;
            let e = read_hash_entry(data, off as usize);
            let ghost before = top_table@;
            top_table.push(e);
            proof {
                assert forall|j: int| 0 <= j < top_table@.len() implies top_addr + 24 * j + 24 <= data@.len()
                    && hash_entry_matches(#[trigger] top_table@[j], data@, top_addr + 24 * j) by {
                    if j < before.len() {
                        assert(top_table@[j] == before[j]);
                    }
                }
            }
            i += 1;
        }
        let ghost top_table_view = top_table@;
        let pkg = StfsPackage {
            data,
            header_size,
            vd,
            package_sex,
            block_step,
            first_hash_addr,
            top_level,
            top_table,
            alloc_block_count,
        };
        assert(top_addr == top_addr_of(header_size, pkg.vd.block_separation, top_level));
        assert(entry_count == top_entry_count(alloc_block_count, top_level));
        assert(pkg.top_table@ == top_table_view);
        assert(top_table_matches(pkg.top_table@, data@, top_addr as int, entry_count as int));
        proof {
            reveal(StfsPackage::wf);
        }
        Ok(pkg)
    }
}

/// The physical block holding data block `block_num`, counting the hash tables
/// interleaved with the data.
pub open spec fn backing_data_block(block_num: u32, sex: u8) -> u32 {
    let psex = sex as u32;
    let to_return = u32_specs::wrapping_add((u32_specs::wrapping_add(block_num, 0xAA) / 0xAA) << psex, block_num);
    let level1 = (u32_specs::wrapping_add(block_num, 0x70E4) / 0x70E4) << psex;
    if block_num < 0xAA {
        to_return
    } else if block_num < 0x70E4 {
        u32_specs::wrapping_add(to_return, level1)
    } else {
        u32_specs::wrapping_add(1u32 << psex, u32_specs::wrapping_add(to_return, level1))
    }
}

/// The size of the hash tables in front of the table at `table_addr`.
pub open spec fn hash_table_skip(first_hash_addr: u32, table_addr: u32, step: (u32, u32), sex: u8) -> u32 {
    let psex = sex as u32;
    let true_block = u32_specs::wrapping_sub(table_addr, first_hash_addr) >> 12u32;
    if true_block == 0 {
        0x1000u32 << psex
    } else if true_block == step.1 {
        0x3000u32 << psex
    } else {
        let tb = if true_block > step.1 { u32_specs::wrapping_sub(true_block, (step.1 + (1u32 << psex)) as u32) } else { true_block };
        if tb == step.0 || tb % step.1 == 0 { 0x2000u32 << psex } else { 0x1000u32 << psex }
    }
}

impl<'a> StfsPackage<'a> {
    /// The address of data block `block_num`.
    pub open spec fn spec_block_address(&self, block_num: u32) -> u32 {
        u32_specs::wrapping_add(backing_data_block(block_num, self.package_sex) << 12u32, self.first_hash_addr)
    }

    /// The address of the hash entry of data block `block_num`: in the level-0 table
    /// that covers it, which of the table's two copies being chosen by the level above.
    pub open spec fn spec_hash_address(&self, block_num: u32) -> u32 {
        let level0 = level_0_backing(block_num, self.step(), self.package_sex);
        let a = u32_specs::wrapping_add(
            u32_specs::wrapping_add(level0 << 12u32, self.first_hash_addr),
            ((block_num % 0xAA) * 24) as u32,
        );
        let t = self.top_table@;
        if self.top_level == 0 {
            u32_specs::wrapping_add(a, ((self.vd.block_separation as u32) & 2u32) << 11u32)
        } else if self.top_level == 1 {
            let idx = block_num / 0xAA;
            if idx < t.len() { u32_specs::wrapping_add(a, ((t[idx as int].status & 0x40u8) as u32) << 6u32) } else { a }
        } else if self.top_level == 2 {
            let l1_idx = block_num / 0x70E4;
            if l1_idx < t.len() {
                let l1_off = ((t[l1_idx as int].status as u32) & 0x40u32) << 6u32;
                let l1_block = level_1_backing(block_num, self.step(), self.package_sex);
                let pos = u32_specs::wrapping_add(
                    u32_specs::wrapping_add(u32_specs::wrapping_add(l1_block << 12u32, self.first_hash_addr), l1_off),
                    ((block_num % 0xAA) * 24) as u32,
                );
                if pos + 21 <= self.data@.len() {
                    u32_specs::wrapping_add(a, ((self.data@[pos + 20] as u32) & 0x40u32) << 6u32)
                } else {
                    a
                }
            } else {
                a
            }
        } else {
            a
        }
    }

    /// The hash entry of data block `block_num`, when the block is allocated and its
    /// entry lies within the data.
    pub open spec fn spec_hash_entry_ok(&self, block_num: u32) -> bool {
        block_num < self.alloc_block_count && self.spec_hash_address(block_num) + 24 <= self.data@.len()
    }

    fn block_to_address(&self, block_num: u32) -> (r: u32)
        requires
            self.wf(),
        ensures
            r == self.spec_block_address(block_num),
    {
        self.compute_backing_data_block_number(block_num).wrapping_shl(12).wrapping_add(self.first_hash_addr)
    }

    fn compute_backing_data_block_number(&self, block_num: u32) -> (r: u32)
        requires
            self.wf(),
        ensures
            r == backing_data_block(block_num, self.package_sex),
    {
        proof {
            reveal(StfsPackage::wf);
        }
        let psex = self.package_sex as u32;
        let to_return = ((block_num.wrapping_add(0xAA) / 0xAA) << psex).wrapping_add(block_num);
        if block_num < 0xAA {
            return to_return;
        } else if block_num < 0x70E4 {
            return to_return.wrapping_add((block_num.wrapping_add(0x70E4) / 0x70E4) << psex);
        } else {
            return (1u32 << psex).wrapping_add(to_return.wrapping_add((block_num.wrapping_add(0x70E4) / 0x70E4) << psex));
        }
    }

    fn get_hash_table_skip_size(&self, table_addr: u32) -> (r: u32)
        requires
            self.wf(),
        ensures
            r == hash_table_skip(self.first_hash_addr, table_addr, self.step(), self.package_sex),
    {
        proof {
            reveal(StfsPackage::wf);
        }
        let psex = self.package_sex as u32;
        let true_block = table_addr.wrapping_sub(self.first_hash_addr) >> 12u32;
        if true_block == 0 {
            return 0x1000u32 << psex;
        }
        let mut tb = true_block;
        if tb == self.block_step[1] {
            return 0x3000u32 << psex;
        } else if tb > self.block_step[1] {
            assert(psex <= 1 ==> (1u32 << psex) <= 2) by (bit_vector);
            tb = tb.wrapping_sub(self.block_step[1] + (1u32 << psex));
        }
        if tb == self.block_step[0] || tb % self.block_step[1] == 0 {
            return 0x2000u32 << psex;
        }
        0x1000u32 << psex
    }

    fn get_hash_address_of_block(&self, block_num: u32) -> (r: u32)
        requires
            self.wf(),
        ensures
            r == self.spec_hash_address(block_num),
    {
        proof {
            reveal(StfsPackage::wf);
        }
        let level0 = compute_level_0_backing_hash_block_number(block_num, &self.block_step, self.package_sex);
        let mut hash_addr = (level0 << 12u32).wrapping_add(self.first_hash_addr);
        hash_addr = hash_addr.wrapping_add((block_num % 0xAA) * 24);
        match self.top_level {
            0 => {
                hash_addr = hash_addr.wrapping_add(((self.vd.block_separation as u32) & 2) << 11u32);
            },
            1 => {
                let idx = (block_num / 0xAA) as usize;
                if idx < self.top_table.len() {
                    hash_addr = hash_addr.wrapping_add(((self.top_table[idx].status & 0x40) as u32) << 6u32);
                }
            },
            2 => {
                let l1_idx = (block_num / 0x70E4) as usize;
                if l1_idx < self.top_table.len() {
                    let l1_off = ((self.top_table[l1_idx].status as u32) & 0x40) << 6u32;
                    let l1_block = compute_level_1_backing_hash_block_number(block_num, &self.block_step, self.package_sex);
                    let pos = ((l1_block << 12u32).wrapping_add(self.first_hash_addr).wrapping_add(l1_off))
                        .wrapping_add((block_num % 0xAA) * 24);
                    if (pos as u64) + 21 <= self.data.len() as u64 {
                        hash_addr = hash_addr.wrapping_add(((self.data[pos as usize + 20] as u32) & 0x40) << 6u32);
                    }
                }
            },
            _ => {},
        }
        hash_addr
    }

    fn get_hash_entry(&self, block_num: u32) -> (r: Result<HashEntry, ConversionError>)
        requires
            self.wf(),
        ensures
            r is Ok <==> self.spec_hash_entry_ok(block_num),
            r is Err ==> r matches Err(ConversionError::InvalidFormat(_)),
            r matches Ok(e) ==> hash_entry_matches(e, self.data@, self.spec_hash_address(block_num) as int),
    {
        if block_num >= self.alloc_block_count {
            return Err(ConversionError::InvalidFormat(to_owned_string("Block number out of range")));
        }
        let hash_addr = self.get_hash_address_of_block(block_num);
        if (hash_addr as u64) + 24 > self.data.len() as u64 {
            return Err(ConversionError::InvalidFormat(to_owned_string("Hash address out of file bounds")));
        }
        Ok(read_hash_entry(self.data, hash_addr as usize))
    }
}

/// One entry of an STFS file table.
pub struct StfsFileEntry {
    pub name: String,
    pub flags: u8,
    pub blocks_for_file: i32,
    pub starting_block_num: i32,
    pub path_indicator: u16,
    pub file_size: u32,
    pub created_ts: u32,
    pub accessed_ts: u32,
}

/// The file-table record of 64 bytes at `off`: a name of up to 40 bytes, a byte of
/// flags (high 2 bits) and name length (low 6 bits), block counts, the path
/// indicator, the size and two timestamps.
pub open spec fn file_entry_matches(e: StfsFileEntry, d: Seq<u8>, off: int) -> bool {
    let name_len = d[off + 0x28] & 0x3Fu8;
    &&& e.name@ == utf8_lossy(d.subrange(off, off + name_len))
    &&& e.flags == d[off + 0x28] >> 6u8
    &&& e.blocks_for_file == le24_at(d, off + 0x29)
    &&& e.starting_block_num == le24_at(d, off + 0x2F)
    &&& e.path_indicator == be16_at(d, off + 0x32)
    &&& e.file_size == be32_at(d, off + 0x34)
    &&& e.created_ts == be32_at(d, off + 0x38)
    &&& e.accessed_ts == be32_at(d, off + 0x3C)
}

/// The offsets of the used records among the first `n` of the file-table block at
/// `addr` (a record is used when its name length is not 0).
pub open spec fn used_records(d: Seq<u8>, addr: int, n: int) -> Seq<int>
    decreases n,
{
    if n <= 0 {
        Seq::empty()
    } else {
        let p = used_records(d, addr, n - 1);
        let off = addr + 0x40 * (n - 1);
        if d[off + 0x28] & 0x3Fu8 == 0 { p } else { p.push(off) }
    }
}

impl<'a> StfsPackage<'a> {
    /// The offsets of the used file-table records reached by following the chain of
    /// `count` file-table blocks from `block`; the chain ends early at a block that lies
    /// past the data, and fails (`None`) where a block's hash entry cannot be read.
    pub open spec fn listing_offsets(&self, block: u32, count: nat) -> Option<Seq<int>>
        decreases count,
    {
        if count == 0 {
            Some(Seq::empty())
        } else {
            let addr = self.spec_block_address(block) as int;
            if addr + 0x1000 > self.data@.len() {
                Some(Seq::empty())
            } else if !self.spec_hash_entry_ok(block) {
                None
            } else {
                let next = le24_at(self.data@, self.spec_hash_address(block) + 21) as u32;
                match self.listing_offsets(next, (count - 1) as nat) {
                    Some(rest) => Some(used_records(self.data@, addr, 0x40) + rest),
                    None => None,
                }
            }
        }
    }

    /// The offsets of the used records of the whole file table.
    pub open spec fn file_table_offsets(&self) -> Option<Seq<int>> {
        self.listing_offsets(self.vd.file_table_block_num as u32, self.vd.file_table_block_count as nat)
    }

    fn read_table_block(&self, addr: usize, entries: &mut Vec<StfsFileEntry>, Ghost(offs): Ghost<Seq<int>>)
        requires
            self.wf(),
            addr + 0x1000 <= self.data@.len(),
            old(entries)@.len() == offs.len(),
            forall|k: int| 0 <= k < offs.len() ==> file_entry_matches(#[trigger] old(entries)@[k], self.data@, offs[k]),
        ensures
            final(entries)@.len() == offs.len() + used_records(self.data@, addr as int, 0x40).len(),
            forall|k: int| 0 <= k < final(entries)@.len() ==> file_entry_matches(#[trigger] final(entries)@[k], self.data@,
                (offs + used_records(self.data@, addr as int, 0x40))[k]),
    {
        let _n = self.data.len();
        let mut i: usize = 0;
        while i < 0x40
            invariant
                i <= 0x40,
                addr + 0x1000 <= self.data@.len(),
                self.data@.len() <= usize::MAX,
                entries@.len() == offs.len() + used_records(self.data@, addr as int, i as int).len(),
                forall|k: int| 0 <= k < entries@.len() ==> file_entry_matches(#[trigger] entries@[k], self.data@,
                    (offs + used_records(self.data@, addr as int, i as int))[k]),
            decreases 0x40 - i,
        {
            let off = addr + i * 0x40;
            let name_len_byte = self.data[off + 0x28];
            let name_len = name_len_byte & 0x3F;
            let ghost before = entries@;
            let ghost all_before = offs + used_records(self.data@, addr as int, i as int);
            if name_len != 0 {
                assert(name_len <= 0x3F) by (bit_vector)
                    requires
                        name_len == name_len_byte & 0x3F;
                let name = string_from_utf8_lossy(slice_from(self.data, off, off + name_len as usize));
                let e = StfsFileEntry {
                    name,
                    flags: name_len_byte >> 6u8,
                    blocks_for_file: le_u24_at(self.data, off + 0x29),
                    starting_block_num: le_u24_at(self.data, off + 0x2F),
                    path_indicator: be_u16_at(self.data, off + 0x32),
                    file_size: be_u32_at(self.data, off + 0x34),
                    created_ts: be_u32_at(self.data, off + 0x38),
                    accessed_ts: be_u32_at(self.data, off + 0x3C),
                };
                entries.push(e);
                proof {
                    let all_after = offs + used_records(self.data@, addr as int, i + 1);
                    assert(all_after =~= all_before.push(off as int));
                    assert forall|k: int| 0 <= k < entries@.len() implies file_entry_matches(#[trigger] entries@[k], self.data@, all_after[k]) by {
                        if k < before.len() {
                            assert(entries@[k] == before[k]);
                        }
                    }
                }
            } else {
                proof {
                    let all_after = offs + used_records(self.data@, addr as int, i + 1);
                    assert(all_after =~= all_before);
                }
            }
            i += 1;
        }
    }

    fn read_file_listing(&self) -> (r: Result<Vec<StfsFileEntry>, ConversionError>)
        requires
            self.wf(),
        ensures
            r is Ok <==> self.file_table_offsets() is Some,
            r is Err ==> r matches Err(ConversionError::InvalidFormat(_)),
            r matches Ok(v) ==> v@.len() == self.file_table_offsets()->0.len()
                && forall|k: int| 0 <= k < v@.len() ==> file_entry_matches(#[trigger] v@[k], self.data@, self.file_table_offsets()->0[k]),
    {
        let mut entries: Vec<StfsFileEntry> = Vec::new();
        let block_count = self.vd.file_table_block_count as u32;
        let mut block = self.vd.file_table_block_num as u32;
        let ghost all = self.file_table_offsets();
        let ghost mut done: Seq<int> = Seq::empty();
        let mut k: u32 = 0;
        let mut stop = false;
        let n = self.data.len();
        assert(done + Seq::<int>::empty() =~= done);
        while k < block_count && !stop
            invariant
                self.wf(),
                n == self.data@.len(),
                k <= block_count,
                block_count == self.vd.file_table_block_count,
                all == self.file_table_offsets(),
                !stop ==> all == match self.listing_offsets(block, (block_count - k) as nat) {
                    Some(rest) => Some(done + rest),
                    None => None::<Seq<int>>,
                },
                stop ==> all == Some(done),
                entries@.len() == done.len(),
                forall|j: int| 0 <= j < entries@.len() ==> file_entry_matches(#[trigger] entries@[j], self.data@, done[j]),
            decreases block_count - k + if stop { 0int } else { 1int },
        {
            let addr = self.block_to_address(block) as usize;
            if n < 0x1000 || addr > n - 0x1000 {
                proof {
                    assert(self.listing_offsets(block, (block_count - k) as nat) == Some(Seq::<int>::empty()));
                    assert(done + Seq::<int>::empty() =~= done);
                }
                stop = true;
            } else {
                self.read_table_block(addr, &mut entries, Ghost(done));
                let ghost here = used_records(self.data@, addr as int, 0x40);
                match self.get_hash_entry(block) {
                    Ok(he) => {
                        proof {
                            let next = he.next_block as u32;
                            match self.listing_offsets(next, (block_count - k - 1) as nat) {
                                Some(rest) => {
                                    assert(done + (here + rest) =~= (done + here) + rest);
                                },
                                None => {},
                            }
                            done = done + here;
                        }
                        block = he.next_block as u32;
                        k += 1;
                    },
                    Err(e) => {
                        return Err(e);
                    },
                }
            }
        }
        proof {
            if !stop {
                assert(self.listing_offsets(block, 0) == Some(Seq::<int>::empty()));
                assert(done + Seq::<int>::empty() =~= done);
            }
        }
        Ok(entries)
    }
}

impl<'a> StfsPackage<'a> {
    /// The rest of a file stored in consecutive blocks, from `cur_pos` with `remaining`
    /// bytes to go: runs of up to 0xAA000 bytes, each after the hash tables in front of
    /// it, cut at the end of the data. `None` where a run would begin past the end of
    /// the data.
    pub open spec fn contiguous_tail(&self, cur_pos: int, remaining: int) -> Option<Seq<u8>>
        decreases remaining,
    {
        let len = self.data@.len() as int;
        if remaining >= 0xAA000 {
            let c = cur_pos + hash_table_skip(self.first_hash_addr, cur_pos as u32, self.step(), self.package_sex);
            if c > len {
                None
            } else {
                let end = if c + 0xAA000 < len { c + 0xAA000 } else { len };
                match self.contiguous_tail(end, remaining - 0xAA000) {
                    Some(t) => Some(self.data@.subrange(c, end) + t),
                    None => None,
                }
            }
        } else if remaining > 0 {
            let c = cur_pos + hash_table_skip(self.first_hash_addr, cur_pos as u32, self.step(), self.package_sex);
            if c > len {
                None
            } else {
                let end = if c + remaining < len { c + remaining } else { len };
                Some(self.data@.subrange(c, end))
            }
        } else {
            Some(Seq::empty())
        }
    }

    /// `n` whole blocks of a chained file from `block` on (a block past the end of the
    /// data reads as nothing) and the block after them; `None` where a hash entry on
    /// the chain cannot be read.
    pub open spec fn chained_reads(&self, block: u32, n: nat) -> Option<(Seq<u8>, u32)>
        decreases n,
    {
        if n == 0 {
            Some((Seq::empty(), block))
        } else if !self.spec_hash_entry_ok(block) {
            None
        } else {
            let addr = self.spec_block_address(block) as int;
            let here = if addr + 0x1000 <= self.data@.len() { self.data@.subrange(addr, addr + 0x1000) } else { Seq::empty() };
            let next = le24_at(self.data@, self.spec_hash_address(block) + 21) as u32;
            match self.chained_reads(next, (n - 1) as nat) {
                Some((t, b)) => Some((here + t, b)),
                None => None,
            }
        }
    }

    /// The contents of the file of entry `e`: a file flagged contiguous is read from
    /// consecutive blocks, skipping the hash tables; any other follows the chain of its
    /// blocks' hash entries. Parts that lie past the end of the data are left out.
    /// `None` where the chain breaks or a contiguous run begins past the data.
    pub open spec fn spec_extract(&self, e: StfsFileEntry) -> Option<Seq<u8>> {
        let len = self.data@.len() as int;
        let fs = e.file_size as int;
        let start = e.starting_block_num as u32;
        if fs == 0 {
            Some(Seq::empty())
        } else if e.flags & 1u8 != 0 {
            let start_addr = self.spec_block_address(start);
            let pos = start_addr as int;
            let block_count = u32_specs::wrapping_sub(
                u32_specs::wrapping_add(level_0_backing(start, self.step(), self.package_sex), self.block_step[0]),
                u32_specs::wrapping_sub(start_addr, self.first_hash_addr) >> 12u32,
            );
            if (e.blocks_for_file as u32) <= block_count {
                Some(if pos + fs <= len { self.data@.subrange(pos, pos + fs) } else { Seq::empty() })
            } else {
                let amount = (block_count << 12u32) as int;
                let first = if pos + amount <= len { self.data@.subrange(pos, pos + amount) } else { Seq::empty() };
                let remaining = usize_specs::wrapping_sub(fs as usize, amount as usize) as int;
                match self.contiguous_tail(pos + amount, remaining) {
                    Some(t) => Some(first + t),
                    None => None,
                }
            }
        } else {
            match self.chained_reads(start, (fs / 0x1000) as nat) {
                Some((bytes, b)) => {
                    let rem = fs % 0x1000;
                    let addr = self.spec_block_address(b) as int;
                    Some(bytes + if rem > 0 && addr + rem <= len { self.data@.subrange(addr, addr + rem) } else { Seq::empty() })
                },
                None => None,
            }
        }
    }

    /// Reads the contents of the file of `entry`. Fails with an invalid-format error
    /// where a hash entry on the chain cannot be read or a contiguous run would begin
    /// past the end of the data.
    fn extract_file(&self, entry: &StfsFileEntry) -> (r: Result<Vec<u8>, ConversionError>)
        requires
            self.wf(),
        ensures
            r is Ok <==> self.spec_extract(*entry) is Some,
            r is Err ==> r matches Err(ConversionError::InvalidFormat(_)),
            r matches Ok(v) ==> self.spec_extract(*entry) == Some(v@),
    {
        proof {
            reveal(StfsPackage::wf);
        }
        let file_size = entry.file_size;
        let n = self.data.len();
        if file_size == 0 {
            return Ok(Vec::new());
        }
        let start = entry.starting_block_num as u32;
        if entry.flags & 1 != 0 {
            let mut out: Vec<u8> = Vec::new();
            let start_addr = self.block_to_address(start);
            let pos = start_addr as u64;
            let block_count = compute_level_0_backing_hash_block_number(start, &self.block_step, self.package_sex)
                .wrapping_add(self.block_step[0])
                .wrapping_sub(start_addr.wrapping_sub(self.first_hash_addr) >> 12u32);
            if (entry.blocks_for_file as u32) <= block_count {
                let sz = file_size as u64;
                if pos + sz <= n as u64 {
                    push_bytes(&mut out, slice_from(self.data, pos as usize, (pos + sz) as usize));
                } else {
                    assert(out@ =~= Seq::<u8>::empty());
                }
                return Ok(out);
            }
            let amount = (block_count << 12u32) as u64;
            if pos + amount <= n as u64 {
                push_bytes(&mut out, slice_from(self.data, pos as usize, (pos + amount) as usize));
            }
            let ghost first = out@;
            let mut remaining: usize = (file_size as usize).wrapping_sub(amount as usize);
            let mut cur_pos: u64 = pos + amount;
            let ghost total = self.contiguous_tail(cur_pos as int, remaining as int);
            assert(self.spec_extract(*entry) == match total { Some(t) => Some(first + t), None => None::<Seq<u8>> });
            assert(out@ + Seq::<u8>::empty() =~= out@);
            while remaining >= 0xAA000
                invariant
                    self.wf(),
                    n == self.data@.len(),
                    cur_pos <= n || cur_pos < 0x300000000,
                    total == match self.contiguous_tail(cur_pos as int, remaining as int) {
                        Some(t) => Some(out@.subrange(first.len() as int, out@.len() as int) + t),
                        None => None::<Seq<u8>>,
                    },
                    first.len() <= out@.len(),
                    out@.subrange(0, first.len() as int) == first,
                    self.spec_extract(*entry) == match total { Some(t) => Some(first + t), None => None::<Seq<u8>> },
                decreases remaining,
            {
                let skip = self.get_hash_table_skip_size(cur_pos as u32) as u64;
                if cur_pos > n as u64 || skip > n as u64 - cur_pos {
                    proof {
                        assert(self.contiguous_tail(cur_pos as int, remaining as int) is None);
                        assert(total is None);
                    }
                    return Err(ConversionError::InvalidFormat(to_owned_string("File data extends past the package")));
                }
                let c = cur_pos + skip;
                let end: u64 = if n as u64 - c > 0xAA000 { c + 0xAA000 } else { n as u64 };
                let ghost before = out@;
                push_bytes(&mut out, slice_from(self.data, c as usize, end as usize));
                proof {
                    let piece = self.data@.subrange(c as int, end as int);
                    assert(out@.subrange(first.len() as int, out@.len() as int) =~= before.subrange(first.len() as int, before.len() as int) + piece);
                    assert(out@.subrange(0, first.len() as int) =~= before.subrange(0, first.len() as int));
                    match self.contiguous_tail(end as int, remaining - 0xAA000) {
                        Some(t) => {
                            assert(before.subrange(first.len() as int, before.len() as int) + (piece + t)
                                =~= (before.subrange(first.len() as int, before.len() as int) + piece) + t);
                        },
                        None => {},
                    }
                }
                remaining = remaining - 0xAA000;
                cur_pos = end;
            }
            if remaining > 0 {
                let skip = self.get_hash_table_skip_size(cur_pos as u32) as u64;
                if cur_pos > n as u64 || skip > n as u64 - cur_pos {
                    return Err(ConversionError::InvalidFormat(to_owned_string("File data extends past the package")));
                }
                let c = cur_pos + skip;
                let end: u64 = if n as u64 - c > remaining as u64 { c + remaining as u64 } else { n as u64 };
                let ghost before = out@;
                push_bytes(&mut out, slice_from(self.data, c as usize, end as usize));
                proof {
                    assert(out@.subrange(first.len() as int, out@.len() as int) =~= before.subrange(first.len() as int, before.len() as int)
                        + self.data@.subrange(c as int, end as int));
                    assert(out@.subrange(0, first.len() as int) =~= before.subrange(0, first.len() as int));
                }
            } else {
                assert(out@.subrange(first.len() as int, out@.len() as int) + Seq::<u8>::empty() =~= out@.subrange(first.len() as int, out@.len() as int));
            }
            proof {
                assert(out@ =~= first + out@.subrange(first.len() as int, out@.len() as int));
            }
            Ok(out)
        } else {
            let full_reads = file_size / 0x1000;
            let remainder = file_size % 0x1000;
            let mut out: Vec<u8> = Vec::new();
            let mut block = start;
            let ghost total = self.chained_reads(start, full_reads as nat);
            assert(self.spec_extract(*entry) == match total {
                Some((bytes, b)) => Some(bytes + if remainder > 0 && self.spec_block_address(b) + remainder <= n {
                    self.data@.subrange(self.spec_block_address(b) as int, self.spec_block_address(b) + remainder)
                } else {
                    Seq::<u8>::empty()
                }),
                None => None::<Seq<u8>>,
            });
            let mut k: u32 = 0;
            assert(out@ + Seq::<u8>::empty() =~= out@);
            while k < full_reads
                invariant
                    self.wf(),
                    n == self.data@.len(),
                    k <= full_reads,
                    total == match self.chained_reads(block, (full_reads - k) as nat) {
                        Some((t, b)) => Some((out@ + t, b)),
                        None => None::<(Seq<u8>, u32)>,
                    },
                    total is None ==> self.spec_extract(*entry) is None,
                decreases full_reads - k,
            {
                let addr = self.block_to_address(block) as u64;
                let ghost before = out@;
                if addr + 0x1000 <= n as u64 {
                    push_bytes(&mut out, slice_from(self.data, addr as usize, (addr + 0x1000) as usize));
                }
                let ghost here = if addr + 0x1000 <= n { self.data@.subrange(addr as int, addr + 0x1000) } else { Seq::<u8>::empty() };
                assert(out@ =~= before + here);
                match self.get_hash_entry(block) {
                    Ok(he) => {
                        proof {
                            match self.chained_reads(he.next_block as u32, (full_reads - k - 1) as nat) {
                                Some((t, b)) => {
                                    assert(before + (here + t) =~= (before + here) + t);
                                },
                                None => {},
                            }
                        }
                        block = he.next_block as u32;
                    },
                    Err(e) => {
                        proof {
                            assert(self.chained_reads(block, (full_reads - k) as nat) is None);
                            assert(total is None);
                        }
                        return Err(e);
                    },
                }
                k += 1;
            }
            assert(out@ + Seq::<u8>::empty() =~= out@);
            if remainder > 0 {
                let addr = self.block_to_address(block) as u64;
                if addr + (remainder as u64) <= n as u64 {
                    push_bytes(&mut out, slice_from(self.data, addr as usize, (addr + remainder as u64) as usize));
                }
            }
            Ok(out)
        }
    }
}

/// The offset of the first record named `savegame.dat` among `offs`, if any.
pub open spec fn savegame_offset(d: Seq<u8>, offs: Seq<int>) -> Option<int>
    decreases offs.len(),
{
    if offs.len() == 0 {
        None
    } else if utf8_lossy(d.subrange(offs[0], offs[0] + (d[offs[0] + 0x28] & 0x3Fu8))) == "savegame.dat"@ {
        Some(offs[0])
    } else {
        savegame_offset(d, offs.drop_first())
    }
}

#[verifier::external_type_specification]
#[verifier::external_body]
pub struct ExLzxd(lzxd::Lzxd);

/// An LZX decoder of `lzxd`, with the window it was made with and the frames (chunk and
/// output length) fed to it so far, in order. Only the two functions below make or
/// feed one.
pub struct LzxDecoder {
    decoder: lzxd::Lzxd,
    window_kb: u32,
    fed: Ghost<Seq<(Seq<u8>, usize)>>,
}

impl LzxDecoder {
    /// The window, in KiB, the decoder was made with.
    pub closed spec fn window(&self) -> u32 {
        self.window_kb
    }

    /// The frames fed to the decoder so far, in order.
    pub closed spec fn history(&self) -> Seq<(Seq<u8>, usize)> {
        self.fed@
    }
}

/// What `lzxd::Lzxd::decompress_next` returns on the last of `frames` (a chunk and an
/// output length each) when a decoder made by `Lzxd::new` with a window of `window_kb`
/// KiB is fed the frames in order: `Some` of the output when that call succeeds, `None`
/// when it reports an error.
pub uninterp spec fn lzx_decoded(window_kb: u32, frames: Seq<(Seq<u8>, usize)>) -> Option<Seq<u8>>;

/// `lzxd::Lzxd::new` with a window of `window_kb` KiB (`WindowSize::KB32` or
/// `WindowSize::KB64`): a decoder that has been fed nothing.
#[verifier::external_body]
fn lzxd_new(window_kb: u32) -> (r: LzxDecoder)
    requires
        window_kb == 32 || window_kb == 64,
    ensures
        r.window() == window_kb,
        r.history() == Seq::<(Seq<u8>, usize)>::empty(),
{
    let decoder = lzxd::Lzxd::new(match window_kb {
        64 => lzxd::WindowSize::KB64,
        _ => lzxd::WindowSize::KB32,
    });
    LzxDecoder { decoder, window_kb, fed: Ghost(Seq::empty()) }
}

/// `lzxd::Lzxd::decompress_next` on the next frame, its output copied out and its
/// error turned into the error's message. The frame joins the decoder's history; the
/// result is what the decoder gives on that history (named), and on success the output
/// holds exactly `output_len` bytes (the decoder runs until it has decoded that many).
#[verifier::external_body]
fn lzxd_decompress_next(d: &mut LzxDecoder, chunk: &[u8], output_len: usize) -> (r: Result<Vec<u8>, String>)
    ensures
        final(d).window() == old(d).window(),
        final(d).history() == old(d).history().push((chunk@, output_len)),
        r is Ok <==> lzx_decoded(old(d).window(), old(d).history().push((chunk@, output_len))) is Some,
        r matches Ok(v) ==> lzx_decoded(old(d).window(), old(d).history().push((chunk@, output_len))) == Some(v@)
            && v@.len() == output_len,
{
    match d.decoder.decompress_next(chunk, output_len) {
        Ok(v) => Ok(v.to_vec()),
        Err(e) => Err(e.to_string()),
    }
}

/// The chunk header at `pos` of an LZX stream: `Some((compressed, size))` when a
/// non-zero 16-bit big-endian header and the whole chunk after it lie within `data`.
pub open spec fn lzx_chunk_at(data: Seq<u8>, pos: int) -> Option<(bool, int)> {
    if pos + 2 > data.len() {
        None
    } else {
        let cs = be16_at(data, pos);
        let actual = cs % 0x8000;
        if cs == 0 || pos + 2 + actual > data.len() { None } else { Some((cs >= 0x8000, actual)) }
    }
}

/// A compressed chunk's output from a fresh decoder of window 32 KiB: what it decodes
/// to, or `fallback` when decoding fails.
pub open spec fn fresh_piece(chunk: Seq<u8>, fallback: Seq<u8>) -> Seq<u8> {
    match lzx_decoded(32, seq![(chunk, 32768usize)]) {
        Some(p) => p,
        None => fallback,
    }
}

/// What decoding the chunked (stateful) LZX stream `data` from `pos` gives, with
/// `produced` bytes already out of `size` and `hist` the frames already fed to the
/// stream's decoder (window 64 KiB): each compressed chunk decodes to as many bytes as
/// are still wanted (at most 32 KiB), each uncompressed chunk to 32 KiB from a fresh
/// decoder or, when that fails, to its own bytes. `None` when a compressed chunk does
/// not decode.
pub open spec fn chunked_decode(data: Seq<u8>, pos: int, produced: int, size: int, hist: Seq<(Seq<u8>, usize)>) -> Option<Seq<u8>>
    decreases data.len() - pos,
{
    if !(0 <= pos < data.len() && produced < size) || lzx_chunk_at(data, pos) is None {
        Some(Seq::empty())
    } else {
        let (compressed, actual) = lzx_chunk_at(data, pos)->0;
        let next = pos + 2 + actual;
        let chunk = data.subrange(pos + 2, next);
        if compressed {
            let out_len = if produced + 32768 > size { size - produced } else { 32768 };
            let h = hist.push((chunk, out_len as usize));
            match lzx_decoded(64, h) {
                Some(piece) => match chunked_decode(data, next, produced + piece.len(), size, h) {
                    Some(rest) => Some(piece + rest),
                    None => None,
                },
                None => None,
            }
        } else {
            let piece = fresh_piece(chunk, chunk);
            match chunked_decode(data, next, produced + piece.len(), size, hist) {
                Some(rest) => Some(piece + rest),
                None => None,
            }
        }
    }
}

/// What decoding the LZX stream `data` chunk by chunk from `pos` gives, with `produced`
/// bytes already out of `size`: each compressed chunk decodes with a fresh decoder of
/// window 32 KiB (to 32 KiB of zeros when that fails), each uncompressed chunk gives
/// its own bytes.
pub open spec fn fresh_lzx_decode(data: Seq<u8>, pos: int, produced: int, size: int) -> Seq<u8>
    decreases data.len() - pos,
{
    if !(0 <= pos < data.len() && produced < size) || lzx_chunk_at(data, pos) is None {
        Seq::empty()
    } else {
        let (compressed, actual) = lzx_chunk_at(data, pos)->0;
        let next = pos + 2 + actual;
        let chunk = data.subrange(pos + 2, next);
        let piece = if compressed { fresh_piece(chunk, Seq::new(32768, |i: int| 0u8)) } else { chunk };
        piece + fresh_lzx_decode(data, next, produced + piece.len(), size)
    }
}

/// The first `size` bytes of `v` (all of it when shorter).
pub open spec fn cut(v: Seq<u8>, size: int) -> Seq<u8> {
    if v.len() > size { v.take(size) } else { v }
}

fn read_chunk_header(data: &[u8], pos: usize) -> (r: Option<(bool, usize)>)
    ensures
        r matches Some((c, a)) ==> lzx_chunk_at(data@, pos as int) == Some((c, a as int)),
        r is None ==> lzx_chunk_at(data@, pos as int) is None,
{
    let n = data.len();
    if pos > n || n - pos < 2 {
        return None;
    }
    let chunk_size = be_u16_at(data, pos) as usize;
    let is_compressed = (chunk_size & 0x8000) != 0;
    let actual_size = chunk_size & 0x7FFF;
    proof {
        assert(chunk_size < 0x10000 ==> (chunk_size & 0x7FFF) == chunk_size % 0x8000
            && (((chunk_size & 0x8000) != 0) == (chunk_size >= 0x8000))) by (bit_vector);
    }
    if chunk_size == 0 || actual_size > n - pos - 2 {
        return None;
    }
    Some((is_compressed, actual_size))
}

/// Decodes a chunked LZX stream with one decoder of window 64 KiB for the compressed
/// chunks, keeping at most `decompressed_size` bytes. An uncompressed chunk is first
/// tried with a fresh decoder of window 32 KiB and kept as it is when that fails. Fails
/// with a decompression error exactly when a compressed chunk does not decode.
pub fn decompress_lzx_chunked(data: &[u8], decompressed_size: usize) -> (r: Result<Vec<u8>, ConversionError>)
    ensures
        r is Ok <==> chunked_decode(data@, 0, 0, decompressed_size as int, Seq::empty()) is Some,
        r is Err ==> r matches Err(ConversionError::DecompressionFailed(_)),
        r matches Ok(v) ==> v@ == cut(chunked_decode(data@, 0, 0, decompressed_size as int, Seq::empty())->0,
            decompressed_size as int),
{
    let mut lzxd = lzxd_new(64);
    let mut output: Vec<u8> = Vec::new();
    let n = data.len();
    let mut pos: usize = 0;
    let mut num_chunks: u64 = 0;
    let ghost size = decompressed_size as int;
    let ghost whole = chunked_decode(data@, 0, 0, size, Seq::empty());
    proof {
        match whole {
            Some(rest) => assert(Seq::<u8>::empty() + rest =~= rest),
            None => {},
        }
    }
    let mut done = false;
    while !done && pos < n && output.len() < decompressed_size
        invariant
            n == data@.len(),
            pos <= n,
            num_chunks <= pos,
            size == decompressed_size as int,
            lzxd.window() == 64,
            whole == chunked_decode(data@, 0, 0, size, Seq::empty()),
            !done ==> whole == (match chunked_decode(data@, pos as int, output@.len() as int, size, lzxd.history()) {
                Some(rest) => Some(output@ + rest),
                None => None::<Seq<u8>>,
            }),
            done ==> whole == Some(output@),
        decreases n - pos + if done { 0int } else { 1int },
    {
        let ghost p0 = pos as int;
        let ghost before = output@;
        let ghost h0 = lzxd.history();
        match read_chunk_header(data, pos) {
            None => {
                proof {
                    assert(output@ + Seq::<u8>::empty() =~= output@);
                }
                done = true;
            },
            Some((is_compressed, actual_size)) => {
                let chunk_start = pos + 2;
                let chunk = slice_from(data, chunk_start, chunk_start + actual_size);
                num_chunks += 1;
                pos = chunk_start + actual_size;
                if is_compressed {
                    let out_len = if decompressed_size - output.len() < 32768 { decompressed_size - output.len() } else { 32768 };
                    match lzxd_decompress_next(&mut lzxd, chunk, out_len) {
                        Ok(decompressed) => {
                            push_bytes(&mut output, decompressed.as_slice());
                            proof {
                                match chunked_decode(data@, pos as int, output@.len() as int, size, lzxd.history()) {
                                    Some(rest) => assert(before + (decompressed@ + rest) =~= output@ + rest),
                                    None => {},
                                }
                            }
                        },
                        Err(e) => {
                            let mut m = to_owned_string("chunk ");
                            push_decimal(&mut m, num_chunks);
                            string_push_str(&mut m, " LZXD failed at pos ");
                            push_decimal(&mut m, (chunk_start - 2) as u64);
                            string_push_str(&mut m, ": ");
                            string_push_str(&mut m, e.as_str());
                            return Err(ConversionError::DecompressionFailed(m));
                        },
                    }
                } else {
                    let mut chunk_lzxd = lzxd_new(32);
                    let fresh = lzxd_decompress_next(&mut chunk_lzxd, chunk, 32768);
                    proof {
                        assert(Seq::<(Seq<u8>, usize)>::empty().push((chunk@, 32768usize)) =~= seq![(chunk@, 32768usize)]);
                    }
                    let piece: Vec<u8> = match fresh {
                        Ok(decompressed) => decompressed,
                        Err(_) => slice_to_vec(chunk),
                    };
                    push_bytes(&mut output, piece.as_slice());
                    proof {
                        match chunked_decode(data@, pos as int, output@.len() as int, size, lzxd.history()) {
                            Some(rest) => assert(before + (piece@ + rest) =~= output@ + rest),
                            None => {},
                        }
                    }
                }
            },
        }
    }
    proof {
        if !done {
            assert(output@ + Seq::<u8>::empty() =~= output@);
        }
    }
    let ghost full = output@;
    output.truncate(decompressed_size);
    assert(cut(full, size) =~= output@);
    Ok(output)
}

/// Decodes an LZX stream chunk by chunk, each compressed chunk with a fresh decoder of
/// window 32 KiB (32 KiB of zeros when it fails), keeping at most `decompressed_size`
/// bytes.
fn decompress_lzx(data: &[u8], decompressed_size: usize) -> (r: Result<Vec<u8>, ConversionError>)
    ensures
        r matches Ok(v) && v@ == cut(fresh_lzx_decode(data@, 0, 0, decompressed_size as int), decompressed_size as int),
{
    let mut output: Vec<u8> = Vec::new();
    let n = data.len();
    let mut pos: usize = 0;
    let ghost size = decompressed_size as int;
    let ghost whole = fresh_lzx_decode(data@, 0, 0, size);
    assert(Seq::<u8>::empty() + whole =~= whole);
    let mut done = false;
    while !done && pos < n && output.len() < decompressed_size
        invariant
            n == data@.len(),
            pos <= n,
            size == decompressed_size as int,
            whole == fresh_lzx_decode(data@, 0, 0, size),
            !done ==> whole == output@ + fresh_lzx_decode(data@, pos as int, output@.len() as int, size),
            done ==> whole == output@,
        decreases n - pos + if done { 0int } else { 1int },
    {
        let ghost before = output@;
        match read_chunk_header(data, pos) {
            None => {
                assert(output@ + Seq::<u8>::empty() =~= output@);
                done = true;
            },
            Some((is_compressed, actual_size)) => {
                let chunk_start = pos + 2;
                let chunk = slice_from(data, chunk_start, chunk_start + actual_size);
                pos = chunk_start + actual_size;
                let piece: Vec<u8> = if is_compressed {
                    let mut lzxd = lzxd_new(32);
                    let fresh = lzxd_decompress_next(&mut lzxd, chunk, 32768);
                    assert(Seq::<(Seq<u8>, usize)>::empty().push((chunk@, 32768usize)) =~= seq![(chunk@, 32768usize)]);
                    match fresh {
                        Ok(decompressed) => decompressed,
                        Err(_) => {
                            let z: Vec<u8> = vec![0u8; 32768];
                            assert(z@ =~= Seq::new(32768, |i: int| 0u8));
                            z
                        },
                    }
                } else {
                    slice_to_vec(chunk)
                };
                push_bytes(&mut output, piece.as_slice());
                assert(before + (piece@ + fresh_lzx_decode(data@, pos as int, output@.len() as int, size))
                    =~= output@ + fresh_lzx_decode(data@, pos as int, output@.len() as int, size));
            },
        }
    }
    proof {
        if !done {
            assert(output@ + Seq::<u8>::empty() =~= output@);
        }
    }
    let ghost full = output@;
    output.truncate(decompressed_size);
    assert(cut(full, size) =~= output@);
    Ok(output)
}

/// The magic of a raw savegame.
pub open spec fn savegame_magic() -> Seq<u8> {
    seq![0x0Bu8, 0xFC, 0x4A, 0x46, 0xAE, 0x7A, 0x43, 0x2B]
}

/// Decompresses a raw savegame: an 8-byte magic, the decompressed size and the
/// compression type (big-endian 32-bit), then the payload, which is stored (0), LZX
/// (1), zlib (2) or run-length coded (3).
pub fn try_decompress_savegame(data: &[u8]) -> (r: Result<Vec<u8>, ConversionError>)
    ensures
        data@.len() < 16 || data@.subrange(0, 8) != savegame_magic() ==> r matches Err(ConversionError::InvalidFormat(_)),
        data@.len() >= 16 && data@.subrange(0, 8) == savegame_magic() ==> ({
            let size = be32_at(data@, 8);
            let payload = data@.subrange(16, data@.len() as int);
            let ty = be32_at(data@, 12);
            &&& ty == 0 ==> (r matches Ok(v) && v@ == cut(payload, size))
            &&& ty == 1 ==> (r matches Ok(v) && v@ == cut(fresh_lzx_decode(payload, 0, 0, size), size))
            &&& ty == 2 ==> match zlib_decoded(payload) {
                Some(out) => (r matches Ok(v) && v@ == out),
                None => (r matches Err(ConversionError::Io(_))),
            }
            &&& ty == 3 ==> (r matches Ok(v) && v@ == rle_expand(payload).take(
                if size < rle_expand(payload).len() { size } else { rle_expand(payload).len() as int }))
            &&& ty > 3 ==> (r matches Err(ConversionError::DecompressionFailed(_)))
        }),
{
    if data.len() < 8 {
        return Err(ConversionError::InvalidFormat(to_owned_string("Savegame data too short")));
    }
    let magic: [u8; 8] = [0x0B, 0xFC, 0x4A, 0x46, 0xAE, 0x7A, 0x43, 0x2B];
    let mut k: usize = 0;
    while k < 8
        invariant
            k <= 8,
            data@.len() >= 8,
            magic@ == savegame_magic(),
            forall|j: int| 0 <= j < k ==> data@[j] == magic@[j],
        decreases 8 - k,
    {
        if data[k] != magic[k] {
            assert(data@.subrange(0, 8)[k as int] != savegame_magic()[k as int]);
            return Err(ConversionError::InvalidFormat(to_owned_string("Invalid savegame magic")));
        }
        k += 1;
    }
    assert(data@.subrange(0, 8) =~= savegame_magic());
    if data.len() < 16 {
        return Err(ConversionError::InvalidFormat(to_owned_string("Savegame data too short for header")));
    }
    let decompressed_size = be_u32_at(data, 8) as usize;
    let compression_type = be_u32_at(data, 12);
    let payload = slice_from(data, 16, data.len());
    match compression_type {
        0 => {
            if payload.len() >= decompressed_size {
                Ok(slice_to_vec(slice_from(payload, 0, decompressed_size)))
            } else {
                Ok(slice_to_vec(payload))
            }
        },
        1 => decompress_lzx(payload, decompressed_size),
        2 => match zlib_decode(payload) {
            Ok(out) => Ok(out),
            Err(e) => Err(ConversionError::Io(e)),
        },
        3 => decode_rle(payload, decompressed_size),
        _ => {
            let mut m = to_owned_string("Unknown compression type: ");
            push_decimal(&mut m, compression_type as u64);
            Err(ConversionError::DecompressionFailed(m))
        },
    }
}

/// The compressed size of an STFS savegame: its leading 32-bit size less 8.
pub open spec fn stfs_src_size(data: Seq<u8>) -> int {
    u32_specs::wrapping_sub(be32_at(data, 0) as u32, 8) as usize as int
}

/// The decompressed size of an STFS savegame: the 64-bit big-endian value at 4.
pub open spec fn stfs_dst_size(data: Seq<u8>) -> int {
    (be32_at(data, 4) * 0x100000000 + be32_at(data, 8)) as usize as int
}

/// Decompresses the savegame of an STFS package: a 12-byte header (the stream size
/// plus 8, the 64-bit decompressed size), then a chunked LZX stream. Fails with an
/// invalid-format error on a header that is too short, a compressed size of 0 or past
/// the data, or a decompressed size of 0 or above 100,000,000 bytes.
pub fn try_decompress_stfs_savegame(data: &[u8]) -> (r: Result<Vec<u8>, ConversionError>)
    ensures
        data@.len() < 12 ==> r matches Err(ConversionError::InvalidFormat(_)),
        data@.len() >= 12 ==> ({
            let src = stfs_src_size(data@);
            let dst = stfs_dst_size(data@);
            &&& (src == 0 || src > data@.len() - 12 || dst == 0 || dst > 100_000_000)
                ==> (r matches Err(ConversionError::InvalidFormat(_)))
            &&& !(src == 0 || src > data@.len() - 12 || dst == 0 || dst > 100_000_000) ==> {
                &&& r is Err ==> (r matches Err(ConversionError::DecompressionFailed(_)))
                &&& (r is Ok <==> chunked_decode(data@.subrange(12, 12 + src), 0, 0, dst, Seq::empty()) is Some)
                &&& (r matches Ok(v) ==> v@ == cut(chunked_decode(data@.subrange(12, 12 + src), 0, 0, dst, Seq::empty())->0, dst))
            }
        }),
{
    if data.len() < 12 {
        return Err(ConversionError::InvalidFormat(to_owned_string("STFS savegame data too short for header")));
    }
    let total_size = be_u32_at(data, 0);
    let hi = be_u32_at(data, 4) as u64;
    let lo = be_u32_at(data, 8) as u64;
    let decompressed_size = hi * 0x100000000 + lo;
    let src_size = total_size.wrapping_sub(8) as usize;
    let decompressed_size = decompressed_size as usize;
    if src_size == 0 || src_size > data.len() - 12 {
        let mut m = to_owned_string("Invalid compressed size: ");
        push_decimal(&mut m, src_size as u64);
        string_push_str(&mut m, " (data len: ");
        push_decimal(&mut m, data.len() as u64);
        string_push_str(&mut m, ")");
        return Err(ConversionError::InvalidFormat(m));
    }
    if decompressed_size == 0 || decompressed_size > 100_000_000 {
        let mut m = to_owned_string("Invalid decompressed size: ");
        push_decimal(&mut m, decompressed_size as u64);
        return Err(ConversionError::InvalidFormat(m));
    }
    let compressed = slice_from(data, 12, 12 + src_size);
    decompress_lzx_chunked(compressed, decompressed_size)
}

/// `v` is the contents of the first `savegame.dat` entry of the file table of the
/// package `p` parsed from `d`.
pub open spec fn savegame_of(p: StfsPackage, d: Seq<u8>, v: Seq<u8>) -> bool {
    &&& p.wf()
    &&& p.data@ == d
    &&& p.file_table_offsets() is Some
    &&& savegame_offset(d, p.file_table_offsets()->0) is Some
    &&& exists|e: StfsFileEntry| #[trigger] file_entry_matches(e, d, savegame_offset(d, p.file_table_offsets()->0)->0)
        && p.spec_extract(e) == Some(v)
}

/// Whether `savegame.dat` can be read from the STFS package in `d`: every package
/// parsed from `d` has a readable file table listing `savegame.dat`, and the contents
/// of that entry can be read.
pub open spec fn savegame_readable(d: Seq<u8>) -> bool {
    forall|p: StfsPackage| #[trigger] p.wf() && p.data@ == d ==> {
        &&& p.file_table_offsets() is Some
        &&& savegame_offset(d, p.file_table_offsets()->0) is Some
        &&& entry_extracts(p, d, savegame_offset(d, p.file_table_offsets()->0)->0)
    }
}

/// Whether the contents of the file entry at `off` of `d` can be read from `p`.
#[verifier::opaque]
pub open spec fn entry_extracts(p: StfsPackage, d: Seq<u8>, off: int) -> bool {
    forall|e: StfsFileEntry| #[trigger] file_entry_matches(e, d, off) ==> p.spec_extract(e) is Some
}

/// Extracts `savegame.dat` from an STFS package: parses the package, reads its file
/// table and reads the first entry of that name. Fails with an invalid-format error
/// when the package does not parse, the table cannot be read, there is no such entry,
/// or its contents cannot be read.
pub fn extract_savegame_from_stfs(data: &[u8]) -> (r: Result<Vec<u8>, ConversionError>)
    ensures
        stfs_header_refused(data@) ==> r is Err,
        !stfs_header_refused(data@) && savegame_readable(data@) ==> r is Ok,
        r is Err ==> r matches Err(ConversionError::InvalidFormat(_)),
        r matches Ok(v) ==> exists|p: StfsPackage| #[trigger] savegame_of(p, data@, v@),
{
    let pkg = match StfsPackage::parse(data) {
        Ok(p) => p,
        Err(e) => return Err(e),
    };
    proof {
        if savegame_readable(data@) {
            assert(pkg.wf() && pkg.data@ == data@);
        }
    }
    let listing = match pkg.read_file_listing() {
        Ok(l) => l,
        Err(e) => return Err(e),
    };
    let ghost offs = pkg.file_table_offsets()->0;
    assert(offs.subrange(0, offs.len() as int) =~= offs);
    let mut i: usize = 0;
    while i < listing.len()
        invariant
            pkg.wf(),
            pkg.data@ == data@,
            !stfs_header_refused(data@),
            pkg.file_table_offsets() == Some(offs),
            savegame_readable(data@) ==> savegame_offset(data@, offs) is Some
                && entry_extracts(pkg, data@, savegame_offset(data@, offs)->0),
            i <= listing@.len(),
            listing@.len() == offs.len(),
            forall|k: int| 0 <= k < listing@.len() ==> file_entry_matches(#[trigger] listing@[k], data@, offs[k]),
            savegame_offset(data@, offs) == savegame_offset(data@, offs.subrange(i as int, offs.len() as int)),
        decreases listing@.len() - i,
    {
        let ghost rest = offs.subrange(i as int, offs.len() as int);
        assert(rest.drop_first() =~= offs.subrange(i + 1, offs.len() as int));
        assert(rest[0] == offs[i as int]);
        assert(file_entry_matches(listing@[i as int], data@, offs[i as int]));
        if str_eq(listing[i].name.as_str(), "savegame.dat") {
            assert(savegame_offset(data@, offs) == Some(offs[i as int]));
            proof {
                if savegame_readable(data@) {
                    reveal(entry_extracts);
                    assert(pkg.spec_extract(listing@[i as int]) is Some);
                }
            }
            match pkg.extract_file(&listing[i]) {
                Ok(raw_data) => {
                    proof {
                        let e = listing@[i as int];
                        assert(pkg.spec_extract(e) == Some(raw_data@));
                        assert(file_entry_matches(e, data@, offs[i as int]) && pkg.spec_extract(e) == Some(raw_data@));
                        assert(pkg.wf() && pkg.data@ == data@);
                        assert(savegame_offset(data@, pkg.file_table_offsets()->0)->0 == offs[i as int]);
                        assert(file_entry_matches(e, data@, savegame_offset(data@, pkg.file_table_offsets()->0)->0));
                        assert(savegame_of(pkg, data@, raw_data@));
                    }
                    return Ok(raw_data);
                },
                Err(e) => {
                    return Err(e);
                },
            }
        }
        i += 1;
    }
    Err(ConversionError::InvalidFormat(to_owned_string("savegame.dat not found in STFS listing")))
}

/// Decodes the run-length coded savegame payload, producing at most
/// `decompressed_size` bytes.
pub fn decode_rle(data: &[u8], decompressed_size: usize) -> (r: Result<Vec<u8>, ConversionError>)
    ensures
        r matches Ok(v) && v@ == rle_expand(data@).take(
            if decompressed_size < rle_expand(data@).len() { decompressed_size as int } else { rle_expand(data@).len() as int }),
{
    let mut output: Vec<u8> = Vec::new();
    let n = data.len();
    let mut pos: usize = 0;
    assert(data@.subrange(0, n as int) =~= data@);
    while pos < n && output.len() < decompressed_size
        invariant
            n == data@.len(),
            pos <= n,
            output@.len() <= decompressed_size,
            output@ + rle_expand_bounded(data@.subrange(pos as int, n as int), decompressed_size - output@.len())
                == rle_expand_bounded(data@, decompressed_size as int),
        decreases n - pos,
    {
        let ghost sub = data@.subrange(pos as int, n as int);
        let ghost before = output@;
        let b = data[pos];
        pos += 1;
        if b != 0xFF {
            output.push(b);
            assert(sub.drop_first() =~= data@.subrange(pos as int, n as int));
            assert(output@ + rle_expand_bounded(data@.subrange(pos as int, n as int), decompressed_size - output@.len())
                =~= before + rle_expand_bounded(sub, decompressed_size - before.len()));
        } else {
            if n - pos < 2 {
                assert(output@ + Seq::<u8>::empty() =~= output@);
                proof {
                    lemma_expand_bounded(data@, decompressed_size as int);
                }
                return Ok(output);
            }
            let run_len = data[pos] as usize;
            let value = data[pos + 1];
            pos += 2;
            let room = decompressed_size - output.len();
            let actual_len = if run_len < room { run_len } else { room };
            let mut k: usize = 0;
            while k < actual_len
                invariant
                    k <= actual_len,
                    actual_len <= room,
                    room == decompressed_size - before.len(),
                    output@ == before + repeat(value, k as int),
                decreases actual_len - k,
            {
                output.push(value);
                assert(output@ =~= before + repeat(value, k + 1));
                k += 1;
            }
            assert(sub.subrange(3, sub.len() as int) =~= data@.subrange(pos as int, n as int));
            assert(output@ + rle_expand_bounded(data@.subrange(pos as int, n as int), decompressed_size - output@.len())
                =~= before + rle_expand_bounded(sub, decompressed_size - before.len()));
        }
    }
    proof {
        let rest = data@.subrange(pos as int, n as int);
        assert(rle_expand_bounded(rest, decompressed_size - output@.len()) =~= Seq::<u8>::empty());
        assert(output@ + Seq::<u8>::empty() =~= output@);
        lemma_expand_bounded(data@, decompressed_size as int);
    }
    Ok(output)
}

} // verus!
