//! The save-data container of a Legacy Console Edition save: a header, the files'
//! contents, then a table naming each file.
use vstd::prelude::*;
use vstd::utf8::encode_utf8;
use crate::bytes::{le16_bytes, le32_bytes, le64_bytes, push_bytes, push_le_u16, push_le_u32, push_le_u64};
use crate::error::ConversionError;
use crate::lce_region::unix_time_secs;

verus! {

/// The version of the container format.
pub const CONTAINER_VERSION: u32 = 2;

/// The magic at the start of a container.
pub open spec fn save_magic() -> Seq<u8> {
    seq![0x01u8, 0x00, 0x00, 0x00, 0x01, 0x00]
}

/// The zero bytes that pad a length of `n` to a multiple of 4.
pub open spec fn pad4(n: int) -> Seq<u8> {
    Seq::new(((4 - n % 4) % 4) as nat, |i: int| 0u8)
}

/// The names and contents of files as sequences.
pub open spec fn files_view(files: Seq<(String, Vec<u8>)>) -> Seq<(Seq<char>, Seq<u8>)> {
    files.map_values(|f: (String, Vec<u8>)| (f.0@, f.1@))
}

/// The container up to the end of the contents of the first `k` of `files`: the
/// header (magic, version, file count), then each content padded to 4 bytes.
pub open spec fn files_part(files: Seq<(Seq<char>, Seq<u8>)>, k: int) -> Seq<u8>
    decreases k,
{
    if k <= 0 {
        save_magic() + le32_bytes(CONTAINER_VERSION) + le32_bytes(files.len() as u32)
    } else {
        let p = files_part(files, k - 1);
        let c = files[k - 1].1;
        p + c + pad4((p.len() + c.len()) as int)
    }
}

/// The table entry of file `i`: the offset and length of its content and the
/// timestamp (little-endian 64-bit), the length of its UTF-8 name (16-bit), the name
/// and a zero byte.
pub open spec fn table_entry(files: Seq<(Seq<char>, Seq<u8>)>, i: int, timestamp: u64) -> Seq<u8> {
    let name = encode_utf8(files[i].0);
    le64_bytes(files_part(files, i).len() as u64) + le64_bytes(files[i].1.len() as u64) + le64_bytes(timestamp)
        + le16_bytes(name.len() as u16) + name + seq![0u8]
}

/// The container up to the end of the table entries of the first `k` files, each
/// entry padded to 4 bytes.
pub open spec fn table_part(files: Seq<(Seq<char>, Seq<u8>)>, timestamp: u64, k: int) -> Seq<u8>
    decreases k,
{
    if k <= 0 {
        files_part(files, files.len() as int)
    } else {
        let p = table_part(files, timestamp, k - 1);
        let e = table_entry(files, k - 1, timestamp);
        p + e + pad4((p.len() + e.len()) as int)
    }
}

/// The container of `files` written at `timestamp`.
pub open spec fn container_bytes(files: Seq<(Seq<char>, Seq<u8>)>, timestamp: u64) -> Seq<u8> {
    table_part(files, timestamp, files.len() as int)
}

fn pad_to_4(data: &mut Vec<u8>)
    ensures
        final(data)@ == old(data)@ + pad4(old(data)@.len() as int),
{
    let ghost start = data@;
    let ghost pad: int = (4 - start.len() % 4) % 4;
    while data.len() % 4 != 0
        invariant
            start.len() <= data@.len(),
            pad == (4 - start.len() % 4) % 4,
            data@ == start + Seq::new((data@.len() - start.len()) as nat, |i: int| 0u8),
            data@.len() - start.len() <= pad,
            (data@.len() % 4 == 0) == (data@.len() - start.len() == pad),
        decreases pad - (data@.len() - start.len()),
    {
        data.push(0);
        assert(data@ =~= start + Seq::new((data@.len() - start.len()) as nat, |i: int| 0u8));
    }
    assert(data@ =~= start + pad4(start.len() as int));
}

/// Writes the container of `files` with the given timestamp on every entry.
pub fn build_save_data_container(files: &[(String, Vec<u8>)], timestamp: u64) -> (r: Vec<u8>)
    ensures
        r@ == container_bytes(files_view(files@), timestamp),
{
    let ghost fv = files_view(files@);
    let mut data: Vec<u8> = Vec::new();
    push_bytes(&mut data, &[0x01u8, 0x00, 0x00, 0x00, 0x01, 0x00]);
    push_le_u32(&mut data, CONTAINER_VERSION);
    push_le_u32(&mut data, files.len() as u32);
    assert(data@ =~= files_part(fv, 0));
    let mut file_offsets: Vec<(u64, u64)> = Vec::new();
    let mut i: usize = 0;
    while i < files.len()
        invariant
            i <= files@.len(),
            fv == files_view(files@),
            fv.len() == files@.len(),
            data@ == files_part(fv, i as int),
            file_offsets@.len() == i,
            forall|k: int| 0 <= k < i ==> #[trigger] file_offsets@[k] == (files_part(fv, k).len() as u64, fv[k].1.len() as u64),
        decreases files@.len() - i,
    {
        let offset = data.len() as u64;
        let length = files[i].1.len() as u64;
        file_offsets.push((offset, length));
        push_bytes(&mut data, files[i].1.as_slice());
        pad_to_4(&mut data);
        assert(fv[i as int] == (files@[i as int].0@, files@[i as int].1@));
        i += 1;
    }
    let mut k: usize = 0;
    while k < files.len()
        invariant
            k <= files@.len(),
            fv == files_view(files@),
            fv.len() == files@.len(),
            data@ == table_part(fv, timestamp, k as int),
            file_offsets@.len() == files@.len(),
            forall|j: int| 0 <= j < files@.len() ==> #[trigger] file_offsets@[j] == (files_part(fv, j).len() as u64, fv[j].1.len() as u64),
        decreases files@.len() - k,
    {
        let (offset, length) = file_offsets[k];
        let ghost before = data@;
        push_le_u64(&mut data, offset);
        push_le_u64(&mut data, length);
        push_le_u64(&mut data, timestamp);
        let name_bytes = files[k].0.as_str().as_bytes();
        push_le_u16(&mut data, name_bytes.len() as u16);
        push_bytes(&mut data, name_bytes);
        data.push(0);
        assert(fv[k as int] == (files@[k as int].0@, files@[k as int].1@));
        assert(data@ =~= before + table_entry(fv, k as int, timestamp));
        pad_to_4(&mut data);
        k += 1;
    }
    data
}

/// Writes the container of `files`, stamping every entry with the current time in
/// seconds since the Unix epoch. Which timestamp is written is not stated: it is the
/// time.
pub fn write_save_data_container(files: &[(String, Vec<u8>)]) -> (r: Result<Vec<u8>, ConversionError>)
    ensures
        r matches Ok(v) && exists|t: u64| #[trigger] container_bytes(files_view(files@), t) == v@,
{
    let timestamp = unix_time_secs();
    let data = build_save_data_container(files, timestamp);
    assert(container_bytes(files_view(files@), timestamp) == data@);
    Ok(data)
}

/// The files of a save: `level.dat` first, then the regions in the order given.
pub open spec fn save_files(level_dat: Seq<u8>, regions: Seq<(Seq<char>, Seq<u8>)>) -> Seq<(Seq<char>, Seq<u8>)> {
    seq![("level.dat"@, level_dat)] + regions
}

/// Writes the container of a save: its level data as `level.dat`, then each region
/// under its path.
pub fn write_save_data_ms(level_dat: &[u8], regions: &Vec<(String, Vec<u8>)>) -> (r: Result<Vec<u8>, ConversionError>)
    ensures
        r matches Ok(v) && exists|t: u64| #[trigger] container_bytes(save_files(level_dat@, files_view(regions@)), t) == v@,
{
    let mut files: Vec<(String, Vec<u8>)> = Vec::new();
    files.push((crate::text::to_owned_string("level.dat"), vstd::slice::slice_to_vec(level_dat)));
    let mut i: usize = 0;
    while i < regions.len()
        invariant
            i <= regions@.len(),
            files_view(files@) == save_files(level_dat@, files_view(regions@.subrange(0, i as int))),
        decreases regions@.len() - i,
    {
        let ghost before = files@;
        let entry = (crate::error::copy_string(&regions[i].0), vstd::slice::slice_to_vec(regions[i].1.as_slice()));
        files.push(entry);
        proof {
            let r = regions@[i as int];
            assert(files@ == before.push(entry));
            assert(files_view(files@) =~= files_view(before).push((r.0@, r.1@)));
            assert(regions@.subrange(0, i + 1) =~= regions@.subrange(0, i as int).push(r));
            assert(files_view(regions@.subrange(0, i + 1)) =~= files_view(regions@.subrange(0, i as int)).push((r.0@, r.1@)));
            assert(files_view(files@) =~= save_files(level_dat@, files_view(regions@.subrange(0, i + 1))));
        }
        i += 1;
    }
    assert(regions@.subrange(0, regions@.len() as int) =~= regions@);
    write_save_data_container(files.as_slice())
}

proof fn lemma_files_part_prefix(files: Seq<(Seq<char>, Seq<u8>)>, j: int, m: int)
    requires
        0 <= j <= m,
    ensures
        files_part(files, j).len() <= files_part(files, m).len(),
        files_part(files, m).subrange(0, files_part(files, j).len() as int) == files_part(files, j),
    decreases m - j,
{
    if j < m {
        lemma_files_part_prefix(files, j, m - 1);
        let a = files_part(files, j);
        let b = files_part(files, m - 1);
        let c = files_part(files, m);
        assert(c.subrange(0, b.len() as int) =~= b);
        assert(c.subrange(0, a.len() as int) =~= b.subrange(0, a.len() as int));
    } else {
        assert(files_part(files, m).subrange(0, files_part(files, m).len() as int) =~= files_part(files, m));
    }
}

proof fn lemma_table_part_prefix(files: Seq<(Seq<char>, Seq<u8>)>, t: u64, j: int, m: int)
    requires
        0 <= j <= m,
    ensures
        table_part(files, t, j).len() <= table_part(files, t, m).len(),
        table_part(files, t, m).subrange(0, table_part(files, t, j).len() as int) == table_part(files, t, j),
    decreases m - j,
{
    if j < m {
        lemma_table_part_prefix(files, t, j, m - 1);
        let a = table_part(files, t, j);
        let b = table_part(files, t, m - 1);
        let c = table_part(files, t, m);
        assert(c.subrange(0, b.len() as int) =~= b);
        assert(c.subrange(0, a.len() as int) =~= b.subrange(0, a.len() as int));
    } else {
        assert(table_part(files, t, m).subrange(0, table_part(files, t, m).len() as int) =~= table_part(files, t, m));
    }
}

/// A container holds each file where its table says: the contents of file `k` lie at
/// the offset its table entry records (the length of everything before them), and
/// that entry (offset, length, timestamp, name) lies in the table after the entries
/// of the files before it.
#[verifier::rlimit(40)]
pub proof fn lemma_container_holds_files(files: Seq<(Seq<char>, Seq<u8>)>, t: u64, k: int)
    requires
        0 <= k < files.len(),
    ensures
        ({
            let c = container_bytes(files, t);
            let off = files_part(files, k).len() as int;
            let pos = table_part(files, t, k).len() as int;
            let e = table_entry(files, k, t);
            &&& off + files[k].1.len() <= c.len()
            &&& c.subrange(off, off + files[k].1.len()) == files[k].1
            &&& e.subrange(0, 8) == le64_bytes(off as u64)
            &&& pos + e.len() <= c.len()
            &&& c.subrange(pos, pos + e.len()) == e
        }),
{
    let n = files.len() as int;
    let c = container_bytes(files, t);
    let fp = files_part(files, k);
    let fp1 = files_part(files, k + 1);
    let content = files[k].1;
    let off = fp.len() as int;
    lemma_files_part_prefix(files, k + 1, n);
    lemma_table_part_prefix(files, t, 0, n);
    let all_files = files_part(files, n);
    assert(table_part(files, t, 0) == all_files);
    assert(fp1.subrange(off, off + content.len()) =~= content);
    assert(c.subrange(0, all_files.len() as int) == all_files);
    assert(all_files.subrange(0, fp1.len() as int) == fp1);
    assert(c.subrange(off, off + content.len()) =~= fp1.subrange(off, off + content.len()));
    let e = table_entry(files, k, t);
    assert(e.subrange(0, 8) =~= le64_bytes(off as u64));
    let tp = table_part(files, t, k);
    let tp1 = table_part(files, t, k + 1);
    lemma_table_part_prefix(files, t, k + 1, n);
    let pos = tp.len() as int;
    assert(tp1.subrange(pos, pos + e.len()) =~= e);
    assert(c.subrange(pos, pos + e.len()) =~= tp1.subrange(pos, pos + e.len()));
}

} // verus!
