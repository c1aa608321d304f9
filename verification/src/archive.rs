//! The Xbox 360 archive formats: the file listing at the head of a decompressed
//! savegame, and the archive index of a `.mcs`-style container.
use vstd::prelude::*;
use crate::assoc::{bytes_map_view, put_bytes, assoc_get, assoc_put, key_index, keys_unique, lemma_key_index};
use crate::bytes::{le32_at, le_u32_at, be16_at, le16_at, be16, be32_at, be64_at, be_u16_at, be_u32_at, be_u64_at, le16, le_u16_at, read_be_u32};
use crate::error::ConversionError;
use crate::models::ArchiveEntry;
use crate::text::{char_from_u32, is_scalar_value, string_push, to_owned_string};

verus! {

/// The characters of a zero-terminated, zero-padded UTF-16 string held in `b`
/// (big-endian code units when `be`, else little-endian). Units that are not
/// Unicode scalar values are dropped; an odd trailing byte is ignored.
pub open spec fn utf16_text(b: Seq<u8>, be: bool) -> Seq<char>
    decreases b.len(),
{
    if b.len() < 2 {
        Seq::empty()
    } else {
        let u = if be { be16(b[0], b[1]) } else { le16(b[0], b[1]) };
        if u == 0 {
            Seq::empty()
        } else {
            let rest = utf16_text(b.subrange(2, b.len() as int), be);
            if is_scalar_value(u) { seq![(u as u32) as char] + rest } else { rest }
        }
    }
}

/// Decodes a zero-padded UTF-16 string.
fn decode_utf16_padded(bytes: &[u8], be: bool) -> (r: String)
    ensures
        r@ == utf16_text(bytes@, be),
{
    let mut out = String::new();
    let n = bytes.len();
    let mut i: usize = 0;
    assert(bytes@.subrange(0, n as int) =~= bytes@);
    assert(utf16_text(bytes@, be) =~= out@ + utf16_text(bytes@.subrange(0, n as int), be));
    while n - i >= 2
        invariant
            n == bytes@.len(),
            i <= n,
            utf16_text(bytes@, be) == out@ + utf16_text(bytes@.subrange(i as int, n as int), be),
        decreases n - i,
    {
        let ghost rest = bytes@.subrange(i as int, n as int);
        let u: u16 = if be { be_u16_at(bytes, i) } else { le_u16_at(bytes, i) };
        assert(rest.subrange(2, rest.len() as int) =~= bytes@.subrange(i + 2, n as int));
        assert(rest[0] == bytes@[i as int] && rest[1] == bytes@[i + 1]);
        let ghost tail = utf16_text(bytes@.subrange(i + 2, n as int), be);
        if u == 0 {
            assert(out@ + Seq::<char>::empty() =~= out@);
            return out;
        }
        match char_from_u32(u as u32) {
            Some(c) => {
                proof { vstd::utf8::char_u32_cast(c, u as u32); }
                let ghost before = out@;
                string_push(&mut out, c);
                assert(before + (seq![c] + utf16_text(bytes@.subrange(i + 2, n as int), be))
                    =~= out@ + utf16_text(bytes@.subrange(i + 2, n as int), be));
            },
            None => {},
        }
        i += 2;
    }
    assert(bytes@.subrange(i as int, n as int).len() < 2);
    assert(out@ + Seq::<char>::empty() =~= out@);
    out
}

/// Decodes a zero-padded little-endian UTF-16 string.
fn decode_utf16le_padded(bytes: &[u8]) -> (r: String)
    ensures
        r@ == utf16_text(bytes@, false),
{
    decode_utf16_padded(bytes, false)
}

/// Decodes a zero-padded big-endian UTF-16 string.
fn decode_utf16_be_padded(bytes: &[u8]) -> (r: String)
    ensures
        r@ == utf16_text(bytes@, true),
{
    decode_utf16_padded(bytes, true)
}

/// The archive magic of an Xbox 360 Minecraft archive.
pub open spec fn archive_magic() -> Seq<u8> {
    seq![0x01u8, 0x00, 0x00, 0x00, 0x01, 0x00, 0x00, 0x00]
}

/// Whether `data` begins with the archive magic.
pub fn is_minecraft_360_archive(data: &[u8]) -> (r: bool)
    ensures
        r == (data@.len() >= 8 && data@.subrange(0, 8) == archive_magic()),
{
    if data.len() < 8 {
        return false;
    }
    let m = data[0] == 1 && data[1] == 0 && data[2] == 0 && data[3] == 0 && data[4] == 1 && data[5] == 0
        && data[6] == 0 && data[7] == 0;
    assert(m == (data@.subrange(0, 8) =~= archive_magic()));
    m
}

/// The archive index as a map from names to `(offset, length, timestamp)`.
pub open spec fn archive_view(v: Seq<ArchiveEntry>) -> Seq<(Seq<char>, (u64, u32, u64))> {
    v.map_values(|e: ArchiveEntry| (e.name@, (e.offset, e.length, e.timestamp)))
}

/// The index record `i` of an archive: it starts at byte `16 + 144 * i`.
pub open spec fn archive_record(data: Seq<u8>, i: int) -> (Seq<char>, (u64, u32, u64)) {
    let off = 16 + 144 * i;
    (utf16_text(data.subrange(off, off + 128), true),
     (be32_at(data, off + 132) as u64, be32_at(data, off + 128) as u32, be64_at(data, off + 136) as u64))
}

/// The archive index formed by the first `n` records that lie wholly inside `data`,
/// a later record replacing an earlier one of the same name.
pub open spec fn archive_index(data: Seq<u8>, n: int) -> Seq<(Seq<char>, (u64, u32, u64))>
    decreases n,
{
    if n <= 0 {
        Seq::empty()
    } else {
        let prev = archive_index(data, n - 1);
        if 16 + 144 * (n - 1) + 144 <= data.len() {
            assoc_put(prev, archive_record(data, n - 1).0, archive_record(data, n - 1).1)
        } else {
            prev
        }
    }
}

fn find_entry(m: &Vec<ArchiveEntry>, name: &String) -> (r: Option<usize>)
    ensures
        r matches Some(i) ==> i < m@.len() && m@[i as int].name@ == name@
            && forall|j: int| 0 <= j < i ==> m@[j].name@ != name@,
        r is None ==> forall|j: int| 0 <= j < m@.len() ==> m@[j].name@ != name@,
{
    let mut i: usize = 0;
    while i < m.len()
        invariant
            0 <= i <= m@.len(),
            forall|j: int| 0 <= j < i ==> m@[j].name@ != name@,
        decreases m@.len() - i,
    {
        if crate::text::str_eq(m[i].name.as_str(), name.as_str()) {
            return Some(i);
        }
        i += 1;
    }
    None
}

fn put_entry(m: &mut Vec<ArchiveEntry>, e: ArchiveEntry)
    ensures
        archive_view(final(m)@) == assoc_put(archive_view(old(m)@), e.name@, (e.offset, e.length, e.timestamp)),
{
    let r = find_entry(m, &e.name);
    let ghost v = archive_view(m@);
    proof {
        lemma_key_index(v, e.name@);
        assert forall|j: int| 0 <= j < m@.len() implies #[trigger] v[j].0 == m@[j].name@ by {}
        if let Some(i) = r {
            assert(v[i as int].0 == e.name@);
        }
        if key_index(v, e.name@) >= 0 {
            let t = key_index(v, e.name@);
            assert(v[t].0 == m@[t].name@);
        }
    }
    let ghost ev = (e.name@, (e.offset, e.length, e.timestamp));
    let ghost before = m@;
    match r {
        Some(i) => {
            m.set(i, e);
            assert(archive_view(m@) =~= archive_view(before).update(i as int, ev));
        },
        None => {
            m.push(e);
            assert(archive_view(m@) =~= archive_view(before).push(ev));
        },
    }
}

/// Parses the index of an Xbox 360 archive: a count at byte 8, then records of 144
/// bytes from byte 16 (a big-endian UTF-16 name of 128 bytes, length, offset and
/// timestamp). Reading stops at the first record that does not fit in `data`.
pub fn parse_archive(data: &[u8]) -> (r: Result<Vec<ArchiveEntry>, ConversionError>)
    requires
        data@.len() >= 8 && data@.subrange(0, 8) == archive_magic() ==> data@.len() >= 16,
    ensures
        data@.len() < 8 || data@.subrange(0, 8) != archive_magic() <==> r matches Err(ConversionError::InvalidFormat(_)),
        data@.len() < 8 || data@.subrange(0, 8) != archive_magic() <==> r is Err,
        r is Ok ==> data@.len() >= 8 && data@.subrange(0, 8) == archive_magic(),
        r matches Ok(v) ==> archive_view(v@) == archive_index(data@, be32_at(data@, 8)),
        r matches Ok(v) ==> keys_unique(archive_view(v@)),
{
    if data.len() < 8 {
        return Err(ConversionError::InvalidFormat(to_owned_string("Archive data too short")));
    }
    if !is_minecraft_360_archive(data) {
        return Err(ConversionError::InvalidFormat(to_owned_string("Invalid Minecraft 360 archive magic")));
    }
    let num_entries = read_be_u32(slice_from(data, 8, 12)) as usize;
    let mut entries: Vec<ArchiveEntry> = Vec::new();
    let n = data.len();
    let mut k: usize = 0;
    while k < num_entries
        invariant
            n == data@.len(),
            k <= num_entries,
            num_entries == be32_at(data@, 8),
            num_entries <= u32::MAX,
            archive_view(entries@) == archive_index(data@, k as int),
            keys_unique(archive_view(entries@)),
        decreases num_entries - k,
    {
        let off: u64 = 16 + 144 * (k as u64);
        if off + 144 <= n as u64 {
            let o = off as usize;
            let name = decode_utf16_be_padded(slice_from(data, o, o + 128));
            let length = be_u32_at(data, o + 128);
            let file_offset = be_u32_at(data, o + 132) as u64;
            let timestamp = be_u64_at(data, o + 136);
            let ghost before = archive_view(entries@);
            put_entry(&mut entries, ArchiveEntry { name, offset: file_offset, length, timestamp });
            proof {
                lemma_assoc_put_unique(before, archive_record(data@, k as int).0, archive_record(data@, k as int).1);
            }
        }
        k += 1;
    }
    Ok(entries)
}

/// The subslice `data[start..end]`.
pub fn slice_from(data: &[u8], start: usize, end: usize) -> (r: &[u8])
    requires
        start <= end <= data@.len(),
    ensures
        r@ == data@.subrange(start as int, end as int),
{
    &data[start..end]
}

/// `assoc_put` keeps keys unique.
pub proof fn lemma_assoc_put_unique<T>(m: Seq<(Seq<char>, T)>, k: Seq<char>, v: T)
    requires
        keys_unique(m),
    ensures
        keys_unique(assoc_put(m, k, v)),
        assoc_get(assoc_put(m, k, v), k) == Some(v),
{
    lemma_key_index(m, k);
    let r = assoc_put(m, k, v);
    lemma_key_index(r, k);
    if key_index(m, k) < 0 {
        assert(r[m.len() as int].0 == k);
    } else {
        assert(r[key_index(m, k)].0 == k);
    }
}

/// Copies the bytes of an archive entry out of the archive.
pub fn extract_file_from_archive(data: &[u8], entry: &ArchiveEntry) -> (r: Result<Vec<u8>, ConversionError>)
    requires
        entry.offset + entry.length <= usize::MAX,
    ensures
        entry.offset + entry.length > data@.len() <==> r matches Err(ConversionError::InvalidFormat(_)),
        entry.offset + entry.length > data@.len() <==> r is Err,
        r matches Ok(v) ==> v@ == data@.subrange(entry.offset as int, entry.offset + entry.length),
{
    let start = entry.offset as usize;
    let end = start + entry.length as usize;
    if end > data.len() {
        return Err(ConversionError::InvalidFormat(to_owned_string("Archive entry exceeds archive size")));
    }
    Ok(vstd::slice::slice_to_vec(slice_from(data, start, end)))
}

/// The header fields of a savegame file listing read in one byte order:
/// `(index_offset, file_count, oldest, latest)`.
pub open spec fn listing_fields(data: Seq<u8>, be: bool) -> (int, int, int, int) {
    if be {
        (be32_at(data, 0), be32_at(data, 4), be16_at(data, 8), be16_at(data, 10))
    } else {
        (le32_at(data, 0), le32_at(data, 4), le16_at(data, 8), le16_at(data, 10))
    }
}

/// The file-listing header read in one byte order, when it is plausible:
/// `(index_offset, number_of_files, latest_version)`. Versions must lie in `0..=13`
/// with `oldest <= latest`, the index must start after the header and inside the
/// data, a version-0/1 listing stores its count as a multiple of 136, and at most
/// 32768 files are listed.
pub open spec fn listing_header(data: Seq<u8>, be: bool) -> Option<(int, int, int)> {
    let (index_offset, file_count, oldest, latest) = listing_fields(data, be);
    if oldest > 13 || latest > 13 || latest < oldest {
        None
    } else if index_offset < 12 || index_offset >= data.len() {
        None
    } else if latest <= 1 && (file_count == 0 || file_count % 136 != 0) {
        None
    } else {
        let count = if latest <= 1 { file_count / 136 } else { file_count };
        if count > 32768 { None } else { Some((index_offset, count, latest)) }
    }
}

/// The size of one index record of a listing of the given version.
pub open spec fn listing_entry_size(latest: int) -> int {
    if latest <= 1 { 136 } else { 144 }
}

/// The files named by the first `n` records of a listing whose index starts at
/// `index_offset`: each record holds a little-endian UTF-16 name of 128 bytes, then
/// the file's size and offset (little-endian when `le`); a record that does not fit
/// or has an empty name is skipped, contents are cut at the end of the data, empty
/// contents are skipped, and a later file replaces an earlier one of the same name.
pub open spec fn listing_files(data: Seq<u8>, index_offset: int, latest: int, le: bool, n: int) -> Seq<(Seq<char>, Seq<u8>)>
    decreases n,
{
    if n <= 0 {
        Seq::empty()
    } else {
        let prev = listing_files(data, index_offset, latest, le, n - 1);
        let es = listing_entry_size(latest);
        let off = index_offset + (n - 1) * es;
        if off + es > data.len() {
            prev
        } else {
            let name = utf16_text(data.subrange(off, off + 128), false);
            let size = if le { le32_at(data, off + 128) } else { be32_at(data, off + 128) };
            let start = if le { le32_at(data, off + 132) } else { be32_at(data, off + 132) };
            let end = if start + size < data.len() { start + size } else { data.len() as int };
            if name.len() == 0 || start >= end {
                prev
            } else {
                assoc_put(prev, name, data.subrange(start, end))
            }
        }
    }
}

/// The files of a savegame file listing; the header is tried big-endian first, then
/// little-endian.
pub open spec fn spec_file_listing(data: Seq<u8>) -> Option<Seq<(Seq<char>, Seq<u8>)>> {
    if data.len() < 12 {
        None
    } else if let Some((idx, count, latest)) = listing_header(data, true) {
        Some(listing_files(data, idx, latest, false, count))
    } else if let Some((idx, count, latest)) = listing_header(data, false) {
        Some(listing_files(data, idx, latest, true, count))
    } else {
        None
    }
}

struct ListingHeader {
    index_offset: u32,
    file_count: u32,
    latest: u16,
}

fn try_parse_listing_header(data: &[u8], be: bool) -> (r: Option<ListingHeader>)
    requires
        data@.len() >= 12,
    ensures
        r is Some <==> listing_header(data@, be) is Some,
        r matches Some(h) ==> listing_header(data@, be) == Some((h.index_offset as int, h.file_count as int, h.latest as int)),
{
    let (index_offset, file_count, oldest, latest) = if be {
        (be_u32_at(data, 0), be_u32_at(data, 4), be_u16_at(data, 8), be_u16_at(data, 10))
    } else {
        (le_u32_at(data, 0), le_u32_at(data, 4), le_u16_at(data, 8), le_u16_at(data, 10))
    };
    if oldest > 13 || latest > 13 || latest < oldest {
        return None;
    }
    if index_offset < 12 || index_offset as usize >= data.len() {
        return None;
    }
    let file_count = if latest <= 1 {
        if file_count == 0 || file_count % 136 != 0 {
            return None;
        }
        file_count / 136
    } else {
        file_count
    };
    if file_count > 32768 {
        return None;
    }
    Some(ListingHeader { index_offset, file_count, latest })
}

/// Parses the file listing at the head of a decompressed savegame into its files.
pub fn parse_file_listing(data: &[u8]) -> (r: Result<Vec<(String, Vec<u8>)>, ConversionError>)
    ensures
        spec_file_listing(data@) is None <==> r matches Err(ConversionError::InvalidFormat(_)),
        spec_file_listing(data@) is None <==> r is Err,
        r matches Ok(files) ==> Some(bytes_map_view(files@)) == spec_file_listing(data@),
        r matches Ok(files) ==> keys_unique(bytes_map_view(files@)),
{
    if data.len() < 12 {
        return Err(ConversionError::InvalidFormat(to_owned_string("File listing too short")));
    }
    let (header, le) = match try_parse_listing_header(data, true) {
        Some(h) => (h, false),
        None => match try_parse_listing_header(data, false) {
            Some(h) => (h, true),
            None => return Err(ConversionError::InvalidFormat(to_owned_string("Invalid file listing header"))),
        },
    };
    let footer_entry_size: u64 = if header.latest <= 1 { 136 } else { 144 };
    let mut files: Vec<(String, Vec<u8>)> = Vec::new();
    let n = data.len();
    let mut i: u32 = 0;
    while i < header.file_count
        invariant
            n == data@.len(),
            i <= header.file_count <= 32768,
            footer_entry_size == listing_entry_size(header.latest as int),
            bytes_map_view(files@) == listing_files(data@, header.index_offset as int, header.latest as int, le, i as int),
            keys_unique(bytes_map_view(files@)),
        decreases header.file_count - i,
    {
        let entry_off: u64 = header.index_offset as u64 + (i as u64) * footer_entry_size;
        if entry_off + footer_entry_size <= n as u64 {
            let off = entry_off as usize;
            let name = decode_utf16le_padded(slice_from(data, off, off + 128));
            let file_size = if le { le_u32_at(data, off + 128) } else { be_u32_at(data, off + 128) };
            let file_ofs = if le { le_u32_at(data, off + 132) } else { be_u32_at(data, off + 132) };
            let start: u64 = file_ofs as u64;
            let end: u64 = if start + (file_size as u64) < n as u64 { start + file_size as u64 } else { n as u64 };
            if name.as_str().unicode_len() != 0 && start < end {
                let contents = vstd::slice::slice_to_vec(slice_from(data, start as usize, end as usize));
                let ghost before = bytes_map_view(files@);
                let ghost nm = name@;
                put_bytes(&mut files, name, contents);
                proof {
                    lemma_assoc_put_unique(before, nm, data@.subrange(start as int, end as int));
                }
            }
        }
        i += 1;
    }
    Ok(files)
}

} // verus!
