//! Building the chunk payloads of Legacy Console Edition region files.
use vstd::prelude::*;
use vstd::slice::slice_to_vec;
use crate::archive::slice_from;
use crate::compress::{zlib_encode, zlib_encoded};
use crate::error::ConversionError;
use crate::assoc::{assoc_get, lemma_assoc_get_absent, lemma_assoc_get_at};
use crate::nbt::{items_view, push_entry, ser_payload_le, tag_view, tags_view, write_nbt_le, NbtTag, NbtValue};
use crate::bytes::{be16_bytes, push_be_u16, push_bytes};
use crate::modern_chunk_writer::{get_nibble, nibble};
use crate::rle::{lemma_run_len, rle_encode, run_from, run_len};

verus! {

/// The length of the run of bytes equal to `data[pos]` starting at `pos`, at most 255.
fn run_at(data: &[u8], pos: usize) -> (r: usize)
    requires
        pos < data@.len(),
    ensures
        r == run_len(data@.subrange(pos as int, data@.len() as int)),
{
    let ghost sub = data@.subrange(pos as int, data@.len() as int);
    let n = data.len();
    let mut j: usize = 0;
    while j < 255 && j < n - pos && data[pos + j] == data[pos]
        invariant
            n == data@.len(),
            pos < n,
            j <= 255,
            j <= n - pos,
            sub == data@.subrange(pos as int, n as int),
            run_from(sub, j as int) == run_len(sub),
        decreases 255 - j,
    {
        assert(sub[j as int] == data@[pos + j] && sub[0] == data@[pos as int]);
        j += 1;
    }
    proof {
        if j < 255 && j < n - pos {
            assert(sub[j as int] == data@[pos + j] && sub[0] == data@[pos as int]);
        }
    }
    j
}

/// Run-length codes `data`: every run of 4 to 255 equal bytes becomes `0xFF n v`,
/// other bytes are copied.
pub fn rle_compress(data: &[u8]) -> (r: Vec<u8>)
    ensures
        r@ == rle_encode(data@),
{
    let mut output: Vec<u8> = Vec::new();
    let n = data.len();
    let mut pos: usize = 0;
    assert(data@.subrange(0, n as int) =~= data@);
    while pos < n
        invariant
            n == data@.len(),
            pos <= n,
            output@ + rle_encode(data@.subrange(pos as int, n as int)) == rle_encode(data@),
        decreases n - pos,
    {
        let ghost sub = data@.subrange(pos as int, n as int);
        proof {
            lemma_run_len(sub);
        }
        let run = run_at(data, pos);
        let ghost before = output@;
        if run >= 4 {
            output.push(0xFF);
            output.push(run as u8);
            output.push(data[pos]);
            assert(sub.subrange(run as int, sub.len() as int) =~= data@.subrange(pos + run, n as int));
            assert(output@ + rle_encode(data@.subrange(pos + run, n as int))
                =~= before + rle_encode(sub));
            pos = pos + run;
        } else {
            output.push(data[pos]);
            assert(sub.drop_first() =~= data@.subrange(pos + 1, n as int));
            assert(output@ + rle_encode(data@.subrange(pos + 1, n as int)) =~= before + rle_encode(sub));
            pos += 1;
        }
    }
    assert(rle_encode(data@.subrange(n as int, n as int)) =~= Seq::<u8>::empty());
    assert(output@ + Seq::<u8>::empty() =~= output@);
    output
}

/// Byte `i` of the half chunk of section `section_y` taken from a column array of
/// `full_size` meaningful bytes: the first 4096 bytes are the section's 16x16x16 values
/// in y-z-x order, read from the column layout x-z-y; the rest stay 0.
pub open spec fn half_chunk_byte(full: Seq<u8>, section_y: int, full_size: int, i: int) -> u8 {
    if i < 4096 {
        let x = i % 16;
        let z = (i / 16) % 16;
        let y = i / 256;
        let src_y = section_y * 16 + y;
        let src_idx = (x * 16 + z) * 256 + src_y;
        if src_y < 128 && src_idx < full_size { full[src_idx] } else { 0 }
    } else {
        0
    }
}

fn extract_half_chunk(full: &[u8], section_y: usize, full_size: usize) -> (r: Vec<u8>)
    requires
        full_size <= full@.len(),
        section_y * 16 + 16 <= usize::MAX,
    ensures
        r@.len() == 16384,
        forall|i: int| 0 <= i < 16384 ==> #[trigger] r@[i] == half_chunk_byte(full@, section_y as int, full_size as int, i),
{
    let section_size: usize = 16384;
    let mut result: Vec<u8> = vec![0u8; section_size];
    let base_y = section_y * 16;
    let mut x: usize = 0;
    while x < 16
        invariant
            x <= 16,
            result@.len() == 16384,
            section_size == 16384,
            base_y == section_y * 16,
            full_size <= full@.len(),
            section_y * 16 + 16 <= usize::MAX,
            forall|i: int| 0 <= i < 16384 ==> #[trigger] result@[i] == if i < 4096 && i % 16 < x {
                half_chunk_byte(full@, section_y as int, full_size as int, i)
            } else {
                0
            },
        decreases 16 - x,
    {
        let mut z: usize = 0;
        while z < 16
            invariant
                x < 16,
                z <= 16,
                result@.len() == 16384,
                section_size == 16384,
                base_y == section_y * 16,
                full_size <= full@.len(),
                section_y * 16 + 16 <= usize::MAX,
                forall|i: int| 0 <= i < 16384 ==> #[trigger] result@[i] == if i < 4096 && (i % 16 < x || (i % 16 == x && (i / 16) % 16 < z)) {
                    half_chunk_byte(full@, section_y as int, full_size as int, i)
                } else {
                    0
                },
            decreases 16 - z,
        {
            let mut y: usize = 0;
            while y < 16
                invariant
                    x < 16,
                    z < 16,
                    y <= 16,
                    result@.len() == 16384,
                    section_size == 16384,
                    base_y == section_y * 16,
                    full_size <= full@.len(),
                    section_y * 16 + 16 <= usize::MAX,
                    forall|i: int| 0 <= i < 16384 ==> #[trigger] result@[i] == if i < 4096 && (i % 16 < x
                        || (i % 16 == x && (i / 16) % 16 < z) || (i % 16 == x && (i / 16) % 16 == z && i / 256 < y)) {
                        half_chunk_byte(full@, section_y as int, full_size as int, i)
                    } else {
                        0
                    },
                decreases 16 - y,
            {
                let src_y = base_y + y;
                let dst_idx = (y * 16 + z) * 16 + x;
                proof {
                    assert(dst_idx % 16 == x && (dst_idx / 16) % 16 == z && dst_idx / 256 == y && dst_idx < 4096) by (nonlinear_arith)
                        requires
                            dst_idx == (y * 16 + z) * 16 + x,
                            x < 16,
                            z < 16,
                            y < 16;
                }
                if src_y < 128 {
                    let src_idx = ((x * 16) + z) * 256 + src_y;
                    if src_idx < full_size {
                        if dst_idx < section_size {
                            result.set(dst_idx, full[src_idx]);
                        }
                    }
                }
                proof {
                    assert forall|i: int| #![trigger result@[i]] 0 <= i < 4096 && i % 16 == x && (i / 16) % 16 == z && i / 256 == y
                        implies i == dst_idx by {
                        assert(i == (y * 16 + z) * 16 + x) by (nonlinear_arith)
                            requires
                                0 <= i < 4096,
                                i % 16 == x,
                                (i / 16) % 16 == z,
                                i / 256 == y;
                    }
                }
                y += 1;
            }
            z += 1;
        }
        x += 1;
    }
    result
}

/// Block id `i` of a half chunk, or 0 past the end of the block array.
pub open spec fn block_at(blocks: Seq<u8>, i: int) -> u8 {
    if 0 <= i < blocks.len() { blocks[i] } else { 0 }
}

/// Data nibble `i` of a half chunk, or 0 past the end of the block array or of the
/// data array.
pub open spec fn data_nibble(blocks: Seq<u8>, data: Seq<u8>, i: int) -> u8 {
    if 0 <= i < blocks.len() && i < data.len() { nibble(data, i) } else { 0 }
}

/// How many blocks of group `g` (16 consecutive blocks) the block array holds.
pub open spec fn group_len(blocks: Seq<u8>, g: int) -> int {
    let rest = blocks.len() - 16 * g;
    if rest < 0 { 0 } else if rest > 16 { 16 } else { rest }
}

/// The storage encoding of group `g` of a half chunk: 0 when all ids and data are 0,
/// 1 when the ids fit 4 bits and there is no data, 2 when there is no data, 3
/// otherwise.
pub open spec fn group_encoding(blocks: Seq<u8>, data: Seq<u8>, g: int) -> u16 {
    let no_data = forall|j: int| 0 <= j < 16 ==> #[trigger] data_nibble(blocks, data, 16 * g + j) == 0;
    if (forall|j: int| 0 <= j < 16 ==> #[trigger] block_at(blocks, 16 * g + j) == 0) && no_data {
        0
    } else if (forall|j: int| 0 <= j < 16 ==> #[trigger] block_at(blocks, 16 * g + j) <= 15) && no_data {
        1
    } else if no_data {
        2
    } else {
        3
    }
}

/// The payload bytes of group `g`, over the blocks of it that the array holds: nothing
/// (encoding 0); the ids packed two to a byte, the even one high (encoding 1); the ids
/// (encoding 2); or each id followed by its data (encoding 3).
pub open spec fn group_piece(blocks: Seq<u8>, data: Seq<u8>, g: int) -> Seq<u8> {
    let k = group_encoding(blocks, data, g);
    let n = group_len(blocks, g);
    if k == 0 {
        Seq::empty()
    } else if k == 1 {
        Seq::new(((n + 1) / 2) as nat, |i: int| (block_at(blocks, 16 * g + 2 * i) << 4u8) | (block_at(blocks, 16 * g + 2 * i + 1) & 0x0Fu8))
    } else if k == 2 {
        blocks.subrange(16 * g, 16 * g + n)
    } else {
        Seq::new((2 * n) as nat, |i: int| if i % 2 == 0 { block_at(blocks, 16 * g + i / 2) } else { data_nibble(blocks, data, 16 * g + i / 2) })
    }
}

/// The payloads of groups `0..n`, one after another.
pub open spec fn payload_upto(blocks: Seq<u8>, data: Seq<u8>, n: int) -> Seq<u8>
    decreases n,
{
    if n <= 0 { Seq::empty() } else { payload_upto(blocks, data, n - 1) + group_piece(blocks, data, n - 1) }
}

/// The index-table entry of group `g`: its encoding in the top 3 bits and the offset of
/// its payload (cut to 16 bits) below, or 0 for an empty group.
pub open spec fn group_entry(blocks: Seq<u8>, data: Seq<u8>, g: int) -> u16 {
    let k = group_encoding(blocks, data, g);
    if k == 0 { 0 } else { (k << 13u16) | (payload_upto(blocks, data, g).len() as u16) }
}

/// The big-endian index-table entries of groups `0..n`.
pub open spec fn index_bytes(blocks: Seq<u8>, data: Seq<u8>, n: int) -> Seq<u8>
    decreases n,
{
    if n <= 0 { Seq::empty() } else { index_bytes(blocks, data, n - 1) + be16_bytes(group_entry(blocks, data, n - 1)) }
}

/// The compressed tile storage of a half chunk: 1024 index entries, then the payloads.
pub open spec fn compressed_storage(blocks: Seq<u8>, data: Seq<u8>) -> Seq<u8> {
    index_bytes(blocks, data, 1024) + payload_upto(blocks, data, 1024)
}

fn build_single_compressed_storage(blocks: &[u8], data: &[u8], _sky_light: &[u8]) -> (r: Vec<u8>)
    ensures
        r@ == compressed_storage(blocks@, data@),
{
    let num_indices: usize = 1024;
    let mut index_table: Vec<u16> = vec![0u16; num_indices];
    let mut payload: Vec<u8> = Vec::new();
    let mut idx: usize = 0;
    while idx < num_indices
        invariant
            num_indices == 1024,
            idx <= 1024,
            index_table@.len() == 1024,
            payload@ == payload_upto(blocks@, data@, idx as int),
            payload@.len() <= 32 * idx,
            forall|g: int| 0 <= g < idx ==> #[trigger] index_table@[g] == group_entry(blocks@, data@, g),
        decreases 1024 - idx,
    {
        let base = idx * 16;
        let avail: usize = if blocks.len() <= base {
            0
        } else if blocks.len() - base >= 16 {
            16
        } else {
            blocks.len() - base
        };
        assert(avail == group_len(blocks@, idx as int));
        let mut uses_high_data = false;
        let mut max_id: u8 = 0;
        let mut max_data: u8 = 0;
        let mut j: usize = 0;
        while j < 16
            invariant
                j <= 16,
                base == idx * 16,
                idx < 1024,
                (max_id == 0) == (forall|k: int| 0 <= k < j ==> #[trigger] block_at(blocks@, base + k) == 0),
                (max_id <= 15) == (forall|k: int| 0 <= k < j ==> #[trigger] block_at(blocks@, base + k) <= 15),
                (max_data == 0) == (forall|k: int| 0 <= k < j ==> #[trigger] data_nibble(blocks@, data@, base + k) == 0),
                uses_high_data == (max_data != 0),
            decreases 16 - j,
        {
            let block_pos = base + j;
            if block_pos < blocks.len() {
                let b = blocks[block_pos];
                let d = if block_pos < data.len() { get_nibble(data, block_pos) } else { 0 };
                assert(b == block_at(blocks@, base + j));
                assert(d == data_nibble(blocks@, data@, base + j));
                if b > max_id {
                    max_id = b;
                }
                if d > max_data {
                    max_data = d;
                }
                if d > 0 {
                    uses_high_data = true;
                }
            } else {
                assert(block_at(blocks@, base + j) == 0);
                assert(data_nibble(blocks@, data@, base + j) == 0);
            }
            j += 1;
        }
        let ghost before = payload@;
        assert(forall|k: int| 0 <= k < 16 ==> #[trigger] block_at(blocks@, base + k) == block_at(blocks@, 16 * idx + k));
        if max_id == 0 && max_data == 0 {
            index_table.set(idx, 0);
            assert(group_encoding(blocks@, data@, idx as int) == 0);
            assert(payload@ =~= payload_upto(blocks@, data@, idx + 1));
        } else if max_id <= 15 && !uses_high_data {
            index_table.set(idx, (1u16 << 13u16) | (payload.len() as u16));
            assert(group_encoding(blocks@, data@, idx as int) == 1);
            let pairs: usize = (avail + 1) / 2;
            let mut k: usize = 0;
            while k < pairs
                invariant
                    k <= pairs,
                    pairs == (avail + 1) / 2,
                    avail <= 16,
                    avail == group_len(blocks@, idx as int),
                    base == idx * 16,
                    idx < 1024,
                    payload@ == before + Seq::new(k as nat, |i: int| (block_at(blocks@, 16 * idx + 2 * i) << 4u8) | (block_at(blocks@, 16 * idx + 2 * i + 1) & 0x0Fu8)),
                decreases pairs - k,
            {
                let hi = blocks[base + 2 * k];
                let lo = if base + 2 * k + 1 < blocks.len() { blocks[base + 2 * k + 1] } else { 0 };
                assert(hi == block_at(blocks@, 16 * idx + 2 * k));
                assert(lo == block_at(blocks@, 16 * idx + 2 * k + 1));
                payload.push((hi << 4u8) | (lo & 0x0F));
                assert(payload@ =~= before + Seq::new((k + 1) as nat, |i: int| (block_at(blocks@, 16 * idx + 2 * i) << 4u8) | (block_at(blocks@, 16 * idx + 2 * i + 1) & 0x0Fu8)));
                k += 1;
            }
            assert(payload@ =~= payload_upto(blocks@, data@, idx + 1));
        } else if max_data == 0 {
            index_table.set(idx, (2u16 << 13u16) | (payload.len() as u16));
            assert(group_encoding(blocks@, data@, idx as int) == 2);
            push_bytes(&mut payload, slice_from(blocks, base, base + avail));
            assert(payload@ =~= payload_upto(blocks@, data@, idx + 1));
        } else {
            index_table.set(idx, (3u16 << 13u16) | (payload.len() as u16));
            assert(group_encoding(blocks@, data@, idx as int) == 3);
            let mut k: usize = 0;
            while k < avail
                invariant
                    k <= avail,
                    avail <= 16,
                    avail == group_len(blocks@, idx as int),
                    base == idx * 16,
                    idx < 1024,
                    payload@ == before + Seq::new(2 * k as nat, |i: int| if i % 2 == 0 { block_at(blocks@, 16 * idx + i / 2) } else { data_nibble(blocks@, data@, 16 * idx + i / 2) }),
                decreases avail - k,
            {
                let block_pos = base + k;
                payload.push(blocks[block_pos]);
                if block_pos < data.len() {
                    payload.push(get_nibble(data, block_pos));
                } else {
                    payload.push(0);
                }
                assert(payload@ =~= before + Seq::new(2 * (k + 1) as nat, |i: int| if i % 2 == 0 { block_at(blocks@, 16 * idx + i / 2) } else { data_nibble(blocks@, data@, 16 * idx + i / 2) }));
                k += 1;
            }
            assert(payload@ =~= payload_upto(blocks@, data@, idx + 1));
        }
        idx += 1;
    }
    let mut storage: Vec<u8> = Vec::new();
    let mut g: usize = 0;
    while g < num_indices
        invariant
            num_indices == 1024,
            g <= 1024,
            index_table@.len() == 1024,
            forall|h: int| 0 <= h < 1024 ==> #[trigger] index_table@[h] == group_entry(blocks@, data@, h),
            storage@ == index_bytes(blocks@, data@, g as int),
        decreases 1024 - g,
    {
        push_be_u16(&mut storage, index_table[g]);
        g += 1;
    }
    push_bytes(&mut storage, payload.as_slice());
    storage
}

/// The half chunk of section `y` of a column array of `full_size` meaningful bytes.
pub open spec fn half_chunk(full: Seq<u8>, y: int, full_size: int) -> Seq<u8> {
    Seq::new(16384, |i: int| half_chunk_byte(full, y, full_size, i))
}

/// Section `y` of the compressed tile storage of a column: its `Y` and the storage of
/// its half chunk of blocks and data.
pub open spec fn storage_section(blocks: Seq<u8>, data: Seq<u8>, y: int) -> NbtValue {
    NbtValue::Compound(seq![
        ("Y"@, NbtValue::Byte(y as i8)),
        ("Blocks"@, NbtValue::ByteArray(compressed_storage(half_chunk(blocks, y, 65536), half_chunk(data, y, 32768)))),
    ])
}

fn build_compressed_tile_storage_sections(blocks: &[u8], data: &[u8], sky_light: &[u8]) -> (r: Vec<NbtTag>)
    requires
        blocks@.len() == 65536,
        data@.len() == 32768,
        sky_light@.len() == 32768,
    ensures
        tags_view(r@) == Seq::new(8, |y: int| storage_section(blocks@, data@, y)),
{
    let mut sections: Vec<NbtTag> = Vec::new();
    let mut section_y: usize = 0;
    while section_y < 8
        invariant
            section_y <= 8,
            blocks@.len() == 65536,
            data@.len() == 32768,
            sky_light@.len() == 32768,
            tags_view(sections@) == Seq::new(section_y as nat, |y: int| storage_section(blocks@, data@, y)),
        decreases 8 - section_y,
    {
        let half_chunk_blocks = extract_half_chunk(blocks, section_y, 65536);
        let half_chunk_data = extract_half_chunk(data, section_y, 32768);
        let half_chunk_sky = extract_half_chunk(sky_light, section_y, 32768);
        assert(half_chunk_blocks@ =~= half_chunk(blocks@, section_y as int, 65536));
        assert(half_chunk_data@ =~= half_chunk(data@, section_y as int, 32768));
        let storage = build_single_compressed_storage(half_chunk_blocks.as_slice(), half_chunk_data.as_slice(), half_chunk_sky.as_slice());
        let mut section: Vec<(String, NbtTag)> = Vec::new();
        assert(items_view(section@) =~= Seq::<(Seq<char>, NbtValue)>::empty());
        push_entry(&mut section, "Y", NbtTag::Byte(section_y as i8));
        push_entry(&mut section, "Blocks", NbtTag::ByteArray(storage));
        let ghost before = sections@;
        sections.push(NbtTag::Compound(section));
        proof {
            assert(sections@.drop_last() =~= before);
            assert(items_view(section@) =~= seq![
                ("Y"@, NbtValue::Byte(section_y as i8)),
                ("Blocks"@, NbtValue::ByteArray(compressed_storage(half_chunk(blocks@, section_y as int, 65536), half_chunk(data@, section_y as int, 32768)))),
            ]);
            assert(section_y as i8 == (section_y as int) as i8);
            assert(tag_view(sections@.last()) == storage_section(blocks@, data@, section_y as int));
            assert(tags_view(sections@) == tags_view(before).push(tag_view(sections@.last())));
            assert(tags_view(sections@) =~= Seq::new((section_y + 1) as nat, |y: int| storage_section(blocks@, data@, y)));
        }
        section_y += 1;
    }
    sections
}

/// The level compound of compressed tile storage.
pub open spec fn storage_level(x_pos: i32, z_pos: i32, blocks: Seq<u8>, data: Seq<u8>, height_map: Seq<u8>, biomes: Seq<u8>, last_update: i64) -> NbtValue {
    NbtValue::Compound(seq![
        ("xPos"@, NbtValue::Int(x_pos)),
        ("zPos"@, NbtValue::Int(z_pos)),
        ("LastUpdate"@, NbtValue::Long(last_update)),
        ("Sections"@, NbtValue::List(Seq::new(8, |y: int| storage_section(blocks, data, y)), 10)),
        ("HeightMap"@, NbtValue::ByteArray(height_map)),
        ("Biomes"@, NbtValue::ByteArray(biomes)),
    ])
}

/// Encodes a chunk column as a zlib-compressed little-endian NBT compound holding its
/// position, update time, compressed tile storage sections, height map and biomes.
/// Fails with an I/O error when the zlib encoder does.
pub fn encode_compressed_storage(
    x_pos: i32,
    z_pos: i32,
    blocks: &[u8],
    data: &[u8],
    sky_light: &[u8],
    _block_light: &[u8],
    height_map: &[u8],
    biomes: &[u8],
    last_update: i64,
) -> (r: Result<Vec<u8>, ConversionError>)
    requires
        blocks@.len() == 65536,
        data@.len() == 32768,
        sky_light@.len() == 32768,
        _block_light@.len() == 32768,
        height_map@.len() == 256,
        biomes@.len() == 256,
    ensures
        match zlib_encoded(seq![10u8] + ser_payload_le(storage_level(x_pos, z_pos, blocks@, data@, height_map@, biomes@, last_update))) {
            Some(z) => r matches Ok(v) && v@ == z,
            None => r matches Err(ConversionError::Io(_)),
        },
{
    let sections = build_compressed_tile_storage_sections(blocks, data, sky_light);
    let mut level: Vec<(String, NbtTag)> = Vec::new();
    assert(items_view(level@) =~= Seq::<(Seq<char>, NbtValue)>::empty());
    push_entry(&mut level, "xPos", NbtTag::Int(x_pos));
    push_entry(&mut level, "zPos", NbtTag::Int(z_pos));
    push_entry(&mut level, "LastUpdate", NbtTag::Long(last_update));
    push_entry(&mut level, "Sections", NbtTag::List(sections, 10));
    push_entry(&mut level, "HeightMap", NbtTag::ByteArray(slice_to_vec(height_map)));
    push_entry(&mut level, "Biomes", NbtTag::ByteArray(slice_to_vec(biomes)));
    let root = NbtTag::Compound(level);
    proof {
        assert(items_view(Seq::<(String, NbtTag)>::empty()) =~= Seq::<(Seq<char>, NbtValue)>::empty());
        let lv = storage_level(x_pos, z_pos, blocks@, data@, height_map@, biomes@, last_update);
        assert(items_view(level@) =~= lv->Compound_0);
    }
    assert(root@ == storage_level(x_pos, z_pos, blocks@, data@, height_map@, biomes@, last_update));
    let nbt_data = match write_nbt_le(&root) {
        Ok(b) => b,
        Err(e) => return Err(e),
    };
    match zlib_encode(nbt_data.as_slice()) {
        Ok(z) => Ok(z),
        Err(e) => Err(ConversionError::Io(e)),
    }
}

/// The level compound of a legacy chunk.
pub open spec fn legacy_level(
    x_pos: i32,
    z_pos: i32,
    blocks: Seq<u8>,
    data: Seq<u8>,
    sky_light: Seq<u8>,
    block_light: Seq<u8>,
    height_map: Seq<u8>,
    biomes: Seq<u8>,
    last_update: i64,
    inhabited_time: i64,
    entities: Seq<NbtValue>,
    tile_entities: Seq<NbtValue>,
    tile_ticks: Option<Seq<NbtValue>>,
) -> NbtValue {
    let base = seq![
        ("xPos"@, NbtValue::Int(x_pos)),
        ("zPos"@, NbtValue::Int(z_pos)),
        ("LastUpdate"@, NbtValue::Long(last_update)),
        ("InhabitedTime"@, NbtValue::Long(inhabited_time)),
        ("Blocks"@, NbtValue::ByteArray(blocks)),
        ("Data"@, NbtValue::ByteArray(data)),
        ("SkyLight"@, NbtValue::ByteArray(sky_light)),
        ("BlockLight"@, NbtValue::ByteArray(block_light)),
        ("HeightMap"@, NbtValue::ByteArray(height_map)),
        ("TerrainPopulatedFlags"@, NbtValue::Short(0)),
        ("Biomes"@, NbtValue::ByteArray(biomes)),
        ("Entities"@, NbtValue::List(entities, 10)),
        ("TileEntities"@, NbtValue::List(tile_entities, 10)),
    ];
    NbtValue::Compound(match tile_ticks {
        Some(t) => base.push(("TileTicks"@, NbtValue::List(t, 10))),
        None => base,
    })
}

/// The level compound of a legacy chunk binds each field to the argument given for it:
/// `xPos` to `x_pos` and `zPos` to `z_pos`, the two times, the block, data, light,
/// height-map and biome arrays, and the entity and tile-entity lists; the tile ticks
/// are bound only when given, and `TerrainPopulatedFlags` is 0.
pub proof fn lemma_legacy_level_fields(
    x_pos: i32,
    z_pos: i32,
    blocks: Seq<u8>,
    data: Seq<u8>,
    sky_light: Seq<u8>,
    block_light: Seq<u8>,
    height_map: Seq<u8>,
    biomes: Seq<u8>,
    last_update: i64,
    inhabited_time: i64,
    entities: Seq<NbtValue>,
    tile_entities: Seq<NbtValue>,
    tile_ticks: Option<Seq<NbtValue>>,
)
    ensures
        legacy_level(x_pos, z_pos, blocks, data, sky_light, block_light, height_map, biomes, last_update, inhabited_time,
            entities, tile_entities, tile_ticks) is Compound,
        ({
            let c = legacy_level(x_pos, z_pos, blocks, data, sky_light, block_light, height_map, biomes, last_update,
                inhabited_time, entities, tile_entities, tile_ticks)->Compound_0;
            &&& assoc_get(c, "xPos"@) == Some(NbtValue::Int(x_pos))
            &&& assoc_get(c, "zPos"@) == Some(NbtValue::Int(z_pos))
            &&& assoc_get(c, "LastUpdate"@) == Some(NbtValue::Long(last_update))
            &&& assoc_get(c, "InhabitedTime"@) == Some(NbtValue::Long(inhabited_time))
            &&& assoc_get(c, "Blocks"@) == Some(NbtValue::ByteArray(blocks))
            &&& assoc_get(c, "Data"@) == Some(NbtValue::ByteArray(data))
            &&& assoc_get(c, "SkyLight"@) == Some(NbtValue::ByteArray(sky_light))
            &&& assoc_get(c, "BlockLight"@) == Some(NbtValue::ByteArray(block_light))
            &&& assoc_get(c, "HeightMap"@) == Some(NbtValue::ByteArray(height_map))
            &&& assoc_get(c, "TerrainPopulatedFlags"@) == Some(NbtValue::Short(0))
            &&& assoc_get(c, "Biomes"@) == Some(NbtValue::ByteArray(biomes))
            &&& assoc_get(c, "Entities"@) == Some(NbtValue::List(entities, 10))
            &&& assoc_get(c, "TileEntities"@) == Some(NbtValue::List(tile_entities, 10))
            &&& assoc_get(c, "TileTicks"@) == match tile_ticks {
                Some(t) => Some(NbtValue::List(t, 10)),
                None => None,
            }
        }),
{
    let c = legacy_level(x_pos, z_pos, blocks, data, sky_light, block_light, height_map, biomes, last_update,
        inhabited_time, entities, tile_entities, tile_ticks)->Compound_0;
    reveal_strlit("xPos");
    reveal_strlit("zPos");
    reveal_strlit("LastUpdate");
    reveal_strlit("InhabitedTime");
    reveal_strlit("Blocks");
    reveal_strlit("Data");
    reveal_strlit("SkyLight");
    reveal_strlit("BlockLight");
    reveal_strlit("HeightMap");
    reveal_strlit("TerrainPopulatedFlags");
    reveal_strlit("Biomes");
    reveal_strlit("Entities");
    reveal_strlit("TileEntities");
    assert(c[0].0 == "xPos"@);
    assert(c[1].0 == "zPos"@);
    assert(c[2].0 == "LastUpdate"@);
    assert(c[3].0 == "InhabitedTime"@);
    assert(c[4].0 == "Blocks"@);
    assert(c[5].0 == "Data"@);
    assert(c[6].0 == "SkyLight"@);
    assert(c[7].0 == "BlockLight"@);
    assert(c[8].0 == "HeightMap"@);
    assert(c[9].0 == "TerrainPopulatedFlags"@);
    assert(c[10].0 == "Biomes"@);
    assert(c[11].0 == "Entities"@);
    assert(c[12].0 == "TileEntities"@);
    lemma_assoc_get_at(c, "xPos"@, 0);
    assert("xPos"@[0] != "zPos"@[0]);
    lemma_assoc_get_at(c, "zPos"@, 1);
    assert("xPos"@.len() != "LastUpdate"@.len());
    assert("zPos"@.len() != "LastUpdate"@.len());
    lemma_assoc_get_at(c, "LastUpdate"@, 2);
    assert("xPos"@.len() != "InhabitedTime"@.len());
    assert("zPos"@.len() != "InhabitedTime"@.len());
    assert("LastUpdate"@.len() != "InhabitedTime"@.len());
    lemma_assoc_get_at(c, "InhabitedTime"@, 3);
    assert("xPos"@.len() != "Blocks"@.len());
    assert("zPos"@.len() != "Blocks"@.len());
    assert("LastUpdate"@.len() != "Blocks"@.len());
    assert("InhabitedTime"@.len() != "Blocks"@.len());
    lemma_assoc_get_at(c, "Blocks"@, 4);
    assert("xPos"@[0] != "Data"@[0]);
    assert("zPos"@[0] != "Data"@[0]);
    assert("LastUpdate"@.len() != "Data"@.len());
    assert("InhabitedTime"@.len() != "Data"@.len());
    assert("Blocks"@.len() != "Data"@.len());
    lemma_assoc_get_at(c, "Data"@, 5);
    assert("xPos"@.len() != "SkyLight"@.len());
    assert("zPos"@.len() != "SkyLight"@.len());
    assert("LastUpdate"@.len() != "SkyLight"@.len());
    assert("InhabitedTime"@.len() != "SkyLight"@.len());
    assert("Blocks"@.len() != "SkyLight"@.len());
    assert("Data"@.len() != "SkyLight"@.len());
    lemma_assoc_get_at(c, "SkyLight"@, 6);
    assert("xPos"@.len() != "BlockLight"@.len());
    assert("zPos"@.len() != "BlockLight"@.len());
    assert("LastUpdate"@[0] != "BlockLight"@[0]);
    assert("InhabitedTime"@.len() != "BlockLight"@.len());
    assert("Blocks"@.len() != "BlockLight"@.len());
    assert("Data"@.len() != "BlockLight"@.len());
    assert("SkyLight"@.len() != "BlockLight"@.len());
    lemma_assoc_get_at(c, "BlockLight"@, 7);
    assert("xPos"@.len() != "HeightMap"@.len());
    assert("zPos"@.len() != "HeightMap"@.len());
    assert("LastUpdate"@.len() != "HeightMap"@.len());
    assert("InhabitedTime"@.len() != "HeightMap"@.len());
    assert("Blocks"@.len() != "HeightMap"@.len());
    assert("Data"@.len() != "HeightMap"@.len());
    assert("SkyLight"@.len() != "HeightMap"@.len());
    assert("BlockLight"@.len() != "HeightMap"@.len());
    lemma_assoc_get_at(c, "HeightMap"@, 8);
    assert("xPos"@.len() != "TerrainPopulatedFlags"@.len());
    assert("zPos"@.len() != "TerrainPopulatedFlags"@.len());
    assert("LastUpdate"@.len() != "TerrainPopulatedFlags"@.len());
    assert("InhabitedTime"@.len() != "TerrainPopulatedFlags"@.len());
    assert("Blocks"@.len() != "TerrainPopulatedFlags"@.len());
    assert("Data"@.len() != "TerrainPopulatedFlags"@.len());
    assert("SkyLight"@.len() != "TerrainPopulatedFlags"@.len());
    assert("BlockLight"@.len() != "TerrainPopulatedFlags"@.len());
    assert("HeightMap"@.len() != "TerrainPopulatedFlags"@.len());
    lemma_assoc_get_at(c, "TerrainPopulatedFlags"@, 9);
    assert("xPos"@.len() != "Biomes"@.len());
    assert("zPos"@.len() != "Biomes"@.len());
    assert("LastUpdate"@.len() != "Biomes"@.len());
    assert("InhabitedTime"@.len() != "Biomes"@.len());
    assert("Blocks"@[1] != "Biomes"@[1]);
    assert("Data"@.len() != "Biomes"@.len());
    assert("SkyLight"@.len() != "Biomes"@.len());
    assert("BlockLight"@.len() != "Biomes"@.len());
    assert("HeightMap"@.len() != "Biomes"@.len());
    assert("TerrainPopulatedFlags"@.len() != "Biomes"@.len());
    lemma_assoc_get_at(c, "Biomes"@, 10);
    assert("xPos"@.len() != "Entities"@.len());
    assert("zPos"@.len() != "Entities"@.len());
    assert("LastUpdate"@.len() != "Entities"@.len());
    assert("InhabitedTime"@.len() != "Entities"@.len());
    assert("Blocks"@.len() != "Entities"@.len());
    assert("Data"@.len() != "Entities"@.len());
    assert("SkyLight"@[0] != "Entities"@[0]);
    assert("BlockLight"@.len() != "Entities"@.len());
    assert("HeightMap"@.len() != "Entities"@.len());
    assert("TerrainPopulatedFlags"@.len() != "Entities"@.len());
    assert("Biomes"@.len() != "Entities"@.len());
    lemma_assoc_get_at(c, "Entities"@, 11);
    assert("xPos"@.len() != "TileEntities"@.len());
    assert("zPos"@.len() != "TileEntities"@.len());
    assert("LastUpdate"@.len() != "TileEntities"@.len());
    assert("InhabitedTime"@.len() != "TileEntities"@.len());
    assert("Blocks"@.len() != "TileEntities"@.len());
    assert("Data"@.len() != "TileEntities"@.len());
    assert("SkyLight"@.len() != "TileEntities"@.len());
    assert("BlockLight"@.len() != "TileEntities"@.len());
    assert("HeightMap"@.len() != "TileEntities"@.len());
    assert("TerrainPopulatedFlags"@.len() != "TileEntities"@.len());
    assert("Biomes"@.len() != "TileEntities"@.len());
    assert("Entities"@.len() != "TileEntities"@.len());
    lemma_assoc_get_at(c, "TileEntities"@, 12);
    reveal_strlit("TileTicks");
    assert("xPos"@.len() != "TileTicks"@.len());
    assert("zPos"@.len() != "TileTicks"@.len());
    assert("LastUpdate"@.len() != "TileTicks"@.len());
    assert("InhabitedTime"@.len() != "TileTicks"@.len());
    assert("Blocks"@.len() != "TileTicks"@.len());
    assert("Data"@.len() != "TileTicks"@.len());
    assert("SkyLight"@.len() != "TileTicks"@.len());
    assert("BlockLight"@.len() != "TileTicks"@.len());
    assert("HeightMap"@[0] != "TileTicks"@[0]);
    assert("TerrainPopulatedFlags"@.len() != "TileTicks"@.len());
    assert("Biomes"@.len() != "TileTicks"@.len());
    assert("Entities"@.len() != "TileTicks"@.len());
    assert("TileEntities"@.len() != "TileTicks"@.len());
    if tile_ticks is Some {
        assert(c[13].0 == "TileTicks"@);
        lemma_assoc_get_at(c, "TileTicks"@, 13);
    } else {
        assert(c.len() == 13);
        lemma_assoc_get_absent(c, "TileTicks"@);
    }
}

/// Encodes a legacy chunk: a little-endian NBT compound of its position, times, block
/// and light arrays, height map, biomes, entities, tile entities and (when given) tile
/// ticks, run-length coded, then zlib-compressed. Fails with an I/O error when the zlib
/// encoder does.
pub fn encode_legacy_nbt(
    x_pos: i32,
    z_pos: i32,
    blocks: &[u8],
    data: &[u8],
    sky_light: &[u8],
    _block_light: &[u8],
    height_map: &[u8],
    biomes: &[u8],
    last_update: i64,
    inhabited_time: i64,
    entities: Vec<NbtTag>,
    tile_entities: Vec<NbtTag>,
    tile_ticks: Option<Vec<NbtTag>>,
) -> (r: Result<Vec<u8>, ConversionError>)
    requires
        blocks@.len() == 65536,
        data@.len() == 32768,
        sky_light@.len() == 32768,
        _block_light@.len() == 32768,
        height_map@.len() == 256,
        biomes@.len() == 256,
    ensures
        match zlib_encoded(rle_encode(seq![10u8] + ser_payload_le(legacy_level(x_pos, z_pos, blocks@, data@, sky_light@,
            _block_light@, height_map@, biomes@, last_update, inhabited_time, tags_view(entities@), tags_view(tile_entities@),
            match tile_ticks { Some(t) => Some(tags_view(t@)), None => None })))) {
            Some(z) => r matches Ok(v) && v@ == z,
            None => r matches Err(ConversionError::Io(_)),
        },
{
    let ghost ticks_view = if tile_ticks is Some { Some(tags_view((tile_ticks->0)@)) } else { None::<Seq<NbtValue>> };
    let ghost level_value = legacy_level(x_pos, z_pos, blocks@, data@, sky_light@, _block_light@, height_map@, biomes@,
        last_update, inhabited_time, tags_view(entities@), tags_view(tile_entities@), ticks_view);
    let mut level_map: Vec<(String, NbtTag)> = Vec::new();
    assert(items_view(level_map@) =~= Seq::<(Seq<char>, NbtValue)>::empty());
    push_entry(&mut level_map, "xPos", NbtTag::Int(x_pos));
    push_entry(&mut level_map, "zPos", NbtTag::Int(z_pos));
    push_entry(&mut level_map, "LastUpdate", NbtTag::Long(last_update));
    push_entry(&mut level_map, "InhabitedTime", NbtTag::Long(inhabited_time));
    push_entry(&mut level_map, "Blocks", NbtTag::ByteArray(slice_to_vec(blocks)));
    push_entry(&mut level_map, "Data", NbtTag::ByteArray(slice_to_vec(data)));
    push_entry(&mut level_map, "SkyLight", NbtTag::ByteArray(slice_to_vec(sky_light)));
    push_entry(&mut level_map, "BlockLight", NbtTag::ByteArray(slice_to_vec(_block_light)));
    push_entry(&mut level_map, "HeightMap", NbtTag::ByteArray(slice_to_vec(height_map)));
    push_entry(&mut level_map, "TerrainPopulatedFlags", NbtTag::Short(0));
    push_entry(&mut level_map, "Biomes", NbtTag::ByteArray(slice_to_vec(biomes)));
    push_entry(&mut level_map, "Entities", NbtTag::List(entities, 10));
    push_entry(&mut level_map, "TileEntities", NbtTag::List(tile_entities, 10));
    if let Some(ticks) = tile_ticks {
        push_entry(&mut level_map, "TileTicks", NbtTag::List(ticks, 10));
    }
    let root = NbtTag::Compound(level_map);
    proof {
        assert(items_view(Seq::<(String, NbtTag)>::empty()) =~= Seq::<(Seq<char>, NbtValue)>::empty());
        assert(items_view(level_map@) =~= level_value->Compound_0);
    }
    assert(root@ == level_value);
    let nbt_data = match write_nbt_le(&root) {
        Ok(b) => b,
        Err(e) => return Err(e),
    };
    let rle_compressed = rle_compress(nbt_data.as_slice());
    match zlib_encode(rle_compressed.as_slice()) {
        Ok(z) => Ok(z),
        Err(e) => Err(ConversionError::Io(e)),
    }
}

} // verus!
