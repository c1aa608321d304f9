//! Whole-save conversion: chunks of Java region files and of console saves turned
//! into Legacy Console chunk payloads, gathered into region files and a container.
use vstd::prelude::*;
use crate::assoc::assoc_get;
use crate::compress::zlib_encoded;
use crate::level_dat::{int_or, long_or};
use crate::lce_chunk_payload::{encode_legacy_nbt, legacy_level, lemma_legacy_level_fields};
use crate::models::{extends_unique, lemma_extends_trans, strings_view, ChunkConversionContext};
use crate::modern_chunk_writer::{column_block, column_nibble, column_written, effective_shift, flatten_anvil_sections,
    lemma_level_unknowns_extend, level_decoded, level_readable, level_sections_readable, level_unknowns, nibble};
use crate::nbt::{copy_items, items_view, mcr_chunk_decoded, read_mcr_chunk, read_nbt, ser_payload_le, spec_read_nbt, tags_view,
    NbtHelper, NbtTag, NbtValue, Parsed};
use crate::rle::rle_encode;
use crate::lce_region::{chunk_sectors, lemma_places_sorted_put, lower_bound, places, region_tables, sectors_for, sorted_put, LceRegionFile};
use crate::region::{chunks_view, read_java_mcr_region, spec_mcr_chunks};
use crate::modern_chunk_writer::ends_with;
use crate::text::{decimal, push_decimal, str_ends_with, str_eq, string_push_str, to_owned_string};
use crate::error::ConversionError;
use crate::bytes::be32_at;
use crate::archive::{parse_file_listing, spec_file_listing};
use crate::models::{ConversionOptions, ConversionResult};
use crate::stfs::{chunked_decode, cut, savegame_readable, stfs_header_refused, extract_savegame_from_stfs, fresh_lzx_decode, is_stfs_package, savegame_magic, savegame_of,
    stfs_dst_size, stfs_src_size, try_decompress_savegame, try_decompress_stfs_savegame, StfsPackage, CON_MAGIC};
use crate::rle::rle_expand;
use crate::compress::zlib_decoded;
use crate::world_profile::{get_profile, spec_profile};
use crate::save_data_container::{container_bytes, files_view, save_files, write_save_data_ms};

verus! {

/// `n` zero bytes.
pub open spec fn zeros(n: nat) -> Seq<u8> {
    Seq::new(n, |i: int| 0u8)
}

/// `n` bytes of value 1.
pub open spec fn ones(n: nat) -> Seq<u8> {
    Seq::new(n, |i: int| 1u8)
}

/// The level compound of a chunk's root tag: its `Level` compound where it has one,
/// else the root compound itself; an empty compound for a root that is no compound.
pub open spec fn chunk_level(root: NbtValue) -> Seq<(Seq<char>, NbtValue)> {
    match root {
        NbtValue::Compound(m) => match assoc_get(m, "Level"@) {
            Some(NbtValue::Compound(l)) => l,
            _ => m,
        },
        _ => Seq::empty(),
    }
}

/// The level compound of a Java region chunk record, where the record decompresses and
/// its NBT parses.
pub open spec fn record_level(raw: Seq<u8>) -> Option<Seq<(Seq<char>, NbtValue)>> {
    match mcr_chunk_decoded(raw) {
        Some(dec) => match spec_read_nbt(dec) {
            Parsed::Done((_, root), _) => Some(chunk_level(root)),
            _ => None,
        },
        None => None,
    }
}

/// The byte array bound to `key`, cut or zero-padded to `size` bytes; `size` zeros when
/// there is none.
pub open spec fn array_or_zeros(level: Seq<(Seq<char>, NbtValue)>, key: Seq<char>, size: nat) -> Seq<u8> {
    match assoc_get(level, key) {
        Some(NbtValue::ByteArray(b)) => if b.len() >= size {
            b.subrange(0, size as int)
        } else {
            b + zeros((size - b.len()) as nat)
        },
        _ => zeros(size),
    }
}

/// The elements of the list bound to `key`, or none.
pub open spec fn list_or_empty(level: Seq<(Seq<char>, NbtValue)>, key: Seq<char>) -> Seq<NbtValue> {
    match assoc_get(level, key) {
        Some(NbtValue::List(items, _)) => items,
        _ => Seq::empty(),
    }
}

/// The block ids of a column flattened from decoded sections.
pub open spec fn column_blocks(ds: Seq<Seq<(Seq<char>, NbtValue)>>, shift: int) -> Seq<u8> {
    Seq::new(65536, |f: int| column_block(ds, shift, ds.len() as int, f))
}

/// The packed data nibbles of a column flattened from decoded sections (the even
/// index in the low half of each byte).
pub open spec fn column_data(ds: Seq<Seq<(Seq<char>, NbtValue)>>, shift: int) -> Seq<u8> {
    Seq::new(32768, |k: int| column_nibble(ds, shift, ds.len() as int, 2 * k)
        | (column_nibble(ds, shift, ds.len() as int, 2 * k + 1) << 4u8))
}

proof fn lemma_byte_nibbles(b: u8)
    ensures
        b == (b & 0x0F) | (((b >> 4u8) & 0x0F) << 4u8),
{
    assert(b == (b & 0x0F) | (((b >> 4u8) & 0x0F) << 4u8)) by (bit_vector);
}

/// Column arrays written as `flatten_anvil_sections` promises are the flattened
/// column.
proof fn lemma_column_arrays(b: Seq<u8>, d: Seq<u8>, s: Seq<u8>, l: Seq<u8>, ds: Seq<Seq<(Seq<char>, NbtValue)>>, shift: int)
    requires
        column_written(b, d, s, l, ds, shift, ds.len() as int),
    ensures
        b == column_blocks(ds, shift),
        d == column_data(ds, shift),
{
    assert forall|f: int| 0 <= f < 65536 implies b[f] == #[trigger] column_blocks(ds, shift)[f] by {
        assert(b[f] == column_block(ds, shift, ds.len() as int, f));
    }
    assert(b =~= column_blocks(ds, shift));
    assert forall|k: int| 0 <= k < 32768 implies d[k] == #[trigger] column_data(ds, shift)[k] by {
        let lo = nibble(d, 2 * k);
        let hi = nibble(d, 2 * k + 1);
        assert(lo == column_nibble(ds, shift, ds.len() as int, 2 * k));
        assert(hi == column_nibble(ds, shift, ds.len() as int, 2 * k + 1));
        assert((2 * k) % 2 == 0 && (2 * k) / 2 == k);
        assert((2 * k + 1) % 2 == 1 && (2 * k + 1) / 2 == k);
        lemma_byte_nibbles(d[k]);
    }
    assert(d =~= column_data(ds, shift));
}

/// The payload of a legacy chunk with zero light arrays, where zlib compresses it.
pub open spec fn legacy_payload(
    x: i32,
    z: i32,
    blocks: Seq<u8>,
    data: Seq<u8>,
    height_map: Seq<u8>,
    biomes: Seq<u8>,
    last_update: i64,
    inhabited_time: i64,
    entities: Seq<NbtValue>,
    tile_entities: Seq<NbtValue>,
) -> Option<Seq<u8>> {
    zlib_encoded(rle_encode(seq![10u8] + ser_payload_le(legacy_level(x, z, blocks, data, zeros(32768), zeros(32768),
        height_map, biomes, last_update, inhabited_time, entities, tile_entities, None))))
}

/// Whether a chunk's level compound holds sections.
pub open spec fn has_sections(level: Seq<(Seq<char>, NbtValue)>) -> bool {
    assoc_get(level, "Sections"@) is Some
}

/// Whether a chunk's level compound is in the modern (flattened) form.
pub open spec fn modern_content(level: Seq<(Seq<char>, NbtValue)>) -> bool {
    assoc_get(level, "Status"@) is Some || assoc_get(level, "block_states"@) is Some
}

/// The Legacy Console chunk converted from a Java chunk's level compound: its position
/// and payload. Blocks and data come from the flattened sections where it has
/// sections, else from its own arrays; biomes are all 1 for modern content; entities
/// are kept only when preserving dynamic data and the content is not modern, tile
/// entities whenever preserving. Nothing where its sections cannot be read or the
/// payload does not compress.
pub open spec fn java_level_chunk(level: Seq<(Seq<char>, NbtValue)>, preserve: bool, shift: Option<i32>) -> Option<(i32, i32, Seq<u8>)> {
    if has_sections(level) && !level_readable(level) {
        None
    } else {
        let x = int_or(level, "xPos"@, 0);
        let z = int_or(level, "zPos"@, 0);
        let ds = level_decoded(level);
        let sh = effective_shift(ds, shift);
        let blocks = if has_sections(level) { column_blocks(ds, sh) } else { array_or_zeros(level, "Blocks"@, 65536) };
        let data = if has_sections(level) { column_data(ds, sh) } else { array_or_zeros(level, "Data"@, 32768) };
        let biomes = if modern_content(level) { ones(256) } else { array_or_zeros(level, "Biomes"@, 256) };
        let entities = if preserve && !modern_content(level) { list_or_empty(level, "Entities"@) } else { Seq::empty() };
        let tile_entities = if preserve { list_or_empty(level, "TileEntities"@) } else { Seq::empty() };
        match legacy_payload(x, z, blocks, data, array_or_zeros(level, "HeightMap"@, 256), biomes,
            long_or(level, "LastUpdate"@, 0), long_or(level, "InhabitedTime"@, 0), entities, tile_entities) {
            Some(p) => Some((x, z, p)),
            None => None,
        }
    }
}

/// The bytes a level compound is stored as in a legacy chunk: its little-endian NBT,
/// run-length coded, then zlib-compressed (where zlib compresses it).
pub open spec fn legacy_encoding(c: Seq<(Seq<char>, NbtValue)>) -> Option<Seq<u8>> {
    zlib_encoded(rle_encode(seq![10u8] + ser_payload_le(NbtValue::Compound(c))))
}

/// A byte array of a level by name, cut or zero-padded to `size` bytes (all zeros where
/// the level has no such array).
pub open spec fn fitted_array(level: Seq<(Seq<char>, NbtValue)>, key: Seq<char>, size: nat) -> Seq<u8> {
    match assoc_get(level, key) {
        Some(NbtValue::ByteArray(b)) => if b.len() >= size {
            b.subrange(0, size as int)
        } else {
            b + Seq::new((size - b.len()) as nat, |i: int| 0u8)
        },
        _ => Seq::new(size, |i: int| 0u8),
    }
}

/// The position a level names: its `xPos` and `zPos` ints, 0 where missing.
pub open spec fn level_position(level: Seq<(Seq<char>, NbtValue)>) -> (i32, i32) {
    (
        match assoc_get(level, "xPos"@) { Some(NbtValue::Int(v)) => v, _ => 0 },
        match assoc_get(level, "zPos"@) { Some(NbtValue::Int(v)) => v, _ => 0 },
    )
}

/// The block ids a converted chunk stores: the flattened column of its sections where
/// its level has sections, else the level's own `Blocks` array.
pub open spec fn stored_blocks(level: Seq<(Seq<char>, NbtValue)>, shift: Option<i32>) -> Seq<u8> {
    let ds = level_decoded(level);
    if has_sections(level) { column_blocks(ds, effective_shift(ds, shift)) } else { fitted_array(level, "Blocks"@, 65536) }
}

/// The block data a converted chunk stores: the flattened column of its sections where
/// its level has sections, else the level's own `Data` array.
pub open spec fn stored_data(level: Seq<(Seq<char>, NbtValue)>, shift: Option<i32>) -> Seq<u8> {
    let ds = level_decoded(level);
    if has_sections(level) { column_data(ds, effective_shift(ds, shift)) } else { fitted_array(level, "Data"@, 32768) }
}

/// A list of a level by name, or nothing where the level has no such list.
pub open spec fn level_list_items(level: Seq<(Seq<char>, NbtValue)>, key: Seq<char>) -> Seq<NbtValue> {
    match assoc_get(level, key) {
        Some(NbtValue::List(items, _)) => items,
        _ => Seq::empty(),
    }
}

/// A long of a level by name, or 0.
pub open spec fn level_long(level: Seq<(Seq<char>, NbtValue)>, key: Seq<char>) -> i64 {
    match assoc_get(level, key) {
        Some(NbtValue::Long(v)) => v,
        _ => 0,
    }
}

/// A converted Java chunk keeps what its level says: it sits at the position its level
/// names, and its payload stores a level compound whose `xPos`/`zPos` are that
/// position; whose block ids and data are the flattened column of its sections, or
/// (without sections) the level's own `Blocks` and `Data` arrays cut or zero-padded to
/// 65536 and 32768 bytes; whose light arrays are zero; whose height map is the level's;
/// whose biomes are all 1 for modern content and else the level's; whose times are the
/// level's; whose entities are the level's when dynamic data is preserved and the
/// content is not modern, and whose tile entities are the level's when it is preserved.
/// A level whose sections cannot be read does not convert.
pub proof fn lemma_converted_chunk_fields(level: Seq<(Seq<char>, NbtValue)>, preserve: bool, shift: Option<i32>)
    ensures
        has_sections(level) && !level_readable(level) ==> java_level_chunk(level, preserve, shift) is None,
        java_level_chunk(level, preserve, shift) matches Some((x, z, p)) ==> {
            &&& (x, z) == level_position(level)
            &&& exists|c: Seq<(Seq<char>, NbtValue)>| #[trigger] legacy_encoding(c) == Some(p)
                && assoc_get(c, "xPos"@) == Some(NbtValue::Int(x))
                && assoc_get(c, "zPos"@) == Some(NbtValue::Int(z))
                && assoc_get(c, "Blocks"@) == Some(NbtValue::ByteArray(stored_blocks(level, shift)))
                && assoc_get(c, "Data"@) == Some(NbtValue::ByteArray(stored_data(level, shift)))
                && assoc_get(c, "SkyLight"@) == Some(NbtValue::ByteArray(Seq::new(32768, |i: int| 0u8)))
                && assoc_get(c, "BlockLight"@) == Some(NbtValue::ByteArray(Seq::new(32768, |i: int| 0u8)))
                && assoc_get(c, "HeightMap"@) == Some(NbtValue::ByteArray(fitted_array(level, "HeightMap"@, 256)))
                && assoc_get(c, "Biomes"@) == Some(NbtValue::ByteArray(
                    if modern_content(level) { Seq::new(256, |i: int| 1u8) } else { fitted_array(level, "Biomes"@, 256) }))
                && assoc_get(c, "LastUpdate"@) == Some(NbtValue::Long(level_long(level, "LastUpdate"@)))
                && assoc_get(c, "InhabitedTime"@) == Some(NbtValue::Long(level_long(level, "InhabitedTime"@)))
                && assoc_get(c, "Entities"@) == Some(NbtValue::List(
                    if preserve && !modern_content(level) { level_list_items(level, "Entities"@) } else { Seq::empty() }, 10))
                && assoc_get(c, "TileEntities"@) == Some(NbtValue::List(
                    if preserve { level_list_items(level, "TileEntities"@) } else { Seq::empty() }, 10))
        },
{
    if let Some((x, z, p)) = java_level_chunk(level, preserve, shift) {
        assert(array_or_zeros(level, "Blocks"@, 65536) =~= fitted_array(level, "Blocks"@, 65536));
        assert(array_or_zeros(level, "Data"@, 32768) =~= fitted_array(level, "Data"@, 32768));
        assert(array_or_zeros(level, "HeightMap"@, 256) =~= fitted_array(level, "HeightMap"@, 256));
        assert(array_or_zeros(level, "Biomes"@, 256) =~= fitted_array(level, "Biomes"@, 256));
        let blocks = stored_blocks(level, shift);
        let data = stored_data(level, shift);
        let biomes = if modern_content(level) { ones(256) } else { fitted_array(level, "Biomes"@, 256) };
        let entities = if preserve && !modern_content(level) { level_list_items(level, "Entities"@) } else { Seq::empty() };
        let tile_entities = if preserve { level_list_items(level, "TileEntities"@) } else { Seq::empty() };
        let hm = fitted_array(level, "HeightMap"@, 256);
        let lu = level_long(level, "LastUpdate"@);
        let it = level_long(level, "InhabitedTime"@);
        let v = legacy_level(x, z, blocks, data, zeros(32768), zeros(32768), hm, biomes, lu, it, entities, tile_entities, None);
        lemma_legacy_level_fields(x, z, blocks, data, zeros(32768), zeros(32768), hm, biomes, lu, it, entities, tile_entities, None);
        let c = v->Compound_0;
        assert(zeros(32768) =~= Seq::new(32768, |i: int| 0u8));
        assert(ones(256) =~= Seq::new(256, |i: int| 1u8));
        assert(legacy_encoding(c) == Some(p));
    }
}

/// The Legacy Console chunk converted from a Java region chunk record, or nothing where
/// the record does not decompress or parse.
pub open spec fn java_chunk(raw: Seq<u8>, preserve: bool, shift: Option<i32>) -> Option<(i32, i32, Seq<u8>)> {
    match record_level(raw) {
        Some(level) => java_level_chunk(level, preserve, shift),
        None => None,
    }
}

/// The unknown-block list after converting a Java chunk record: its sections' unknown
/// blocks are recorded where it has readable sections.
pub open spec fn java_chunk_unknowns(raw: Seq<u8>, u: Seq<Seq<char>>) -> Seq<Seq<char>> {
    match record_level(raw) {
        Some(level) => if has_sections(level) && level_readable(level) { level_unknowns(u, level) } else { u },
        None => u,
    }
}

/// The view of a converted chunk.
pub open spec fn chunk_out_view(r: Option<(i32, i32, Vec<u8>)>) -> Option<(i32, i32, Seq<u8>)> {
    match r {
        Some((x, z, p)) => Some((x, z, p@)),
        None => None,
    }
}

/// The level compound of a chunk's root tag, copied.
fn level_of(root: &NbtTag) -> (r: Vec<(String, NbtTag)>)
    ensures
        items_view(r@) == chunk_level(root@),
{
    match root.as_compound() {
        Some(m) => match NbtHelper::get_entry(m, "Level") {
            Some(t) => match t.as_compound() {
                Some(l) => copy_items(l),
                None => copy_items(m),
            },
            None => copy_items(m),
        },
        None => {
            let v: Vec<(String, NbtTag)> = Vec::new();
            assert(items_view(v@) =~= Seq::<(Seq<char>, NbtValue)>::empty());
            v
        },
    }
}

/// Decompresses a Java region chunk record and reads its level compound.
fn read_record_level(chunk_raw: &[u8]) -> (r: Option<Vec<(String, NbtTag)>>)
    ensures
        match r {
            Some(l) => record_level(chunk_raw@) == Some(items_view(l@)),
            None => record_level(chunk_raw@) is None,
        },
{
    let decompressed = match read_mcr_chunk(chunk_raw, 0) {
        Ok(d) => d,
        Err(_) => return None,
    };
    match read_nbt(decompressed.as_slice()) {
        Ok((_name, root)) => Some(level_of(&root)),
        Err(_) => None,
    }
}

/// A byte array of the level cut or zero-padded to `size`.
fn level_array(level: &Vec<(String, NbtTag)>, name: &str, size: usize) -> (r: Vec<u8>)
    ensures
        r@ == array_or_zeros(items_view(level@), name@, size as nat),
{
    NbtHelper::get_byte_array_or_default(level, name, size)
}

/// The elements of a list of the level, or none.
fn level_list(level: &Vec<(String, NbtTag)>, name: &str) -> (r: Vec<NbtTag>)
    ensures
        tags_view(r@) == list_or_empty(items_view(level@), name@),
{
    match NbtHelper::get_list(level, name) {
        Some(v) => v,
        None => {
            let v: Vec<NbtTag> = Vec::new();
            assert(tags_view(v@) =~= Seq::<NbtValue>::empty());
            v
        },
    }
}

/// Converts one Java region chunk record into a Legacy Console chunk: its position
/// (`xPos`/`zPos` of its level, 0 where missing) and its payload. Nothing is returned
/// where the record does not decompress or parse, its sections cannot be read or the
/// payload does not compress. Unknown modern blocks of its sections are recorded.
pub fn convert_java_chunk(chunk_raw: &[u8], context: &mut ChunkConversionContext) -> (r: Option<(i32, i32, Vec<u8>)>)
    ensures
        chunk_out_view(r) == java_chunk(chunk_raw@, old(context).preserve_dynamic_chunk_data, old(context).global_modern_section_shift),
        final(context).preserve_dynamic_chunk_data == old(context).preserve_dynamic_chunk_data,
        final(context).global_modern_section_shift == old(context).global_modern_section_shift,
        strings_view(final(context).unknown_blocks@) == java_chunk_unknowns(chunk_raw@, strings_view(old(context).unknown_blocks@)),
{
    let level = match read_record_level(chunk_raw) {
        Some(l) => l,
        None => return None,
    };
    let ghost lv = items_view(level@);
    let ghost preserve = context.preserve_dynamic_chunk_data;
    let ghost shift0 = context.global_modern_section_shift;
    let chunk_x = match NbtHelper::get_int(&level, "xPos") { Some(v) => v, None => 0 };
    let chunk_z = match NbtHelper::get_int(&level, "zPos") { Some(v) => v, None => 0 };
    let sections = NbtHelper::get_entry(&level, "Sections").is_some();
    let modern = NbtHelper::get_entry(&level, "Status").is_some() || NbtHelper::get_entry(&level, "block_states").is_some();
    assert(sections == has_sections(lv));
    assert(modern == modern_content(lv));
    let (blocks, data) = if sections {
        if !level_sections_readable(&level) {
            return None;
        }
        let shift = context.global_modern_section_shift;
        let (b, d, s, l) = flatten_anvil_sections(&level, shift, context);
        proof {
            lemma_column_arrays(b@, d@, s@, l@, level_decoded(lv), effective_shift(level_decoded(lv), shift0));
        }
        (b, d)
    } else {
        (level_array(&level, "Blocks", 65536), level_array(&level, "Data", 32768))
    };
    let height_map = level_array(&level, "HeightMap", 256);
    let biomes = if modern {
        let v: Vec<u8> = vec![1u8; 256];
        assert(v@ =~= ones(256));
        v
    } else {
        level_array(&level, "Biomes", 256)
    };
    let last_update = match NbtHelper::get_long(&level, "LastUpdate") { Some(v) => v, None => 0 };
    let inhabited_time = match NbtHelper::get_long(&level, "InhabitedTime") { Some(v) => v, None => 0 };
    let entities = if context.preserve_dynamic_chunk_data && !modern {
        level_list(&level, "Entities")
    } else {
        let v: Vec<NbtTag> = Vec::new();
        assert(tags_view(v@) =~= Seq::<NbtValue>::empty());
        v
    };
    let tile_entities = if context.preserve_dynamic_chunk_data {
        level_list(&level, "TileEntities")
    } else {
        let v: Vec<NbtTag> = Vec::new();
        assert(tags_view(v@) =~= Seq::<NbtValue>::empty());
        v
    };
    let light: Vec<u8> = vec![0u8; 32768];
    assert(light@ =~= zeros(32768));
    match encode_legacy_nbt(chunk_x, chunk_z, blocks.as_slice(), data.as_slice(), light.as_slice(), light.as_slice(),
        height_map.as_slice(), biomes.as_slice(), last_update, inhabited_time, entities, tile_entities, None) {
        Ok(p) => Some((chunk_x, chunk_z, p)),
        Err(_) => None,
    }
}

/// The Legacy Console chunk converted from a chunk record of a console save's region:
/// its position (`xPos`/`zPos` of its level, else its place in the region) and the
/// payload of an empty chunk there (all air, zero light and height map, biomes 1).
pub open spec fn xbox360_chunk(local_x: usize, local_z: usize, raw: Seq<u8>) -> Option<(i32, i32, Seq<u8>)> {
    match record_level(raw) {
        Some(level) => {
            let x = int_or(level, "xPos"@, local_x as i32);
            let z = int_or(level, "zPos"@, local_z as i32);
            match legacy_payload(x, z, zeros(65536), zeros(32768), zeros(256), ones(256), 0, 0, Seq::empty(), Seq::empty()) {
                Some(p) => Some((x, z, p)),
                None => None,
            }
        },
        None => None,
    }
}

/// Converts one chunk record of a console save's region (at place `local_x`,
/// `local_z` of its region) into an empty Legacy Console chunk at the position its
/// level names. Nothing is returned where the record does not decompress or parse or
/// the payload does not compress.
pub fn convert_xbox360_chunk(local_x: usize, local_z: usize, chunk_raw: &[u8]) -> (r: Option<(i32, i32, Vec<u8>)>)
    ensures
        chunk_out_view(r) == xbox360_chunk(local_x, local_z, chunk_raw@),
{
    let level = match read_record_level(chunk_raw) {
        Some(l) => l,
        None => return None,
    };
    let chunk_x = match NbtHelper::get_int(&level, "xPos") { Some(v) => v, None => local_x as i32 };
    let chunk_z = match NbtHelper::get_int(&level, "zPos") { Some(v) => v, None => local_z as i32 };
    let blocks: Vec<u8> = vec![0u8; 65536];
    let nibbles: Vec<u8> = vec![0u8; 32768];
    let height_map: Vec<u8> = vec![0u8; 256];
    let biomes: Vec<u8> = vec![1u8; 256];
    assert(blocks@ =~= zeros(65536));
    assert(nibbles@ =~= zeros(32768));
    assert(height_map@ =~= zeros(256));
    assert(biomes@ =~= ones(256));
    let entities: Vec<NbtTag> = Vec::new();
    let tile_entities: Vec<NbtTag> = Vec::new();
    assert(tags_view(entities@) =~= Seq::<NbtValue>::empty());
    match encode_legacy_nbt(chunk_x, chunk_z, blocks.as_slice(), nibbles.as_slice(), nibbles.as_slice(), nibbles.as_slice(),
        height_map.as_slice(), biomes.as_slice(), 0, 0, entities, tile_entities, None) {
        Ok(p) => Some((chunk_x, chunk_z, p)),
        Err(_) => None,
    }
}

/// Adding converted chunks, in order, to a region file whose first free sector is
/// `next`: the bytes appended, the first free sector after, and how many chunks went
/// in. A chunk over 1 MiB, or one that would carry the sector count past `u32::MAX`,
/// is left out.
pub open spec fn added(chunks: Seq<(i32, i32, Seq<u8>)>, next: int) -> (Seq<u8>, int, nat)
    decreases chunks.len(),
{
    if chunks.len() == 0 {
        (Seq::empty(), next, 0)
    } else {
        let (bytes, nx, n) = added(chunks.drop_last(), next);
        let p = chunks.last().2;
        if p.len() > 1048576 || nx + sectors_for(p.len() as int) > u32::MAX {
            (bytes, nx, n)
        } else {
            (bytes + chunk_sectors(p), nx + sectors_for(p.len() as int), n + 1)
        }
    }
}

/// The chunk records that a region file's bytes hold, where it is long enough to hold
/// its tables.
pub open spec fn region_records(data: Seq<u8>) -> Seq<(usize, usize, Seq<u8>)> {
    if data.len() < 8192 { Seq::empty() } else { spec_mcr_chunks(data, 1024) }
}

/// The Legacy Console chunks converted from Java chunk records, in order, those that
/// convert.
pub open spec fn java_chunks(raws: Seq<(usize, usize, Seq<u8>)>, preserve: bool, shift: Option<i32>) -> Seq<(i32, i32, Seq<u8>)>
    decreases raws.len(),
{
    if raws.len() == 0 {
        Seq::empty()
    } else {
        let prev = java_chunks(raws.drop_last(), preserve, shift);
        match java_chunk(raws.last().2, preserve, shift) {
            Some(c) => prev.push(c),
            None => prev,
        }
    }
}

/// The unknown-block list after converting Java chunk records in order.
pub open spec fn java_chunks_unknowns(raws: Seq<(usize, usize, Seq<u8>)>, u: Seq<Seq<char>>) -> Seq<Seq<char>>
    decreases raws.len(),
{
    if raws.len() == 0 {
        u
    } else {
        java_chunk_unknowns(raws.last().2, java_chunks_unknowns(raws.drop_last(), u))
    }
}

/// The places (position, first sector, sector count) a region file records after
/// adding converted chunks in order, starting from the places `start` and the first
/// free sector `next`: each chunk that goes in (see `added`) is recorded at its
/// position, a later one replacing an earlier one there.
pub open spec fn added_places(chunks: Seq<(i32, i32, Seq<u8>)>, next: int, start: Seq<((i32, i32), (u32, u32))>)
    -> Seq<((i32, i32), (u32, u32))>
    decreases chunks.len(),
{
    if chunks.len() == 0 {
        start
    } else {
        let prev = added_places(chunks.drop_last(), next, start);
        let nx = added(chunks.drop_last(), next).1;
        let c = chunks.last();
        if c.2.len() > 1048576 || nx + sectors_for(c.2.len() as int) > u32::MAX {
            prev
        } else {
            sorted_put(prev, (c.0, c.1), (nx as u32, sectors_for(c.2.len() as int) as u32))
        }
    }
}

proof fn lemma_added_places_step(chunks: Seq<(i32, i32, Seq<u8>)>, c: (i32, i32, Seq<u8>), next: int, start: Seq<((i32, i32), (u32, u32))>)
    ensures
        added_places(chunks.push(c), next, start)
            == added_places(seq![c], added(chunks, next).1, added_places(chunks, next, start)),
{
    assert(chunks.push(c).drop_last() =~= chunks);
    assert(chunks.push(c).last() == c);
    assert(seq![c].drop_last() =~= Seq::<(i32, i32, Seq<u8>)>::empty());
    let m = added(chunks, next).1;
    assert(seq![c].last() == c);
    assert(added(Seq::<(i32, i32, Seq<u8>)>::empty(), m) == (Seq::<u8>::empty(), m, 0nat));
    assert(added_places(Seq::<(i32, i32, Seq<u8>)>::empty(), m, added_places(chunks, next, start))
        == added_places(chunks, next, start));
}

proof fn lemma_added_places_concat(a: Seq<(i32, i32, Seq<u8>)>, b: Seq<(i32, i32, Seq<u8>)>, n: int, start: Seq<((i32, i32), (u32, u32))>)
    ensures
        added_places(a + b, n, start) == added_places(b, added(a, n).1, added_places(a, n, start)),
    decreases b.len(),
{
    if b.len() == 0 {
        assert(a + b =~= a);
    } else {
        let b0 = b.drop_last();
        let c = b.last();
        assert(b0.push(c) =~= b);
        assert((a + b0).push(c) =~= a + b);
        lemma_added_places_concat(a, b0, n, start);
        lemma_added_places_step(a + b0, c, n, start);
        lemma_added_places_step(b0, c, added(a, n).1, added_places(a, n, start));
        lemma_added_concat(a, b0, n);
    }
}

/// Adds a converted chunk to a region file where it fits; whether it went in.
fn add_if_fits(region: &mut LceRegionFile, x: i32, z: i32, payload: &[u8]) -> (r: bool)
    requires
        old(region).wf(),
    ensures
        final(region).wf(),
        ({
            let (bytes, nx, n) = added(seq![(x, z, payload@)], old(region).next_sector_view() as int);
            &&& final(region).sectors_view() == old(region).sectors_view() + bytes
            &&& final(region).next_sector_view() == nx
            &&& r == (n == 1)
        }),
        places(final(region).offsets_view()) == added_places(seq![(x, z, payload@)], old(region).next_sector_view() as int,
            places(old(region).offsets_view())),
{
    let ghost one = seq![(x, z, payload@)];
    let ghost next = region.next_sector_view() as int;
    assert(one.drop_last() =~= Seq::<(i32, i32, Seq<u8>)>::empty());
    assert(one.last() == (x, z, payload@));
    assert(added(Seq::<(i32, i32, Seq<u8>)>::empty(), next) == (Seq::<u8>::empty(), next, 0nat));
    assert(Seq::<u8>::empty() + chunk_sectors(payload@) =~= chunk_sectors(payload@));
    assert(added_places(Seq::<(i32, i32, Seq<u8>)>::empty(), next, places(region.offsets_view())) == places(region.offsets_view()));
    if !region.can_hold(payload.len()) {
        assert(old(region).sectors_view() + Seq::<u8>::empty() =~= old(region).sectors_view());
        return false;
    }
    match region.add_chunk(x, z, payload) {
        Ok(()) => {
            assert(added(one, next) == (chunk_sectors(payload@), next + sectors_for(payload@.len() as int), 1nat));
            proof {
                let ts = region.offsets_view()[lower_bound(old(region).offsets_view(), (x, z))].1.2;
                lemma_places_sorted_put(old(region).offsets_view(), (x, z), next as u32, sectors_for(payload@.len() as int) as u32, ts);
            }
            true
        },
        Err(_) => {
            assert(old(region).sectors_view() + Seq::<u8>::empty() =~= old(region).sectors_view());
            false
        },
    }
}

proof fn lemma_added_step(chunks: Seq<(i32, i32, Seq<u8>)>, c: (i32, i32, Seq<u8>), next: int)
    ensures
        ({
            let (b0, nx0, n0) = added(chunks, next);
            let (b1, nx1, n1) = added(seq![c], nx0);
            &&& added(chunks.push(c), next) == (b0 + b1, nx1, n0 + n1)
            &&& n1 <= 1
        }),
{
    assert(chunks.push(c).drop_last() =~= chunks);
    assert(chunks.push(c).last() == c);
    assert(seq![c].drop_last() =~= Seq::<(i32, i32, Seq<u8>)>::empty());
    let (b0, nx0, n0) = added(chunks, next);
    assert(added(Seq::<(i32, i32, Seq<u8>)>::empty(), nx0) == (Seq::<u8>::empty(), nx0, 0nat));
    assert(b0 + Seq::<u8>::empty() =~= b0);
    assert(Seq::<u8>::empty() + chunk_sectors(c.2) =~= chunk_sectors(c.2));
}

proof fn lemma_java_take_step(raws: Seq<(usize, usize, Seq<u8>)>, i: int, preserve: bool, shift: Option<i32>, u: Seq<Seq<char>>)
    requires
        0 <= i < raws.len(),
    ensures
        java_chunks(raws.take(i + 1), preserve, shift) == (match java_chunk(raws[i].2, preserve, shift) {
            Some(c) => java_chunks(raws.take(i), preserve, shift).push(c),
            None => java_chunks(raws.take(i), preserve, shift),
        }),
        java_chunks_unknowns(raws.take(i + 1), u) == java_chunk_unknowns(raws[i].2, java_chunks_unknowns(raws.take(i), u)),
{
    assert(raws.take(i + 1).drop_last() =~= raws.take(i));
    assert(raws.take(i + 1).last() == raws[i]);
}

/// Converts the chunks of a Java region file (`.mcr` or `.mca`) and adds them, in
/// record order, to a region file being assembled; returns how many went in. A region
/// file too short for its tables adds nothing.
pub fn convert_java_region_file(region_data: &[u8], dim_region: &mut LceRegionFile, context: &mut ChunkConversionContext) -> (r: usize)
    requires
        old(dim_region).wf(),
    ensures
        final(dim_region).wf(),
        ({
            let chunks = java_chunks(region_records(region_data@), old(context).preserve_dynamic_chunk_data,
                old(context).global_modern_section_shift);
            let (bytes, nx, n) = added(chunks, old(dim_region).next_sector_view() as int);
            &&& final(dim_region).sectors_view() == old(dim_region).sectors_view() + bytes
            &&& final(dim_region).next_sector_view() == nx
            &&& r == n
            &&& places(final(dim_region).offsets_view()) == added_places(chunks, old(dim_region).next_sector_view() as int,
                places(old(dim_region).offsets_view()))
        }),
        final(context).preserve_dynamic_chunk_data == old(context).preserve_dynamic_chunk_data,
        final(context).global_modern_section_shift == old(context).global_modern_section_shift,
        strings_view(final(context).unknown_blocks@) == java_chunks_unknowns(region_records(region_data@),
            strings_view(old(context).unknown_blocks@)),
{
    let ghost preserve = context.preserve_dynamic_chunk_data;
    let ghost shift = context.global_modern_section_shift;
    let ghost u0 = strings_view(context.unknown_blocks@);
    let ghost s0 = dim_region.sectors_view();
    let ghost next0 = dim_region.next_sector_view() as int;
    let ghost pl0 = places(dim_region.offsets_view());
    assert(added_places(Seq::<(i32, i32, Seq<u8>)>::empty(), next0, pl0) == pl0);
    let chunks = match read_java_mcr_region(region_data) {
        Ok(c) => c,
        Err(_) => {
            assert(s0 + Seq::<u8>::empty() =~= s0);
            return 0;
        },
    };
    let ghost raws = chunks_view(chunks@);
    assert(raws == region_records(region_data@));
    assert(raws.take(0) =~= Seq::<(usize, usize, Seq<u8>)>::empty());
    assert(s0 + Seq::<u8>::empty() =~= s0);
    let mut count: usize = 0;
    let mut i: usize = 0;
    while i < chunks.len()
        invariant
            raws == chunks_view(chunks@),
            raws.len() == chunks@.len(),
            i <= chunks@.len(),
            dim_region.wf(),
            dim_region.sectors_view() == s0 + added(java_chunks(raws.take(i as int), preserve, shift), next0).0,
            dim_region.next_sector_view() == added(java_chunks(raws.take(i as int), preserve, shift), next0).1,
            count == added(java_chunks(raws.take(i as int), preserve, shift), next0).2,
            count <= i,
            places(dim_region.offsets_view()) == added_places(java_chunks(raws.take(i as int), preserve, shift), next0, pl0),
            context.preserve_dynamic_chunk_data == preserve,
            context.global_modern_section_shift == shift,
            strings_view(context.unknown_blocks@) == java_chunks_unknowns(raws.take(i as int), u0),
        decreases chunks@.len() - i,
    {
        let converted = convert_java_chunk(chunks[i].2.as_slice(), context);
        let ghost prev = java_chunks(raws.take(i as int), preserve, shift);
        proof {
            assert(raws[i as int].2 == chunks@[i as int].2@);
            lemma_java_take_step(raws, i as int, preserve, shift, u0);
        }
        match converted {
            Some((x, z, payload)) => {
                let ghost before = dim_region.sectors_view();
                let ok = add_if_fits(dim_region, x, z, payload.as_slice());
                proof {
                    lemma_added_step(prev, (x, z, payload@), next0);
                    lemma_added_places_step(prev, (x, z, payload@), next0, pl0);
                    let b0 = added(prev, next0).0;
                    let b1 = added(seq![(x, z, payload@)], added(prev, next0).1).0;
                    assert(s0 + b0 + b1 =~= s0 + (b0 + b1));
                }
                if ok {
                    count += 1;
                }
            },
            None => {},
        }
        i += 1;
    }
    assert(raws.take(chunks@.len() as int) =~= raws);
    count
}

/// The chunks converted from a console save region's chunk records, in order, those
/// that convert.
pub open spec fn xbox360_chunks(raws: Seq<(usize, usize, Seq<u8>)>) -> Seq<(i32, i32, Seq<u8>)>
    decreases raws.len(),
{
    if raws.len() == 0 {
        Seq::empty()
    } else {
        let prev = xbox360_chunks(raws.drop_last());
        match xbox360_chunk(raws.last().0, raws.last().1, raws.last().2) {
            Some(c) => prev.push(c),
            None => prev,
        }
    }
}

/// `b` is a region file built from `chunks`: a region file of two zeroed header
/// sectors and the sectors of the chunks that fit, each recorded at its position with
/// its first sector and sector count, with its tables filled in.
pub open spec fn built_region(b: Seq<u8>, chunks: Seq<(i32, i32, Seq<u8>)>) -> bool {
    exists|rf: LceRegionFile| #[trigger] rf.wf() && rf.sectors_view() == zeros(8192) + added(chunks, 2).0
        && places(rf.offsets_view()) == added_places(chunks, 2, Seq::empty())
        && b == region_tables(rf.sectors_view(), rf.offsets_view(), rf.offsets_view().len() as int)
}

/// Rebuilds a console save's region as a Legacy Console region file: every chunk of it
/// becomes an empty chunk at its position. Returns the region file and the number of
/// chunks converted; nothing when the region is too short for its tables.
pub fn convert_xbox360_region(file_data: &[u8]) -> (r: Option<(Vec<u8>, usize)>)
    ensures
        file_data@.len() < 8192 <==> r is None,
        r matches Some((b, n)) ==> {
            let chunks = xbox360_chunks(region_records(file_data@));
            &&& n == chunks.len()
            &&& built_region(b@, chunks)
        },
{
    let chunks = match read_java_mcr_region(file_data) {
        Ok(c) => c,
        Err(_) => return None,
    };
    let ghost raws = chunks_view(chunks@);
    assert(raws == region_records(file_data@));
    let mut region = LceRegionFile::new();
    let ghost s0 = region.sectors_view();
    assert(places(region.offsets_view()) =~= Seq::<((i32, i32), (u32, u32))>::empty());
    assert(raws.take(0) =~= Seq::<(usize, usize, Seq<u8>)>::empty());
    assert(s0 + Seq::<u8>::empty() =~= s0);
    let mut count: usize = 0;
    let mut i: usize = 0;
    while i < chunks.len()
        invariant
            raws == chunks_view(chunks@),
            raws.len() == chunks@.len(),
            i <= chunks@.len(),
            s0 == zeros(8192),
            region.wf(),
            region.sectors_view() == s0 + added(xbox360_chunks(raws.take(i as int)), 2).0,
            region.next_sector_view() == added(xbox360_chunks(raws.take(i as int)), 2).1,
            count == xbox360_chunks(raws.take(i as int)).len(),
            count <= i,
            places(region.offsets_view()) == added_places(xbox360_chunks(raws.take(i as int)), 2, Seq::empty()),
        decreases chunks@.len() - i,
    {
        let converted = convert_xbox360_chunk(chunks[i].0, chunks[i].1, chunks[i].2.as_slice());
        let ghost prev = xbox360_chunks(raws.take(i as int));
        proof {
            assert(raws[i as int] == (chunks@[i as int].0, chunks@[i as int].1, chunks@[i as int].2@));
            assert(raws.take(i + 1).drop_last() =~= raws.take(i as int));
            assert(raws.take(i + 1).last() == raws[i as int]);
        }
        match converted {
            Some((x, z, payload)) => {
                let _ = add_if_fits(&mut region, x, z, payload.as_slice());
                proof {
                    lemma_added_step(prev, (x, z, payload@), 2);
                    lemma_added_places_step(prev, (x, z, payload@), 2, Seq::empty());
                    let b0 = added(prev, 2).0;
                    let b1 = added(seq![(x, z, payload@)], added(prev, 2).1).0;
                    assert(s0 + b0 + b1 =~= s0 + (b0 + b1));
                }
                count += 1;
            },
            None => {},
        }
        i += 1;
    }
    assert(raws.take(chunks@.len() as int) =~= raws);
    let ghost built = region;
    let bytes = match region.build() {
        Ok(b) => b,
        Err(_) => return None,
    };
    assert(built.wf());
    Some((bytes, count))
}

/// Whether a file of a console save holds its level data.
pub open spec fn is_level_dat_name(name: Seq<char>) -> bool {
    name == "level.dat"@ || ends_with(name, "/level.dat"@)
}

/// Whether a file of a console save is a region file.
pub open spec fn is_region_name(name: Seq<char>) -> bool {
    ends_with(name, ".mcr"@) || ends_with(name, ".mca"@)
}

/// The level data among a console save's files: the contents of the last one that
/// holds it; empty when none does.
pub open spec fn files_level_dat(files: Seq<(Seq<char>, Seq<u8>)>) -> Seq<u8>
    decreases files.len(),
{
    if files.len() == 0 {
        Seq::empty()
    } else if is_level_dat_name(files.last().0) {
        files.last().1
    } else {
        files_level_dat(files.drop_last())
    }
}

/// The region files among a console save's files that are long enough to hold their
/// tables, in order.
pub open spec fn region_files(files: Seq<(Seq<char>, Seq<u8>)>) -> Seq<(Seq<char>, Seq<u8>)>
    decreases files.len(),
{
    if files.len() == 0 {
        Seq::empty()
    } else {
        let prev = region_files(files.drop_last());
        let f = files.last();
        if !is_level_dat_name(f.0) && is_region_name(f.0) && f.1.len() >= 8192 { prev.push(f) } else { prev }
    }
}

/// The number of chunks converted from region files.
pub open spec fn region_chunk_total(rs: Seq<(Seq<char>, Seq<u8>)>) -> nat
    decreases rs.len(),
{
    if rs.len() == 0 {
        0
    } else {
        region_chunk_total(rs.drop_last()) + xbox360_chunks(region_records(rs.last().1)).len()
    }
}

/// `n` capped at `usize::MAX`.
pub open spec fn capped(n: nat) -> usize {
    if n > usize::MAX { usize::MAX } else { n as usize }
}

/// `regions` are the region files rebuilt from `rs`, each under `region/` and its name.
pub open spec fn rebuilt_regions(regions: Seq<(Seq<char>, Seq<u8>)>, rs: Seq<(Seq<char>, Seq<u8>)>) -> bool {
    &&& regions.len() == rs.len()
    &&& forall|k: int| 0 <= k < rs.len() ==> #[trigger] regions[k].0 == "region/"@ + rs[k].0
        && built_region(regions[k].1, xbox360_chunks(region_records(rs[k].1)))
}

/// The parts of a Legacy Console save rebuilt from a console save's files.
pub struct Xbox360Rebuild {
    /// The level data, copied.
    pub level_dat: Vec<u8>,
    /// Each readable region file rebuilt, under `region/` and its name.
    pub regions: Vec<(String, Vec<u8>)>,
    /// How many chunks were converted (capped at `usize::MAX`).
    pub chunk_count: usize,
}

proof fn lemma_files_step(fv: Seq<(Seq<char>, Seq<u8>)>, i: int)
    requires
        0 <= i < fv.len(),
    ensures
        files_level_dat(fv.take(i + 1)) == (if is_level_dat_name(fv[i].0) { fv[i].1 } else { files_level_dat(fv.take(i)) }),
        region_files(fv.take(i + 1)) == (if !is_level_dat_name(fv[i].0) && is_region_name(fv[i].0) && fv[i].1.len() >= 8192 {
            region_files(fv.take(i)).push(fv[i])
        } else {
            region_files(fv.take(i))
        }),
{
    assert(fv.take(i + 1).drop_last() =~= fv.take(i));
    assert(fv.take(i + 1).last() == fv[i]);
}

proof fn lemma_rebuilt_push(regs: Seq<(Seq<char>, Seq<u8>)>, rs: Seq<(Seq<char>, Seq<u8>)>, f: (Seq<char>, Seq<u8>), key: Seq<char>, b: Seq<u8>)
    requires
        rebuilt_regions(regs, rs),
        key == "region/"@ + f.0,
        built_region(b, xbox360_chunks(region_records(f.1))),
    ensures
        rebuilt_regions(regs.push((key, b)), rs.push(f)),
        region_chunk_total(rs.push(f)) == region_chunk_total(rs) + xbox360_chunks(region_records(f.1)).len(),
{
    let rs1 = rs.push(f);
    let regs1 = regs.push((key, b));
    assert(rs1.drop_last() =~= rs);
    assert(rs1.last() == f);
    assert forall|k: int| 0 <= k < rs1.len() implies #[trigger] regs1[k].0 == "region/"@ + rs1[k].0
        && built_region(regs1[k].1, xbox360_chunks(region_records(rs1[k].1))) by {
        if k < rs.len() {
            assert(regs1[k] == regs[k]);
            assert(rs1[k] == rs[k]);
        }
    }
}

/// Rebuilds a console save's files: keeps its level data and rebuilds each region
/// file, counting the chunks converted.
pub fn convert_xbox360_files(files: &Vec<(String, Vec<u8>)>) -> (r: Xbox360Rebuild)
    ensures
        r.level_dat@ == files_level_dat(files_view(files@)),
        rebuilt_regions(files_view(r.regions@), region_files(files_view(files@))),
        r.chunk_count == capped(region_chunk_total(region_files(files_view(files@)))),
{
    let ghost fv = files_view(files@);
    let mut level_dat: Vec<u8> = Vec::new();
    let mut regions: Vec<(String, Vec<u8>)> = Vec::new();
    let mut total: usize = 0;
    let mut i: usize = 0;
    assert(fv.take(0) =~= Seq::<(Seq<char>, Seq<u8>)>::empty());
    assert(files_view(regions@) =~= Seq::<(Seq<char>, Seq<u8>)>::empty());
    while i < files.len()
        invariant
            fv == files_view(files@),
            fv.len() == files@.len(),
            i <= files@.len(),
            level_dat@ == files_level_dat(fv.take(i as int)),
            rebuilt_regions(files_view(regions@), region_files(fv.take(i as int))),
            total == capped(region_chunk_total(region_files(fv.take(i as int)))),
        decreases files@.len() - i,
    {
        let name = files[i].0.as_str();
        let content = files[i].1.as_slice();
        proof {
            assert(fv[i as int] == (files@[i as int].0@, files@[i as int].1@));
            lemma_files_step(fv, i as int);
        }
        let is_level = str_eq(name, "level.dat") || str_ends_with(name, "/level.dat");
        if is_level {
            level_dat = vstd::slice::slice_to_vec(content);
        } else if str_ends_with(name, ".mcr") || str_ends_with(name, ".mca") {
            if let Some((bytes, n)) = convert_xbox360_region(content) {
                let mut key = to_owned_string("region/");
                string_push_str(&mut key, name);
                let ghost before = files_view(regions@);
                regions.push((key, bytes));
                proof {
                    assert(files_view(regions@) =~= before.push((key@, bytes@)));
                    lemma_rebuilt_push(before, region_files(fv.take(i as int)), fv[i as int], key@, bytes@);
                }
                total = if total > usize::MAX - n { usize::MAX } else { total + n };
            }
        }
        i += 1;
    }
    assert(fv.take(files@.len() as int) =~= fv);
    Xbox360Rebuild { level_dat, regions, chunk_count: total }
}

/// Whether a raw savegame decompresses: its header is whole and its payload is stored,
/// LZX, zlib that decodes, or run-length coded.
pub open spec fn savegame_ok(data: Seq<u8>) -> bool {
    &&& data.len() >= 16
    &&& data.subrange(0, 8) == savegame_magic()
    &&& {
        let ty = be32_at(data, 12);
        ty <= 1 || ty == 3 || (ty == 2 && zlib_decoded(data.subrange(16, data.len() as int)) is Some)
    }
}

/// `v` is what a raw savegame decompresses to.
pub open spec fn savegame_decoded(data: Seq<u8>, v: Seq<u8>) -> bool {
    let size = be32_at(data, 8);
    let payload = data.subrange(16, data.len() as int);
    let ty = be32_at(data, 12);
    &&& savegame_ok(data)
    &&& ty == 0 ==> v == cut(payload, size)
    &&& ty == 1 ==> v == cut(fresh_lzx_decode(payload, 0, 0, size), size)
    &&& ty == 2 ==> zlib_decoded(payload) == Some(v)
    &&& ty == 3 ==> v == rle_expand(payload).take(if size < rle_expand(payload).len() { size } else { rle_expand(payload).len() as int })
}

/// `v` is what the savegame of an STFS package decompresses to.
pub open spec fn stfs_savegame_decoded(sg: Seq<u8>, v: Seq<u8>) -> bool {
    &&& sg.len() >= 12
    &&& {
        let src = stfs_src_size(sg);
        let dst = stfs_dst_size(sg);
        &&& !(src == 0 || src > sg.len() - 12 || dst == 0 || dst > 100_000_000)
        &&& chunked_decode(sg.subrange(12, 12 + src), 0, 0, dst, Seq::empty()) matches Some(full) && v == cut(full, dst)
    }
}

/// Whether the savegame of an STFS package decompresses: a whole header, sizes in
/// range, and an LZX stream whose compressed chunks all decode.
pub open spec fn stfs_savegame_ok(sg: Seq<u8>) -> bool {
    &&& sg.len() >= 12
    &&& {
        let src = stfs_src_size(sg);
        let dst = stfs_dst_size(sg);
        &&& !(src == 0 || src > sg.len() - 12 || dst == 0 || dst > 100_000_000)
        &&& chunked_decode(sg.subrange(12, 12 + src), 0, 0, dst, Seq::empty()) is Some
    }
}

/// Whether a console save input decompresses: an STFS package whose header is
/// accepted, whose `savegame.dat` can be read and whose savegame decompresses; or,
/// where it is no STFS package, a raw savegame (by magic or by a `.dat` path) that
/// decompresses.
pub open spec fn console_decodes(data: Seq<u8>, path: Seq<char>) -> bool {
    if stfs_header(data) {
        &&& !stfs_header_refused(data)
        &&& savegame_readable(data)
        &&& forall|sg: Seq<u8>, p: StfsPackage| #[trigger] savegame_of(p, data, sg) ==> stfs_savegame_ok(sg)
    } else {
        looks_like_savegame(data, path) && savegame_ok(data)
    }
}

/// Whether input bytes start with the STFS package magic.
pub open spec fn stfs_header(data: Seq<u8>) -> bool {
    data.len() >= 4 && be32_at(data, 0) == CON_MAGIC
}

/// Whether an input is taken for a raw savegame: by its magic, or by a path ending
/// in `.dat`.
pub open spec fn looks_like_savegame(data: Seq<u8>, path: Seq<char>) -> bool {
    (data.len() >= 8 && data.subrange(0, 8) == savegame_magic()) || ends_with(path, ".dat"@)
}

/// `v` is the decompressed savegame of a console save input: the decompressed
/// `savegame.dat` of an STFS package, or the input itself decompressed as a raw
/// savegame.
pub open spec fn console_decoded(data: Seq<u8>, path: Seq<char>, v: Seq<u8>) -> bool {
    if stfs_header(data) {
        exists|sg: Seq<u8>, p: StfsPackage| #[trigger] savegame_of(p, data, sg) && stfs_savegame_decoded(sg, v)
    } else if looks_like_savegame(data, path) {
        savegame_decoded(data, v)
    } else {
        false
    }
}

/// An error's message under a prefix.
fn prefixed(prefix: &str, e: &ConversionError) -> (r: String)
    ensures
        r@.len() >= prefix@.len(),
        r@.subrange(0, prefix@.len() as int) == prefix@,
{
    let mut m = to_owned_string(prefix);
    let t = e.message();
    string_push_str(&mut m, t.as_str());
    assert(m@.subrange(0, prefix@.len() as int) =~= prefix@);
    m
}

/// Decompresses a console save input: an STFS package (by its magic) gives its
/// `savegame.dat`, decompressed; otherwise input that starts with the savegame magic,
/// or whose path ends in `.dat`, is decompressed as a raw savegame; anything else is
/// refused.
pub fn decompress_console_save(data: &[u8], input_path: &str) -> (r: Result<Vec<u8>, ConversionError>)
    ensures
        r matches Ok(v) ==> console_decoded(data@, input_path@, v@),
        console_decodes(data@, input_path@) ==> r is Ok,
        stfs_header(data@) && r is Err ==> ({
            ||| r matches Err(ConversionError::InvalidFormat(m)) && m@.len() >= 24
                && m@.subrange(0, 24) == "STFS extraction failed: "@
            ||| r matches Err(ConversionError::DecompressionFailed(m)) && m@.len() >= 36
                && m@.subrange(0, 36) == "STFS savegame decompression failed: "@
        }),
        !stfs_header(data@) && looks_like_savegame(data@, input_path@) ==> ({
            &&& r is Ok <==> savegame_ok(data@)
            &&& r is Err ==> (r matches Err(ConversionError::DecompressionFailed(m)) && m@.len() >= 31
                && m@.subrange(0, 31) == "Savegame decompression failed: "@)
        }),
        !stfs_header(data@) && !looks_like_savegame(data@, input_path@) ==>
            (r matches Err(ConversionError::InvalidFormat(m)) && m@ == "Not an STFS package (.bin) or savegame.dat (.dat)"@),
{
    proof {
        reveal_strlit("STFS extraction failed: ");
        reveal_strlit("STFS savegame decompression failed: ");
        reveal_strlit("Savegame decompression failed: ");
    }
    if is_stfs_package(data) {
        let savegame = match extract_savegame_from_stfs(data) {
            Ok(v) => v,
            Err(e) => return Err(ConversionError::InvalidFormat(prefixed("STFS extraction failed: ", &e))),
        };
        proof {
            if console_decodes(data@, input_path@) {
                let p = choose|p: StfsPackage| #[trigger] savegame_of(p, data@, savegame@);
                assert(savegame_of(p, data@, savegame@));
                assert(stfs_savegame_ok(savegame@));
            }
        }
        match try_decompress_stfs_savegame(savegame.as_slice()) {
            Ok(v) => {
                proof {
                    let p = choose|p: StfsPackage| #[trigger] savegame_of(p, data@, savegame@);
                    assert(savegame_of(p, data@, savegame@));
                    assert(stfs_savegame_decoded(savegame@, v@));
                }
                Ok(v)
            },
            Err(e) => Err(ConversionError::DecompressionFailed(prefixed("STFS savegame decompression failed: ", &e))),
        }
    } else {
        let mut magic = data.len() >= 8;
        if magic {
            let mut k: usize = 0;
            while k < 8
                invariant
                    k <= 8,
                    data@.len() >= 8,
                    magic == (forall|j: int| 0 <= j < k ==> data@[j] == #[trigger] savegame_magic()[j]),
                decreases 8 - k,
            {
                let expected: u8 = if k == 0 { 0x0B } else if k == 1 { 0xFC } else if k == 2 { 0x4A } else if k == 3 { 0x46 }
                    else if k == 4 { 0xAE } else if k == 5 { 0x7A } else if k == 6 { 0x43 } else { 0x2B };
                assert(expected == savegame_magic()[k as int]);
                magic = magic && data[k] == expected;
                k += 1;
            }
            if magic {
                assert(data@.subrange(0, 8) =~= savegame_magic());
            } else {
                assert(data@.subrange(0, 8) != savegame_magic() ) by {
                    let j = choose|j: int| 0 <= j < 8 && data@[j] != #[trigger] savegame_magic()[j];
                    assert(data@.subrange(0, 8)[j] == data@[j]);
                }
            }
        }
        if magic || str_ends_with(input_path, ".dat") {
            match try_decompress_savegame(data) {
                Ok(v) => Ok(v),
                Err(e) => Err(ConversionError::DecompressionFailed(prefixed("Savegame decompression failed: ", &e))),
            }
        } else {
            Err(ConversionError::InvalidFormat(to_owned_string("Not an STFS package (.bin) or savegame.dat (.dat)")))
        }
    }
}

/// `out` is the container of a console save rebuilt from its files: its level data as
/// `level.dat`, then its rebuilt regions.
pub open spec fn xbox360_container(files: Seq<(Seq<char>, Seq<u8>)>, out: Seq<u8>) -> bool {
    exists|regs: Seq<(Seq<char>, Seq<u8>)>, t: u64| #[trigger] container_bytes(save_files(files_level_dat(files), regs), t) == out
        && rebuilt_regions(regs, region_files(files))
}

/// The message of a conversion: `prefix`, the count in decimal, `suffix`.
pub open spec fn count_message(prefix: Seq<char>, n: nat, suffix: Seq<char>) -> Seq<char> {
    prefix + decimal(n) + suffix
}

/// Builds a message from a count between two texts.
fn count_text(prefix: &str, n: usize, suffix: &str) -> (r: String)
    ensures
        r@ == count_message(prefix@, n as nat, suffix@),
{
    let mut m = to_owned_string(prefix);
    push_decimal(&mut m, n as u64);
    string_push_str(&mut m, suffix);
    m
}

/// What rebuilding a console save from its decompressed files gives: the bytes to
/// write and the outcome. Where no chunk converts, the input itself is written.
pub open spec fn xbox360_outcome(data: Seq<u8>, files: Seq<(Seq<char>, Seq<u8>)>, out: Seq<u8>, res: ConversionResult) -> bool {
    let total = capped(region_chunk_total(region_files(files)));
    &&& res.success
    &&& res.chunk_count == total
    &&& res.unknown_blocks@.len() == 0
    &&& total == 0 ==> out == data && res.message@ == "No chunks found, copied raw data"@
    &&& total > 0 ==> res.message@ == count_message("Converted "@, total as nat, " chunks from Xbox 360 save"@)
        && xbox360_container(files, out)
}

/// Rebuilds a console save from its decompressed savegame: reads the file listing and
/// rebuilds its files.
fn convert_decompressed(data: &[u8], decompressed: &[u8]) -> (r: Result<(Vec<u8>, ConversionResult), ConversionError>)
    ensures
        spec_file_listing(decompressed@) is None <==> r is Err,
        r is Err ==> (r matches Err(ConversionError::InvalidFormat(m)) && m@.len() >= 27
            && m@.subrange(0, 27) == "File listing parse failed: "@),
        r matches Ok((out, res)) ==> xbox360_outcome(data@, spec_file_listing(decompressed@)->0, out@, res),
{
    let files = match parse_file_listing(decompressed) {
        Ok(f) => f,
        Err(e) => {
            let m = prefixed("File listing parse failed: ", &e);
            proof {
                reveal_strlit("File listing parse failed: ");
            }
            return Err(ConversionError::InvalidFormat(m));
        },
    };
    let rebuilt = convert_xbox360_files(&files);
    let Xbox360Rebuild { level_dat, regions, chunk_count } = rebuilt;
    if chunk_count == 0 {
        let empty: Vec<String> = Vec::new();
        let result = ConversionResult {
            success: true,
            message: to_owned_string("No chunks found, copied raw data"),
            chunk_count: 0,
            unknown_blocks: empty,
        };
        return Ok((vstd::slice::slice_to_vec(data), result));
    }
    let ms_data = match write_save_data_ms(level_dat.as_slice(), &regions) {
        Ok(v) => v,
        Err(e) => return Err(e),
    };
    let empty: Vec<String> = Vec::new();
    let result = ConversionResult {
        success: true,
        message: count_text("Converted ", chunk_count, " chunks from Xbox 360 save"),
        chunk_count,
        unknown_blocks: empty,
    };
    Ok((ms_data, result))
}

/// Converts a console save input (an STFS package or a raw savegame) into the bytes of
/// a Legacy Console save and the outcome: the input is decompressed (see
/// `decompress_console_save`), the savegame's file listing read and its files rebuilt.
pub fn convert_xbox360_save_bytes(data: &[u8], input_path: &str) -> (r: Result<(Vec<u8>, ConversionResult), ConversionError>)
    ensures
        r matches Ok((out, res)) ==> exists|dec: Seq<u8>| #[trigger] console_decoded(data@, input_path@, dec)
            && spec_file_listing(dec) is Some && xbox360_outcome(data@, spec_file_listing(dec)->0, out@, res),
        console_decodes(data@, input_path@)
            && (forall|dec: Seq<u8>| #[trigger] console_decoded(data@, input_path@, dec) ==> spec_file_listing(dec) is Some)
            ==> r is Ok,
        !stfs_header(data@) && !looks_like_savegame(data@, input_path@) ==>
            (r matches Err(ConversionError::InvalidFormat(m)) && m@ == "Not an STFS package (.bin) or savegame.dat (.dat)"@),
        !stfs_header(data@) && looks_like_savegame(data@, input_path@) && !savegame_ok(data@) ==>
            (r matches Err(ConversionError::DecompressionFailed(m)) && m@.len() >= 31
                && m@.subrange(0, 31) == "Savegame decompression failed: "@),
        r matches Err(ConversionError::InvalidFormat(m)) && m@.len() >= 27 && m@.subrange(0, 27) == "File listing parse failed: "@
            && !(m@.len() >= 24 && m@.subrange(0, 24) == "STFS extraction failed: "@)
            ==> exists|dec: Seq<u8>| #[trigger] console_decoded(data@, input_path@, dec) && spec_file_listing(dec) is None,
        stfs_header(data@) && r is Err ==> ({
            ||| r matches Err(ConversionError::InvalidFormat(m)) && m@.len() >= 24
                && m@.subrange(0, 24) == "STFS extraction failed: "@
            ||| r matches Err(ConversionError::DecompressionFailed(m)) && m@.len() >= 36
                && m@.subrange(0, 36) == "STFS savegame decompression failed: "@
            ||| r matches Err(ConversionError::InvalidFormat(m)) && m@.len() >= 27
                && m@.subrange(0, 27) == "File listing parse failed: "@
        }),
{
    let decompressed = match decompress_console_save(data, input_path) {
        Ok(d) => d,
        Err(e) => {
            proof {
                reveal_strlit("File listing parse failed: ");
                reveal_strlit("Not an STFS package (.bin) or savegame.dat (.dat)");
                let a = "Not an STFS package (.bin) or savegame.dat (.dat)"@;
                let b = "File listing parse failed: "@;
                assert(a.subrange(0, 27)[0] != b[0]);
            }
            return Err(e);
        },
    };
    let r = convert_decompressed(data, decompressed.as_slice());
    assert(console_decoded(data@, input_path@, decompressed@));
    r
}

proof fn lemma_added_concat(a: Seq<(i32, i32, Seq<u8>)>, b: Seq<(i32, i32, Seq<u8>)>, n: int)
    ensures
        ({
            let (ba, na, ca) = added(a, n);
            let (bb, nb, cb) = added(b, na);
            added(a + b, n) == (ba + bb, nb, ca + cb)
        }),
    decreases b.len(),
{
    let (ba, na, ca) = added(a, n);
    if b.len() == 0 {
        assert(a + b =~= a);
        assert(ba + Seq::<u8>::empty() =~= ba);
    } else {
        let b0 = b.drop_last();
        let c = b.last();
        assert(b0.push(c) =~= b);
        assert((a + b0).push(c) =~= a + b);
        lemma_added_concat(a, b0, n);
        lemma_added_step(a + b0, c, n);
        lemma_added_step(b0, c, na);
        let (bb0, nb0, cb0) = added(b0, na);
        let (bc, nc, cc) = added(seq![c], nb0);
        assert(ba + bb0 + bc =~= ba + (bb0 + bc));
    }
}

proof fn lemma_added_bounds(c: Seq<(i32, i32, Seq<u8>)>, n: int)
    requires
        0 <= n <= u32::MAX,
    ensures
        n <= added(c, n).1 <= u32::MAX,
        added(c, n).2 + n <= added(c, n).1,
    decreases c.len(),
{
    if c.len() > 0 {
        lemma_added_bounds(c.drop_last(), n);
    }
}

/// The chunks converted from the region files of one dimension, file after file.
pub open spec fn dimension_chunks(files: Seq<Seq<u8>>, preserve: bool, shift: Option<i32>) -> Seq<(i32, i32, Seq<u8>)>
    decreases files.len(),
{
    if files.len() == 0 {
        Seq::empty()
    } else {
        dimension_chunks(files.drop_last(), preserve, shift) + java_chunks(region_records(files.last()), preserve, shift)
    }
}

/// The unknown-block list after converting the region files of one dimension.
pub open spec fn dimension_unknowns(files: Seq<Seq<u8>>, u: Seq<Seq<char>>) -> Seq<Seq<char>>
    decreases files.len(),
{
    if files.len() == 0 {
        u
    } else {
        java_chunks_unknowns(region_records(files.last()), dimension_unknowns(files.drop_last(), u))
    }
}

/// The contents of region files as sequences.
pub open spec fn contents_view(files: Seq<Vec<u8>>) -> Seq<Seq<u8>> {
    files.map_values(|f: Vec<u8>| f@)
}

/// Converts the region files of one dimension of a Java world into one Legacy Console
/// region file: every chunk of every file, in order, a later chunk at the same
/// position taking its place in the table. Returns the region file and the number of
/// chunks that went in.
pub fn convert_java_dimension(region_files: &Vec<Vec<u8>>, context: &mut ChunkConversionContext) -> (r: (Vec<u8>, usize))
    ensures
        ({
            let chunks = dimension_chunks(contents_view(region_files@), old(context).preserve_dynamic_chunk_data,
                old(context).global_modern_section_shift);
            &&& built_region(r.0@, chunks)
            &&& r.1 == added(chunks, 2).2
        }),
        final(context).preserve_dynamic_chunk_data == old(context).preserve_dynamic_chunk_data,
        final(context).global_modern_section_shift == old(context).global_modern_section_shift,
        strings_view(final(context).unknown_blocks@) == dimension_unknowns(contents_view(region_files@),
            strings_view(old(context).unknown_blocks@)),
{
    let ghost preserve = context.preserve_dynamic_chunk_data;
    let ghost shift = context.global_modern_section_shift;
    let ghost u0 = strings_view(context.unknown_blocks@);
    let ghost fs = contents_view(region_files@);
    let mut region = LceRegionFile::new();
    let ghost s0 = region.sectors_view();
    assert(places(region.offsets_view()) =~= Seq::<((i32, i32), (u32, u32))>::empty());
    let mut count: usize = 0;
    let mut i: usize = 0;
    assert(fs.take(0) =~= Seq::<Seq<u8>>::empty());
    assert(s0 + Seq::<u8>::empty() =~= s0);
    while i < region_files.len()
        invariant
            fs == contents_view(region_files@),
            fs.len() == region_files@.len(),
            i <= region_files@.len(),
            s0 == zeros(8192),
            region.wf(),
            region.sectors_view() == s0 + added(dimension_chunks(fs.take(i as int), preserve, shift), 2).0,
            region.next_sector_view() == added(dimension_chunks(fs.take(i as int), preserve, shift), 2).1,
            count == added(dimension_chunks(fs.take(i as int), preserve, shift), 2).2,
            places(region.offsets_view()) == added_places(dimension_chunks(fs.take(i as int), preserve, shift), 2, Seq::empty()),
            context.preserve_dynamic_chunk_data == preserve,
            context.global_modern_section_shift == shift,
            strings_view(context.unknown_blocks@) == dimension_unknowns(fs.take(i as int), u0),
        decreases region_files@.len() - i,
    {
        let ghost prev = dimension_chunks(fs.take(i as int), preserve, shift);
        let ghost here = java_chunks(region_records(fs[i as int]), preserve, shift);
        let ghost s_before = region.sectors_view();
        proof {
            assert(fs[i as int] == region_files@[i as int]@);
            assert(fs.take(i + 1).drop_last() =~= fs.take(i as int));
            assert(fs.take(i + 1).last() == fs[i as int]);
            lemma_added_concat(prev, here, 2);
            lemma_added_places_concat(prev, here, 2, Seq::empty());
            lemma_added_bounds(prev + here, 2);
        }
        let n = convert_java_region_file(region_files[i].as_slice(), &mut region, context);
        proof {
            let b0 = added(prev, 2).0;
            let b1 = added(here, added(prev, 2).1).0;
            assert(s0 + b0 + b1 =~= s0 + (b0 + b1));
        }
        count = count + n;
        i += 1;
    }
    assert(fs.take(region_files@.len() as int) =~= fs);
    let ghost built = region;
    let bytes = match region.build() {
        Ok(b) => b,
        Err(_) => Vec::new(),
    };
    assert(built.wf());
    (bytes, count)
}

/// The key under which a dimension's region file is stored in the container.
pub open spec fn dimension_key(dim_dir: Seq<char>) -> Seq<char> {
    if dim_dir == "region"@ { "region/r.0.0.mcr"@ } else { dim_dir + "/r.0.0.mcr"@ }
}

/// The key under which a dimension's region file is stored: `region/r.0.0.mcr` for the
/// overworld directory `region`, else the directory followed by `/r.0.0.mcr`.
pub fn dimension_region_key(dim_dir: &str) -> (r: String)
    ensures
        r@ == dimension_key(dim_dir@),
{
    if str_eq(dim_dir, "region") {
        to_owned_string("region/r.0.0.mcr")
    } else {
        let mut k = to_owned_string(dim_dir);
        string_push_str(&mut k, "/r.0.0.mcr");
        k
    }
}

/// The settings of a Java world conversion checked: the profile must be known. The
/// conversion context then preserves entities as the options say.
pub fn java_conversion_context(options: &ConversionOptions) -> (r: Result<ChunkConversionContext, ConversionError>)
    ensures
        spec_profile(options.profile@) is None <==> r is Err,
        r is Err ==> (r matches Err(ConversionError::InvalidFormat(m)) && m@ == "Unknown profile: "@ + options.profile@),
        r matches Ok(c) ==> c.preserve_dynamic_chunk_data == options.preserve_entities
            && c.global_modern_section_shift is None && c.unknown_blocks@.len() == 0,
{
    match get_profile(options.profile.as_str()) {
        Some(_) => {
            let mut c = ChunkConversionContext::new();
            c.preserve_dynamic_chunk_data = options.preserve_entities;
            Ok(c)
        },
        None => {
            let mut m = to_owned_string("Unknown profile: ");
            string_push_str(&mut m, options.profile.as_str());
            Err(ConversionError::InvalidFormat(m))
        },
    }
}

/// The regions of converted dimensions: each region file under its dimension's key.
pub open spec fn dimension_regions(dims: Seq<(String, Vec<u8>, usize)>) -> Seq<(Seq<char>, Seq<u8>)> {
    dims.map_values(|d: (String, Vec<u8>, usize)| (dimension_key(d.0@), d.1@))
}

/// The number of chunks of converted dimensions.
pub open spec fn dimensions_total(dims: Seq<(String, Vec<u8>, usize)>) -> nat
    decreases dims.len(),
{
    if dims.len() == 0 { 0 } else { dimensions_total(dims.drop_last()) + dims.last().2 as nat }
}

/// Writes the container of a converted Java world, from its converted `level.dat` and
/// its dimensions (directory, region file, chunk count), and the outcome: the chunks
/// converted and the unknown blocks met.
pub fn finish_java_conversion(lce_level_dat: &[u8], dimensions: &Vec<(String, Vec<u8>, usize)>, context: ChunkConversionContext)
    -> (r: Result<(Vec<u8>, ConversionResult), ConversionError>)
    ensures
        r matches Ok((out, res)) && {
            let total = capped(dimensions_total(dimensions@));
            &&& exists|t: u64| #[trigger] container_bytes(save_files(lce_level_dat@, dimension_regions(dimensions@)), t) == out@
            &&& res.success
            &&& res.chunk_count == total
            &&& res.message@ == count_message("Successfully converted "@, total as nat, " chunks"@)
            &&& res.unknown_blocks@ == context.unknown_blocks@
        },
{
    let mut regions: Vec<(String, Vec<u8>)> = Vec::new();
    let mut total: usize = 0;
    let mut i: usize = 0;
    assert(dimensions@.take(0) =~= Seq::<(String, Vec<u8>, usize)>::empty());
    assert(files_view(regions@) =~= dimension_regions(dimensions@.take(0)));
    while i < dimensions.len()
        invariant
            i <= dimensions@.len(),
            files_view(regions@) == dimension_regions(dimensions@.take(i as int)),
            total == capped(dimensions_total(dimensions@.take(i as int))),
        decreases dimensions@.len() - i,
    {
        let key = dimension_region_key(dimensions[i].0.as_str());
        let bytes = vstd::slice::slice_to_vec(dimensions[i].1.as_slice());
        let n = dimensions[i].2;
        let ghost before = files_view(regions@);
        regions.push((key, bytes));
        proof {
            let t1 = dimensions@.take(i + 1);
            assert(t1.drop_last() =~= dimensions@.take(i as int));
            assert(t1.last() == dimensions@[i as int]);
            assert(files_view(regions@) =~= before.push((key@, bytes@)));
            assert(dimension_regions(t1) =~= dimension_regions(dimensions@.take(i as int)).push((key@, bytes@)));
        }
        total = if total > usize::MAX - n { usize::MAX } else { total + n };
        i += 1;
    }
    assert(dimensions@.take(dimensions@.len() as int) =~= dimensions@);
    let out = match write_save_data_ms(lce_level_dat, &regions) {
        Ok(v) => v,
        Err(e) => return Err(e),
    };
    let ChunkConversionContext { unknown_blocks, .. } = context;
    let result = ConversionResult {
        success: true,
        message: count_text("Successfully converted ", total, " chunks"),
        chunk_count: total,
        unknown_blocks,
    };
    Ok((out, result))
}

/// Lines joined with newlines between them.
pub open spec fn joined_lines(v: Seq<Seq<char>>) -> Seq<char>
    decreases v.len(),
{
    if v.len() == 0 {
        Seq::empty()
    } else if v.len() == 1 {
        v[0]
    } else {
        joined_lines(v.drop_last()) + "\n"@ + v.last()
    }
}

/// The message shown after a world import: the chunk count and output path, then the
/// unknown blocks, one per line, where there are any.
pub open spec fn import_message(count: nat, output: Seq<char>, unknown: Seq<Seq<char>>) -> Seq<char> {
    let base = "World imported successfully!\nChunks converted: "@ + decimal(count) + "\nOutput: "@ + output;
    if unknown.len() == 0 { base } else { base + "\n\nUnknown blocks (mapped to air):\n"@ + joined_lines(unknown) }
}

/// The message shown after a world import, from its outcome and output path.
pub fn import_summary(result: &ConversionResult, output_path: &str) -> (r: String)
    ensures
        r@ == import_message(result.chunk_count as nat, output_path@, strings_view(result.unknown_blocks@)),
{
    let mut m = to_owned_string("World imported successfully!\nChunks converted: ");
    push_decimal(&mut m, result.chunk_count as u64);
    string_push_str(&mut m, "\nOutput: ");
    string_push_str(&mut m, output_path);
    let ghost base = m@;
    let ghost u = strings_view(result.unknown_blocks@);
    let n = result.unknown_blocks.len();
    if n == 0 {
        assert(u.len() == 0);
        return m;
    }
    string_push_str(&mut m, "\n\nUnknown blocks (mapped to air):\n");
    let ghost head = m@;
    string_push_str(&mut m, result.unknown_blocks[0].as_str());
    proof {
        assert(u.take(1) =~= seq![u[0]]);
        assert(u[0] == result.unknown_blocks@[0]@);
    }
    let mut i: usize = 1;
    while i < n
        invariant
            n == result.unknown_blocks@.len(),
            u == strings_view(result.unknown_blocks@),
            u.len() == n,
            1 <= i <= n,
            m@ == head + joined_lines(u.take(i as int)),
        decreases n - i,
    {
        string_push_str(&mut m, "\n");
        string_push_str(&mut m, result.unknown_blocks[i].as_str());
        proof {
            let t = u.take(i + 1);
            assert(t.drop_last() =~= u.take(i as int));
            assert(t.last() == u[i as int]);
            assert(u[i as int] == result.unknown_blocks@[i as int]@);
        }
        i += 1;
    }
    assert(u.take(n as int) =~= u);
    m
}

proof fn lemma_java_chunks_unknowns_extend(raws: Seq<(usize, usize, Seq<u8>)>, u: Seq<Seq<char>>)
    requires
        u.no_duplicates(),
    ensures
        extends_unique(u, java_chunks_unknowns(raws, u)),
    decreases raws.len(),
{
    if raws.len() == 0 {
        assert(u.subrange(0, u.len() as int) =~= u);
    } else {
        lemma_java_chunks_unknowns_extend(raws.drop_last(), u);
        let p = java_chunks_unknowns(raws.drop_last(), u);
        match record_level(raws.last().2) {
            Some(level) => {
                if has_sections(level) && level_readable(level) {
                    lemma_level_unknowns_extend(p, level);
                    lemma_extends_trans(u, p, level_unknowns(p, level));
                }
            },
            None => {},
        }
    }
}

/// Converting the region files of a dimension records each unknown block once, in the
/// order first met: starting from a list without repeats, the list afterwards has no
/// repeats and begins with the list before.
pub proof fn lemma_dimension_unknowns_extend(files: Seq<Seq<u8>>, u: Seq<Seq<char>>)
    requires
        u.no_duplicates(),
    ensures
        extends_unique(u, dimension_unknowns(files, u)),
    decreases files.len(),
{
    if files.len() == 0 {
        assert(u.subrange(0, u.len() as int) =~= u);
    } else {
        lemma_dimension_unknowns_extend(files.drop_last(), u);
        let p = dimension_unknowns(files.drop_last(), u);
        lemma_java_chunks_unknowns_extend(region_records(files.last()), p);
        lemma_extends_trans(u, p, java_chunks_unknowns(region_records(files.last()), p));
    }
}

/// Whether a file name is that of a Java region file (`.mca` or `.mcr`).
pub fn is_region_file_name(name: &str) -> (r: bool)
    ensures
        r == (ends_with(name@, ".mca"@) || ends_with(name@, ".mcr"@)),
{
    str_ends_with(name, ".mca") || str_ends_with(name, ".mcr")
}

/// How a world is imported: a Legacy Console save copied as it is, a Java world
/// directory converted, or an Xbox 360 save converted.
#[derive(Debug, Clone, Copy, PartialEq, Eq, Structural)]
pub enum ImportKind {
    CopyLce,
    JavaWorld,
    Xbox360Save,
}

/// What `str::to_lowercase` makes of a string.
pub uninterp spec fn lowercase(s: Seq<char>) -> Seq<char>;

/// `str::to_lowercase`: the string with each character replaced by its Unicode
/// lowercase. The result is named: it is taken to depend on `s` alone.
#[verifier::external_body]
fn str_to_lowercase(s: &str) -> (r: String)
    ensures
        r@ == lowercase(s@),
{
    s.to_lowercase()
}

/// How the input at `path` is imported: a path ending in `.ms` (in any case) is a
/// Legacy Console save, else a directory is a Java world, else an Xbox 360 save.
pub fn import_kind(path: &str, is_dir: bool) -> (r: ImportKind)
    ensures
        r == (if ends_with(lowercase(path@), ".ms"@) {
            ImportKind::CopyLce
        } else if is_dir {
            ImportKind::JavaWorld
        } else {
            ImportKind::Xbox360Save
        }),
{
    let lower = str_to_lowercase(path);
    if str_ends_with(lower.as_str(), ".ms") {
        ImportKind::CopyLce
    } else if is_dir {
        ImportKind::JavaWorld
    } else {
        ImportKind::Xbox360Save
    }
}

} // verus!
