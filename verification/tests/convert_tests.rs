use console2lce::convert::{convert_java_chunk, convert_java_dimension, convert_xbox360_chunk, convert_xbox360_save_bytes,
    decompress_console_save, dimension_region_key, finish_java_conversion, import_summary, java_conversion_context};
use console2lce::error::ConversionError;
use console2lce::lce_region::LceRegionFile;
use console2lce::models::{ChunkConversionContext, ConversionOptions, ConversionResult};
use console2lce::nbt::{write_zlibbed_nbt, NbtTag};
use console2lce::region::read_java_mcr_region;

const MAGIC: [u8; 8] = [0x0B, 0xFC, 0x4A, 0x46, 0xAE, 0x7A, 0x43, 0x2B];

fn chunk_record(level: Vec<(String, NbtTag)>) -> Vec<u8> {
    let root = NbtTag::Compound(vec![("Level".to_string(), NbtTag::Compound(level))]);
    let z = write_zlibbed_nbt("", &root).unwrap();
    let mut rec = ((z.len() + 1) as u32).to_be_bytes().to_vec();
    rec.push(2);
    rec.extend_from_slice(&z);
    rec
}

fn region_with(level: Vec<(String, NbtTag)>) -> Vec<u8> {
    let root = NbtTag::Compound(vec![("Level".to_string(), NbtTag::Compound(level))]);
    let z = write_zlibbed_nbt("", &root).unwrap();
    let mut region = LceRegionFile::new();
    region.add_chunk(0, 0, &z).unwrap();
    region.build().unwrap()
}

fn pos_level(x: i32, z: i32) -> Vec<(String, NbtTag)> {
    vec![("xPos".to_string(), NbtTag::Int(x)), ("zPos".to_string(), NbtTag::Int(z))]
}

fn listing(files: &[(&str, Vec<u8>)]) -> Vec<u8> {
    let mut body = Vec::new();
    let mut offsets = Vec::new();
    for (_, content) in files {
        offsets.push(12 + body.len());
        body.extend_from_slice(content);
    }
    let index = 12 + body.len();
    let mut data = (index as u32).to_be_bytes().to_vec();
    data.extend_from_slice(&(files.len() as u32).to_be_bytes());
    data.extend_from_slice(&2u16.to_be_bytes());
    data.extend_from_slice(&2u16.to_be_bytes());
    data.extend_from_slice(&body);
    for (k, (name, content)) in files.iter().enumerate() {
        let mut entry = vec![0u8; 144];
        for (j, u) in name.encode_utf16().enumerate() {
            entry[2 * j] = (u & 0xFF) as u8;
            entry[2 * j + 1] = (u >> 8) as u8;
        }
        entry[128..132].copy_from_slice(&(content.len() as u32).to_be_bytes());
        entry[132..136].copy_from_slice(&(offsets[k] as u32).to_be_bytes());
        data.extend_from_slice(&entry);
    }
    data
}

fn stored_savegame(payload: &[u8]) -> Vec<u8> {
    let mut v = MAGIC.to_vec();
    v.extend_from_slice(&(payload.len() as u32).to_be_bytes());
    v.extend_from_slice(&0u32.to_be_bytes());
    v.extend_from_slice(payload);
    v
}

#[test]
fn java_chunk_keeps_its_position() {
    let mut level = pos_level(3, -2);
    level.push(("Blocks".to_string(), NbtTag::ByteArray(vec![1u8; 10])));
    let mut ctx = ChunkConversionContext::new();
    let (x, z, payload) = convert_java_chunk(&chunk_record(level), &mut ctx).unwrap();
    assert_eq!((x, z), (3, -2));
    assert!(!payload.is_empty());
    assert!(ctx.unknown_blocks.is_empty());
}

#[test]
fn java_chunk_without_position_sits_at_origin() {
    let mut ctx = ChunkConversionContext::new();
    let (x, z, _) = convert_java_chunk(&chunk_record(vec![]), &mut ctx).unwrap();
    assert_eq!((x, z), (0, 0));
}

#[test]
fn java_chunk_that_does_not_decode_is_skipped() {
    let mut ctx = ChunkConversionContext::new();
    assert!(convert_java_chunk(&[0, 0, 0, 2, 9, 1], &mut ctx).is_none());
    assert!(convert_java_chunk(&[0, 0], &mut ctx).is_none());
}

#[test]
fn xbox_chunk_falls_back_to_its_slot() {
    let (x, z, _) = convert_xbox360_chunk(4, 7, &chunk_record(vec![])).unwrap();
    assert_eq!((x, z), (4, 7));
    let (x, z, _) = convert_xbox360_chunk(4, 7, &chunk_record(pos_level(-9, 12))).unwrap();
    assert_eq!((x, z), (-9, 12));
    assert!(convert_xbox360_chunk(0, 0, &[1, 2]).is_none());
}

#[test]
fn java_dimension_gathers_chunks_into_one_region() {
    let files = vec![region_with(pos_level(5, 6)), region_with(pos_level(7, 8)), vec![0u8; 10]];
    let mut ctx = ChunkConversionContext::new();
    let (bytes, count) = convert_java_dimension(&files, &mut ctx);
    assert_eq!(count, 2);
    let chunks = read_java_mcr_region(&bytes).unwrap();
    assert_eq!(chunks.len(), 2);
    assert_eq!((chunks[0].0, chunks[0].1), (5, 6));
    assert_eq!((chunks[1].0, chunks[1].1), (7, 8));
}

#[test]
fn dimension_keys() {
    assert_eq!(dimension_region_key("region"), "region/r.0.0.mcr");
    assert_eq!(dimension_region_key("DIM-1/region"), "DIM-1/region/r.0.0.mcr");
}

#[test]
fn java_context_checks_profile() {
    let mut options = ConversionOptions::default();
    options.preserve_entities = true;
    let ctx = java_conversion_context(&options).unwrap();
    assert!(ctx.preserve_dynamic_chunk_data);
    assert!(ctx.global_modern_section_shift.is_none());
    options.profile = "huge".to_string();
    match java_conversion_context(&options) {
        Err(ConversionError::InvalidFormat(m)) => assert_eq!(m, "Unknown profile: huge"),
        _ => panic!("expected an unknown-profile error"),
    }
}

#[test]
fn java_finish_reports_total() {
    let dims = vec![("region".to_string(), vec![1u8, 2], 3usize), ("DIM1/region".to_string(), vec![3u8], 4usize)];
    let mut ctx = ChunkConversionContext::new();
    ctx.unknown_blocks.push("gizmo".to_string());
    let (out, res) = finish_java_conversion(&[9, 9], &dims, ctx).unwrap();
    assert!(res.success);
    assert_eq!(res.chunk_count, 7);
    assert_eq!(res.message, "Successfully converted 7 chunks");
    assert_eq!(res.unknown_blocks, vec!["gizmo".to_string()]);
    assert_eq!(u32::from_le_bytes([out[10], out[11], out[12], out[13]]), 3);
}

#[test]
fn console_input_that_is_neither_package_nor_savegame() {
    match decompress_console_save(&[1, 2, 3, 4, 5, 6, 7, 8, 9], "world.bin") {
        Err(ConversionError::InvalidFormat(m)) => assert_eq!(m, "Not an STFS package (.bin) or savegame.dat (.dat)"),
        _ => panic!("expected an invalid-format error"),
    }
}

#[test]
fn console_input_named_dat_that_does_not_decompress() {
    match decompress_console_save(&[1, 2, 3, 4, 5, 6, 7, 8, 9], "savegame.dat") {
        Err(ConversionError::DecompressionFailed(m)) => assert!(m.starts_with("Savegame decompression failed: ")),
        _ => panic!("expected a decompression error"),
    }
}

#[test]
fn console_savegame_with_bad_listing() {
    match convert_xbox360_save_bytes(&stored_savegame(&[0u8; 4]), "x.bin") {
        Err(ConversionError::InvalidFormat(m)) => assert!(m.starts_with("File listing parse failed: ")),
        _ => panic!("expected a listing error"),
    }
}

#[test]
fn console_savegame_converts_its_regions() {
    let region = region_with(pos_level(5, 6));
    let files = listing(&[("level.dat", vec![1, 2, 3, 4]), ("r.0.0.mcr", region)]);
    let input = stored_savegame(&files);
    let (out, res) = convert_xbox360_save_bytes(&input, "x.bin").unwrap();
    assert!(res.success);
    assert_eq!(res.chunk_count, 1);
    assert_eq!(res.message, "Converted 1 chunks from Xbox 360 save");
    assert_eq!(u32::from_le_bytes([out[10], out[11], out[12], out[13]]), 2);
    assert_eq!(&out[14..18], &[1, 2, 3, 4]);
}

#[test]
fn console_savegame_without_chunks_is_copied() {
    let files = listing(&[("level.dat", vec![1, 2, 3, 4])]);
    let input = stored_savegame(&files);
    let (out, res) = convert_xbox360_save_bytes(&input, "x.bin").unwrap();
    assert_eq!(out, input);
    assert_eq!(res.chunk_count, 0);
    assert_eq!(res.message, "No chunks found, copied raw data");
}

#[test]
fn import_summary_lists_unknown_blocks() {
    let mut res = ConversionResult { success: true, message: String::new(), chunk_count: 12, unknown_blocks: Vec::new() };
    assert_eq!(import_summary(&res, "out.ms"), "World imported successfully!\nChunks converted: 12\nOutput: out.ms");
    res.unknown_blocks = vec!["a".to_string(), "b".to_string()];
    assert_eq!(import_summary(&res, "o"),
        "World imported successfully!\nChunks converted: 12\nOutput: o\n\nUnknown blocks (mapped to air):\na\nb");
}
