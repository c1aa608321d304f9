use console2lce::archive::{extract_file_from_archive, parse_archive};
use console2lce::chunk::try_decode_compressed_tile_storage;
use console2lce::error::ConversionError;
use console2lce::models::{ArchiveEntry, LegacyBlockState};
use console2lce::region::{parse_xbox360_region, read_region_chunk};
use console2lce::stfs::decompress_lzx_chunked;

fn one_entry_archive() -> Vec<u8> {
    let mut data = vec![1u8, 0, 0, 0, 1, 0, 0, 0, 0, 0, 0, 1, 0, 0, 0, 0, 0, 0x61];
    data.extend_from_slice(&[0u8; 126]);
    data.extend_from_slice(&[0, 0, 0, 5, 0, 0, 0, 32, 0, 0, 0, 0, 0, 0, 0, 9]);
    data
}

#[test]
fn archive_with_one_entry_parses() {
    let entries = parse_archive(&one_entry_archive()).unwrap();
    assert_eq!(entries.len(), 1);
    assert_eq!(entries[0].name, "a");
    assert_eq!(entries[0].offset, 32);
    assert_eq!(entries[0].length, 5);
    assert_eq!(entries[0].timestamp, 9);
}

#[test]
fn archive_with_bad_magic_is_refused() {
    let mut data = one_entry_archive();
    data[0] = 2;
    assert!(matches!(parse_archive(&data), Err(ConversionError::InvalidFormat(_))));
    assert!(matches!(parse_archive(&[1, 0, 0]), Err(ConversionError::InvalidFormat(_))));
}

#[test]
fn archive_entry_in_range_is_copied_out() {
    let data: Vec<u8> = (0u8..40).collect();
    let entry = ArchiveEntry { name: "a".to_string(), offset: 32, length: 5, timestamp: 9 };
    assert_eq!(extract_file_from_archive(&data, &entry).unwrap(), vec![32, 33, 34, 35, 36]);
    let late = ArchiveEntry { name: "b".to_string(), offset: 38, length: 5, timestamp: 0 };
    assert!(matches!(extract_file_from_archive(&data, &late), Err(ConversionError::InvalidFormat(_))));
}

#[test]
fn tile_storage_of_zeros_is_all_air() {
    let blocks = try_decode_compressed_tile_storage(&vec![0u8; 2048]).unwrap();
    assert_eq!(blocks.len(), 16384);
    assert!(blocks.iter().all(|b| *b == LegacyBlockState { id: 0, data: 0 }));
}

#[test]
fn tile_storage_with_one_full_group() {
    let mut data = vec![0x60u8, 0x00];
    data.extend_from_slice(&[0u8; 2046]);
    data.extend((1..=32u8).collect::<Vec<u8>>());
    let blocks = try_decode_compressed_tile_storage(&data).unwrap();
    assert_eq!(blocks.len(), 16384);
    for i in 0..16usize {
        assert_eq!(blocks[i], LegacyBlockState { id: 2 * i as u8 + 1, data: 2 * i as u8 + 2 });
    }
    assert!(blocks[16..].iter().all(|b| *b == LegacyBlockState { id: 0, data: 0 }));
}

#[test]
fn tile_storage_too_short() {
    assert!(matches!(try_decode_compressed_tile_storage(&[0u8; 2047]), Err(ConversionError::InvalidFormat(_))));
}

#[test]
fn xbox_region_reads_a_present_chunk() {
    let mut data = vec![0u8; 3 * 4096];
    // chunk (1, 0): table index 1, sector 2, one sector long
    data[4..8].copy_from_slice(&[0, 0, 2, 1]);
    data[2 * 4096] = 0xAB;
    let region = parse_xbox360_region(&data).unwrap();
    let chunk = read_region_chunk(&region, 1, 0).unwrap();
    assert_eq!(chunk.len(), 4096);
    assert_eq!(chunk[0], 0xAB);
    assert!(matches!(read_region_chunk(&region, 0, 0), Err(ConversionError::MissingData(_))));
    assert!(matches!(read_region_chunk(&region, 32, 0), Err(ConversionError::InvalidFormat(_))));
}

#[test]
fn xbox_region_chunk_past_the_data() {
    let mut data = vec![0u8; 8192];
    data[0..4].copy_from_slice(&[0, 0, 2, 1]);
    let region = parse_xbox360_region(&data).unwrap();
    assert!(matches!(read_region_chunk(&region, 0, 0), Err(ConversionError::InvalidFormat(_))));
    assert!(matches!(parse_xbox360_region(&[0u8; 8191]), Err(ConversionError::InvalidFormat(_))));
}

#[test]
fn lzx_stream_without_compressed_chunks() {
    assert_eq!(decompress_lzx_chunked(&[], 5).unwrap(), Vec::<u8>::new());
    assert_eq!(decompress_lzx_chunked(&[0, 0, 1, 2], 10).unwrap(), Vec::<u8>::new());
}
