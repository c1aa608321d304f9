use console2lce::error::ConversionError;
use console2lce::lce_chunk_payload::rle_compress;
use console2lce::stfs::{decode_rle, decompress_lzx_chunked, extract_savegame_from_stfs, is_stfs_package, try_decompress_savegame,
    try_decompress_stfs_savegame};
use std::io::Write;

const MAGIC: [u8; 8] = [0x0B, 0xFC, 0x4A, 0x46, 0xAE, 0x7A, 0x43, 0x2B];

fn savegame(size: u32, ty: u32, payload: &[u8]) -> Vec<u8> {
    let mut v = MAGIC.to_vec();
    v.extend_from_slice(&size.to_be_bytes());
    v.extend_from_slice(&ty.to_be_bytes());
    v.extend_from_slice(payload);
    v
}

#[test]
fn stfs_magic_detection() {
    assert!(is_stfs_package(b"CON rest"));
    assert!(!is_stfs_package(b"LIVE"));
    assert!(!is_stfs_package(b"CO"));
}

#[test]
fn savegame_stored_is_cut_to_size() {
    assert_eq!(try_decompress_savegame(&savegame(3, 0, &[9, 8, 7, 6])).unwrap(), vec![9, 8, 7]);
    assert_eq!(try_decompress_savegame(&savegame(10, 0, &[9, 8])).unwrap(), vec![9, 8]);
}

#[test]
fn savegame_zlib_decodes() {
    let mut enc = flate2::write::ZlibEncoder::new(Vec::new(), flate2::Compression::default());
    enc.write_all(b"hello savegame").unwrap();
    let z = enc.finish().unwrap();
    assert_eq!(try_decompress_savegame(&savegame(14, 2, &z)).unwrap(), b"hello savegame".to_vec());
    assert!(matches!(try_decompress_savegame(&savegame(14, 2, &[1, 2, 3])), Err(ConversionError::Io(_))));
}

#[test]
fn savegame_rle_expands() {
    assert_eq!(try_decompress_savegame(&savegame(6, 3, &[1, 0xFF, 4, 7, 2])).unwrap(), vec![1, 7, 7, 7, 7, 2]);
}

#[test]
fn savegame_errors() {
    assert!(matches!(try_decompress_savegame(&savegame(1, 9, &[1])), Err(ConversionError::DecompressionFailed(_))));
    assert!(matches!(try_decompress_savegame(&[0u8; 20]), Err(ConversionError::InvalidFormat(_))));
    assert!(matches!(try_decompress_savegame(&MAGIC), Err(ConversionError::InvalidFormat(_))));
}

#[test]
fn rle_compress_then_decode_gives_back_data() {
    let data: Vec<u8> = vec![1, 1, 1, 1, 1, 1, 2, 3, 3, 3, 4, 4, 4, 4, 4, 0, 0];
    let packed = rle_compress(&data);
    assert!(packed.len() < data.len());
    assert_eq!(decode_rle(&packed, data.len()).unwrap(), data);
    assert_eq!(rle_compress(&[5, 5, 5, 5, 5]), vec![0xFF, 5, 5]);
    assert_eq!(rle_compress(&[5, 5, 5]), vec![5, 5, 5]);
}

#[test]
fn stfs_savegame_header_errors() {
    assert!(matches!(try_decompress_stfs_savegame(&[0u8; 8]), Err(ConversionError::InvalidFormat(_))));
    // compressed size 0 (total size 8)
    let mut h = 8u32.to_be_bytes().to_vec();
    h.extend_from_slice(&[0, 0, 0, 0, 0, 0, 0, 10]);
    assert!(matches!(try_decompress_stfs_savegame(&h), Err(ConversionError::InvalidFormat(_))));
    // decompressed size 0
    let mut h = 9u32.to_be_bytes().to_vec();
    h.extend_from_slice(&[0, 0, 0, 0, 0, 0, 0, 0, 1]);
    assert!(matches!(try_decompress_stfs_savegame(&h), Err(ConversionError::InvalidFormat(_))));
}

#[test]
fn stfs_extraction_refuses_garbage() {
    assert!(matches!(extract_savegame_from_stfs(b"CON garbage"), Err(ConversionError::InvalidFormat(_))));
    assert!(matches!(extract_savegame_from_stfs(&[0u8; 64]), Err(ConversionError::InvalidFormat(_))));
}

const LZX_ABC: [u8; 20] = [
    0x00, 0x30, 0x30, 0x00, 0x01, 0x00, 0x00, 0x00, 0x01, 0x00, 0x00, 0x00, 0x01, 0x00, 0x00, 0x00, b'a', b'b', b'c', 0x00,
];

#[test]
fn lzx_chunked_stream_decodes_a_compressed_chunk() {
    let mut data = vec![0x80, LZX_ABC.len() as u8];
    data.extend_from_slice(&LZX_ABC);
    assert_eq!(decompress_lzx_chunked(&data, 3).unwrap(), b"abc".to_vec());
}

#[test]
fn stfs_savegame_decodes_its_lzx_stream() {
    let mut stream = vec![0x80, LZX_ABC.len() as u8];
    stream.extend_from_slice(&LZX_ABC);
    let mut sg = ((stream.len() + 8) as u32).to_be_bytes().to_vec();
    sg.extend_from_slice(&[0, 0, 0, 0, 0, 0, 0, 3]);
    sg.extend_from_slice(&stream);
    assert_eq!(try_decompress_stfs_savegame(&sg).unwrap(), b"abc".to_vec());
}
