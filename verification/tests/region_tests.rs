use console2lce::error::ConversionError;
use console2lce::lce_region::LceRegionFile;
use console2lce::region::{read_java_mca_region, read_java_mcr_region};

#[test]
fn region_file_layout_after_one_chunk() {
    let mut region = LceRegionFile::new();
    region.add_chunk(0, 0, &[1, 2, 3]).unwrap();
    let bytes = region.build().unwrap();
    assert_eq!(bytes.len(), 3 * 4096);
    assert_eq!(&bytes[0..4], &[0, 0, 2, 1]);
    assert_eq!(&bytes[8192..8200], &[0, 0, 0, 3, 2, 1, 2, 3]);
    assert!(bytes[8200..].iter().all(|b| *b == 0));
}

#[test]
fn region_file_slots_follow_coordinates() {
    let mut region = LceRegionFile::new();
    region.add_chunk(1, 2, &[9]).unwrap();
    region.add_chunk(-1, 0, &vec![7u8; 5000]).unwrap();
    let bytes = region.build().unwrap();
    // (1, 2) sits in slot 2 * 32 + 1, at sector 2, one sector long.
    let slot = (2 * 32 + 1) * 4;
    assert_eq!(&bytes[slot..slot + 4], &[0, 0, 2, 1]);
    // (-1, 0) sits in slot 31, at sector 3, two sectors long.
    assert_eq!(&bytes[31 * 4..31 * 4 + 4], &[0, 0, 3, 2]);
    assert_eq!(bytes.len(), 5 * 4096);
}

#[test]
fn region_file_refuses_oversized_chunk() {
    let mut region = LceRegionFile::new();
    let big = vec![0u8; 1024 * 1024 + 1];
    assert!(matches!(region.add_chunk(0, 0, &big), Err(ConversionError::InvalidFormat(_))));
    let bytes = region.build().unwrap();
    assert_eq!(bytes, vec![0u8; 8192]);
}

#[test]
fn java_region_reads_back_what_a_region_file_holds() {
    let mut region = LceRegionFile::new();
    region.add_chunk(3, 4, &[5, 6]).unwrap();
    let bytes = region.build().unwrap();
    let chunks = read_java_mcr_region(&bytes).unwrap();
    assert_eq!(chunks.len(), 1);
    assert_eq!(chunks[0].0, 3);
    assert_eq!(chunks[0].1, 4);
    assert_eq!(chunks[0].2, vec![0, 0, 0, 2, 2, 5, 6]);
    assert_eq!(read_java_mca_region(&bytes).unwrap().len(), 1);
}

#[test]
fn java_region_too_short() {
    assert!(matches!(read_java_mcr_region(&[0u8; 100]), Err(ConversionError::InvalidFormat(_))));
    assert!(read_java_mcr_region(&[0u8; 8192]).unwrap().is_empty());
}

#[test]
fn adding_a_chunk_appends_its_sectors_and_keeps_earlier_ones() {
    let mut first = LceRegionFile::new();
    first.add_chunk(0, 0, &[1, 2, 3]).unwrap();
    let b0 = first.build().unwrap();
    let mut second = LceRegionFile::new();
    second.add_chunk(0, 0, &[1, 2, 3]).unwrap();
    second.add_chunk(5, 1, &[4, 5]).unwrap();
    let b1 = second.build().unwrap();
    assert_eq!(b1.len(), b0.len() + 4096);
    assert_eq!(&b1[8192..b0.len()], &b0[8192..]);
    assert_eq!(&b1[b0.len()..b0.len() + 7], &[0, 0, 0, 2, 2, 4, 5]);
    assert!(b1[b0.len() + 7..].iter().all(|b| *b == 0));
}
