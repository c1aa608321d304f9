use console2lce::save_data_container::{build_save_data_container, write_save_data_container, write_save_data_ms};

fn le32(b: &[u8], at: usize) -> u32 {
    u32::from_le_bytes([b[at], b[at + 1], b[at + 2], b[at + 3]])
}

fn le64(b: &[u8], at: usize) -> u64 {
    let mut a = [0u8; 8];
    a.copy_from_slice(&b[at..at + 8]);
    u64::from_le_bytes(a)
}

#[test]
fn container_exact_bytes_for_one_file() {
    let files = vec![("ab".to_string(), vec![1u8, 2, 3])];
    let bytes = build_save_data_container(&files, 5);
    let mut expected = vec![1u8, 0, 0, 0, 1, 0, 2, 0, 0, 0, 1, 0, 0, 0];
    expected.extend_from_slice(&[1, 2, 3, 0, 0, 0]);
    expected.extend_from_slice(&14u64.to_le_bytes());
    expected.extend_from_slice(&3u64.to_le_bytes());
    expected.extend_from_slice(&5u64.to_le_bytes());
    expected.extend_from_slice(&2u16.to_le_bytes());
    expected.extend_from_slice(b"ab");
    expected.push(0);
    expected.extend_from_slice(&[0, 0, 0]);
    assert_eq!(bytes, expected);
    assert_eq!(bytes.len() % 4, 0);
}

#[test]
fn container_of_no_files_is_its_header() {
    let bytes = build_save_data_container(&[], 0);
    assert_eq!(bytes, vec![1u8, 0, 0, 0, 1, 0, 2, 0, 0, 0, 0, 0, 0, 0]);
}

#[test]
fn container_with_clock_time_has_same_layout() {
    let files = vec![("x".to_string(), vec![9u8; 8])];
    let bytes = write_save_data_container(&files).unwrap();
    let fixed = build_save_data_container(&files, 0);
    assert_eq!(bytes.len(), fixed.len());
    assert_eq!(&bytes[..14 + 8 + 16], &fixed[..14 + 8 + 16]);
}

#[test]
fn save_ms_puts_level_dat_first() {
    let regions = vec![("region/r.0.0.mcr".to_string(), vec![4u8, 5])];
    let bytes = write_save_data_ms(&[7, 7, 7, 7], &regions).unwrap();
    assert_eq!(le32(&bytes, 10), 2);
    assert_eq!(&bytes[14..18], &[7, 7, 7, 7]);
    assert_eq!(&bytes[18..20], &[0, 0]);
    assert_eq!(&bytes[20..22], &[4, 5]);
    let table = 24;
    assert_eq!(le64(&bytes, table), 14);
    assert_eq!(le64(&bytes, table + 8), 4);
    let name_len = u16::from_le_bytes([bytes[table + 24], bytes[table + 25]]) as usize;
    assert_eq!(&bytes[table + 26..table + 26 + name_len], b"level.dat");
}
