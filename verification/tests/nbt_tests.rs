use console2lce::error::ConversionError;
use console2lce::nbt::{read_mcr_chunk, read_nbt, read_zlibbed_nbt, write_nbt, write_nbt_le, write_zlibbed_nbt, NbtHelper, NbtTag};

fn sample_compound() -> NbtTag {
    NbtTag::Compound(vec![
        ("b".to_string(), NbtTag::Byte(-3)),
        ("s".to_string(), NbtTag::Short(300)),
        ("i".to_string(), NbtTag::Int(-70000)),
        ("l".to_string(), NbtTag::Long(1 << 40)),
        ("f".to_string(), NbtTag::Float(0x3F80_0000)),
        ("d".to_string(), NbtTag::Double(0x3FF0_0000_0000_0000)),
        ("str".to_string(), NbtTag::String("héllo".to_string())),
        ("ba".to_string(), NbtTag::ByteArray(vec![1, 2, 3])),
        ("ia".to_string(), NbtTag::IntArray(vec![7, -8])),
        ("la".to_string(), NbtTag::LongArray(vec![9])),
        ("list".to_string(), NbtTag::List(vec![NbtTag::Int(1), NbtTag::Int(2)], 3)),
        ("nested".to_string(), NbtTag::Compound(vec![("x".to_string(), NbtTag::Int(5))])),
    ])
}

#[test]
fn nbt_write_then_read_gives_back_name_and_value() {
    let tag = sample_compound();
    let bytes = write_nbt("root", &tag).unwrap();
    let (name, back) = read_nbt(&bytes).unwrap();
    assert_eq!(name, "root");
    assert_eq!(format!("{:?}", back), format!("{:?}", tag));
}

#[test]
fn nbt_write_exact_bytes() {
    let tag = NbtTag::Compound(vec![("a".to_string(), NbtTag::Byte(1))]);
    let bytes = write_nbt("", &tag).unwrap();
    assert_eq!(bytes, vec![10, 0, 0, 1, 0, 1, b'a', 1, 0]);
}

#[test]
fn nbt_write_le_exact_bytes() {
    let tag = NbtTag::Compound(vec![("a".to_string(), NbtTag::Short(0x0102))]);
    let bytes = write_nbt_le(&tag).unwrap();
    assert_eq!(bytes, vec![10, 2, 1, 0, b'a', 2, 1, 0]);
}

#[test]
fn nbt_read_empty_is_io_error() {
    assert!(matches!(read_nbt(&[]), Err(ConversionError::Io(_))));
}

#[test]
fn nbt_read_end_root() {
    let (name, tag) = read_nbt(&[0]).unwrap();
    assert_eq!(name, "");
    assert!(matches!(tag, NbtTag::End));
}

#[test]
fn nbt_read_truncated_is_io_error() {
    assert!(matches!(read_nbt(&[10, 0, 5, b'a']), Err(ConversionError::Io(_))));
}

#[test]
fn nbt_read_unknown_type_is_nbt_error() {
    assert!(matches!(read_nbt(&[10, 0, 0, 99, 0, 1, b'a']), Err(ConversionError::NbtError(_))));
}

#[test]
fn nbt_zlibbed_roundtrip() {
    let tag = sample_compound();
    let bytes = write_zlibbed_nbt("z", &tag).unwrap();
    let (name, back) = read_zlibbed_nbt(&bytes).unwrap();
    assert_eq!(name, "z");
    assert_eq!(format!("{:?}", back), format!("{:?}", tag));
}

#[test]
fn nbt_helper_lookups() {
    let tag = sample_compound();
    let m = tag.as_compound().unwrap();
    assert_eq!(NbtHelper::get_int(m, "i"), Some(-70000));
    assert_eq!(NbtHelper::get_int(m, "b"), None);
    assert_eq!(NbtHelper::get_long(m, "l"), Some(1 << 40));
    assert_eq!(NbtHelper::get_byte(m, "b"), Some(-3));
    assert_eq!(NbtHelper::get_short(m, "s"), Some(300));
    assert_eq!(NbtHelper::get_string(m, "str"), Some("héllo".to_string()));
    assert_eq!(NbtHelper::get_byte_array(m, "ba"), Some(vec![1, 2, 3]));
    assert_eq!(NbtHelper::get_byte_array_or_default(m, "ba", 5), vec![1, 2, 3, 0, 0]);
    assert_eq!(NbtHelper::get_byte_array_or_default(m, "ba", 2), vec![1, 2]);
    assert_eq!(NbtHelper::get_byte_array_or_default(m, "missing", 3), vec![0, 0, 0]);
    assert_eq!(NbtHelper::get_list(m, "list").map(|v| v.len()), Some(2));
    assert!(NbtHelper::get_compound(m, "nested").is_some());
    assert!(NbtHelper::get_compound(m, "i").is_none());
}

#[test]
fn nbt_lookup_follows_path() {
    let tag = sample_compound();
    let found = tag.lookup(&["nested", "x"]).unwrap();
    assert_eq!(found.get_int(), Some(5));
    assert!(tag.lookup(&["nested", "y"]).is_none());
    assert!(tag.lookup(&["i", "x"]).is_none());
}

#[test]
fn mcr_chunk_record_schemes() {
    let payload = write_nbt("", &NbtTag::Compound(vec![])).unwrap();
    let mut stored = vec![0, 0, 0, (payload.len() + 1) as u8, 3];
    stored.extend_from_slice(&payload);
    assert_eq!(read_mcr_chunk(&stored, 0).unwrap(), payload);

    let zipped = write_zlibbed_nbt("", &NbtTag::Compound(vec![])).unwrap();
    let mut zrec = vec![0, 0, 0, 0, 2];
    zrec.extend_from_slice(&zipped);
    assert_eq!(read_mcr_chunk(&zrec, 0).unwrap(), payload);

    assert!(matches!(read_mcr_chunk(&[0, 0, 0, 1, 9, 1], 0), Err(ConversionError::DecompressionFailed(_))));
    assert!(matches!(read_mcr_chunk(&[0, 0, 0], 0), Err(ConversionError::InvalidFormat(_))));
    assert!(matches!(read_mcr_chunk(&[0, 0, 0, 1, 2, 7, 7], 0), Err(ConversionError::Io(_))));
}

#[test]
fn nbt_lookup_mut_writes_in_place() {
    let mut tag = sample_compound();
    {
        let x = tag.lookup_mut(&["nested", "x"]).unwrap();
        *x = NbtTag::Int(42);
    }
    assert_eq!(tag.lookup(&["nested", "x"]).unwrap().get_int(), Some(42));
    assert_eq!(tag.lookup(&["i"]).unwrap().get_int(), Some(-70000));
    assert!(tag.lookup_mut(&["nested", "nope"]).is_none());
    assert!(tag.lookup_mut(&["i", "x"]).is_none());
}

#[test]
fn nbt_get_compound_mut_changes_entries() {
    let mut tag = NbtTag::Compound(vec![("a".to_string(), NbtTag::Int(1))]);
    tag.get_compound_mut().unwrap().push(("b".to_string(), NbtTag::Int(2)));
    assert_eq!(tag.lookup(&["b"]).unwrap().get_int(), Some(2));
    let mut not = NbtTag::Int(3);
    assert!(not.get_compound_mut().is_none());
}
