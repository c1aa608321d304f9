use console2lce::error::ConversionError;
use console2lce::level_dat::convert_level_dat;
use console2lce::models::ChunkConversionContext;
use console2lce::nbt::{read_zlibbed_nbt, write_nbt, NbtHelper, NbtTag};
use console2lce::world_profile::{get_profile, world_center_offset};
use std::io::Write;

fn gzip(data: &[u8]) -> Vec<u8> {
    let mut enc = flate2::write::GzEncoder::new(Vec::new(), flate2::Compression::default());
    enc.write_all(data).unwrap();
    enc.finish().unwrap()
}

fn java_level(data: Vec<(String, NbtTag)>) -> Vec<u8> {
    let root = NbtTag::Compound(vec![("Data".to_string(), NbtTag::Compound(data))]);
    gzip(&write_nbt("", &root).unwrap())
}

fn converted_data(bytes: &[u8]) -> Vec<(String, NbtTag)> {
    let (_, root) = read_zlibbed_nbt(bytes).unwrap();
    let m = root.as_compound().unwrap();
    NbtHelper::get_compound(m, "Data").unwrap()
}

#[test]
fn level_dat_clamps_spawn_into_the_world() {
    let src = java_level(vec![
        ("SpawnX".to_string(), NbtTag::Int(100000)),
        ("SpawnZ".to_string(), NbtTag::Int(-50)),
        ("LevelName".to_string(), NbtTag::String("My World".to_string())),
        ("rainTime".to_string(), NbtTag::Int(20)),
        ("RandomSeed".to_string(), NbtTag::Long(42)),
    ]);
    let mut ctx = ChunkConversionContext::new();
    let out = convert_level_dat(&src, "large", "1.13", &mut ctx).unwrap();
    let d = converted_data(&out);
    assert_eq!(NbtHelper::get_int(&d, "SpawnX"), Some(5119));
    assert_eq!(NbtHelper::get_int(&d, "SpawnZ"), Some(0));
    assert_eq!(NbtHelper::get_int(&d, "XzSize"), Some(320));
    assert_eq!(NbtHelper::get_int(&d, "HellScale"), Some(320));
    assert_eq!(NbtHelper::get_string(&d, "LevelName"), Some("My World".to_string()));
    assert_eq!(NbtHelper::get_long(&d, "RandomSeed"), Some(42));
    assert_eq!(NbtHelper::get_byte(&d, "clearedWeather"), Some(1));
    assert_eq!(NbtHelper::get_byte(&d, "Difficulty"), Some(2));
    assert_eq!(NbtHelper::get_int(&d, "currentSaveVersion"), Some(9));
    let version = NbtHelper::get_compound(&d, "Version").unwrap();
    assert_eq!(NbtHelper::get_int(&version, "Id"), Some(19133));
    assert_eq!(NbtHelper::get_string(&version, "Name"), Some("1.13".to_string()));
}

#[test]
fn level_dat_defaults() {
    let src = java_level(vec![]);
    let mut ctx = ChunkConversionContext::new();
    let out = convert_level_dat(&src, "classic", "1.12", &mut ctx).unwrap();
    let d = converted_data(&out);
    assert_eq!(NbtHelper::get_string(&d, "LevelName"), Some("Imported World".to_string()));
    assert_eq!(NbtHelper::get_string(&d, "generatorName"), Some("default".to_string()));
    assert_eq!(NbtHelper::get_int(&d, "SpawnX"), Some(0));
    assert_eq!(NbtHelper::get_int(&d, "XzSize"), Some(54));
    assert_eq!(NbtHelper::get_byte(&d, "clearedWeather"), Some(0));
    assert!(NbtHelper::get_compound(&d, "GameRules").is_none());
}

#[test]
fn level_dat_keeps_string_game_rules() {
    let rules = NbtTag::Compound(vec![
        ("keepInventory".to_string(), NbtTag::String("true".to_string())),
        ("numeric".to_string(), NbtTag::Int(3)),
    ]);
    let src = java_level(vec![("GameRules".to_string(), rules)]);
    let mut ctx = ChunkConversionContext::new();
    let d = converted_data(&convert_level_dat(&src, "small", "1.13", &mut ctx).unwrap());
    let r = NbtHelper::get_compound(&d, "GameRules").unwrap();
    assert_eq!(r.len(), 1);
    assert_eq!(NbtHelper::get_string(&r, "keepInventory"), Some("true".to_string()));
}

#[test]
fn level_dat_errors() {
    let mut ctx = ChunkConversionContext::new();
    assert!(matches!(convert_level_dat(&[1, 2, 3], "large", "1.13", &mut ctx), Err(ConversionError::Io(_))));
    let src = java_level(vec![]);
    assert!(matches!(convert_level_dat(&src, "huge", "1.13", &mut ctx), Err(ConversionError::InvalidFormat(_))));
    let not_compound = gzip(&write_nbt("", &NbtTag::Int(1)).unwrap());
    assert!(matches!(convert_level_dat(&not_compound, "large", "1.13", &mut ctx), Err(ConversionError::InvalidFormat(_))));
}

#[test]
fn profiles_and_center() {
    let p = get_profile("medium").unwrap();
    assert_eq!(p.xz_size, 192);
    assert!(!p.flat);
    assert!(get_profile("flat-large").unwrap().flat);
    assert!(get_profile("none").is_none());
    assert_eq!(world_center_offset(320), 2560);
}
