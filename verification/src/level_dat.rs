//! Conversion of a Java `level.dat` into the level data of a Legacy Console Edition
//! save.
use vstd::prelude::*;
use crate::assoc::{assoc_get, assoc_put, lemma_assoc_get_at};
use crate::compress::{gzip_decoded, zlib_encoded};
use crate::error::ConversionError;
use crate::models::ChunkConversionContext;
use crate::nbt::{
    items_view, lemma_items_view_step, push_entry, put_entry, read_gzipped_nbt, spec_read_nbt, spec_write_nbt, write_zlibbed_nbt,
    writable, NbtHelper, NbtTag, NbtValue, Parsed,
};
use crate::text::{string_push_str, to_owned_string};
use crate::world_profile::{get_profile, spec_profile, world_center_offset};

verus! {

/// The int bound to `key`, or `default`.
pub open spec fn int_or(d: Seq<(Seq<char>, NbtValue)>, key: Seq<char>, default: i32) -> i32 {
    match assoc_get(d, key) {
        Some(NbtValue::Int(v)) => v,
        _ => default,
    }
}

/// The byte bound to `key`, or `default`.
pub open spec fn byte_or(d: Seq<(Seq<char>, NbtValue)>, key: Seq<char>, default: i8) -> i8 {
    match assoc_get(d, key) {
        Some(NbtValue::Byte(v)) => v,
        _ => default,
    }
}

/// The long bound to `key`, or `default`.
pub open spec fn long_or(d: Seq<(Seq<char>, NbtValue)>, key: Seq<char>, default: i64) -> i64 {
    match assoc_get(d, key) {
        Some(NbtValue::Long(v)) => v,
        _ => default,
    }
}

/// The string bound to `key`, or `default`.
pub open spec fn string_or(d: Seq<(Seq<char>, NbtValue)>, key: Seq<char>, default: Seq<char>) -> Seq<char> {
    match assoc_get(d, key) {
        Some(NbtValue::String(v)) => v,
        _ => default,
    }
}

/// A flag as a byte tag: 1 for true, 0 for false.
pub open spec fn flag(b: bool) -> NbtValue {
    NbtValue::Byte(if b { 1 } else { 0 })
}

/// `value` brought into the block range of a world `xz_size` chunks wide centred on
/// `center`: `center - 8 * xz_size ..= center + 8 * xz_size - 1`.
pub open spec fn clamped_to_world(value: i32, center: i32, xz_size: i32) -> i32 {
    let lo = center - xz_size * 8;
    let hi = center + xz_size * 8 - 1;
    if value < lo { lo as i32 } else if value > hi { hi as i32 } else { value }
}

/// A spawn coordinate clamped into a world of `xz_size` chunks around its centre
/// (`8 * xz_size` blocks) lies inside the world: from 0 to `16 * xz_size - 1`, and a
/// coordinate already inside is kept.
pub proof fn lemma_spawn_inside_world(value: i32, xz_size: i32)
    requires
        1 <= xz_size,
        xz_size * 16 <= i32::MAX,
    ensures
        0 <= clamped_to_world(value, (xz_size * 8) as i32, xz_size) < xz_size * 16,
        0 <= value < xz_size * 16 ==> clamped_to_world(value, (xz_size * 8) as i32, xz_size) == value,
{
}

fn clamp_to_world(value: i32, center: i32, xz_size: i32) -> (r: i32)
    requires
        1 <= xz_size,
        xz_size * 8 <= i32::MAX,
        i32::MIN <= center - xz_size * 8,
        center + xz_size * 8 <= i32::MAX,
    ensures
        r == clamped_to_world(value, center, xz_size),
{
    let half = xz_size * 8;
    let lo = center - half;
    let hi = center + half - 1;
    if value < lo {
        lo
    } else if value > hi {
        hi
    } else {
        value
    }
}

/// Whether it rained since the last thunder: a positive rain time and no thunder time.
pub open spec fn rained_since_cleanup(d: Seq<(Seq<char>, NbtValue)>) -> bool {
    int_or(d, "rainTime"@, 0) > 0 && int_or(d, "thunderTime"@, 0) == 0
}

fn rained_since_last_thunder_cleanup(data: &Vec<(String, NbtTag)>) -> (r: bool)
    ensures
        r == rained_since_cleanup(items_view(data@)),
{
    let rain_time = match NbtHelper::get_int(data, "rainTime") {
        Some(v) => v,
        None => 0,
    };
    let thunder_time = match NbtHelper::get_int(data, "thunderTime") {
        Some(v) => v,
        None => 0,
    };
    rain_time > 0 && thunder_time == 0
}

/// The version compound written into the level data.
pub open spec fn version_info(game_version: Seq<char>) -> Seq<(Seq<char>, NbtValue)> {
    seq![("Id"@, NbtValue::Int(19133)), ("Name"@, NbtValue::String(game_version)), ("Snapshot"@, NbtValue::Byte(0))]
}

fn build_version_info(game_version: &str) -> (r: Vec<(String, NbtTag)>)
    ensures
        items_view(r@) == version_info(game_version@),
{
    let mut version: Vec<(String, NbtTag)> = Vec::new();
    assert(items_view(version@) =~= Seq::<(Seq<char>, NbtValue)>::empty());
    push_entry(&mut version, "Id", NbtTag::Int(19133));
    push_entry(&mut version, "Name", NbtTag::String(to_owned_string(game_version)));
    push_entry(&mut version, "Snapshot", NbtTag::Byte(0));
    assert(items_view(version@) =~= version_info(game_version@));
    version
}

/// The string-valued game rules of a compound, a later rule replacing an earlier one
/// of the same name.
pub open spec fn string_rules(items: Seq<(Seq<char>, NbtValue)>) -> Seq<(Seq<char>, NbtValue)>
    decreases items.len(),
{
    if items.len() == 0 {
        Seq::empty()
    } else {
        let p = string_rules(items.drop_last());
        match items.last().1 {
            NbtValue::String(s) => assoc_put(p, items.last().0, NbtValue::String(s)),
            _ => p,
        }
    }
}

/// The game rules carried over: the string rules of the `GameRules` compound.
pub open spec fn game_rules_of(d: Seq<(Seq<char>, NbtValue)>) -> Seq<(Seq<char>, NbtValue)> {
    match assoc_get(d, "GameRules"@) {
        Some(NbtValue::Compound(rules)) => string_rules(rules),
        _ => Seq::empty(),
    }
}

/// The level data written for a world of profile `(xz_size, hell_scale)` from the
/// Java level data `d`: weather, time, difficulty, game mode, generator, name, seed,
/// the spawn point clamped into the world, fixed save versions, the string game rules
/// (when there are any) and the version.
pub open spec fn lce_level_data(d: Seq<(Seq<char>, NbtValue)>, xz_size: u32, hell_scale: u32, game_version: Seq<char>) -> Seq<(Seq<char>, NbtValue)> {
    let base = lce_level_fields(d, xz_size, hell_scale);
    let rules = game_rules_of(d);
    let with_rules = if rules.len() == 0 { base } else { base.push(("GameRules"@, NbtValue::Compound(rules))) };
    with_rules.push(("Version"@, NbtValue::Compound(version_info(game_version))))
}

/// The fixed fields of the level data, before the game rules and the version.
pub open spec fn lce_level_fields(d: Seq<(Seq<char>, NbtValue)>, xz_size: u32, hell_scale: u32) -> Seq<(Seq<char>, NbtValue)> {
    lce_rule_fields(d) + lce_world_fields(d, xz_size, hell_scale)
}

/// The fields on commands, weather, time, difficulty, game mode and generator.
pub open spec fn lce_rule_fields(d: Seq<(Seq<char>, NbtValue)>) -> Seq<(Seq<char>, NbtValue)> {
    lce_weather_fields(d) + lce_generator_fields(d)
}

/// The fields on commands, weather, time and difficulty.
pub open spec fn lce_weather_fields(d: Seq<(Seq<char>, NbtValue)>) -> Seq<(Seq<char>, NbtValue)> {
    seq![
        ("allowCommands"@, flag(byte_or(d, "allowCommands"@, 0) != 0)),
        ("clearedWeather"@, flag(rained_since_cleanup(d))),
        ("clearWeatherTime"@, NbtValue::Int(0)),
        ("currentSaveVersion"@, NbtValue::Int(9)),
        ("DayTime"@, NbtValue::Int(int_or(d, "DayTime"@, 0))),
        ("Difficulty"@, NbtValue::Byte(byte_or(d, "Difficulty"@, 2))),
    ]
}

/// The fields on difficulty lock, game mode, generator and hardcore mode.
pub open spec fn lce_generator_fields(d: Seq<(Seq<char>, NbtValue)>) -> Seq<(Seq<char>, NbtValue)> {
    seq![
        ("DifficultyLocked"@, flag(byte_or(d, "DifficultyLocked"@, 0) != 0)),
        ("GameType"@, NbtValue::Int(int_or(d, "GameType"@, 0))),
        ("generatorName"@, NbtValue::String(string_or(d, "generatorName"@, "default"@))),
        ("generatorVersion"@, NbtValue::Int(int_or(d, "generatorVersion"@, 1))),
        ("generatorOptions"@, NbtValue::String(string_or(d, "generatorOptions"@, Seq::empty()))),
        ("hardcore"@, flag(byte_or(d, "hardcore"@, 0) != 0)),
    ]
}

/// The fields on the world: its size, name, seed, spawn point and weather.
pub open spec fn lce_world_fields(d: Seq<(Seq<char>, NbtValue)>, xz_size: u32, hell_scale: u32) -> Seq<(Seq<char>, NbtValue)> {
    let center = ((xz_size as i32) * 8) as i32;
    seq![
        ("HellScale"@, NbtValue::Int(hell_scale as i32)),
        ("initialized"@, flag(byte_or(d, "initialized"@, 1) != 0)),
        ("LevelName"@, NbtValue::String(string_or(d, "LevelName"@, "Imported World"@))),
        ("MapFeatures"@, flag(byte_or(d, "MapFeatures"@, 1) != 0)),
        ("originalSaveVersion"@, NbtValue::Int(7)),
        ("rainTime"@, NbtValue::Int(int_or(d, "rainTime"@, 0))),
        ("RandomSeed"@, NbtValue::Long(long_or(d, "RandomSeed"@, 0))),
        ("SpawnX"@, NbtValue::Int(clamped_to_world(int_or(d, "SpawnX"@, 0), center, xz_size as i32))),
        ("SpawnZ"@, NbtValue::Int(clamped_to_world(int_or(d, "SpawnZ"@, 0), center, xz_size as i32))),
        ("thunderTime"@, NbtValue::Int(int_or(d, "thunderTime"@, 0))),
        ("XzSize"@, NbtValue::Int(xz_size as i32)),
        ("raining"@, flag(byte_or(d, "raining"@, 0) != 0)),
        ("thundering"@, flag(byte_or(d, "thundering"@, 0) != 0)),
    ]
}

/// The level data keeps what the Java level data says: every field copied from it is
/// bound to the value the Java level data binds it to (the default only where that
/// is missing or of another type), flags become 1 or 0 by whether the Java byte is
/// non-zero, the fixed save versions are written, the profile gives `HellScale` and
/// `XzSize`, and the spawn point is brought into the world's block range
/// `0 ..= 16 * xz_size - 1`, kept where it already lies in it.
pub proof fn lemma_level_data_keeps_java_fields(d: Seq<(Seq<char>, NbtValue)>, xz_size: u32, hell_scale: u32, game_version: Seq<char>)
    requires
        spec_profile_sizes(xz_size),
    ensures
        ({
            let o = lce_level_data(d, xz_size, hell_scale, game_version);
            &&& assoc_get(o, "allowCommands"@) == Some(NbtValue::Byte(if (match assoc_get(d, "allowCommands"@) { Some(NbtValue::Byte(v)) => v, _ => 0 }) != 0 { 1 } else { 0 }))
            &&& assoc_get(o, "clearWeatherTime"@) == Some(NbtValue::Int(0))
            &&& assoc_get(o, "currentSaveVersion"@) == Some(NbtValue::Int(9))
            &&& assoc_get(o, "DayTime"@) == Some(NbtValue::Int(match assoc_get(d, "DayTime"@) { Some(NbtValue::Int(v)) => v, _ => 0 }))
            &&& assoc_get(o, "Difficulty"@) == Some(NbtValue::Byte(match assoc_get(d, "Difficulty"@) { Some(NbtValue::Byte(v)) => v, _ => 2 }))
            &&& assoc_get(o, "DifficultyLocked"@) == Some(NbtValue::Byte(if (match assoc_get(d, "DifficultyLocked"@) { Some(NbtValue::Byte(v)) => v, _ => 0 }) != 0 { 1 } else { 0 }))
            &&& assoc_get(o, "GameType"@) == Some(NbtValue::Int(match assoc_get(d, "GameType"@) { Some(NbtValue::Int(v)) => v, _ => 0 }))
            &&& assoc_get(o, "generatorName"@) == Some(NbtValue::String(match assoc_get(d, "generatorName"@) { Some(NbtValue::String(v)) => v, _ => "default"@ }))
            &&& assoc_get(o, "generatorVersion"@) == Some(NbtValue::Int(match assoc_get(d, "generatorVersion"@) { Some(NbtValue::Int(v)) => v, _ => 1 }))
            &&& assoc_get(o, "generatorOptions"@) == Some(NbtValue::String(match assoc_get(d, "generatorOptions"@) { Some(NbtValue::String(v)) => v, _ => Seq::empty() }))
            &&& assoc_get(o, "hardcore"@) == Some(NbtValue::Byte(if (match assoc_get(d, "hardcore"@) { Some(NbtValue::Byte(v)) => v, _ => 0 }) != 0 { 1 } else { 0 }))
            &&& assoc_get(o, "HellScale"@) == Some(NbtValue::Int(hell_scale as i32))
            &&& assoc_get(o, "initialized"@) == Some(NbtValue::Byte(if (match assoc_get(d, "initialized"@) { Some(NbtValue::Byte(v)) => v, _ => 1 }) != 0 { 1 } else { 0 }))
            &&& assoc_get(o, "LevelName"@) == Some(NbtValue::String(match assoc_get(d, "LevelName"@) { Some(NbtValue::String(v)) => v, _ => "Imported World"@ }))
            &&& assoc_get(o, "MapFeatures"@) == Some(NbtValue::Byte(if (match assoc_get(d, "MapFeatures"@) { Some(NbtValue::Byte(v)) => v, _ => 1 }) != 0 { 1 } else { 0 }))
            &&& assoc_get(o, "originalSaveVersion"@) == Some(NbtValue::Int(7))
            &&& assoc_get(o, "rainTime"@) == Some(NbtValue::Int(match assoc_get(d, "rainTime"@) { Some(NbtValue::Int(v)) => v, _ => 0 }))
            &&& assoc_get(o, "RandomSeed"@) == Some(NbtValue::Long(match assoc_get(d, "RandomSeed"@) { Some(NbtValue::Long(v)) => v, _ => 0 }))
            &&& assoc_get(o, "thunderTime"@) == Some(NbtValue::Int(match assoc_get(d, "thunderTime"@) { Some(NbtValue::Int(v)) => v, _ => 0 }))
            &&& assoc_get(o, "XzSize"@) == Some(NbtValue::Int(xz_size as i32))
            &&& assoc_get(o, "raining"@) == Some(NbtValue::Byte(if (match assoc_get(d, "raining"@) { Some(NbtValue::Byte(v)) => v, _ => 0 }) != 0 { 1 } else { 0 }))
            &&& assoc_get(o, "thundering"@) == Some(NbtValue::Byte(if (match assoc_get(d, "thundering"@) { Some(NbtValue::Byte(v)) => v, _ => 0 }) != 0 { 1 } else { 0 }))
        }),
        ({
            let o = lce_level_data(d, xz_size, hell_scale, game_version);
            let hi = 16 * xz_size - 1;
            &&& assoc_get(o, "SpawnX"@) matches Some(NbtValue::Int(sx)) && 0 <= sx <= hi
                && (assoc_get(d, "SpawnX"@) matches Some(NbtValue::Int(v)) ==> (0 <= v <= hi ==> sx == v) && (v < 0 ==> sx == 0) && (v > hi ==> sx == hi))
                && (!(assoc_get(d, "SpawnX"@) matches Some(NbtValue::Int(_))) ==> sx == 0)
            &&& assoc_get(o, "SpawnZ"@) matches Some(NbtValue::Int(sz)) && 0 <= sz <= hi
                && (assoc_get(d, "SpawnZ"@) matches Some(NbtValue::Int(v)) ==> (0 <= v <= hi ==> sz == v) && (v < 0 ==> sz == 0) && (v > hi ==> sz == hi))
                && (!(assoc_get(d, "SpawnZ"@) matches Some(NbtValue::Int(_))) ==> sz == 0)
        }),
{
    let o = lce_level_data(d, xz_size, hell_scale, game_version);
    let base = lce_level_fields(d, xz_size, hell_scale);
    assert(base.len() == 25);
    assert(forall|i: int| 0 <= i < 25 ==> o[i] == #[trigger] base[i]);
    reveal_strlit("allowCommands");
    reveal_strlit("clearedWeather");
    reveal_strlit("clearWeatherTime");
    reveal_strlit("currentSaveVersion");
    reveal_strlit("DayTime");
    reveal_strlit("Difficulty");
    reveal_strlit("DifficultyLocked");
    reveal_strlit("GameType");
    reveal_strlit("generatorName");
    reveal_strlit("generatorVersion");
    reveal_strlit("generatorOptions");
    reveal_strlit("hardcore");
    reveal_strlit("HellScale");
    reveal_strlit("initialized");
    reveal_strlit("LevelName");
    reveal_strlit("MapFeatures");
    reveal_strlit("originalSaveVersion");
    reveal_strlit("rainTime");
    reveal_strlit("RandomSeed");
    reveal_strlit("SpawnX");
    reveal_strlit("SpawnZ");
    reveal_strlit("thunderTime");
    reveal_strlit("XzSize");
    reveal_strlit("raining");
    reveal_strlit("thundering");
    assert(o[0].0 == "allowCommands"@);
    assert(o[1].0 == "clearedWeather"@);
    assert(o[2].0 == "clearWeatherTime"@);
    assert(o[3].0 == "currentSaveVersion"@);
    assert(o[4].0 == "DayTime"@);
    assert(o[5].0 == "Difficulty"@);
    assert(o[6].0 == "DifficultyLocked"@);
    assert(o[7].0 == "GameType"@);
    assert(o[8].0 == "generatorName"@);
    assert(o[9].0 == "generatorVersion"@);
    assert(o[10].0 == "generatorOptions"@);
    assert(o[11].0 == "hardcore"@);
    assert(o[12].0 == "HellScale"@);
    assert(o[13].0 == "initialized"@);
    assert(o[14].0 == "LevelName"@);
    assert(o[15].0 == "MapFeatures"@);
    assert(o[16].0 == "originalSaveVersion"@);
    assert(o[17].0 == "rainTime"@);
    assert(o[18].0 == "RandomSeed"@);
    assert(o[19].0 == "SpawnX"@);
    assert(o[20].0 == "SpawnZ"@);
    assert(o[21].0 == "thunderTime"@);
    assert(o[22].0 == "XzSize"@);
    assert(o[23].0 == "raining"@);
    assert(o[24].0 == "thundering"@);
    lemma_assoc_get_at(o, "allowCommands"@, 0);
    assert("allowCommands"@.len() != "clearedWeather"@.len());
    lemma_assoc_get_at(o, "clearedWeather"@, 1);
    assert("allowCommands"@.len() != "clearWeatherTime"@.len());
    assert("clearedWeather"@.len() != "clearWeatherTime"@.len());
    lemma_assoc_get_at(o, "clearWeatherTime"@, 2);
    assert("allowCommands"@.len() != "currentSaveVersion"@.len());
    assert("clearedWeather"@.len() != "currentSaveVersion"@.len());
    assert("clearWeatherTime"@.len() != "currentSaveVersion"@.len());
    lemma_assoc_get_at(o, "currentSaveVersion"@, 3);
    assert("allowCommands"@.len() != "DayTime"@.len());
    assert("clearedWeather"@.len() != "DayTime"@.len());
    assert("clearWeatherTime"@.len() != "DayTime"@.len());
    assert("currentSaveVersion"@.len() != "DayTime"@.len());
    lemma_assoc_get_at(o, "DayTime"@, 4);
    assert("allowCommands"@.len() != "Difficulty"@.len());
    assert("clearedWeather"@.len() != "Difficulty"@.len());
    assert("clearWeatherTime"@.len() != "Difficulty"@.len());
    assert("currentSaveVersion"@.len() != "Difficulty"@.len());
    assert("DayTime"@.len() != "Difficulty"@.len());
    lemma_assoc_get_at(o, "Difficulty"@, 5);
    assert("allowCommands"@.len() != "DifficultyLocked"@.len());
    assert("clearedWeather"@.len() != "DifficultyLocked"@.len());
    assert("clearWeatherTime"@[0] != "DifficultyLocked"@[0]);
    assert("currentSaveVersion"@.len() != "DifficultyLocked"@.len());
    assert("DayTime"@.len() != "DifficultyLocked"@.len());
    assert("Difficulty"@.len() != "DifficultyLocked"@.len());
    lemma_assoc_get_at(o, "DifficultyLocked"@, 6);
    assert("allowCommands"@.len() != "GameType"@.len());
    assert("clearedWeather"@.len() != "GameType"@.len());
    assert("clearWeatherTime"@.len() != "GameType"@.len());
    assert("currentSaveVersion"@.len() != "GameType"@.len());
    assert("DayTime"@.len() != "GameType"@.len());
    assert("Difficulty"@.len() != "GameType"@.len());
    assert("DifficultyLocked"@.len() != "GameType"@.len());
    lemma_assoc_get_at(o, "GameType"@, 7);
    assert("allowCommands"@[0] != "generatorName"@[0]);
    assert("clearedWeather"@.len() != "generatorName"@.len());
    assert("clearWeatherTime"@.len() != "generatorName"@.len());
    assert("currentSaveVersion"@.len() != "generatorName"@.len());
    assert("DayTime"@.len() != "generatorName"@.len());
    assert("Difficulty"@.len() != "generatorName"@.len());
    assert("DifficultyLocked"@.len() != "generatorName"@.len());
    assert("GameType"@.len() != "generatorName"@.len());
    lemma_assoc_get_at(o, "generatorName"@, 8);
    assert("allowCommands"@.len() != "generatorVersion"@.len());
    assert("clearedWeather"@.len() != "generatorVersion"@.len());
    assert("clearWeatherTime"@[0] != "generatorVersion"@[0]);
    assert("currentSaveVersion"@.len() != "generatorVersion"@.len());
    assert("DayTime"@.len() != "generatorVersion"@.len());
    assert("Difficulty"@.len() != "generatorVersion"@.len());
    assert("DifficultyLocked"@[0] != "generatorVersion"@[0]);
    assert("GameType"@.len() != "generatorVersion"@.len());
    assert("generatorName"@.len() != "generatorVersion"@.len());
    lemma_assoc_get_at(o, "generatorVersion"@, 9);
    assert("allowCommands"@.len() != "generatorOptions"@.len());
    assert("clearedWeather"@.len() != "generatorOptions"@.len());
    assert("clearWeatherTime"@[0] != "generatorOptions"@[0]);
    assert("currentSaveVersion"@.len() != "generatorOptions"@.len());
    assert("DayTime"@.len() != "generatorOptions"@.len());
    assert("Difficulty"@.len() != "generatorOptions"@.len());
    assert("DifficultyLocked"@[0] != "generatorOptions"@[0]);
    assert("GameType"@.len() != "generatorOptions"@.len());
    assert("generatorName"@.len() != "generatorOptions"@.len());
    assert("generatorVersion"@[9] != "generatorOptions"@[9]);
    lemma_assoc_get_at(o, "generatorOptions"@, 10);
    assert("allowCommands"@.len() != "hardcore"@.len());
    assert("clearedWeather"@.len() != "hardcore"@.len());
    assert("clearWeatherTime"@.len() != "hardcore"@.len());
    assert("currentSaveVersion"@.len() != "hardcore"@.len());
    assert("DayTime"@.len() != "hardcore"@.len());
    assert("Difficulty"@.len() != "hardcore"@.len());
    assert("DifficultyLocked"@.len() != "hardcore"@.len());
    assert("GameType"@[0] != "hardcore"@[0]);
    assert("generatorName"@.len() != "hardcore"@.len());
    assert("generatorVersion"@.len() != "hardcore"@.len());
    assert("generatorOptions"@.len() != "hardcore"@.len());
    lemma_assoc_get_at(o, "hardcore"@, 11);
    assert("allowCommands"@.len() != "HellScale"@.len());
    assert("clearedWeather"@.len() != "HellScale"@.len());
    assert("clearWeatherTime"@.len() != "HellScale"@.len());
    assert("currentSaveVersion"@.len() != "HellScale"@.len());
    assert("DayTime"@.len() != "HellScale"@.len());
    assert("Difficulty"@.len() != "HellScale"@.len());
    assert("DifficultyLocked"@.len() != "HellScale"@.len());
    assert("GameType"@.len() != "HellScale"@.len());
    assert("generatorName"@.len() != "HellScale"@.len());
    assert("generatorVersion"@.len() != "HellScale"@.len());
    assert("generatorOptions"@.len() != "HellScale"@.len());
    assert("hardcore"@.len() != "HellScale"@.len());
    lemma_assoc_get_at(o, "HellScale"@, 12);
    assert("allowCommands"@.len() != "initialized"@.len());
    assert("clearedWeather"@.len() != "initialized"@.len());
    assert("clearWeatherTime"@.len() != "initialized"@.len());
    assert("currentSaveVersion"@.len() != "initialized"@.len());
    assert("DayTime"@.len() != "initialized"@.len());
    assert("Difficulty"@.len() != "initialized"@.len());
    assert("DifficultyLocked"@.len() != "initialized"@.len());
    assert("GameType"@.len() != "initialized"@.len());
    assert("generatorName"@.len() != "initialized"@.len());
    assert("generatorVersion"@.len() != "initialized"@.len());
    assert("generatorOptions"@.len() != "initialized"@.len());
    assert("hardcore"@.len() != "initialized"@.len());
    assert("HellScale"@.len() != "initialized"@.len());
    lemma_assoc_get_at(o, "initialized"@, 13);
    assert("allowCommands"@.len() != "LevelName"@.len());
    assert("clearedWeather"@.len() != "LevelName"@.len());
    assert("clearWeatherTime"@.len() != "LevelName"@.len());
    assert("currentSaveVersion"@.len() != "LevelName"@.len());
    assert("DayTime"@.len() != "LevelName"@.len());
    assert("Difficulty"@.len() != "LevelName"@.len());
    assert("DifficultyLocked"@.len() != "LevelName"@.len());
    assert("GameType"@.len() != "LevelName"@.len());
    assert("generatorName"@.len() != "LevelName"@.len());
    assert("generatorVersion"@.len() != "LevelName"@.len());
    assert("generatorOptions"@.len() != "LevelName"@.len());
    assert("hardcore"@.len() != "LevelName"@.len());
    assert("HellScale"@[0] != "LevelName"@[0]);
    assert("initialized"@.len() != "LevelName"@.len());
    lemma_assoc_get_at(o, "LevelName"@, 14);
    assert("allowCommands"@.len() != "MapFeatures"@.len());
    assert("clearedWeather"@.len() != "MapFeatures"@.len());
    assert("clearWeatherTime"@.len() != "MapFeatures"@.len());
    assert("currentSaveVersion"@.len() != "MapFeatures"@.len());
    assert("DayTime"@.len() != "MapFeatures"@.len());
    assert("Difficulty"@.len() != "MapFeatures"@.len());
    assert("DifficultyLocked"@.len() != "MapFeatures"@.len());
    assert("GameType"@.len() != "MapFeatures"@.len());
    assert("generatorName"@.len() != "MapFeatures"@.len());
    assert("generatorVersion"@.len() != "MapFeatures"@.len());
    assert("generatorOptions"@.len() != "MapFeatures"@.len());
    assert("hardcore"@.len() != "MapFeatures"@.len());
    assert("HellScale"@.len() != "MapFeatures"@.len());
    assert("initialized"@[0] != "MapFeatures"@[0]);
    assert("LevelName"@.len() != "MapFeatures"@.len());
    lemma_assoc_get_at(o, "MapFeatures"@, 15);
    assert("allowCommands"@.len() != "originalSaveVersion"@.len());
    assert("clearedWeather"@.len() != "originalSaveVersion"@.len());
    assert("clearWeatherTime"@.len() != "originalSaveVersion"@.len());
    assert("currentSaveVersion"@.len() != "originalSaveVersion"@.len());
    assert("DayTime"@.len() != "originalSaveVersion"@.len());
    assert("Difficulty"@.len() != "originalSaveVersion"@.len());
    assert("DifficultyLocked"@.len() != "originalSaveVersion"@.len());
    assert("GameType"@.len() != "originalSaveVersion"@.len());
    assert("generatorName"@.len() != "originalSaveVersion"@.len());
    assert("generatorVersion"@.len() != "originalSaveVersion"@.len());
    assert("generatorOptions"@.len() != "originalSaveVersion"@.len());
    assert("hardcore"@.len() != "originalSaveVersion"@.len());
    assert("HellScale"@.len() != "originalSaveVersion"@.len());
    assert("initialized"@.len() != "originalSaveVersion"@.len());
    assert("LevelName"@.len() != "originalSaveVersion"@.len());
    assert("MapFeatures"@.len() != "originalSaveVersion"@.len());
    lemma_assoc_get_at(o, "originalSaveVersion"@, 16);
    assert("allowCommands"@.len() != "rainTime"@.len());
    assert("clearedWeather"@.len() != "rainTime"@.len());
    assert("clearWeatherTime"@.len() != "rainTime"@.len());
    assert("currentSaveVersion"@.len() != "rainTime"@.len());
    assert("DayTime"@.len() != "rainTime"@.len());
    assert("Difficulty"@.len() != "rainTime"@.len());
    assert("DifficultyLocked"@.len() != "rainTime"@.len());
    assert("GameType"@[0] != "rainTime"@[0]);
    assert("generatorName"@.len() != "rainTime"@.len());
    assert("generatorVersion"@.len() != "rainTime"@.len());
    assert("generatorOptions"@.len() != "rainTime"@.len());
    assert("hardcore"@[0] != "rainTime"@[0]);
    assert("HellScale"@.len() != "rainTime"@.len());
    assert("initialized"@.len() != "rainTime"@.len());
    assert("LevelName"@.len() != "rainTime"@.len());
    assert("MapFeatures"@.len() != "rainTime"@.len());
    assert("originalSaveVersion"@.len() != "rainTime"@.len());
    lemma_assoc_get_at(o, "rainTime"@, 17);
    assert("allowCommands"@.len() != "RandomSeed"@.len());
    assert("clearedWeather"@.len() != "RandomSeed"@.len());
    assert("clearWeatherTime"@.len() != "RandomSeed"@.len());
    assert("currentSaveVersion"@.len() != "RandomSeed"@.len());
    assert("DayTime"@.len() != "RandomSeed"@.len());
    assert("Difficulty"@[0] != "RandomSeed"@[0]);
    assert("DifficultyLocked"@.len() != "RandomSeed"@.len());
    assert("GameType"@.len() != "RandomSeed"@.len());
    assert("generatorName"@.len() != "RandomSeed"@.len());
    assert("generatorVersion"@.len() != "RandomSeed"@.len());
    assert("generatorOptions"@.len() != "RandomSeed"@.len());
    assert("hardcore"@.len() != "RandomSeed"@.len());
    assert("HellScale"@.len() != "RandomSeed"@.len());
    assert("initialized"@.len() != "RandomSeed"@.len());
    assert("LevelName"@.len() != "RandomSeed"@.len());
    assert("MapFeatures"@.len() != "RandomSeed"@.len());
    assert("originalSaveVersion"@.len() != "RandomSeed"@.len());
    assert("rainTime"@.len() != "RandomSeed"@.len());
    lemma_assoc_get_at(o, "RandomSeed"@, 18);
    assert("allowCommands"@.len() != "SpawnX"@.len());
    assert("clearedWeather"@.len() != "SpawnX"@.len());
    assert("clearWeatherTime"@.len() != "SpawnX"@.len());
    assert("currentSaveVersion"@.len() != "SpawnX"@.len());
    assert("DayTime"@.len() != "SpawnX"@.len());
    assert("Difficulty"@.len() != "SpawnX"@.len());
    assert("DifficultyLocked"@.len() != "SpawnX"@.len());
    assert("GameType"@.len() != "SpawnX"@.len());
    assert("generatorName"@.len() != "SpawnX"@.len());
    assert("generatorVersion"@.len() != "SpawnX"@.len());
    assert("generatorOptions"@.len() != "SpawnX"@.len());
    assert("hardcore"@.len() != "SpawnX"@.len());
    assert("HellScale"@.len() != "SpawnX"@.len());
    assert("initialized"@.len() != "SpawnX"@.len());
    assert("LevelName"@.len() != "SpawnX"@.len());
    assert("MapFeatures"@.len() != "SpawnX"@.len());
    assert("originalSaveVersion"@.len() != "SpawnX"@.len());
    assert("rainTime"@.len() != "SpawnX"@.len());
    assert("RandomSeed"@.len() != "SpawnX"@.len());
    lemma_assoc_get_at(o, "SpawnX"@, 19);
    assert("allowCommands"@.len() != "SpawnZ"@.len());
    assert("clearedWeather"@.len() != "SpawnZ"@.len());
    assert("clearWeatherTime"@.len() != "SpawnZ"@.len());
    assert("currentSaveVersion"@.len() != "SpawnZ"@.len());
    assert("DayTime"@.len() != "SpawnZ"@.len());
    assert("Difficulty"@.len() != "SpawnZ"@.len());
    assert("DifficultyLocked"@.len() != "SpawnZ"@.len());
    assert("GameType"@.len() != "SpawnZ"@.len());
    assert("generatorName"@.len() != "SpawnZ"@.len());
    assert("generatorVersion"@.len() != "SpawnZ"@.len());
    assert("generatorOptions"@.len() != "SpawnZ"@.len());
    assert("hardcore"@.len() != "SpawnZ"@.len());
    assert("HellScale"@.len() != "SpawnZ"@.len());
    assert("initialized"@.len() != "SpawnZ"@.len());
    assert("LevelName"@.len() != "SpawnZ"@.len());
    assert("MapFeatures"@.len() != "SpawnZ"@.len());
    assert("originalSaveVersion"@.len() != "SpawnZ"@.len());
    assert("rainTime"@.len() != "SpawnZ"@.len());
    assert("RandomSeed"@.len() != "SpawnZ"@.len());
    assert("SpawnX"@[5] != "SpawnZ"@[5]);
    lemma_assoc_get_at(o, "SpawnZ"@, 20);
    assert("allowCommands"@.len() != "thunderTime"@.len());
    assert("clearedWeather"@.len() != "thunderTime"@.len());
    assert("clearWeatherTime"@.len() != "thunderTime"@.len());
    assert("currentSaveVersion"@.len() != "thunderTime"@.len());
    assert("DayTime"@.len() != "thunderTime"@.len());
    assert("Difficulty"@.len() != "thunderTime"@.len());
    assert("DifficultyLocked"@.len() != "thunderTime"@.len());
    assert("GameType"@.len() != "thunderTime"@.len());
    assert("generatorName"@.len() != "thunderTime"@.len());
    assert("generatorVersion"@.len() != "thunderTime"@.len());
    assert("generatorOptions"@.len() != "thunderTime"@.len());
    assert("hardcore"@.len() != "thunderTime"@.len());
    assert("HellScale"@.len() != "thunderTime"@.len());
    assert("initialized"@[0] != "thunderTime"@[0]);
    assert("LevelName"@.len() != "thunderTime"@.len());
    assert("MapFeatures"@[0] != "thunderTime"@[0]);
    assert("originalSaveVersion"@.len() != "thunderTime"@.len());
    assert("rainTime"@.len() != "thunderTime"@.len());
    assert("RandomSeed"@.len() != "thunderTime"@.len());
    assert("SpawnX"@.len() != "thunderTime"@.len());
    assert("SpawnZ"@.len() != "thunderTime"@.len());
    lemma_assoc_get_at(o, "thunderTime"@, 21);
    assert("allowCommands"@.len() != "XzSize"@.len());
    assert("clearedWeather"@.len() != "XzSize"@.len());
    assert("clearWeatherTime"@.len() != "XzSize"@.len());
    assert("currentSaveVersion"@.len() != "XzSize"@.len());
    assert("DayTime"@.len() != "XzSize"@.len());
    assert("Difficulty"@.len() != "XzSize"@.len());
    assert("DifficultyLocked"@.len() != "XzSize"@.len());
    assert("GameType"@.len() != "XzSize"@.len());
    assert("generatorName"@.len() != "XzSize"@.len());
    assert("generatorVersion"@.len() != "XzSize"@.len());
    assert("generatorOptions"@.len() != "XzSize"@.len());
    assert("hardcore"@.len() != "XzSize"@.len());
    assert("HellScale"@.len() != "XzSize"@.len());
    assert("initialized"@.len() != "XzSize"@.len());
    assert("LevelName"@.len() != "XzSize"@.len());
    assert("MapFeatures"@.len() != "XzSize"@.len());
    assert("originalSaveVersion"@.len() != "XzSize"@.len());
    assert("rainTime"@.len() != "XzSize"@.len());
    assert("RandomSeed"@.len() != "XzSize"@.len());
    assert("SpawnX"@[0] != "XzSize"@[0]);
    assert("SpawnZ"@[0] != "XzSize"@[0]);
    assert("thunderTime"@.len() != "XzSize"@.len());
    lemma_assoc_get_at(o, "XzSize"@, 22);
    assert("allowCommands"@.len() != "raining"@.len());
    assert("clearedWeather"@.len() != "raining"@.len());
    assert("clearWeatherTime"@.len() != "raining"@.len());
    assert("currentSaveVersion"@.len() != "raining"@.len());
    assert("DayTime"@[0] != "raining"@[0]);
    assert("Difficulty"@.len() != "raining"@.len());
    assert("DifficultyLocked"@.len() != "raining"@.len());
    assert("GameType"@.len() != "raining"@.len());
    assert("generatorName"@.len() != "raining"@.len());
    assert("generatorVersion"@.len() != "raining"@.len());
    assert("generatorOptions"@.len() != "raining"@.len());
    assert("hardcore"@.len() != "raining"@.len());
    assert("HellScale"@.len() != "raining"@.len());
    assert("initialized"@.len() != "raining"@.len());
    assert("LevelName"@.len() != "raining"@.len());
    assert("MapFeatures"@.len() != "raining"@.len());
    assert("originalSaveVersion"@.len() != "raining"@.len());
    assert("rainTime"@.len() != "raining"@.len());
    assert("RandomSeed"@.len() != "raining"@.len());
    assert("SpawnX"@.len() != "raining"@.len());
    assert("SpawnZ"@.len() != "raining"@.len());
    assert("thunderTime"@.len() != "raining"@.len());
    assert("XzSize"@.len() != "raining"@.len());
    lemma_assoc_get_at(o, "raining"@, 23);
    assert("allowCommands"@.len() != "thundering"@.len());
    assert("clearedWeather"@.len() != "thundering"@.len());
    assert("clearWeatherTime"@.len() != "thundering"@.len());
    assert("currentSaveVersion"@.len() != "thundering"@.len());
    assert("DayTime"@.len() != "thundering"@.len());
    assert("Difficulty"@[0] != "thundering"@[0]);
    assert("DifficultyLocked"@.len() != "thundering"@.len());
    assert("GameType"@.len() != "thundering"@.len());
    assert("generatorName"@.len() != "thundering"@.len());
    assert("generatorVersion"@.len() != "thundering"@.len());
    assert("generatorOptions"@.len() != "thundering"@.len());
    assert("hardcore"@.len() != "thundering"@.len());
    assert("HellScale"@.len() != "thundering"@.len());
    assert("initialized"@.len() != "thundering"@.len());
    assert("LevelName"@.len() != "thundering"@.len());
    assert("MapFeatures"@.len() != "thundering"@.len());
    assert("originalSaveVersion"@.len() != "thundering"@.len());
    assert("rainTime"@.len() != "thundering"@.len());
    assert("RandomSeed"@[0] != "thundering"@[0]);
    assert("SpawnX"@.len() != "thundering"@.len());
    assert("SpawnZ"@.len() != "thundering"@.len());
    assert("thunderTime"@.len() != "thundering"@.len());
    assert("XzSize"@.len() != "thundering"@.len());
    assert("raining"@.len() != "thundering"@.len());
    lemma_assoc_get_at(o, "thundering"@, 24);
}

/// The level data records whether it rained since the last thunder (a positive Java
/// `rainTime` and no `thunderTime`), and ends with the version compound naming the
/// game version.
pub proof fn lemma_level_data_weather_and_version(d: Seq<(Seq<char>, NbtValue)>, xz_size: u32, hell_scale: u32, game_version: Seq<char>)
    ensures
        ({
            let o = lce_level_data(d, xz_size, hell_scale, game_version);
            &&& assoc_get(o, "clearedWeather"@) == Some(NbtValue::Byte(
                if (match assoc_get(d, "rainTime"@) { Some(NbtValue::Int(v)) => v, _ => 0 }) > 0
                    && (match assoc_get(d, "thunderTime"@) { Some(NbtValue::Int(v)) => v, _ => 0 }) == 0 { 1 } else { 0 }))
            &&& assoc_get(o, "Version"@) == Some(NbtValue::Compound(seq![
                ("Id"@, NbtValue::Int(19133)),
                ("Name"@, NbtValue::String(game_version)),
                ("Snapshot"@, NbtValue::Byte(0)),
            ]))
        }),
{
    let o = lce_level_data(d, xz_size, hell_scale, game_version);
    let base = lce_level_fields(d, xz_size, hell_scale);
    assert(base.len() == 25);
    assert(forall|i: int| 0 <= i < 25 ==> o[i] == #[trigger] base[i]);
    reveal_strlit("allowCommands");
    reveal_strlit("clearWeatherTime");
    reveal_strlit("currentSaveVersion");
    reveal_strlit("DayTime");
    reveal_strlit("Difficulty");
    reveal_strlit("DifficultyLocked");
    reveal_strlit("GameType");
    reveal_strlit("generatorName");
    reveal_strlit("generatorVersion");
    reveal_strlit("generatorOptions");
    reveal_strlit("hardcore");
    reveal_strlit("HellScale");
    reveal_strlit("initialized");
    reveal_strlit("LevelName");
    reveal_strlit("MapFeatures");
    reveal_strlit("originalSaveVersion");
    reveal_strlit("rainTime");
    reveal_strlit("RandomSeed");
    reveal_strlit("SpawnX");
    reveal_strlit("SpawnZ");
    reveal_strlit("thunderTime");
    reveal_strlit("XzSize");
    reveal_strlit("raining");
    reveal_strlit("thundering");
    assert(o[0].0 == "allowCommands"@);
    assert(o[1].0 == "clearedWeather"@);
    assert(o[2].0 == "clearWeatherTime"@);
    assert(o[3].0 == "currentSaveVersion"@);
    assert(o[4].0 == "DayTime"@);
    assert(o[5].0 == "Difficulty"@);
    assert(o[6].0 == "DifficultyLocked"@);
    assert(o[7].0 == "GameType"@);
    assert(o[8].0 == "generatorName"@);
    assert(o[9].0 == "generatorVersion"@);
    assert(o[10].0 == "generatorOptions"@);
    assert(o[11].0 == "hardcore"@);
    assert(o[12].0 == "HellScale"@);
    assert(o[13].0 == "initialized"@);
    assert(o[14].0 == "LevelName"@);
    assert(o[15].0 == "MapFeatures"@);
    assert(o[16].0 == "originalSaveVersion"@);
    assert(o[17].0 == "rainTime"@);
    assert(o[18].0 == "RandomSeed"@);
    assert(o[19].0 == "SpawnX"@);
    assert(o[20].0 == "SpawnZ"@);
    assert(o[21].0 == "thunderTime"@);
    assert(o[22].0 == "XzSize"@);
    assert(o[23].0 == "raining"@);
    assert(o[24].0 == "thundering"@);
    reveal_strlit("clearedWeather");
    reveal_strlit("Version");
    reveal_strlit("GameRules");
    assert("allowCommands"@.len() != "clearedWeather"@.len());
    lemma_assoc_get_at(o, "clearedWeather"@, 1);
    assert("allowCommands"@.len() != "Version"@.len());
    assert("clearedWeather"@.len() != "Version"@.len());
    assert("clearWeatherTime"@.len() != "Version"@.len());
    assert("currentSaveVersion"@.len() != "Version"@.len());
    assert("DayTime"@[0] != "Version"@[0]);
    assert("Difficulty"@.len() != "Version"@.len());
    assert("DifficultyLocked"@.len() != "Version"@.len());
    assert("GameType"@.len() != "Version"@.len());
    assert("generatorName"@.len() != "Version"@.len());
    assert("generatorVersion"@.len() != "Version"@.len());
    assert("generatorOptions"@.len() != "Version"@.len());
    assert("hardcore"@.len() != "Version"@.len());
    assert("HellScale"@.len() != "Version"@.len());
    assert("initialized"@.len() != "Version"@.len());
    assert("LevelName"@.len() != "Version"@.len());
    assert("MapFeatures"@.len() != "Version"@.len());
    assert("originalSaveVersion"@.len() != "Version"@.len());
    assert("rainTime"@.len() != "Version"@.len());
    assert("RandomSeed"@.len() != "Version"@.len());
    assert("SpawnX"@.len() != "Version"@.len());
    assert("SpawnZ"@.len() != "Version"@.len());
    assert("thunderTime"@.len() != "Version"@.len());
    assert("XzSize"@.len() != "Version"@.len());
    assert("raining"@[0] != "Version"@[0]);
    assert("thundering"@.len() != "Version"@.len());
    assert("GameRules"@.len() != "Version"@.len());
    let last = o.len() - 1;
    assert(o[last].0 == "Version"@);
    assert forall|j: int| 0 <= j < last implies o[j].0 != "Version"@ by {
        if j == 25 {
            assert(o[j].0 == "GameRules"@);
        }
    }
    lemma_assoc_get_at(o, "Version"@, last);
}

/// The world widths of the profiles.
pub open spec fn spec_profile_sizes(xz_size: u32) -> bool {
    xz_size == 54 || xz_size == 64 || xz_size == 192 || xz_size == 320
}

/// The Java level data of a root compound: its `Data` compound, or the root itself.
pub open spec fn java_level_data(root: Seq<(Seq<char>, NbtValue)>) -> Seq<(Seq<char>, NbtValue)> {
    match assoc_get(root, "Data"@) {
        Some(NbtValue::Compound(d)) => d,
        _ => root,
    }
}

/// The level file written for profile `(xz_size, hell_scale)`: a root compound holding
/// the level data under `Data`.
pub open spec fn lce_level_root(root: Seq<(Seq<char>, NbtValue)>, xz_size: u32, hell_scale: u32, game_version: Seq<char>) -> NbtValue {
    NbtValue::Compound(seq![("Data"@, NbtValue::Compound(lce_level_data(java_level_data(root), xz_size, hell_scale, game_version)))])
}

fn collect_string_rules(rules: &Vec<(String, NbtTag)>) -> (r: Vec<(String, NbtTag)>)
    ensures
        items_view(r@) == string_rules(items_view(rules@)),
{
    let mut game_rules: Vec<(String, NbtTag)> = Vec::new();
    assert(items_view(game_rules@) =~= Seq::<(Seq<char>, NbtValue)>::empty());
    assert(rules@.subrange(0, 0) =~= Seq::<(String, NbtTag)>::empty());
    let mut i: usize = 0;
    while i < rules.len()
        invariant
            i <= rules@.len(),
            items_view(game_rules@) == string_rules(items_view(rules@.subrange(0, i as int))),
        decreases rules@.len() - i,
    {
        proof {
            lemma_items_view_step(rules@, i as int);
            let s = items_view(rules@.subrange(0, i as int + 1));
            assert(s.drop_last() =~= items_view(rules@.subrange(0, i as int)));
        }
        if let Some(s) = rules[i].1.get_string() {
            put_entry(&mut game_rules, rules[i].0.clone(), NbtTag::String(to_owned_string(s)));
        }
        i += 1;
    }
    assert(rules@.subrange(0, rules@.len() as int) =~= rules@);
    game_rules
}

fn flag_tag(b: bool) -> (r: NbtTag)
    ensures
        r@ == flag(b),
{
    NbtTag::Byte(if b { 1 } else { 0 })
}

fn push_weather_fields(lce_data: &mut Vec<(String, NbtTag)>, data_tag: &Vec<(String, NbtTag)>)
    ensures
        items_view(final(lce_data)@) == items_view(old(lce_data)@) + lce_weather_fields(items_view(data_tag@)),
{
    let ghost start = items_view(lce_data@);
    let day_time = match NbtHelper::get_int(data_tag, "DayTime") { Some(v) => v, None => 0 };
    let allow_commands = match NbtHelper::get_byte(data_tag, "allowCommands") { Some(v) => v, None => 0 } != 0;
    let difficulty = match NbtHelper::get_byte(data_tag, "Difficulty") { Some(v) => v, None => 2 };
    let clear_weather = rained_since_last_thunder_cleanup(data_tag);
    push_entry(lce_data, "allowCommands", flag_tag(allow_commands));
    push_entry(lce_data, "clearedWeather", flag_tag(clear_weather));
    push_entry(lce_data, "clearWeatherTime", NbtTag::Int(0));
    push_entry(lce_data, "currentSaveVersion", NbtTag::Int(9));
    push_entry(lce_data, "DayTime", NbtTag::Int(day_time));
    push_entry(lce_data, "Difficulty", NbtTag::Byte(difficulty));
    assert(items_view(lce_data@) =~= start + lce_weather_fields(items_view(data_tag@)));
}

fn push_generator_fields(lce_data: &mut Vec<(String, NbtTag)>, data_tag: &Vec<(String, NbtTag)>)
    ensures
        items_view(final(lce_data)@) == items_view(old(lce_data)@) + lce_generator_fields(items_view(data_tag@)),
{
    let ghost start = items_view(lce_data@);
    let game_type = match NbtHelper::get_int(data_tag, "GameType") { Some(v) => v, None => 0 };
    let difficulty_locked = match NbtHelper::get_byte(data_tag, "DifficultyLocked") { Some(v) => v, None => 0 } != 0;
    let hardcore = match NbtHelper::get_byte(data_tag, "hardcore") { Some(v) => v, None => 0 } != 0;
    let generator_name = match NbtHelper::get_string(data_tag, "generatorName") { Some(v) => v, None => to_owned_string("default") };
    let generator_version = match NbtHelper::get_int(data_tag, "generatorVersion") { Some(v) => v, None => 1 };
    let generator_options = match NbtHelper::get_string(data_tag, "generatorOptions") { Some(v) => v, None => String::new() };
    push_entry(lce_data, "DifficultyLocked", flag_tag(difficulty_locked));
    push_entry(lce_data, "GameType", NbtTag::Int(game_type));
    push_entry(lce_data, "generatorName", NbtTag::String(generator_name));
    push_entry(lce_data, "generatorVersion", NbtTag::Int(generator_version));
    push_entry(lce_data, "generatorOptions", NbtTag::String(generator_options));
    push_entry(lce_data, "hardcore", flag_tag(hardcore));
    assert(items_view(lce_data@) =~= start + lce_generator_fields(items_view(data_tag@)));
}

#[verifier::rlimit(100)]
fn push_world_fields(lce_data: &mut Vec<(String, NbtTag)>, data_tag: &Vec<(String, NbtTag)>, xz_size: u32, hell_scale: u32)
    requires
        spec_profile_sizes(xz_size),
    ensures
        items_view(final(lce_data)@) == items_view(old(lce_data)@) + lce_world_fields(items_view(data_tag@), xz_size, hell_scale),
{
    let ghost start = items_view(lce_data@);
    let center_offset = world_center_offset(xz_size);
    let spawn_x = match NbtHelper::get_int(data_tag, "SpawnX") { Some(v) => v, None => 0 };
    let spawn_z = match NbtHelper::get_int(data_tag, "SpawnZ") { Some(v) => v, None => 0 };
    let new_spawn_x = clamp_to_world(spawn_x, center_offset, xz_size as i32);
    let new_spawn_z = clamp_to_world(spawn_z, center_offset, xz_size as i32);
    let rain_time = match NbtHelper::get_int(data_tag, "rainTime") { Some(v) => v, None => 0 };
    let thunder_time = match NbtHelper::get_int(data_tag, "thunderTime") { Some(v) => v, None => 0 };
    let raining = match NbtHelper::get_byte(data_tag, "raining") { Some(v) => v, None => 0 } != 0;
    let thundering = match NbtHelper::get_byte(data_tag, "thundering") { Some(v) => v, None => 0 } != 0;
    let seed = match NbtHelper::get_long(data_tag, "RandomSeed") { Some(v) => v, None => 0 };
    let level_name = match NbtHelper::get_string(data_tag, "LevelName") { Some(v) => v, None => to_owned_string("Imported World") };
    let map_features = match NbtHelper::get_byte(data_tag, "MapFeatures") { Some(v) => v, None => 1 } != 0;
    let initialized = match NbtHelper::get_byte(data_tag, "initialized") { Some(v) => v, None => 1 } != 0;
    push_entry(lce_data, "HellScale", NbtTag::Int(hell_scale as i32));
    push_entry(lce_data, "initialized", flag_tag(initialized));
    push_entry(lce_data, "LevelName", NbtTag::String(level_name));
    push_entry(lce_data, "MapFeatures", flag_tag(map_features));
    push_entry(lce_data, "originalSaveVersion", NbtTag::Int(7));
    push_entry(lce_data, "rainTime", NbtTag::Int(rain_time));
    push_entry(lce_data, "RandomSeed", NbtTag::Long(seed));
    push_entry(lce_data, "SpawnX", NbtTag::Int(new_spawn_x));
    push_entry(lce_data, "SpawnZ", NbtTag::Int(new_spawn_z));
    push_entry(lce_data, "thunderTime", NbtTag::Int(thunder_time));
    push_entry(lce_data, "XzSize", NbtTag::Int(xz_size as i32));
    push_entry(lce_data, "raining", flag_tag(raining));
    push_entry(lce_data, "thundering", flag_tag(thundering));
    assert(items_view(lce_data@) =~= start + lce_world_fields(items_view(data_tag@), xz_size, hell_scale));
}

/// The level file for a world of `xz_size` chunks and nether scale `hell_scale` built
/// from the Java level data `data_tag`.
fn build_level_root(data_tag: &Vec<(String, NbtTag)>, xz_size: u32, hell_scale: u32, game_version: &str) -> (out: NbtTag)
    requires
        spec_profile_sizes(xz_size),
    ensures
        out@ == NbtValue::Compound(seq![("Data"@, NbtValue::Compound(lce_level_data(items_view(data_tag@), xz_size, hell_scale, game_version@)))]),
{
    let ghost d = items_view(data_tag@);
    let game_rules = match NbtHelper::get_compound(data_tag, "GameRules") {
        Some(rules) => collect_string_rules(&rules),
        None => Vec::new(),
    };
    proof {
        if !(crate::nbt::entry(data_tag@, "GameRules"@) matches Some(NbtValue::Compound(_))) {
            assert(items_view(game_rules@) =~= Seq::<(Seq<char>, NbtValue)>::empty());
        }
    }
    let mut lce_data: Vec<(String, NbtTag)> = Vec::new();
    assert(items_view(lce_data@) =~= Seq::<(Seq<char>, NbtValue)>::empty());
    push_weather_fields(&mut lce_data, data_tag);
    push_generator_fields(&mut lce_data, data_tag);
    push_world_fields(&mut lce_data, data_tag, xz_size, hell_scale);
    let ghost rules_view = items_view(game_rules@);
    assert(items_view(lce_data@) =~= lce_level_fields(d, xz_size, hell_scale));
    if game_rules.len() != 0 {
        push_entry(&mut lce_data, "GameRules", NbtTag::Compound(game_rules));
    }
    let version_info = build_version_info(game_version);
    push_entry(&mut lce_data, "Version", NbtTag::Compound(version_info));
    let mut top: Vec<(String, NbtTag)> = Vec::new();
    assert(items_view(top@) =~= Seq::<(Seq<char>, NbtValue)>::empty());
    push_entry(&mut top, "Data", NbtTag::Compound(lce_data));
    proof {
        assert(rules_view == game_rules_of(d));
        assert(items_view(top@) =~= seq![("Data"@, NbtValue::Compound(lce_level_data(d, xz_size, hell_scale, game_version@)))]);
    }
    NbtTag::Compound(top)
}

/// Converts a gzip-compressed Java `level.dat` into the zlib-compressed level data of
/// a Legacy Console Edition save for the world profile `profile_name`. Fails as
/// reading the NBT does, with an invalid-format error when the root is not a compound
/// or the profile is unknown, and with an NBT error when a string is too long to write.
pub fn convert_level_dat(
    source_data: &[u8],
    profile_name: &str,
    game_version: &str,
    _context: &mut ChunkConversionContext,
) -> (r: Result<Vec<u8>, ConversionError>)
    ensures
        gzip_decoded(source_data@) is None ==> r matches Err(ConversionError::Io(_)),
        gzip_decoded(source_data@) matches Some(raw) ==> match spec_read_nbt(raw) {
            Parsed::Done((_, v), _) => match v {
                NbtValue::Compound(root) => match spec_profile(profile_name@) {
                    Some((xz, hell, _)) => {
                        let out = lce_level_root(root, xz, hell, game_version@);
                        &&& !writable(out) ==> (r matches Err(ConversionError::NbtError(_)))
                        &&& writable(out) ==> match zlib_encoded(spec_write_nbt(Seq::empty(), out)) {
                            Some(b) => (r matches Ok(bytes) && bytes@ == b),
                            None => (r matches Err(ConversionError::Io(_))),
                        }
                    },
                    None => (r matches Err(ConversionError::InvalidFormat(m)) && m@ == "Unknown profile: "@ + profile_name@),
                },
                _ => (r matches Err(ConversionError::InvalidFormat(m)) && m@ == "level.dat root is not a compound"@),
            },
            Parsed::Eof => (r matches Err(ConversionError::Io(_))),
            Parsed::Bad => (r matches Err(ConversionError::NbtError(_))),
        },
        *final(_context) == *old(_context),
{
    let (_name, root) = match read_gzipped_nbt(source_data) {
        Ok(p) => p,
        Err(e) => return Err(e),
    };
    let data = match root.as_compound() {
        Some(m) => crate::nbt::copy_items(m),
        None => return Err(ConversionError::InvalidFormat(to_owned_string("level.dat root is not a compound"))),
    };
    let data_tag = match NbtHelper::get_compound(&data, "Data") {
        Some(d) => d,
        None => crate::nbt::copy_items(&data),
    };
    let ghost d = items_view(data_tag@);
    assert(d == java_level_data(items_view(data@)));
    let profile = match get_profile(profile_name) {
        Some(p) => p,
        None => {
            let mut m = to_owned_string("Unknown profile: ");
            string_push_str(&mut m, profile_name);
            return Err(ConversionError::InvalidFormat(m));
        },
    };
    proof {
        assert(spec_profile_sizes(profile.xz_size));
    }
    let out = build_level_root(&data_tag, profile.xz_size, profile.hell_scale, game_version);
    proof {
        reveal_strlit("");
        assert(""@ =~= Seq::<char>::empty());
        assert(out@ == lce_level_root(items_view(data@), profile.xz_size, profile.hell_scale, game_version@));
    }
    write_zlibbed_nbt("", &out)
}

} // verus!
