use console2lce::block_mapping::{get_color_data, get_color_name, get_wood_data, modern_direct_lookup};
use console2lce::models::{ChunkConversionContext, LegacyBlockState};
use console2lce::modern_chunk_writer::{get_nibble, get_prefix_before_underscore, map_modern_block_state, set_nibble};

fn props(pairs: &[(&str, &str)]) -> Vec<(String, String)> {
    pairs.iter().map(|(k, v)| (k.to_string(), v.to_string())).collect()
}

fn state(s: LegacyBlockState) -> (u8, u8) {
    (s.id, s.data)
}

#[test]
fn nibble_set_then_get() {
    let mut arr = vec![0u8; 4];
    set_nibble(&mut arr, 3, 0xA);
    set_nibble(&mut arr, 2, 0x5);
    assert_eq!(get_nibble(&arr, 3), 0xA);
    assert_eq!(get_nibble(&arr, 2), 0x5);
    assert_eq!(arr[1], 0xA5);
    assert_eq!(get_nibble(&arr, 0), 0);
    set_nibble(&mut arr, 3, 0x1F);
    assert_eq!(get_nibble(&arr, 3), 0xF);
    assert_eq!(get_nibble(&arr, 2), 0x5);
}

#[test]
fn direct_blocks_map_to_legacy_ids() {
    let mut ctx = ChunkConversionContext::new();
    assert_eq!(state(map_modern_block_state("minecraft:stone", &props(&[]), &mut ctx)), (1, 0));
    assert_eq!(state(map_modern_block_state("granite", &props(&[]), &mut ctx)), (1, 1));
    assert_eq!(state(map_modern_block_state("minecraft:grass_block", &props(&[]), &mut ctx)), (2, 0));
    assert_eq!(state(map_modern_block_state("minecraft:trapped_chest", &props(&[]), &mut ctx)), (146, 0));
    assert!(ctx.unknown_blocks.is_empty());
    assert_eq!(modern_direct_lookup("bedrock").map(state), Some((7, 0)));
    assert!(modern_direct_lookup("not_a_block").is_none());
}

#[test]
fn colored_blocks_take_their_color() {
    let mut ctx = ChunkConversionContext::new();
    assert_eq!(state(map_modern_block_state("minecraft:red_wool", &props(&[]), &mut ctx)), (35, 14));
    assert_eq!(state(map_modern_block_state("minecraft:light_blue_stained_glass", &props(&[]), &mut ctx)), (95, 3));
    assert_eq!(state(map_modern_block_state("wool", &props(&[("color", "lime")]), &mut ctx)), (35, 5));
    assert_eq!(get_color_name("silver"), 8);
    assert_eq!(get_color_data("black"), 15);
    assert_eq!(get_color_name("no_such_color"), 0);
}

#[test]
fn unknown_blocks_become_air_and_are_recorded_once() {
    let mut ctx = ChunkConversionContext::new();
    assert_eq!(state(map_modern_block_state("minecraft:frobnicator", &props(&[]), &mut ctx)), (0, 0));
    assert_eq!(state(map_modern_block_state("frobnicator", &props(&[]), &mut ctx)), (0, 0));
    assert_eq!(state(map_modern_block_state("minecraft:gizmo", &props(&[]), &mut ctx)), (0, 0));
    assert_eq!(ctx.unknown_blocks, vec!["frobnicator".to_string(), "gizmo".to_string()]);
}

#[test]
fn water_level_maps_to_fluid_data() {
    let mut ctx = ChunkConversionContext::new();
    let still = map_modern_block_state("minecraft:water", &props(&[("level", "0")]), &mut ctx);
    assert_eq!(still.id, 9);
    let lava = map_modern_block_state("minecraft:lava", &props(&[("level", "0")]), &mut ctx);
    assert_eq!(lava.id, 11);
}

#[test]
fn wood_data_and_prefixes() {
    assert_eq!(get_wood_data("spruce"), 1);
    assert_eq!(get_wood_data("dark_oak"), 5);
    assert_eq!(get_wood_data("oak"), 0);
    assert_eq!(get_prefix_before_underscore("dark_oak_log"), "dark");
    assert_eq!(get_prefix_before_underscore("stone"), "");
}
