//! Mapping of modern (flattened, property-based) block states to legacy blocks, and
//! flattening of Anvil chunk sections into one legacy chunk column.
use vstd::prelude::*;
use vstd::arithmetic::power2::{lemma2_to64, lemma_pow2_unfold, pow2};
use crate::assoc::{assoc_get, assoc_put, find_key, lemma_find_key_view};
use crate::block_mapping::{color_names, strs_view, get_color_data, get_color_name, get_wood_data, modern_direct_lookup, spec_color_name,
    spec_color_names, spec_modern_direct, spec_wood_data};
use crate::nbt::{items_view, lemma_items_view_step, lemma_tags_view, tags_view, NbtHelper, NbtTag, NbtValue};
use crate::models::{extends_unique, lemma_extends_trans, lemma_with_unknown, strings_view, with_unknown, ChunkConversionContext,
    DecodedSection, LegacyBlockState};
use crate::archive::slice_from;
use vstd::slice::slice_to_vec;
use crate::text::{contains_seq, parse_i32, spec_parse_i32, str_contains, str_eq, str_ends_with, str_split_once_char,
    str_starts_with, str_strip_prefix, to_owned_string};

verus! {

/// The keys and values of a property map as character sequences.
pub open spec fn props_view(p: Seq<(String, String)>) -> Seq<(Seq<char>, Seq<char>)> {
    p.map_values(|e: (String, String)| (e.0@, e.1@))
}

/// The value of property `key`, or the empty string when it is absent.
pub open spec fn prop(p: Seq<(Seq<char>, Seq<char>)>, key: Seq<char>) -> Seq<char> {
    match assoc_get(p, key) {
        Some(v) => v,
        None => Seq::empty(),
    }
}

/// Whether property `key` is `true`.
pub open spec fn bool_prop(p: Seq<(Seq<char>, Seq<char>)>, key: Seq<char>) -> bool {
    prop(p, key) == "true"@
}

/// Property `key` read as an `i32`, or `default` when it is absent or not a number.
pub open spec fn int_prop(p: Seq<(Seq<char>, Seq<char>)>, key: Seq<char>, default: i32) -> i32 {
    match spec_parse_i32(prop(p, key)) {
        Some(v) => v,
        None => default,
    }
}

/// `v` brought into `lo..=hi`.
pub open spec fn clamped(v: i32, lo: i32, hi: i32) -> i32 {
    if v < lo {
        lo
    } else if v > hi {
        hi
    } else {
        v
    }
}

/// Whether `s` ends with `suffix`.
pub open spec fn ends_with(s: Seq<char>, suffix: Seq<char>) -> bool {
    suffix.len() <= s.len() && s.subrange(s.len() - suffix.len(), s.len() as int) == suffix
}

/// Whether `s` begins with `prefix`.
pub open spec fn starts_with(s: Seq<char>, prefix: Seq<char>) -> bool {
    prefix.len() <= s.len() && s.subrange(0, prefix.len() as int) == prefix
}

fn get_prop<'a>(properties: &'a Vec<(String, String)>, key: &str) -> (r: &'a str)
    ensures
        r@ == prop(props_view(properties@), key@),
{
    let found = find_key(properties, key);
    proof {
        lemma_find_key_view(properties@, props_view(properties@), key@, found);
        reveal_strlit("");
    }
    match found {
        Some(i) => properties[i].1.as_str(),
        None => "",
    }
}

fn get_bool_prop(properties: &Vec<(String, String)>, key: &str) -> (r: bool)
    ensures
        r == bool_prop(props_view(properties@), key@),
{
    str_eq(get_prop(properties, key), "true")
}

fn get_int_prop(properties: &Vec<(String, String)>, key: &str, default: i32) -> (r: i32)
    ensures
        r == int_prop(props_view(properties@), key@, default),
{
    match parse_i32(get_prop(properties, key)) {
        Some(v) => v,
        None => default,
    }
}

fn clamp_i32(v: i32, lo: i32, hi: i32) -> (r: i32)
    requires
        lo <= hi,
    ensures
        r == clamped(v, lo, hi),
{
    if v < lo {
        lo
    } else if v > hi {
        hi
    } else {
        v
    }
}

/// The legacy block with id `id` and data `data`.
pub open spec fn legacy(id: u8, data: u8) -> LegacyBlockState {
    LegacyBlockState { id, data }
}

/// The data value of stairs facing `facing`.
pub open spec fn stairs_facing(facing: Seq<char>) -> u8 {
    if facing == "east"@ {
        0
    } else if facing == "west"@ {
        1
    } else if facing == "south"@ {
        2
    } else if facing == "north"@ {
        3
    } else {
        0
    }
}

fn map_stairs_facing(facing: &str) -> (r: u8)
    ensures
        r == stairs_facing(facing@),
{
    if str_eq(facing, "east") {
        return 0;
    }
    if str_eq(facing, "west") {
        return 1;
    }
    if str_eq(facing, "south") {
        return 2;
    }
    if str_eq(facing, "north") {
        return 3;
    }
    0
}

/// The data value of a ladder facing `facing`.
pub open spec fn ladder_facing(facing: Seq<char>) -> u8 {
    if facing == "north"@ {
        2
    } else if facing == "south"@ {
        3
    } else if facing == "west"@ {
        4
    } else if facing == "east"@ {
        5
    } else {
        2
    }
}

fn map_ladder_facing(facing: &str) -> (r: u8)
    ensures
        r == ladder_facing(facing@),
{
    if str_eq(facing, "north") {
        return 2;
    }
    if str_eq(facing, "south") {
        return 3;
    }
    if str_eq(facing, "west") {
        return 4;
    }
    if str_eq(facing, "east") {
        return 5;
    }
    2
}

/// The data value of a button facing `facing`.
pub open spec fn button_facing(facing: Seq<char>) -> u8 {
    if facing == "east"@ {
        1
    } else if facing == "west"@ {
        2
    } else if facing == "south"@ {
        3
    } else if facing == "north"@ {
        4
    } else {
        1
    }
}

fn map_button_facing(facing: &str) -> (r: u8)
    ensures
        r == button_facing(facing@),
{
    if str_eq(facing, "east") {
        return 1;
    }
    if str_eq(facing, "west") {
        return 2;
    }
    if str_eq(facing, "south") {
        return 3;
    }
    if str_eq(facing, "north") {
        return 4;
    }
    1
}

/// The data value of a fence gate facing `facing`.
pub open spec fn fence_gate_facing(facing: Seq<char>) -> u8 {
    if facing == "south"@ {
        0
    } else if facing == "west"@ {
        1
    } else if facing == "north"@ {
        2
    } else if facing == "east"@ {
        3
    } else {
        0
    }
}

fn map_fence_gate_facing(facing: &str) -> (r: u8)
    ensures
        r == fence_gate_facing(facing@),
{
    if str_eq(facing, "south") {
        return 0;
    }
    if str_eq(facing, "west") {
        return 1;
    }
    if str_eq(facing, "north") {
        return 2;
    }
    if str_eq(facing, "east") {
        return 3;
    }
    0
}

/// The data value of a lower door half facing `facing`.
pub open spec fn door_facing(facing: Seq<char>) -> u8 {
    if facing == "east"@ {
        0
    } else if facing == "south"@ {
        1
    } else if facing == "west"@ {
        2
    } else if facing == "north"@ {
        3
    } else {
        0
    }
}

fn map_door_facing(facing: &str) -> (r: u8)
    ensures
        r == door_facing(facing@),
{
    if str_eq(facing, "east") {
        return 0;
    }
    if str_eq(facing, "south") {
        return 1;
    }
    if str_eq(facing, "west") {
        return 2;
    }
    if str_eq(facing, "north") {
        return 3;
    }
    0
}

/// The data value of a trapdoor facing `facing`.
pub open spec fn trapdoor_facing(facing: Seq<char>) -> u8 {
    if facing == "north"@ {
        0
    } else if facing == "south"@ {
        1
    } else if facing == "west"@ {
        2
    } else if facing == "east"@ {
        3
    } else {
        0
    }
}

fn map_trapdoor_facing(facing: &str) -> (r: u8)
    ensures
        r == trapdoor_facing(facing@),
{
    if str_eq(facing, "north") {
        return 0;
    }
    if str_eq(facing, "south") {
        return 1;
    }
    if str_eq(facing, "west") {
        return 2;
    }
    if str_eq(facing, "east") {
        return 3;
    }
    0
}

/// The six-way facing data value of dispensers, droppers and pistons.
pub open spec fn facing_data(facing: Seq<char>) -> u8 {
    if facing == "down"@ {
        0
    } else if facing == "up"@ {
        1
    } else if facing == "north"@ {
        2
    } else if facing == "south"@ {
        3
    } else if facing == "west"@ {
        4
    } else if facing == "east"@ {
        5
    } else {
        3
    }
}

fn map_facing_data(facing: &str) -> (r: u8)
    ensures
        r == facing_data(facing@),
{
    if str_eq(facing, "down") {
        return 0;
    }
    if str_eq(facing, "up") {
        return 1;
    }
    if str_eq(facing, "north") {
        return 2;
    }
    if str_eq(facing, "south") {
        return 3;
    }
    if str_eq(facing, "west") {
        return 4;
    }
    if str_eq(facing, "east") {
        return 5;
    }
    3
}

/// The direction data value of repeaters, comparators and cocoa.
pub open spec fn repeater_direction(facing: Seq<char>) -> u8 {
    if facing == "south"@ {
        0
    } else if facing == "west"@ {
        1
    } else if facing == "north"@ {
        2
    } else if facing == "east"@ {
        3
    } else {
        0
    }
}

fn map_repeater_direction(facing: &str) -> (r: u8)
    ensures
        r == repeater_direction(facing@),
{
    if str_eq(facing, "south") {
        return 0;
    }
    if str_eq(facing, "west") {
        return 1;
    }
    if str_eq(facing, "north") {
        return 2;
    }
    if str_eq(facing, "east") {
        return 3;
    }
    0
}

/// The data value of a wall torch facing `facing`.
pub open spec fn wall_torch_facing(facing: Seq<char>) -> u8 {
    if facing == "east"@ {
        1
    } else if facing == "west"@ {
        2
    } else if facing == "south"@ {
        3
    } else if facing == "north"@ {
        4
    } else {
        1
    }
}

fn map_wall_torch_facing(facing: &str) -> (r: u8)
    ensures
        r == wall_torch_facing(facing@),
{
    if str_eq(facing, "east") {
        return 1;
    }
    if str_eq(facing, "west") {
        return 2;
    }
    if str_eq(facing, "south") {
        return 3;
    }
    if str_eq(facing, "north") {
        return 4;
    }
    1
}

/// The legacy variant of a wooden slab.
pub open spec fn wood_slab_variant(name: Seq<char>) -> Option<u8> {
    if name == "oak_slab"@ {
        Some(0u8)
    } else if name == "spruce_slab"@ {
        Some(1u8)
    } else if name == "birch_slab"@ {
        Some(2u8)
    } else if name == "jungle_slab"@ {
        Some(3u8)
    } else if name == "acacia_slab"@ {
        Some(4u8)
    } else if name == "dark_oak_slab"@ {
        Some(5u8)
    } else {
        None
    }
}

fn get_wood_slab_variant(name: &str) -> (r: Option<u8>)
    ensures
        r == wood_slab_variant(name@),
{
    if str_eq(name, "oak_slab") {
        return Some(0);
    }
    if str_eq(name, "spruce_slab") {
        return Some(1);
    }
    if str_eq(name, "birch_slab") {
        return Some(2);
    }
    if str_eq(name, "jungle_slab") {
        return Some(3);
    }
    if str_eq(name, "acacia_slab") {
        return Some(4);
    }
    if str_eq(name, "dark_oak_slab") {
        return Some(5);
    }
    None
}

/// The legacy variant of a stone slab.
pub open spec fn stone_slab_variant(name: Seq<char>) -> Option<u8> {
    if name == "stone_slab"@ || name == "smooth_stone_slab"@ || name == "andesite_slab"@ || name == "polished_andesite_slab"@ || name == "diorite_slab"@ || name == "polished_diorite_slab"@ || name == "granite_slab"@ || name == "polished_granite_slab"@ {
        Some(0u8)
    } else if name == "sandstone_slab"@ || name == "smooth_sandstone_slab"@ || name == "cut_sandstone_slab"@ || name == "red_sandstone_slab"@ || name == "smooth_red_sandstone_slab"@ || name == "cut_red_sandstone_slab"@ {
        Some(1u8)
    } else if name == "cobblestone_slab"@ || name == "mossy_cobblestone_slab"@ {
        Some(3u8)
    } else if name == "brick_slab"@ {
        Some(4u8)
    } else if name == "stone_brick_slab"@ || name == "mossy_stone_brick_slab"@ {
        Some(5u8)
    } else if name == "nether_brick_slab"@ || name == "red_nether_brick_slab"@ {
        Some(6u8)
    } else if name == "quartz_slab"@ || name == "smooth_quartz_slab"@ || name == "purpur_slab"@ || name == "prismarine_slab"@ || name == "prismarine_brick_slab"@ || name == "dark_prismarine_slab"@ {
        Some(7u8)
    } else {
        None
    }
}

fn get_stone_slab_variant(name: &str) -> (r: Option<u8>)
    ensures
        r == stone_slab_variant(name@),
{
    if str_eq(name, "stone_slab") || str_eq(name, "smooth_stone_slab") || str_eq(name, "andesite_slab") || str_eq(name, "polished_andesite_slab") || str_eq(name, "diorite_slab") || str_eq(name, "polished_diorite_slab") || str_eq(name, "granite_slab") || str_eq(name, "polished_granite_slab") {
        return Some(0);
    }
    if str_eq(name, "sandstone_slab") || str_eq(name, "smooth_sandstone_slab") || str_eq(name, "cut_sandstone_slab") || str_eq(name, "red_sandstone_slab") || str_eq(name, "smooth_red_sandstone_slab") || str_eq(name, "cut_red_sandstone_slab") {
        return Some(1);
    }
    if str_eq(name, "cobblestone_slab") || str_eq(name, "mossy_cobblestone_slab") {
        return Some(3);
    }
    if str_eq(name, "brick_slab") {
        return Some(4);
    }
    if str_eq(name, "stone_brick_slab") || str_eq(name, "mossy_stone_brick_slab") {
        return Some(5);
    }
    if str_eq(name, "nether_brick_slab") || str_eq(name, "red_nether_brick_slab") {
        return Some(6);
    }
    if str_eq(name, "quartz_slab") || str_eq(name, "smooth_quartz_slab") || str_eq(name, "purpur_slab") || str_eq(name, "prismarine_slab") || str_eq(name, "prismarine_brick_slab") || str_eq(name, "dark_prismarine_slab") {
        return Some(7);
    }
    None
}

/// The legacy block id of a stairs block.
pub open spec fn stairs_id(name: Seq<char>) -> Option<u8> {
    if name == "oak_stairs"@ || name == "spruce_stairs"@ || name == "birch_stairs"@ || name == "jungle_stairs"@ || name == "acacia_stairs"@ || name == "dark_oak_stairs"@ {
        Some(53u8)
    } else if name == "cobblestone_stairs"@ || name == "mossy_cobblestone_stairs"@ || name == "stone_stairs"@ {
        Some(67u8)
    } else if name == "brick_stairs"@ {
        Some(108u8)
    } else if name == "stone_brick_stairs"@ || name == "mossy_stone_brick_stairs"@ {
        Some(109u8)
    } else if name == "nether_brick_stairs"@ {
        Some(114u8)
    } else if name == "sandstone_stairs"@ || name == "red_sandstone_stairs"@ {
        Some(128u8)
    } else if name == "quartz_stairs"@ || name == "purpur_stairs"@ {
        Some(156u8)
    } else {
        None
    }
}

fn get_stairs_id(name: &str) -> (r: Option<u8>)
    ensures
        r == stairs_id(name@),
{
    if str_eq(name, "oak_stairs") || str_eq(name, "spruce_stairs") || str_eq(name, "birch_stairs") || str_eq(name, "jungle_stairs") || str_eq(name, "acacia_stairs") || str_eq(name, "dark_oak_stairs") {
        return Some(53);
    }
    if str_eq(name, "cobblestone_stairs") || str_eq(name, "mossy_cobblestone_stairs") || str_eq(name, "stone_stairs") {
        return Some(67);
    }
    if str_eq(name, "brick_stairs") {
        return Some(108);
    }
    if str_eq(name, "stone_brick_stairs") || str_eq(name, "mossy_stone_brick_stairs") {
        return Some(109);
    }
    if str_eq(name, "nether_brick_stairs") {
        return Some(114);
    }
    if str_eq(name, "sandstone_stairs") || str_eq(name, "red_sandstone_stairs") {
        return Some(128);
    }
    if str_eq(name, "quartz_stairs") || str_eq(name, "purpur_stairs") {
        return Some(156);
    }
    None
}

/// The legacy block of the remaining one-to-one modern blocks; a redstone lamp is
/// lit or unlit by its `lit` property.
pub open spec fn spec_variant(name: Seq<char>, p: Seq<(Seq<char>, Seq<char>)>) -> Option<LegacyBlockState> {
    if name == "redstone_lamp"@ {
        Some(legacy(if bool_prop(p, "lit"@) { 124 } else { 123 }, 0))
    } else if name == "deepslate"@ || name == "polished_deepslate"@ || name == "tuff"@ || name == "calcite"@ || name == "dripstone_block"@ {
        Some(legacy(1, 0))
    } else if name == "cobbled_deepslate"@ {
        Some(legacy(4, 0))
    } else if name == "deepslate_bricks"@ || name == "deepslate_tiles"@ {
        Some(legacy(98, 0))
    } else if name == "cracked_deepslate_bricks"@ || name == "cracked_deepslate_tiles"@ {
        Some(legacy(98, 2))
    } else if name == "chiseled_deepslate"@ {
        Some(legacy(98, 3))
    } else if name == "deepslate_coal_ore"@ {
        Some(legacy(16, 0))
    } else if name == "deepslate_iron_ore"@ || name == "deepslate_copper_ore"@ {
        Some(legacy(15, 0))
    } else if name == "deepslate_gold_ore"@ {
        Some(legacy(14, 0))
    } else if name == "deepslate_redstone_ore"@ {
        Some(legacy(73, 0))
    } else if name == "deepslate_lapis_ore"@ {
        Some(legacy(21, 0))
    } else if name == "deepslate_diamond_ore"@ {
        Some(legacy(56, 0))
    } else if name == "deepslate_emerald_ore"@ {
        Some(legacy(129, 0))
    } else if name == "cobblestone_wall"@ {
        Some(legacy(139, 0))
    } else if name == "mossy_cobblestone_wall"@ {
        Some(legacy(139, 1))
    } else if name == "mossy_stone_bricks"@ {
        Some(legacy(98, 1))
    } else if name == "cracked_stone_bricks"@ {
        Some(legacy(98, 2))
    } else if name == "chiseled_stone_bricks"@ {
        Some(legacy(98, 3))
    } else if name == "smooth_sandstone"@ {
        Some(legacy(24, 2))
    } else if name == "chiseled_sandstone"@ || name == "cut_sandstone"@ {
        Some(legacy(24, 1))
    } else if name == "quartz_block"@ {
        Some(legacy(155, 0))
    } else if name == "chiseled_quartz_block"@ {
        Some(legacy(155, 1))
    } else if name == "prismarine"@ {
        Some(legacy(168, 0))
    } else if name == "prismarine_bricks"@ {
        Some(legacy(168, 1))
    } else if name == "dark_prismarine"@ {
        Some(legacy(168, 2))
    } else if name == "poppy"@ || name == "sunflower"@ || name == "lilac"@ || name == "peony"@ || name == "rose_bush"@ {
        Some(legacy(38, 0))
    } else if name == "blue_orchid"@ {
        Some(legacy(38, 1))
    } else if name == "allium"@ {
        Some(legacy(38, 2))
    } else if name == "azure_bluet"@ {
        Some(legacy(38, 3))
    } else if name == "red_tulip"@ {
        Some(legacy(38, 4))
    } else if name == "orange_tulip"@ {
        Some(legacy(38, 5))
    } else if name == "white_tulip"@ {
        Some(legacy(38, 6))
    } else if name == "pink_tulip"@ {
        Some(legacy(38, 7))
    } else if name == "oxeye_daisy"@ {
        Some(legacy(38, 8))
    } else {
        None
    }
}

fn try_map_variant_block(name: &str, properties: &Vec<(String, String)>) -> (r: Option<LegacyBlockState>)
    ensures
        r == spec_variant(name@, props_view(properties@)),
{
    if str_eq(name, "redstone_lamp") {
        let lit = get_bool_prop(properties, "lit");
        return Some(LegacyBlockState::new(if lit { 124 } else { 123 }, 0));
    }
    if str_eq(name, "deepslate") || str_eq(name, "polished_deepslate") || str_eq(name, "tuff") || str_eq(name, "calcite") || str_eq(name, "dripstone_block") {
        return Some(LegacyBlockState::new(1, 0));
    }
    if str_eq(name, "cobbled_deepslate") {
        return Some(LegacyBlockState::new(4, 0));
    }
    if str_eq(name, "deepslate_bricks") || str_eq(name, "deepslate_tiles") {
        return Some(LegacyBlockState::new(98, 0));
    }
    if str_eq(name, "cracked_deepslate_bricks") || str_eq(name, "cracked_deepslate_tiles") {
        return Some(LegacyBlockState::new(98, 2));
    }
    if str_eq(name, "chiseled_deepslate") {
        return Some(LegacyBlockState::new(98, 3));
    }
    if str_eq(name, "deepslate_coal_ore") {
        return Some(LegacyBlockState::new(16, 0));
    }
    if str_eq(name, "deepslate_iron_ore") || str_eq(name, "deepslate_copper_ore") {
        return Some(LegacyBlockState::new(15, 0));
    }
    if str_eq(name, "deepslate_gold_ore") {
        return Some(LegacyBlockState::new(14, 0));
    }
    if str_eq(name, "deepslate_redstone_ore") {
        return Some(LegacyBlockState::new(73, 0));
    }
    if str_eq(name, "deepslate_lapis_ore") {
        return Some(LegacyBlockState::new(21, 0));
    }
    if str_eq(name, "deepslate_diamond_ore") {
        return Some(LegacyBlockState::new(56, 0));
    }
    if str_eq(name, "deepslate_emerald_ore") {
        return Some(LegacyBlockState::new(129, 0));
    }
    if str_eq(name, "cobblestone_wall") {
        return Some(LegacyBlockState::new(139, 0));
    }
    if str_eq(name, "mossy_cobblestone_wall") {
        return Some(LegacyBlockState::new(139, 1));
    }
    if str_eq(name, "mossy_stone_bricks") {
        return Some(LegacyBlockState::new(98, 1));
    }
    if str_eq(name, "cracked_stone_bricks") {
        return Some(LegacyBlockState::new(98, 2));
    }
    if str_eq(name, "chiseled_stone_bricks") {
        return Some(LegacyBlockState::new(98, 3));
    }
    if str_eq(name, "smooth_sandstone") {
        return Some(LegacyBlockState::new(24, 2));
    }
    if str_eq(name, "chiseled_sandstone") || str_eq(name, "cut_sandstone") {
        return Some(LegacyBlockState::new(24, 1));
    }
    if str_eq(name, "quartz_block") {
        return Some(LegacyBlockState::new(155, 0));
    }
    if str_eq(name, "chiseled_quartz_block") {
        return Some(LegacyBlockState::new(155, 1));
    }
    if str_eq(name, "prismarine") {
        return Some(LegacyBlockState::new(168, 0));
    }
    if str_eq(name, "prismarine_bricks") {
        return Some(LegacyBlockState::new(168, 1));
    }
    if str_eq(name, "dark_prismarine") {
        return Some(LegacyBlockState::new(168, 2));
    }
    if str_eq(name, "poppy") || str_eq(name, "sunflower") || str_eq(name, "lilac") || str_eq(name, "peony") || str_eq(name, "rose_bush") {
        return Some(LegacyBlockState::new(38, 0));
    }
    if str_eq(name, "blue_orchid") {
        return Some(LegacyBlockState::new(38, 1));
    }
    if str_eq(name, "allium") {
        return Some(LegacyBlockState::new(38, 2));
    }
    if str_eq(name, "azure_bluet") {
        return Some(LegacyBlockState::new(38, 3));
    }
    if str_eq(name, "red_tulip") {
        return Some(LegacyBlockState::new(38, 4));
    }
    if str_eq(name, "orange_tulip") {
        return Some(LegacyBlockState::new(38, 5));
    }
    if str_eq(name, "white_tulip") {
        return Some(LegacyBlockState::new(38, 6));
    }
    if str_eq(name, "pink_tulip") {
        return Some(LegacyBlockState::new(38, 7));
    }
    if str_eq(name, "oxeye_daisy") {
        return Some(LegacyBlockState::new(38, 8));
    }
    None
}

/// Water and lava: source blocks at level 0, flowing blocks above it; the level,
/// clamped to 0..=15, is the data value.
pub open spec fn spec_fluid(name: Seq<char>, p: Seq<(Seq<char>, Seq<char>)>) -> Option<LegacyBlockState> {
    if name != "water"@ && name != "lava"@ {
        None
    } else {
        let level = clamped(int_prop(p, "level"@, 0), 0, 15);
        let is_source = level == 0;
        if name == "water"@ {
            Some(legacy(if is_source { 9 } else { 8 }, level as u8))
        } else {
            Some(legacy(if is_source { 11 } else { 10 }, level as u8))
        }
    }
}

fn try_map_fluid_block(name: &str, properties: &Vec<(String, String)>) -> (r: Option<LegacyBlockState>)
    ensures
        r == spec_fluid(name@, props_view(properties@)),
{
    if !str_eq(name, "water") && !str_eq(name, "lava") {
        return None;
    }
    let level = clamp_i32(get_int_prop(properties, "level", 0), 0, 15);
    let is_source = level == 0;
    if str_eq(name, "water") {
        Some(LegacyBlockState::new(if is_source { 9 } else { 8 }, level as u8))
    } else {
        Some(LegacyBlockState::new(if is_source { 11 } else { 10 }, level as u8))
    }
}

/// Slabs: wooden slabs are blocks 125/126, stone slabs 43/44; a double slab takes the
/// full-block id, a top slab sets bit 8 of the data.
pub open spec fn spec_slab(name: Seq<char>, p: Seq<(Seq<char>, Seq<char>)>) -> Option<LegacyBlockState> {
    if !ends_with(name, "_slab"@) {
        None
    } else {
        let slab_type = prop(p, "type"@);
        let is_top = slab_type == "top"@;
        let is_double = slab_type == "double"@;
        let top_bit: u8 = if is_top { 8 } else { 0 };
        match wood_slab_variant(name) {
            Some(v) => if is_double { Some(legacy(125, v)) } else { Some(legacy(126, v | top_bit)) },
            None => match stone_slab_variant(name) {
                Some(v) => if is_double { Some(legacy(43, v)) } else { Some(legacy(44, v | top_bit)) },
                None => if is_double { Some(legacy(43, 0)) } else { Some(legacy(44, top_bit)) },
            },
        }
    }
}

fn try_map_slab_block(name: &str, properties: &Vec<(String, String)>) -> (r: Option<LegacyBlockState>)
    ensures
        r == spec_slab(name@, props_view(properties@)),
{
    if !str_ends_with(name, "_slab") {
        return None;
    }
    let slab_type = get_prop(properties, "type");
    let is_top = str_eq(slab_type, "top");
    let is_double = str_eq(slab_type, "double");
    if let Some(variant) = get_wood_slab_variant(name) {
        if is_double {
            return Some(LegacyBlockState::new(125, variant));
        }
        return Some(LegacyBlockState::new(126, variant | if is_top { 8 } else { 0 }));
    }
    if let Some(variant) = get_stone_slab_variant(name) {
        if is_double {
            return Some(LegacyBlockState::new(43, variant));
        }
        return Some(LegacyBlockState::new(44, variant | if is_top { 8 } else { 0 }));
    }
    if is_double {
        Some(LegacyBlockState::new(43, 0))
    } else {
        Some(LegacyBlockState::new(44, if is_top { 8 } else { 0 }))
    }
}

/// Whether a block name begins with one of the six legacy wood kinds.
pub open spec fn wood_family(name: Seq<char>) -> bool {
    starts_with(name, "oak"@) || starts_with(name, "spruce"@) || starts_with(name, "birch"@)
        || starts_with(name, "jungle"@) || starts_with(name, "acacia"@) || starts_with(name, "dark_oak"@)
}

fn is_wood_family(name: &str) -> (r: bool)
    ensures
        r == wood_family(name@),
{
    let woods: [&str; 6] = ["oak", "spruce", "birch", "jungle", "acacia", "dark_oak"];
    let mut i: usize = 0;
    while i < 6
        invariant
            0 <= i <= 6,
            woods@ == seq!["oak", "spruce", "birch", "jungle", "acacia", "dark_oak"],
            forall|j: int| 0 <= j < i ==> !starts_with(name@, #[trigger] woods@[j]@),
        decreases 6 - i,
    {
        if str_starts_with(name, woods[i]) {
            return true;
        }
        i += 1;
    }
    assert(!starts_with(name@, woods@[0]@) && !starts_with(name@, woods@[1]@) && !starts_with(name@, woods@[2]@)
        && !starts_with(name@, woods@[3]@) && !starts_with(name@, woods@[4]@) && !starts_with(name@, woods@[5]@));
    false
}

/// The vine data value: one bit for each face it hangs on (south 1, west 2, north 4,
/// east 8).
pub open spec fn vine_faces(p: Seq<(Seq<char>, Seq<char>)>) -> u8 {
    let d0: u8 = 0;
    let d1: u8 = if bool_prop(p, "south"@) { d0 | 1 } else { d0 };
    let d2: u8 = if bool_prop(p, "west"@) { d1 | 2 } else { d1 };
    let d3: u8 = if bool_prop(p, "north"@) { d2 | 4 } else { d2 };
    if bool_prop(p, "east"@) { d3 | 8 } else { d3 }
}

fn map_vine_faces(properties: &Vec<(String, String)>) -> (r: u8)
    ensures
        r == vine_faces(props_view(properties@)),
{
    let mut data = 0u8;
    if get_bool_prop(properties, "south") {
        data |= 1;
    }
    if get_bool_prop(properties, "west") {
        data |= 2;
    }
    if get_bool_prop(properties, "north") {
        data |= 4;
    }
    if get_bool_prop(properties, "east") {
        data |= 8;
    }
    data
}

/// The lever data value from the face it is attached to and the way it faces.
pub open spec fn lever_data(face: Seq<char>, facing: Seq<char>) -> u8 {
    if face == "floor"@ {
        if facing == "east"@ || facing == "west"@ { 6 } else { 5 }
    } else if face == "ceiling"@ {
        if facing == "east"@ || facing == "west"@ { 7 } else { 0 }
    } else {
        button_facing(facing)
    }
}

fn map_lever_data(face: &str, facing: &str) -> (r: u8)
    ensures
        r == lever_data(face@, facing@),
{
    if str_eq(face, "floor") {
        if str_eq(facing, "east") || str_eq(facing, "west") { 6 } else { 5 }
    } else if str_eq(face, "ceiling") {
        if str_eq(facing, "east") || str_eq(facing, "west") { 7 } else { 0 }
    } else {
        map_button_facing(facing)
    }
}

/// `bit` set in `data` when `on`.
pub open spec fn with_bit(data: u8, on: bool, bit: u8) -> u8 {
    if on { data | bit } else { data }
}

/// Blocks whose data value encodes a direction, a power or a growth stage: ladders,
/// vines, levers, buttons, fence gates, pressure plates, doors, stairs, trapdoors,
/// dispensers and droppers, pistons, redstone components, torches on walls, crops on
/// stems, cocoa and pillars.
pub open spec fn spec_directional(name: Seq<char>, p: Seq<(Seq<char>, Seq<char>)>) -> Option<LegacyBlockState> {
    let facing = prop(p, "facing"@);
    if name == "ladder"@ {
        Some(legacy(65, ladder_facing(facing)))
    } else if name == "vine"@ {
        Some(legacy(106, vine_faces(p)))
    } else if name == "lever"@ {
        Some(legacy(69, with_bit(lever_data(prop(p, "face"@), facing), bool_prop(p, "powered"@), 8)))
    } else if ends_with(name, "_button"@) {
        Some(legacy(if wood_family(name) { 143 } else { 77 }, with_bit(button_facing(facing), bool_prop(p, "powered"@), 8)))
    } else if ends_with(name, "_fence_gate"@) {
        Some(legacy(107, with_bit(fence_gate_facing(facing), bool_prop(p, "open"@), 4)))
    } else if ends_with(name, "_pressure_plate"@) {
        let id: u8 = if name == "light_weighted_pressure_plate"@ {
            147
        } else if name == "heavy_weighted_pressure_plate"@ {
            148
        } else if wood_family(name) {
            72
        } else {
            70
        };
        let powered = bool_prop(p, "powered"@) || int_prop(p, "power"@, 0) > 0;
        Some(legacy(id, if powered { 1 } else { 0 }))
    } else if ends_with(name, "_door"@) || name == "iron_door"@ {
        let id: u8 = if name == "iron_door"@ { 71 } else { 64 };
        if prop(p, "half"@) == "upper"@ {
            Some(legacy(id, with_bit(with_bit(8, prop(p, "hinge"@) == "right"@, 1), bool_prop(p, "powered"@), 2)))
        } else {
            Some(legacy(id, with_bit(door_facing(facing), bool_prop(p, "open"@), 4)))
        }
    } else if stairs_id(name) is Some {
        Some(legacy(stairs_id(name)->0, with_bit(stairs_facing(facing), prop(p, "half"@) == "top"@, 4)))
    } else if ends_with(name, "trapdoor"@) {
        Some(legacy(96, with_bit(with_bit(trapdoor_facing(facing), bool_prop(p, "open"@), 4), prop(p, "half"@) == "top"@, 8)))
    } else if name == "dispenser"@ || name == "dropper"@ {
        Some(legacy(if name == "dropper"@ { 158 } else { 23 }, with_bit(facing_data(facing), bool_prop(p, "triggered"@), 8)))
    } else if name == "piston"@ || name == "sticky_piston"@ {
        Some(legacy(if name == "sticky_piston"@ { 29 } else { 33 }, with_bit(facing_data(facing), bool_prop(p, "extended"@), 8)))
    } else if name == "piston_head"@ {
        Some(legacy(34, with_bit(facing_data(facing), prop(p, "type"@) == "sticky"@, 8)))
    } else {
        spec_powered(name, p)
    }
}

/// The redstone components, wall torches, stems, cocoa and pillars of
/// `spec_directional`.
pub open spec fn spec_powered(name: Seq<char>, p: Seq<(Seq<char>, Seq<char>)>) -> Option<LegacyBlockState> {
    let facing = prop(p, "facing"@);
    if name == "redstone_wire"@ {
        Some(legacy(55, clamped(int_prop(p, "power"@, 0), 0, 15) as u8))
    } else if name == "repeater"@ {
        let delay = clamped(int_prop(p, "delay"@, 1), 1, 4);
        Some(legacy(if bool_prop(p, "powered"@) { 94 } else { 93 },
            repeater_direction(facing) | (((delay - 1) as u8) << 2u8)))
    } else if name == "comparator"@ {
        Some(legacy(if bool_prop(p, "powered"@) { 150 } else { 149 },
            with_bit(repeater_direction(facing), prop(p, "mode"@) == "subtract"@, 4)))
    } else if name == "wall_torch"@ {
        Some(legacy(50, wall_torch_facing(facing)))
    } else if name == "redstone_wall_torch"@ {
        Some(legacy(if bool_prop(p, "lit"@) { 76 } else { 75 }, wall_torch_facing(facing)))
    } else if name == "nether_wart"@ {
        Some(legacy(115, clamped(int_prop(p, "age"@, 0), 0, 3) as u8))
    } else if name == "pumpkin_stem"@ || name == "attached_pumpkin_stem"@ {
        Some(legacy(104, if name == "attached_pumpkin_stem"@ { 7 } else { clamped(int_prop(p, "age"@, 0), 0, 7) as u8 }))
    } else if name == "melon_stem"@ || name == "attached_melon_stem"@ {
        Some(legacy(105, if name == "attached_melon_stem"@ { 7 } else { clamped(int_prop(p, "age"@, 0), 0, 7) as u8 }))
    } else if name == "cocoa"@ {
        let age = clamped(int_prop(p, "age"@, 0), 0, 2) as u8;
        Some(legacy(127, (age << 2u8) | repeater_direction(facing)))
    } else if name == "hay_block"@ {
        let axis = prop(p, "axis"@);
        Some(legacy(170, if axis == "x"@ { 4 } else if axis == "z"@ { 8 } else { 0 }))
    } else if name == "quartz_pillar"@ {
        let axis = prop(p, "axis"@);
        Some(legacy(155, if axis == "x"@ { 3 } else if axis == "z"@ { 4 } else { 2 }))
    } else if name == "nether_portal"@ {
        Some(legacy(90, if prop(p, "axis"@) == "z"@ { 2 } else { 1 }))
    } else {
        None
    }
}

#[verifier::rlimit(40)]
fn try_map_directional_block(name: &str, properties: &Vec<(String, String)>) -> (r: Option<LegacyBlockState>)
    ensures
        r == spec_directional(name@, props_view(properties@)),
{
    if str_eq(name, "ladder") {
        let data = map_ladder_facing(get_prop(properties, "facing"));
        return Some(LegacyBlockState::new(65, data));
    }
    if str_eq(name, "vine") {
        let data = map_vine_faces(properties);
        return Some(LegacyBlockState::new(106, data));
    }
    if str_eq(name, "lever") {
        let mut data = map_lever_data(get_prop(properties, "face"), get_prop(properties, "facing"));
        if get_bool_prop(properties, "powered") {
            data |= 8;
        }
        return Some(LegacyBlockState::new(69, data));
    }
    if str_ends_with(name, "_button") {
        let id = if is_wood_family(name) { 143 } else { 77 };
        let mut data = map_button_facing(get_prop(properties, "facing"));
        if get_bool_prop(properties, "powered") {
            data |= 8;
        }
        return Some(LegacyBlockState::new(id, data));
    }
    if str_ends_with(name, "_fence_gate") {
        let mut data = map_fence_gate_facing(get_prop(properties, "facing"));
        if get_bool_prop(properties, "open") {
            data |= 4;
        }
        return Some(LegacyBlockState::new(107, data));
    }
    if str_ends_with(name, "_pressure_plate") {
        let id: u8 = if str_eq(name, "light_weighted_pressure_plate") {
            147
        } else if str_eq(name, "heavy_weighted_pressure_plate") {
            148
        } else if is_wood_family(name) {
            72
        } else {
            70
        };
        let powered = get_bool_prop(properties, "powered") || get_int_prop(properties, "power", 0) > 0;
        return Some(LegacyBlockState::new(id, if powered { 1 } else { 0 }));
    }
    if str_ends_with(name, "_door") || str_eq(name, "iron_door") {
        let id: u8 = if str_eq(name, "iron_door") { 71 } else { 64 };
        let half = get_prop(properties, "half");
        if str_eq(half, "upper") {
            let mut data: u8 = 8;
            if str_eq(get_prop(properties, "hinge"), "right") {
                data |= 1;
            }
            if get_bool_prop(properties, "powered") {
                data |= 2;
            }
            return Some(LegacyBlockState::new(id, data));
        }
        let mut data = map_door_facing(get_prop(properties, "facing"));
        if get_bool_prop(properties, "open") {
            data |= 4;
        }
        return Some(LegacyBlockState::new(id, data));
    }
    if let Some(stairs_id) = get_stairs_id(name) {
        let mut data = map_stairs_facing(get_prop(properties, "facing"));
        if str_eq(get_prop(properties, "half"), "top") {
            data |= 4;
        }
        return Some(LegacyBlockState::new(stairs_id, data));
    }
    if str_ends_with(name, "trapdoor") {
        let mut data = map_trapdoor_facing(get_prop(properties, "facing"));
        if get_bool_prop(properties, "open") {
            data |= 4;
        }
        if str_eq(get_prop(properties, "half"), "top") {
            data |= 8;
        }
        return Some(LegacyBlockState::new(96, data));
    }
    if str_eq(name, "dispenser") || str_eq(name, "dropper") {
        let id = if str_eq(name, "dropper") { 158 } else { 23 };
        let mut data = map_facing_data(get_prop(properties, "facing"));
        if get_bool_prop(properties, "triggered") {
            data |= 8;
        }
        return Some(LegacyBlockState::new(id, data));
    }
    if str_eq(name, "piston") || str_eq(name, "sticky_piston") {
        let id = if str_eq(name, "sticky_piston") { 29 } else { 33 };
        let mut data = map_facing_data(get_prop(properties, "facing"));
        if get_bool_prop(properties, "extended") {
            data |= 8;
        }
        return Some(LegacyBlockState::new(id, data));
    }
    if str_eq(name, "piston_head") {
        let mut data = map_facing_data(get_prop(properties, "facing"));
        if str_eq(get_prop(properties, "type"), "sticky") {
            data |= 8;
        }
        return Some(LegacyBlockState::new(34, data));
    }
    try_map_powered_block(name, properties)
}

#[verifier::rlimit(40)]
fn try_map_powered_block(name: &str, properties: &Vec<(String, String)>) -> (r: Option<LegacyBlockState>)
    ensures
        r == spec_powered(name@, props_view(properties@)),
{
    if str_eq(name, "redstone_wire") {
        let data = clamp_i32(get_int_prop(properties, "power", 0), 0, 15) as u8;
        return Some(LegacyBlockState::new(55, data));
    }
    if str_eq(name, "repeater") {
        let id = if get_bool_prop(properties, "powered") { 94 } else { 93 };
        let dir = map_repeater_direction(get_prop(properties, "facing"));
        let delay = clamp_i32(get_int_prop(properties, "delay", 1), 1, 4);
        let data = dir | (((delay - 1) as u8) << 2u8);
        return Some(LegacyBlockState::new(id, data));
    }
    if str_eq(name, "comparator") {
        let id = if get_bool_prop(properties, "powered") { 150 } else { 149 };
        let dir = map_repeater_direction(get_prop(properties, "facing"));
        let mut data = dir;
        if str_eq(get_prop(properties, "mode"), "subtract") {
            data |= 4;
        }
        return Some(LegacyBlockState::new(id, data));
    }
    if str_eq(name, "wall_torch") {
        let data = map_wall_torch_facing(get_prop(properties, "facing"));
        return Some(LegacyBlockState::new(50, data));
    }
    if str_eq(name, "redstone_wall_torch") {
        let id = if get_bool_prop(properties, "lit") { 76 } else { 75 };
        let data = map_wall_torch_facing(get_prop(properties, "facing"));
        return Some(LegacyBlockState::new(id, data));
    }
    if str_eq(name, "nether_wart") {
        let data = clamp_i32(get_int_prop(properties, "age", 0), 0, 3) as u8;
        return Some(LegacyBlockState::new(115, data));
    }
    if str_eq(name, "pumpkin_stem") || str_eq(name, "attached_pumpkin_stem") {
        let data = if str_eq(name, "attached_pumpkin_stem") {
            7
        } else {
            clamp_i32(get_int_prop(properties, "age", 0), 0, 7) as u8
        };
        return Some(LegacyBlockState::new(104, data));
    }
    if str_eq(name, "melon_stem") || str_eq(name, "attached_melon_stem") {
        let data = if str_eq(name, "attached_melon_stem") {
            7
        } else {
            clamp_i32(get_int_prop(properties, "age", 0), 0, 7) as u8
        };
        return Some(LegacyBlockState::new(105, data));
    }
    if str_eq(name, "cocoa") {
        let age = clamp_i32(get_int_prop(properties, "age", 0), 0, 2) as u8;
        let dir = map_repeater_direction(get_prop(properties, "facing"));
        return Some(LegacyBlockState::new(127, (age << 2u8) | dir));
    }
    if str_eq(name, "hay_block") {
        let axis = get_prop(properties, "axis");
        let data = if str_eq(axis, "x") { 4 } else if str_eq(axis, "z") { 8 } else { 0 };
        return Some(LegacyBlockState::new(170, data));
    }
    if str_eq(name, "quartz_pillar") {
        let axis = get_prop(properties, "axis");
        let data = if str_eq(axis, "x") { 3 } else if str_eq(axis, "z") { 4 } else { 2 };
        return Some(LegacyBlockState::new(155, data));
    }
    if str_eq(name, "nether_portal") {
        let data = if str_eq(get_prop(properties, "axis"), "z") { 2 } else { 1 };
        return Some(LegacyBlockState::new(90, data));
    }
    None
}

/// The legacy block id of the colourable blocks whose colour is a property.
pub open spec fn colored_id(name: Seq<char>) -> Option<u8> {
    if name == "wool"@ {
        Some(35)
    } else if name == "stained_glass"@ {
        Some(95)
    } else if name == "stained_glass_pane"@ {
        Some(160)
    } else if name == "terracotta"@ || name == "stained_hardened_clay"@ {
        Some(159)
    } else if name == "concrete"@ {
        Some(172)
    } else if name == "concrete_powder"@ {
        Some(12)
    } else if name == "glazed_terracotta"@ {
        Some(159)
    } else {
        None
    }
}

/// Colourable blocks with a `color` property; the colour number is the data value.
pub open spec fn spec_colored(name: Seq<char>, p: Seq<(Seq<char>, Seq<char>)>) -> Option<LegacyBlockState> {
    match colored_id(name) {
        Some(id) => Some(legacy(id, spec_color_name(prop(p, "color"@)))),
        None => None,
    }
}

fn try_map_colored_block(name: &str, properties: &Vec<(String, String)>) -> (r: Option<LegacyBlockState>)
    ensures
        r == spec_colored(name@, props_view(properties@)),
{
    let color = get_prop(properties, "color");
    let color_data = get_color_data(color);
    if str_eq(name, "wool") {
        Some(LegacyBlockState::new(35, color_data))
    } else if str_eq(name, "stained_glass") {
        Some(LegacyBlockState::new(95, color_data))
    } else if str_eq(name, "stained_glass_pane") {
        Some(LegacyBlockState::new(160, color_data))
    } else if str_eq(name, "terracotta") || str_eq(name, "stained_hardened_clay") {
        Some(LegacyBlockState::new(159, color_data))
    } else if str_eq(name, "concrete") {
        Some(LegacyBlockState::new(172, color_data))
    } else if str_eq(name, "concrete_powder") {
        Some(LegacyBlockState::new(12, color_data))
    } else if str_eq(name, "glazed_terracotta") {
        Some(LegacyBlockState::new(159, color_data))
    } else {
        None
    }
}

/// The colour of a name that begins with a colour name and an underscore, trying the
/// colour names from index `i` on in order, with the rest of the name.
pub open spec fn color_prefix_from(name: Seq<char>, i: int) -> Option<(u8, Seq<char>)>
    decreases 16 - i,
{
    if i < 0 || i >= 16 {
        None
    } else {
        let c = spec_color_names()[i];
        if starts_with(name, c + seq!['_']) {
            Some((spec_color_name(c), name.subrange(c.len() as int + 1, name.len() as int)))
        } else {
            color_prefix_from(name, i + 1)
        }
    }
}

fn split_color_prefix(name: &str) -> (r: Option<(u8, &str)>)
    ensures
        r matches Some((c, rest)) ==> color_prefix_from(name@, 0) == Some((c, rest@)),
        r is None ==> color_prefix_from(name@, 0) is None,
{
    let names = color_names();
    proof {
        assert(names@.len() == 16) by {
            assert(strs_view(names@).len() == names@.len());
        }
    }
    let mut i: usize = 0;
    while i < names.len()
        invariant
            0 <= i <= names@.len(),
            names@.len() == 16,
            strs_view(names@) == spec_color_names(),
            color_prefix_from(name@, 0) == color_prefix_from(name@, i as int),
        decreases names@.len() - i,
    {
        let color_name = names[i];
        proof {
            reveal_strlit("_");
            assert(color_name@ == strs_view(names@)[i as int]);
        }
        match str_strip_prefix(name, color_name) {
            Some(rest) => match str_strip_prefix(rest, "_") {
                Some(suffix) => {
                    let color_data = get_color_name(color_name);
                    proof {
                        let c = color_name@;
                        assert(rest@[0] == '_') by {
                            assert(rest@.subrange(0, 1)[0] == rest@[0]);
                        }
                        assert(name@[c.len() as int] == rest@[0]);
                        assert(name@.subrange(0, c.len() as int + 1) =~= c + seq!['_']) by {
                            assert forall|k: int| 0 <= k < c.len() implies name@[k] == c[k] by {
                                assert(name@.subrange(0, c.len() as int)[k] == name@[k]);
                            }
                        }
                        assert(suffix@ =~= name@.subrange(c.len() as int + 1, name@.len() as int));
                        assert(c == spec_color_names()[i as int]);
                        assert(starts_with(name@, c + seq!['_']));
                        assert(color_prefix_from(name@, i as int) == Some((color_data, suffix@)));
                    }
                    return Some((color_data, suffix));
                },
                None => {
                    proof {
                        let c = color_name@;
                        if starts_with(name@, c + seq!['_']) {
                            assert(name@.subrange(0, c.len() as int + 1)[c.len() as int] == '_');
                            assert(rest@[0] == name@[c.len() as int]);
                            assert(rest@.subrange(0, 1) =~= seq!['_']);
                            assert("_"@ =~= seq!['_']);
                            assert(false);
                        }
                        assert(c == spec_color_names()[i as int]);
                        assert(color_prefix_from(name@, i as int) == color_prefix_from(name@, i + 1));
                    }
                },
            },
            None => {
                proof {
                    let c = color_name@;
                    if starts_with(name@, c + seq!['_']) {
                        assert(name@.subrange(0, c.len() as int) =~= c) by {
                            assert forall|k: int| 0 <= k < c.len() implies name@[k] == c[k] by {
                                assert(name@.subrange(0, c.len() as int + 1)[k] == name@[k]);
                            }
                        }
                    }
                    assert(c == spec_color_names()[i as int]);
                    assert(color_prefix_from(name@, i as int) == color_prefix_from(name@, i + 1));
                }
            },
        }
        i += 1;
    }
    None
}

/// The legacy block id of a colourable block named after its colour.
pub open spec fn flattened_colored_id(suffix: Seq<char>) -> Option<u8> {
    if suffix == "wool"@ {
        Some(35)
    } else if suffix == "stained_glass"@ || suffix == "glass"@ {
        Some(95)
    } else if suffix == "stained_glass_pane"@ || suffix == "glass_pane"@ {
        Some(160)
    } else if suffix == "terracotta"@ || suffix == "stained_hardened_clay"@ {
        Some(159)
    } else if suffix == "concrete"@ {
        Some(172)
    } else if suffix == "concrete_powder"@ {
        Some(12)
    } else if suffix == "glazed_terracotta"@ {
        Some(159)
    } else if suffix == "carpet"@ {
        Some(171)
    } else {
        None
    }
}

/// Colourable blocks named `<colour>_<block>`.
pub open spec fn spec_flattened_colored(name: Seq<char>) -> Option<LegacyBlockState> {
    match color_prefix_from(name, 0) {
        Some((color, suffix)) => match flattened_colored_id(suffix) {
            Some(id) => Some(legacy(id, color)),
            None => None,
        },
        None => None,
    }
}

fn try_map_flattened_colored_block(name: &str) -> (r: Option<LegacyBlockState>)
    ensures
        r == spec_flattened_colored(name@),
{
    let (color_data, suffix) = match split_color_prefix(name) {
        Some(p) => p,
        None => return None,
    };
    if str_eq(suffix, "wool") {
        Some(LegacyBlockState::new(35, color_data))
    } else if str_eq(suffix, "stained_glass") || str_eq(suffix, "glass") {
        Some(LegacyBlockState::new(95, color_data))
    } else if str_eq(suffix, "stained_glass_pane") || str_eq(suffix, "glass_pane") {
        Some(LegacyBlockState::new(160, color_data))
    } else if str_eq(suffix, "terracotta") || str_eq(suffix, "stained_hardened_clay") {
        Some(LegacyBlockState::new(159, color_data))
    } else if str_eq(suffix, "concrete") {
        Some(LegacyBlockState::new(172, color_data))
    } else if str_eq(suffix, "concrete_powder") {
        Some(LegacyBlockState::new(12, color_data))
    } else if str_eq(suffix, "glazed_terracotta") {
        Some(LegacyBlockState::new(159, color_data))
    } else if str_eq(suffix, "carpet") {
        Some(LegacyBlockState::new(171, color_data))
    } else {
        None
    }
}

/// The characters of `s` before its first underscore, or nothing when it has none.
pub open spec fn prefix_before_underscore(s: Seq<char>) -> Seq<char> {
    if s.contains('_') { before_underscore(s) } else { Seq::empty() }
}

/// The characters of `s` up to its first underscore (all of them when it has none).
pub open spec fn before_underscore(s: Seq<char>) -> Seq<char>
    decreases s.len(),
{
    if s.len() == 0 || s[0] == '_' {
        Seq::empty()
    } else {
        seq![s[0]] + before_underscore(s.drop_first())
    }
}

proof fn lemma_before_underscore(a: Seq<char>, b: Seq<char>)
    requires
        !a.contains('_'),
    ensures
        before_underscore(a + seq!['_'] + b) == a,
    decreases a.len(),
{
    let s = a + seq!['_'] + b;
    if a.len() == 0 {
        assert(s[0] == '_');
    } else {
        assert(s[0] == a[0]);
        assert(!a.drop_first().contains('_')) by {
            if a.drop_first().contains('_') {
                let k = choose|k: int| 0 <= k < a.drop_first().len() && a.drop_first()[k] == '_';
                assert(a[k + 1] == '_');
            }
        }
        assert(s.drop_first() =~= a.drop_first() + seq!['_'] + b);
        lemma_before_underscore(a.drop_first(), b);
        assert(seq![a[0]] + a.drop_first() =~= a);
    }
}

pub fn get_prefix_before_underscore(name: &str) -> (r: String)
    ensures
        r@ == prefix_before_underscore(name@),
{
    match str_split_once_char(name, '_') {
        Some((before, after)) => {
            proof {
                lemma_before_underscore(before@, after@);
                assert(name@[before@.len() as int] == '_');
            }
            to_owned_string(before)
        },
        None => {
            let r = String::new();
            assert(r@ =~= Seq::<char>::empty());
            r
        },
    }
}

/// Wooden blocks: the wood kind comes from the `variant` property or, without one,
/// from the name's first word.
pub open spec fn spec_wood(name: Seq<char>, p: Seq<(Seq<char>, Seq<char>)>) -> Option<LegacyBlockState> {
    let variant = prop(p, "variant"@);
    let wood_type = if variant.len() == 0 { prefix_before_underscore(name) } else { variant };
    let data = spec_wood_data(wood_type);
    let capped: u8 = if data > 3 { 3 } else { data };
    if ends_with(name, "_planks"@) || name == "planks"@ {
        Some(legacy(5, data))
    } else if ends_with(name, "_sapling"@) || name == "sapling"@ {
        Some(legacy(6, data))
    } else if ends_with(name, "_log"@) || name == "log"@ {
        Some(legacy(17, capped))
    } else if ends_with(name, "_leaves"@) || name == "leaves"@ {
        Some(legacy(18, capped))
    } else if ends_with(name, "_stairs"@) && contains_seq(name, "wood"@) {
        Some(legacy(53, 0))
    } else if ends_with(name, "_door"@) {
        Some(legacy(64, 0))
    } else if ends_with(name, "_fence"@) {
        Some(legacy(85, 0))
    } else if ends_with(name, "_fence_gate"@) {
        Some(legacy(107, 0))
    } else if ends_with(name, "_pressure_plate"@) && wood_family(name) {
        Some(legacy(72, 0))
    } else {
        None
    }
}

fn try_map_wood_block(name: &str, properties: &Vec<(String, String)>) -> (r: Option<LegacyBlockState>)
    ensures
        r == spec_wood(name@, props_view(properties@)),
{
    let variant = get_prop(properties, "variant");
    let wood_type = if variant.is_empty() {
        get_prefix_before_underscore(name)
    } else {
        to_owned_string(variant)
    };
    let data = get_wood_data(wood_type.as_str());
    if str_ends_with(name, "_planks") || str_eq(name, "planks") {
        return Some(LegacyBlockState::new(5, data));
    }
    if str_ends_with(name, "_sapling") || str_eq(name, "sapling") {
        return Some(LegacyBlockState::new(6, data));
    }
    if str_ends_with(name, "_log") || str_eq(name, "log") {
        return Some(LegacyBlockState::new(17, if data > 3 { 3 } else { data }));
    }
    if str_ends_with(name, "_leaves") || str_eq(name, "leaves") {
        return Some(LegacyBlockState::new(18, if data > 3 { 3 } else { data }));
    }
    if str_ends_with(name, "_stairs") && str_contains(name, "wood") {
        return Some(LegacyBlockState::new(53, 0));
    }
    if str_ends_with(name, "_door") {
        return Some(LegacyBlockState::new(64, 0));
    }
    if str_ends_with(name, "_fence") {
        return Some(LegacyBlockState::new(85, 0));
    }
    if str_ends_with(name, "_fence_gate") {
        return Some(LegacyBlockState::new(107, 0));
    }
    if str_ends_with(name, "_pressure_plate") && is_wood_family(name) {
        return Some(LegacyBlockState::new(72, 0));
    }
    None
}

/// The first of two alternatives that is present.
pub open spec fn first_some<T>(a: Option<T>, b: Option<T>) -> Option<T> {
    if a is Some { a } else { b }
}

/// A block name without its `minecraft:` namespace.
pub open spec fn strip_namespace(name: Seq<char>) -> Seq<char> {
    if starts_with(name, "minecraft:"@) { name.subrange("minecraft:"@.len() as int, name.len() as int) } else { name }
}

/// The legacy block of a modern block state, trying in order fluids, slabs,
/// directional blocks, colour-named blocks, the one-to-one table, colour-property
/// blocks, wooden blocks and the remaining variants; `None` for a block with no
/// legacy counterpart.
pub open spec fn spec_block_state(name: Seq<char>, p: Seq<(Seq<char>, Seq<char>)>) -> Option<LegacyBlockState> {
    let n = strip_namespace(name);
    let direct = match spec_modern_direct(n) {
        Some((id, data)) => Some(legacy(id, data)),
        None => None,
    };
    first_some(spec_fluid(n, p), first_some(spec_slab(n, p), first_some(spec_directional(n, p),
        first_some(spec_flattened_colored(n), first_some(direct, first_some(spec_colored(n, p),
        first_some(spec_wood(n, p), spec_variant(n, p))))))))
}

/// Maps a modern block state to a legacy block. A block with no legacy counterpart
/// becomes air, and its name (without namespace) is recorded in the context.
pub fn map_modern_block_state(name: &str, properties: &Vec<(String, String)>, context: &mut ChunkConversionContext) -> (r: LegacyBlockState)
    ensures
        r == match spec_block_state(name@, props_view(properties@)) {
            Some(b) => b,
            None => legacy(0, 0),
        },
        final(context).preserve_dynamic_chunk_data == old(context).preserve_dynamic_chunk_data,
        final(context).global_modern_section_shift == old(context).global_modern_section_shift,
        strings_view(final(context).unknown_blocks@) == if spec_block_state(name@, props_view(properties@)) is Some {
            strings_view(old(context).unknown_blocks@)
        } else {
            with_unknown(strings_view(old(context).unknown_blocks@), strip_namespace(name@))
        },
{
    let name = match str_strip_prefix(name, "minecraft:") {
        Some(rest) => rest,
        None => name,
    };
    if let Some(result) = try_map_fluid_block(name, properties) {
        return result;
    }
    if let Some(result) = try_map_slab_block(name, properties) {
        return result;
    }
    if let Some(result) = try_map_directional_block(name, properties) {
        return result;
    }
    if let Some(result) = try_map_flattened_colored_block(name) {
        return result;
    }
    if let Some(legacy) = modern_direct_lookup(name) {
        return legacy;
    }
    if let Some(result) = try_map_colored_block(name, properties) {
        return result;
    }
    if let Some(result) = try_map_wood_block(name, properties) {
        return result;
    }
    if let Some(result) = try_map_variant_block(name, properties) {
        return result;
    }
    context.record_unknown_modern_block(name);
    LegacyBlockState::new(0, 0)
}

/// The 4-bit value at nibble index `i` of a packed nibble array: the low half of byte
/// `i / 2` for even `i`, the high half for odd `i`.
pub open spec fn nibble(arr: Seq<u8>, i: int) -> u8 {
    if i % 2 == 0 { arr[i / 2] & 0x0F } else { (arr[i / 2] >> 4u8) & 0x0F }
}

/// Reads nibble `index` of a packed nibble array.
pub fn get_nibble(arr: &[u8], index: usize) -> (r: u8)
    requires
        index / 2 < arr@.len(),
    ensures
        r == nibble(arr@, index as int),
        r < 16,
{
    proof {
        assert(index >> 1 == index / 2 && ((index & 1) == 0) == (index % 2 == 0)) by (bit_vector);
    }
    let b = arr[index >> 1];
    proof {
        assert(b & 0x0F < 16 && (b >> 4u8) & 0x0F < 16) by (bit_vector);
    }
    if (index & 1) == 0 { b & 0x0F } else { (b >> 4u8) & 0x0F }
}

proof fn lemma_set_low_nibble(b: u8, v: u8)
    ensures
        ((b & 0xF0) | (v & 0x0F)) & 0x0F == v & 0x0F,
        (((b & 0xF0) | (v & 0x0F)) >> 4u8) & 0x0F == (b >> 4u8) & 0x0F,
{
    assert(((b & 0xF0) | (v & 0x0F)) & 0x0F == v & 0x0F) by (bit_vector);
    assert((((b & 0xF0) | (v & 0x0F)) >> 4u8) & 0x0F == (b >> 4u8) & 0x0F) by (bit_vector);
}

proof fn lemma_set_high_nibble(b: u8, v: u8)
    requires
        v < 16,
    ensures
        (((b & 0x0F) | (v << 4u8)) >> 4u8) & 0x0F == v,
        ((b & 0x0F) | (v << 4u8)) & 0x0F == b & 0x0F,
{
    assert(v < 16 ==> (((b & 0x0F) | (v << 4u8)) >> 4u8) & 0x0F == v) by (bit_vector);
    assert(((b & 0x0F) | (v << 4u8)) & 0x0F == b & 0x0F) by (bit_vector);
}

/// Writes the low 4 bits of `value` into nibble `index` of a packed nibble array.
/// Reading that nibble back gives `value & 0x0F`; every other nibble keeps its value.
pub fn set_nibble(arr: &mut Vec<u8>, index: usize, value: u8)
    requires
        index / 2 < old(arr)@.len(),
    ensures
        final(arr)@.len() == old(arr)@.len(),
        nibble(final(arr)@, index as int) == value & 0x0F,
        forall|k: int| 0 <= k < 2 * old(arr)@.len() && k != index ==> #[trigger] nibble(final(arr)@, k) == nibble(old(arr)@, k),
        forall|j: int| 0 <= j < old(arr)@.len() && j != index / 2 ==> #[trigger] final(arr)@[j] == old(arr)@[j],
{
    proof {
        assert(index >> 1 == index / 2 && ((index & 1) == 0) == (index % 2 == 0)) by (bit_vector);
    }
    let i = index >> 1;
    proof {
        assert((value & 0x0F) & 0x0F == value & 0x0F && value & 0x0F < 16) by (bit_vector);
    }
    let value = value & 0x0F;
    let b = arr[i];
    if (index & 1) == 0 {
        arr.set(i, (b & 0xF0) | value);
        proof {
            lemma_set_low_nibble(b, value);
        }
    } else {
        arr.set(i, (b & 0x0F) | (value << 4u8));
        proof {
            lemma_set_high_nibble(b, value);
        }
    }
}

/// The number of binary digits of `v` (0 for 0).
pub open spec fn bit_length(v: nat) -> nat
    decreases v,
{
    if v == 0 { 0 } else { 1 + bit_length(v / 2) }
}

/// The bits per block a palette of `value + 1` entries needs: the binary length of
/// `value`, and 1 for 0.
pub open spec fn bits_needed(value: nat) -> nat {
    if value == 0 { 1 } else { bit_length(value) }
}

proof fn lemma_bit_length_bound(v: nat, k: nat)
    requires
        v < pow2(k),
    ensures
        bit_length(v) <= k,
    decreases v,
{
    if v > 0 {
        if k == 0 {
            lemma2_to64();
        } else {
            lemma_pow2_unfold(k);
            lemma_bit_length_bound(v / 2, (k - 1) as nat);
        }
    }
}

fn bits_required(value: usize) -> (r: i32)
    ensures
        r == bits_needed(value as nat),
        1 <= r <= 64,
{
    if value == 0 {
        return 1;
    }
    proof {
        lemma2_to64();
        lemma_bit_length_bound(value as nat, 64);
    }
    let mut bits: i32 = 0;
    let mut v = value;
    while v > 0
        invariant
            0 <= bits <= 64,
            bits + bit_length(v as nat) == bit_length(value as nat),
            bit_length(value as nat) <= 64,
        decreases v,
    {
        assert(v >> 1 == v / 2) by (bit_vector);
        bits += 1;
        v >>= 1;
    }
    bits
}

/// The values packed in each 64-bit word of a padded block-state array (no value
/// spans two words).
pub open spec fn values_per_long(bits_per_block: int) -> int {
    if 64int / bits_per_block > 1 { 64int / bits_per_block } else { 1 }
}

/// The mask of the low `bits_per_block` bits.
pub open spec fn block_mask(bits_per_block: int) -> u64 {
    ((1u64 << (bits_per_block as u64)) - 1) as u64
}

/// Palette index `index` of a padded block-state array: values never span two words.
pub open spec fn padded_state(states: Seq<i64>, bits_per_block: int, index: int) -> usize {
    let vpl = values_per_long(bits_per_block);
    let bit_offset = (index % vpl) * bits_per_block;
    (((states[index / vpl] as u64) >> (bit_offset as u64)) & block_mask(bits_per_block)) as usize
}

/// Palette index `index` of a compact block-state array: values run on across word
/// boundaries, the next word supplying the high bits when there is one.
pub open spec fn compact_state(states: Seq<i64>, bits_per_block: int, index: int) -> usize {
    let start_bit = index * bits_per_block;
    let long_index = start_bit / 64;
    let bit_offset = start_bit % 64;
    let low = (states[long_index] as u64) >> (bit_offset as u64);
    let bits_read = 64 - bit_offset;
    let value = if bits_read < bits_per_block && long_index + 1 < states.len() {
        low | ((states[long_index + 1] as u64) << (bits_read as u64))
    } else {
        low
    };
    (value & block_mask(bits_per_block)) as usize
}

fn read_padded_block_state(states: &[i64], bits_per_block: i32, index: usize) -> (r: usize)
    requires
        1 <= bits_per_block < 64,
        (index as int) / values_per_long(bits_per_block as int) < states@.len(),
    ensures
        r == padded_state(states@, bits_per_block as int, index as int),
{
    let values_per_long: i32 = if 64 / bits_per_block > 1 { 64 / bits_per_block } else { 1 };
    let long_index = index / values_per_long as usize;
    proof {
        let b = bits_per_block as int;
        let vpl = values_per_long as int;
        assert(vpl * b <= 64) by (nonlinear_arith)
            requires
                1 <= b < 64,
                vpl == if 64int / b > 1 { 64int / b } else { 1int };
    }
    let rem = index % values_per_long as usize;
    proof {
        let b = bits_per_block as int;
        let vpl = values_per_long as int;
        assert(rem * b < 64) by (nonlinear_arith)
            requires
                b >= 1,
                vpl * b <= 64,
                0 <= rem < vpl;
        let bpb = bits_per_block as u64;
        assert(bpb < 64 ==> (1u64 << bpb) >= 1) by (bit_vector);
    }
    let bit_offset = rem * bits_per_block as usize;
    let mask = (1u64 << (bits_per_block as u64)) - 1;
    ((states[long_index] as u64 >> (bit_offset as u64)) & mask) as usize
}

fn read_compact_block_state(states: &[i64], bits_per_block: i32, index: usize) -> (r: usize)
    requires
        1 <= bits_per_block < 64,
        index <= 4095,
        (index as int * bits_per_block) / 64 < states@.len(),
    ensures
        r == compact_state(states@, bits_per_block as int, index as int),
{
    proof {
        let b = bits_per_block as int;
        assert(index * b <= 4095 * 64) by (nonlinear_arith)
            requires
                index <= 4095,
                1 <= b < 64;
        let bpb = bits_per_block as u64;
        assert(bpb < 64 ==> (1u64 << bpb) >= 1) by (bit_vector);
    }
    let start_bit = index * bits_per_block as usize;
    let long_index = start_bit >> 6;
    let bit_offset = start_bit & 63;
    proof {
        assert(start_bit >> 6 == start_bit / 64 && start_bit & 63 == start_bit % 64) by (bit_vector);
    }
    let mask = (1u64 << (bits_per_block as u64)) - 1;
    let mut value = states[long_index] as u64 >> (bit_offset as u64);
    let bits_read = 64 - bit_offset;
    if bits_read < bits_per_block as usize && long_index + 1 < states.len() {
        value = value | ((states[long_index + 1] as u64) << (bits_read as u64));
    }
    (value & mask) as usize
}

/// The `Name` of a palette entry, or nothing when it has none.
pub open spec fn entry_name(e: Seq<(Seq<char>, NbtValue)>) -> Seq<char> {
    match assoc_get(e, "Name"@) {
        Some(NbtValue::String(s)) => s,
        _ => Seq::empty(),
    }
}

/// The string-valued entries of a compound as a property map, a later entry
/// replacing an earlier one of the same name.
pub open spec fn string_props(items: Seq<(Seq<char>, NbtValue)>) -> Seq<(Seq<char>, Seq<char>)>
    decreases items.len(),
{
    if items.len() == 0 {
        Seq::empty()
    } else {
        let p = string_props(items.drop_last());
        match items.last().1 {
            NbtValue::String(s) => assoc_put(p, items.last().0, s),
            _ => p,
        }
    }
}

/// The `Properties` of a palette entry as a property map.
pub open spec fn entry_props(e: Seq<(Seq<char>, NbtValue)>) -> Seq<(Seq<char>, Seq<char>)> {
    match assoc_get(e, "Properties"@) {
        Some(NbtValue::Compound(items)) => string_props(items),
        _ => Seq::empty(),
    }
}

/// The legacy block of a palette entry, if it has one.
pub open spec fn palette_state(e: Seq<(Seq<char>, NbtValue)>) -> Option<LegacyBlockState> {
    spec_block_state(entry_name(e), entry_props(e))
}

/// The legacy block of a palette entry, air when it has none.
pub open spec fn palette_block(e: Seq<(Seq<char>, NbtValue)>) -> LegacyBlockState {
    match palette_state(e) {
        Some(b) => b,
        None => legacy(0, 0),
    }
}

/// The unknown-block list after mapping palette entry `e`.
pub open spec fn entry_unknowns(u: Seq<Seq<char>>, e: Seq<(Seq<char>, NbtValue)>) -> Seq<Seq<char>> {
    if palette_state(e) is Some { u } else { with_unknown(u, strip_namespace(entry_name(e))) }
}

fn put_prop(m: &mut Vec<(String, String)>, k: String, v: String)
    ensures
        props_view(final(m)@) == assoc_put(props_view(old(m)@), k@, v@),
{
    let r = find_key(m, k.as_str());
    proof {
        lemma_find_key_view(m@, props_view(m@), k@, r);
    }
    let ghost kv = k@;
    let ghost vv = v@;
    let ghost before = m@;
    match r {
        Some(i) => {
            m.set(i, (k, v));
            assert(props_view(m@) =~= props_view(before).update(i as int, (kv, vv)));
        },
        None => {
            m.push((k, v));
            assert(props_view(m@) =~= props_view(before).push((kv, vv)));
        },
    }
}

fn map_palette_entry(entry: &Vec<(String, NbtTag)>, context: &mut ChunkConversionContext) -> (r: LegacyBlockState)
    ensures
        r == palette_block(items_view(entry@)),
        final(context).preserve_dynamic_chunk_data == old(context).preserve_dynamic_chunk_data,
        final(context).global_modern_section_shift == old(context).global_modern_section_shift,
        strings_view(final(context).unknown_blocks@) == entry_unknowns(strings_view(old(context).unknown_blocks@), items_view(entry@)),
{
    let name = match NbtHelper::get_string(entry, "Name") {
        Some(s) => s,
        None => String::new(),
    };
    let properties = match NbtHelper::get_compound(entry, "Properties") {
        Some(m) => m,
        None => Vec::new(),
    };
    let mut prop_map: Vec<(String, String)> = Vec::new();
    let mut i: usize = 0;
    assert(properties@.subrange(0, 0) =~= Seq::<(String, NbtTag)>::empty());
    assert(props_view(prop_map@) =~= Seq::<(Seq<char>, Seq<char>)>::empty());
    while i < properties.len()
        invariant
            i <= properties@.len(),
            props_view(prop_map@) == string_props(items_view(properties@.subrange(0, i as int))),
        decreases properties@.len() - i,
    {
        proof {
            lemma_items_view_step(properties@, i as int);
            let s = items_view(properties@.subrange(0, i as int + 1));
            assert(s.drop_last() =~= items_view(properties@.subrange(0, i as int)));
        }
        if let Some(s) = properties[i].1.get_string() {
            put_prop(&mut prop_map, properties[i].0.clone(), to_owned_string(s));
        }
        i += 1;
    }
    assert(properties@.subrange(0, properties@.len() as int) =~= properties@);
    proof {
        reveal_strlit("");
        assert(name@ == entry_name(items_view(entry@)));
        assert(props_view(prop_map@) == entry_props(items_view(entry@))) by {
            if !(crate::nbt::entry(entry@, "Properties"@) matches Some(NbtValue::Compound(_))) {
                assert(properties@ =~= Seq::<(String, NbtTag)>::empty());
                assert(items_view(properties@) =~= Seq::<(Seq<char>, NbtValue)>::empty());
            }
        }
    }
    map_modern_block_state(name.as_str(), &prop_map, context)
}

/// The palette of a section: its `Palette` list, or the `palette` list of its
/// `block_states` compound.
pub open spec fn section_palette(sec: Seq<(Seq<char>, NbtValue)>) -> Option<Seq<NbtValue>> {
    match assoc_get(sec, "Palette"@) {
        Some(NbtValue::List(items, _)) => Some(items),
        _ => match assoc_get(sec, "block_states"@) {
            Some(NbtValue::Compound(c)) => match assoc_get(c, "palette"@) {
                Some(NbtValue::List(items, _)) => Some(items),
                _ => None,
            },
            _ => None,
        },
    }
}

/// The packed palette indices of a section: its `BlockStates` long array, or the
/// `data` long array of its `block_states` compound.
pub open spec fn section_states(sec: Seq<(Seq<char>, NbtValue)>) -> Option<Seq<i64>> {
    match assoc_get(sec, "BlockStates"@) {
        Some(NbtValue::LongArray(a)) => Some(a),
        _ => match assoc_get(sec, "block_states"@) {
            Some(NbtValue::Compound(c)) => match assoc_get(c, "data"@) {
                Some(NbtValue::LongArray(a)) => Some(a),
                _ => None,
            },
            _ => None,
        },
    }
}

/// The bits per packed index of a palette of `n` entries: enough for index `n - 1`,
/// and at least 4.
pub open spec fn palette_bits(n: int) -> int {
    let b = bits_needed((n - 1) as nat) as int;
    if b > 4 { b } else { 4 }
}

/// Whether a block-state array of `len` words is laid out padded: exactly as many
/// words as 4096 indices take when none spans two words.
pub open spec fn uses_padded(len: int, bits_per_block: int) -> bool {
    let vpl = values_per_long(bits_per_block);
    len == (4096 + vpl - 1) / vpl
}

/// Palette index `i` of a block-state array, in whichever layout it uses.
pub open spec fn state_index(states: Seq<i64>, bits_per_block: int, i: int) -> usize {
    if uses_padded(states.len() as int, bits_per_block) {
        padded_state(states, bits_per_block, i)
    } else {
        compact_state(states, bits_per_block, i)
    }
}

/// The compound at index `idx` of a palette, if there is one.
pub open spec fn palette_entry_at(pal: Seq<NbtValue>, idx: int) -> Option<Seq<(Seq<char>, NbtValue)>> {
    if 0 <= idx < pal.len() {
        match pal[idx] {
            NbtValue::Compound(e) => Some(e),
            _ => None,
        }
    } else {
        None
    }
}

/// The palette entry that block `i` of a multi-entry palette section refers to.
pub open spec fn packed_entry(pal: Seq<NbtValue>, states: Seq<i64>, i: int) -> Option<Seq<(Seq<char>, NbtValue)>> {
    palette_entry_at(pal, state_index(states, palette_bits(pal.len() as int), i) as int)
}

/// The legacy block of block `i` of a multi-entry palette section; air where the
/// index leaves the palette or names no compound.
pub open spec fn packed_block(pal: Seq<NbtValue>, states: Seq<i64>, i: int) -> LegacyBlockState {
    match packed_entry(pal, states, i) {
        Some(e) => palette_block(e),
        None => legacy(0, 0),
    }
}

/// The unknown-block list after mapping blocks `0..n` of a multi-entry palette
/// section in order.
pub open spec fn packed_unknowns(u: Seq<Seq<char>>, pal: Seq<NbtValue>, states: Seq<i64>, n: int) -> Seq<Seq<char>>
    decreases n,
{
    if n <= 0 {
        u
    } else {
        let prev = packed_unknowns(u, pal, states, n - 1);
        match packed_entry(pal, states, n - 1) {
            Some(e) => entry_unknowns(prev, e),
            None => prev,
        }
    }
}

/// Whether a section decodes through its palette: a one-entry palette holding a
/// compound, or a longer palette with a non-empty block-state array.
pub open spec fn palette_decodes(sec: Seq<(Seq<char>, NbtValue)>) -> bool {
    match section_palette(sec) {
        Some(pal) => if pal.len() == 1 {
            pal[0] is Compound
        } else {
            pal.len() >= 2 && (section_states(sec) matches Some(st) && st.len() > 0)
        },
        None => false,
    }
}

/// Whether decoding a section through its palette stays within its block-state
/// array: the index width is below 64 bits and, for the compact layout, the word
/// holding index 4095 exists.
pub open spec fn palette_readable(sec: Seq<(Seq<char>, NbtValue)>) -> bool {
    match (section_palette(sec), section_states(sec)) {
        (Some(pal), Some(st)) => pal.len() >= 2 && st.len() > 0 ==> {
            let b = palette_bits(pal.len() as int);
            b < 64 && (uses_padded(st.len() as int, b) || (4095 * b) / 64 < st.len())
        },
        _ => true,
    }
}

/// Block `i` of a section decoded through its palette.
pub open spec fn palette_section_block(sec: Seq<(Seq<char>, NbtValue)>, i: int) -> LegacyBlockState {
    let pal = section_palette(sec)->0;
    if pal.len() == 1 {
        palette_block(pal[0]->Compound_0)
    } else {
        packed_block(pal, section_states(sec)->0, i)
    }
}

/// The unknown-block list after decoding a section through its palette.
pub open spec fn palette_section_unknowns(u: Seq<Seq<char>>, sec: Seq<(Seq<char>, NbtValue)>) -> Seq<Seq<char>> {
    if !palette_decodes(sec) {
        u
    } else {
        let pal = section_palette(sec)->0;
        if pal.len() == 1 {
            entry_unknowns(u, pal[0]->Compound_0)
        } else {
            packed_unknowns(u, pal, section_states(sec)->0, 4096)
        }
    }
}

/// A block array of 4096 bytes and a nibble array of 2048 bytes that hold, for every
/// block `i`, the id and the low 4 bits of the data of `f(i)`.
pub open spec fn holds_blocks(blocks: Seq<u8>, data: Seq<u8>, f: spec_fn(int) -> LegacyBlockState) -> bool {
    &&& blocks.len() == 4096
    &&& data.len() == 2048
    &&& forall|i: int| 0 <= i < 4096 ==> #[trigger] blocks[i] == f(i).id && nibble(data, i) == f(i).data & 0x0F
}

proof fn lemma_zero_nibbles(data: Seq<u8>)
    requires
        forall|j: int| 0 <= j < data.len() ==> data[j] == 0,
    ensures
        forall|i: int| 0 <= i < 2 * data.len() ==> #[trigger] nibble(data, i) == 0,
{
    assert((0u8 & 0x0F) == 0 && ((0u8 >> 4u8) & 0x0F) == 0) by (bit_vector);
    assert forall|i: int| 0 <= i < 2 * data.len() implies #[trigger] nibble(data, i) == 0 by {
        assert(data[i / 2] == 0);
    }
}

/// Blocks `0..n` hold the id and data nibble of `f`, and the rest are still zero.
pub open spec fn filled_upto(blocks: Seq<u8>, data: Seq<u8>, n: int, f: spec_fn(int) -> LegacyBlockState) -> bool {
    &&& blocks.len() == 4096
    &&& data.len() == 2048
    &&& forall|j: int| #![trigger blocks[j]] #![trigger nibble(data, j)]
        0 <= j < n ==> blocks[j] == f(j).id && nibble(data, j) == f(j).data & 0x0F
    &&& forall|j: int| #![trigger blocks[j]] #![trigger nibble(data, j)]
        n <= j < 4096 ==> blocks[j] == 0 && nibble(data, j) == 0
}

proof fn lemma_fill_step(b0: Seq<u8>, d0: Seq<u8>, b1: Seq<u8>, d1: Seq<u8>, i: int, f: spec_fn(int) -> LegacyBlockState)
    requires
        0 <= i < 4096,
        filled_upto(b0, d0, i, f),
        b1 == b0.update(i, f(i).id),
        d1.len() == 2048,
        nibble(d1, i) == f(i).data & 0x0F,
        forall|k: int| 0 <= k < 4096 && k != i ==> #[trigger] nibble(d1, k) == nibble(d0, k),
    ensures
        filled_upto(b1, d1, i + 1, f),
{
    assert forall|j: int| 0 <= j < i + 1 implies #[trigger] b1[j] == f(j).id && nibble(d1, j) == f(j).data & 0x0F by {
        if j < i {
            assert(b0[j] == f(j).id && nibble(d0, j) == f(j).data & 0x0F);
            assert(nibble(d1, j) == nibble(d0, j));
        }
    }
    assert forall|j: int| i + 1 <= j < 4096 implies #[trigger] b1[j] == 0 && nibble(d1, j) == 0 by {
        assert(b0[j] == 0 && nibble(d0, j) == 0);
        assert(nibble(d1, j) == nibble(d0, j));
    }
}

proof fn lemma_fill_skip(b0: Seq<u8>, d0: Seq<u8>, i: int, f: spec_fn(int) -> LegacyBlockState)
    requires
        0 <= i < 4096,
        filled_upto(b0, d0, i, f),
        f(i) == legacy(0, 0),
    ensures
        filled_upto(b0, d0, i + 1, f),
{
    assert((0u8 & 0x0F) == 0) by (bit_vector);
    assert(b0[i] == 0 && nibble(d0, i) == 0);
    assert(b0.update(i, f(i).id) =~= b0);
    lemma_fill_step(b0, d0, b0, d0, i, f);
}

fn try_decode_palette_section(section: &Vec<(String, NbtTag)>, context: &mut ChunkConversionContext) -> (r: Option<(Vec<u8>, Vec<u8>)>)
    requires
        palette_readable(items_view(section@)),
    ensures
        r is Some <==> palette_decodes(items_view(section@)),
        r matches Some((blocks, data)) ==> holds_blocks(blocks@, data@, |i: int| palette_section_block(items_view(section@), i)),
        final(context).preserve_dynamic_chunk_data == old(context).preserve_dynamic_chunk_data,
        final(context).global_modern_section_shift == old(context).global_modern_section_shift,
        strings_view(final(context).unknown_blocks@) == palette_section_unknowns(strings_view(old(context).unknown_blocks@), items_view(section@)),
{
    let ghost sec = items_view(section@);
    let ghost u0 = strings_view(context.unknown_blocks@);
    let block_states_container = NbtHelper::get_compound(section, "block_states");
    let palette = match NbtHelper::get_list(section, "Palette") {
        Some(p) => p,
        None => match &block_states_container {
            Some(c) => match NbtHelper::get_list(c, "palette") {
                Some(p) => p,
                None => return None,
            },
            None => return None,
        },
    };
    let ghost pal = tags_view(palette@);
    proof {
        lemma_tags_view(palette@);
        assert(section_palette(sec) == Some(pal));
    }
    if palette.len() == 0 {
        return None;
    }
    let mut blocks: Vec<u8> = vec![0u8; 4096];
    let mut data: Vec<u8> = vec![0u8; 2048];
    proof {
        lemma_zero_nibbles(data@);
    }
    if palette.len() == 1 {
        let entry = match &palette[0] {
            NbtTag::Compound(m) => m,
            _ => return None,
        };
        let legacy = map_palette_entry(entry, context);
        let mut i: usize = 0;
        while i < 4096
            invariant
                i <= 4096,
                blocks@.len() == 4096,
                forall|j: int| 0 <= j < i ==> blocks@[j] == legacy.id,
            decreases 4096 - i,
        {
            blocks.set(i, legacy.id);
            i += 1;
        }
        if legacy.data != 0 {
            let mut i: usize = 0;
            while i < 4096
                invariant
                    i <= 4096,
                    data@.len() == 2048,
                    forall|j: int| 0 <= j < i ==> #[trigger] nibble(data@, j) == legacy.data & 0x0F,
                decreases 4096 - i,
            {
                set_nibble(&mut data, i, legacy.data);
                i += 1;
            }
        } else {
            assert((0u8 & 0x0F) == 0) by (bit_vector);
        }
        return Some((blocks, data));
    }
    let block_states: &[i64] = match NbtHelper::get_entry(section, "BlockStates") {
        Some(t) => match t.get_long_array() {
            Some(a) => a,
            None => match &block_states_container {
                Some(c) => match NbtHelper::get_entry(c, "data") {
                    Some(t2) => match t2.get_long_array() {
                        Some(a) => a,
                        None => return None,
                    },
                    None => return None,
                },
                None => return None,
            },
        },
        None => match &block_states_container {
            Some(c) => match NbtHelper::get_entry(c, "data") {
                Some(t2) => match t2.get_long_array() {
                    Some(a) => a,
                    None => return None,
                },
                None => return None,
            },
            None => return None,
        },
    };
    let ghost states = block_states@;
    assert(section_states(sec) == Some(states));
    if block_states.len() == 0 {
        return None;
    }
    let needed = bits_required(palette.len() - 1);
    let bits_per_block: i32 = if needed > 4 { needed } else { 4 };
    let per_long: i32 = if 64 / bits_per_block > 1 { 64 / bits_per_block } else { 1 };
    let expected_long_count: i32 = (4096 + per_long - 1) / per_long;
    let use_padded = block_states.len() == expected_long_count as usize;
    proof {
        assert(bits_per_block as int == palette_bits(pal.len() as int));
        assert(use_padded == uses_padded(states.len() as int, bits_per_block as int));
        let v = per_long as int;
        assert(4095int / v < (4096int + v - 1) / v) by (nonlinear_arith)
            requires
                1 <= v <= 64;
    }
    let mut i: usize = 0;
    while i < 4096
        invariant
            i <= 4096,
            blocks@.len() == 4096,
            data@.len() == 2048,
            pal == tags_view(palette@),
            pal.len() == palette@.len(),
            pal.len() >= 2,
            forall|k: int| 0 <= k < palette@.len() ==> #[trigger] pal[k] == palette@[k]@,
            states == block_states@,
            states.len() > 0,
            4 <= bits_per_block < 64,
            bits_per_block as int == palette_bits(pal.len() as int),
            use_padded == uses_padded(states.len() as int, bits_per_block as int),
            use_padded ==> 4095int / values_per_long(bits_per_block as int) < states.len(),
            !use_padded ==> (4095int * bits_per_block) / 64 < states.len(),
            filled_upto(blocks@, data@, i as int, |j: int| packed_block(pal, states, j)),
            context.preserve_dynamic_chunk_data == old(context).preserve_dynamic_chunk_data,
            context.global_modern_section_shift == old(context).global_modern_section_shift,
            strings_view(context.unknown_blocks@) == packed_unknowns(u0, pal, states, i as int),
        decreases 4096 - i,
    {
        proof {
            let b = bits_per_block as int;
            let v = values_per_long(b);
            assert(i as int / v <= 4095int / v) by (nonlinear_arith)
                requires
                    v >= 1,
                    0 <= i <= 4095;
            assert((i as int * b) / 64 <= (4095int * b) / 64) by (nonlinear_arith)
                requires
                    b >= 1,
                    0 <= i <= 4095;
        }
        let palette_index = if use_padded {
            read_padded_block_state(block_states, bits_per_block, i)
        } else {
            read_compact_block_state(block_states, bits_per_block, i)
        };
        assert(palette_index == state_index(states, bits_per_block as int, i as int));
        let ghost prev_u = strings_view(context.unknown_blocks@);
        if palette_index >= palette.len() {
            proof {
                assert(packed_entry(pal, states, i as int) is None);
                lemma_fill_skip(blocks@, data@, i as int, |j: int| packed_block(pal, states, j));
            }
            i += 1;
            continue;
        }
        let entry = match &palette[palette_index] {
            NbtTag::Compound(m) => m,
            _ => {
                proof {
                    assert(pal[palette_index as int] == palette@[palette_index as int]@);
                    assert(packed_entry(pal, states, i as int) is None);
                    lemma_fill_skip(blocks@, data@, i as int, |j: int| packed_block(pal, states, j));
                }
                i += 1;
                continue;
            },
        };
        assert(pal[palette_index as int] == palette@[palette_index as int]@);
        assert(packed_entry(pal, states, i as int) == Some(items_view(entry@)));
        let legacy = map_palette_entry(entry, context);
        let ghost before_blocks = blocks@;
        let ghost before_data = data@;
        blocks.set(i, legacy.id);
        if legacy.data != 0 {
            set_nibble(&mut data, i, legacy.data);
        } else {
            assert((0u8 & 0x0F) == 0) by (bit_vector);
            assert(nibble(data@, i as int) == 0);
        }
        proof {
            assert(packed_block(pal, states, i as int) == legacy);
            assert(packed_unknowns(u0, pal, states, i + 1) == entry_unknowns(prev_u, items_view(entry@)));
            lemma_fill_step(before_blocks, before_data, blocks@, data@, i as int, |j: int| packed_block(pal, states, j));
        }
        i += 1;
    }
    Some((blocks, data))
}

/// The old-format block array of a section: its `Blocks` byte array, when it holds at
/// least 4096 bytes.
pub open spec fn old_blocks(sec: Seq<(Seq<char>, NbtValue)>) -> Option<Seq<u8>> {
    match assoc_get(sec, "Blocks"@) {
        Some(NbtValue::ByteArray(b)) => if b.len() >= 4096 { Some(b) } else { None },
        _ => None,
    }
}

/// `b` cut or zero-padded to `n` bytes.
pub open spec fn fitted(b: Seq<u8>, n: nat) -> Seq<u8> {
    if b.len() >= n {
        b.subrange(0, n as int)
    } else {
        b + Seq::new((n - b.len()) as nat, |i: int| 0u8)
    }
}

/// The old-format data nibbles of a section: its `Data` byte array fitted to 2048
/// bytes, or zeros.
pub open spec fn old_data(sec: Seq<(Seq<char>, NbtValue)>) -> Seq<u8> {
    match assoc_get(sec, "Data"@) {
        Some(NbtValue::ByteArray(b)) => fitted(b, 2048),
        _ => Seq::new(2048, |i: int| 0u8),
    }
}

/// Whether a section's blocks can be decoded: from an old-format block array or
/// through its palette.
pub open spec fn section_decodes(sec: Seq<(Seq<char>, NbtValue)>) -> bool {
    old_blocks(sec) is Some || palette_decodes(sec)
}

/// Whether decoding a section stays within its arrays.
pub open spec fn section_readable(sec: Seq<(Seq<char>, NbtValue)>) -> bool {
    old_blocks(sec) is Some || palette_readable(sec)
}

/// The legacy block id of block `i` of a decoded section.
pub open spec fn section_block_id(sec: Seq<(Seq<char>, NbtValue)>, i: int) -> u8 {
    match old_blocks(sec) {
        Some(b) => b[i],
        None => palette_section_block(sec, i).id,
    }
}

/// The data nibble of block `i` of a decoded section.
pub open spec fn section_nibble(sec: Seq<(Seq<char>, NbtValue)>, i: int) -> u8 {
    match old_blocks(sec) {
        Some(_) => nibble(old_data(sec), i),
        None => palette_section_block(sec, i).data & 0x0F,
    }
}

/// The unknown-block list after decoding a section.
pub open spec fn section_unknowns(u: Seq<Seq<char>>, sec: Seq<(Seq<char>, NbtValue)>) -> Seq<Seq<char>> {
    if old_blocks(sec) is Some { u } else { palette_section_unknowns(u, sec) }
}

fn try_decode_section_blocks(section: &Vec<(String, NbtTag)>, context: &mut ChunkConversionContext) -> (r: Option<(Vec<u8>, Vec<u8>)>)
    requires
        section_readable(items_view(section@)),
    ensures
        r is Some <==> section_decodes(items_view(section@)),
        r matches Some((blocks, data)) ==> blocks@.len() == 4096 && data@.len() == 2048
            && forall|i: int| 0 <= i < 4096 ==> #[trigger] blocks@[i] == section_block_id(items_view(section@), i)
                && nibble(data@, i) == section_nibble(items_view(section@), i),
        final(context).preserve_dynamic_chunk_data == old(context).preserve_dynamic_chunk_data,
        final(context).global_modern_section_shift == old(context).global_modern_section_shift,
        strings_view(final(context).unknown_blocks@) == section_unknowns(strings_view(old(context).unknown_blocks@), items_view(section@)),
{
    let old_b = NbtHelper::get_byte_array(section, "Blocks");
    if let Some(b) = old_b {
        if b.len() >= 4096 {
            let blocks = slice_to_vec(slice_from(b.as_slice(), 0, 4096));
            let data = NbtHelper::get_byte_array_or_default(section, "Data", 2048);
            assert(data@ == old_data(items_view(section@)));
            return Some((blocks, data));
        }
    }
    let r = try_decode_palette_section(section, context);
    proof {
        if r is Some {
            let (blocks, data) = r->0;
            assert forall|i: int| 0 <= i < 4096 implies #[trigger] blocks@[i] == section_block_id(items_view(section@), i)
                && nibble(data@, i) == section_nibble(items_view(section@), i) by {
                assert(holds_blocks(blocks@, data@, |i: int| palette_section_block(items_view(section@), i)));
            }
        }
    }
    r
}

/// The section list of a chunk's level compound: its `Sections` list, or its
/// `sections` list.
pub open spec fn level_sections(level: Seq<(Seq<char>, NbtValue)>) -> Option<Seq<NbtValue>> {
    match assoc_get(level, "Sections"@) {
        Some(NbtValue::List(items, _)) => Some(items),
        _ => match assoc_get(level, "sections"@) {
            Some(NbtValue::List(items, _)) => Some(items),
            _ => None,
        },
    }
}

/// The height index of a section: its byte `Y`, else its int `y` cut to a byte,
/// else 0.
pub open spec fn section_y(sec: Seq<(Seq<char>, NbtValue)>) -> i32 {
    match assoc_get(sec, "Y"@) {
        Some(NbtValue::Byte(b)) => b as i32,
        _ => match assoc_get(sec, "y"@) {
            Some(NbtValue::Int(v)) => (v as i8) as i32,
            _ => 0,
        },
    }
}

/// A light array of a section, found under `name` or else `alt`, fitted to 2048
/// bytes.
pub open spec fn section_light(sec: Seq<(Seq<char>, NbtValue)>, name: Seq<char>, alt: Seq<char>) -> Option<Seq<u8>> {
    match assoc_get(sec, name) {
        Some(NbtValue::ByteArray(b)) => Some(fitted(b, 2048)),
        _ => match assoc_get(sec, alt) {
            Some(NbtValue::ByteArray(b)) => Some(fitted(b, 2048)),
            _ => None,
        },
    }
}

/// The number of blocks among `0..n` of a decoded section that are not air.
pub open spec fn non_air_upto(sec: Seq<(Seq<char>, NbtValue)>, n: int) -> int
    decreases n,
{
    if n <= 0 {
        0
    } else {
        non_air_upto(sec, n - 1) + if section_block_id(sec, n - 1) != 0 { 1int } else { 0int }
    }
}

/// The sections of a list that decode, in order.
pub open spec fn decoded_of(secs: Seq<NbtValue>) -> Seq<Seq<(Seq<char>, NbtValue)>>
    decreases secs.len(),
{
    if secs.len() == 0 {
        Seq::empty()
    } else {
        let p = decoded_of(secs.drop_last());
        match secs.last() {
            NbtValue::Compound(s) => if section_decodes(s) { p.push(s) } else { p },
            _ => p,
        }
    }
}

/// The unknown-block list after decoding the sections of a list in order.
pub open spec fn sections_unknowns(u: Seq<Seq<char>>, secs: Seq<NbtValue>) -> Seq<Seq<char>>
    decreases secs.len(),
{
    if secs.len() == 0 {
        u
    } else {
        let p = sections_unknowns(u, secs.drop_last());
        match secs.last() {
            NbtValue::Compound(s) => section_unknowns(p, s),
            _ => p,
        }
    }
}

/// Whether every section of a chunk decodes within its arrays.
pub open spec fn level_readable(level: Seq<(Seq<char>, NbtValue)>) -> bool {
    match level_sections(level) {
        Some(secs) => forall|k: int| 0 <= k < secs.len() ==> (#[trigger] secs[k] matches NbtValue::Compound(s) ==> section_readable(s)),
        None => true,
    }
}

/// The decoded sections of a chunk's level compound.
pub open spec fn level_decoded(level: Seq<(Seq<char>, NbtValue)>) -> Seq<Seq<(Seq<char>, NbtValue)>> {
    match level_sections(level) {
        Some(secs) => decoded_of(secs),
        None => Seq::empty(),
    }
}

/// The unknown-block list after flattening a chunk's level compound.
pub open spec fn level_unknowns(u: Seq<Seq<char>>, level: Seq<(Seq<char>, NbtValue)>) -> Seq<Seq<char>> {
    match level_sections(level) {
        Some(secs) => sections_unknowns(u, secs),
        None => u,
    }
}

/// `|v|`.
pub open spec fn abs_int(v: int) -> int {
    if v < 0 { -v } else { v }
}

/// Whether section `a` ranks at least as high as `b` for the choice of the anchor:
/// more non-air blocks first, then farther from height index 4.
pub open spec fn ranks_at_least(a: Seq<(Seq<char>, NbtValue)>, b: Seq<(Seq<char>, NbtValue)>) -> bool {
    let na = non_air_upto(a, 4096);
    let nb = non_air_upto(b, 4096);
    na > nb || (na == nb && abs_int(section_y(a) - 4) >= abs_int(section_y(b) - 4))
}

/// The index of the highest-ranked of the first `n` sections, the last of equals.
pub open spec fn best_upto(ds: Seq<Seq<(Seq<char>, NbtValue)>>, n: int) -> int
    decreases n,
{
    if n <= 1 {
        0
    } else {
        let b = best_upto(ds, n - 1);
        if ranks_at_least(ds[n - 1], ds[b]) { n - 1 } else { b }
    }
}

/// The shift from section height indices to the 16 sections of a legacy column: the
/// one given, or else the height index of the highest-ranked section minus 4 (plus 4
/// when some section lies below 0).
pub open spec fn effective_shift(ds: Seq<Seq<(Seq<char>, NbtValue)>>, shift: Option<i32>) -> int {
    match shift {
        Some(s) => s as int,
        None => {
            let anchor = section_y(ds[best_upto(ds, ds.len() as int)]) as int;
            if exists|j: int| 0 <= j < ds.len() && #[trigger] section_y(ds[j]) < 0 { anchor + 4 } else { anchor - 4 }
        },
    }
}

/// The last of the first `n` sections that lands on column section `ry`, or -1.
pub open spec fn last_at(ds: Seq<Seq<(Seq<char>, NbtValue)>>, n: int, ry: int, shift: int) -> int
    decreases n,
{
    if n <= 0 {
        -1
    } else if section_y(ds[n - 1]) - shift == ry {
        n - 1
    } else {
        last_at(ds, n - 1, ry, shift)
    }
}

/// The last of the first `n` sections that lands on column section `ry` and has the
/// light array `name`/`alt`, or -1.
pub open spec fn last_light_at(ds: Seq<Seq<(Seq<char>, NbtValue)>>, n: int, ry: int, shift: int, name: Seq<char>, alt: Seq<char>) -> int
    decreases n,
{
    if n <= 0 {
        -1
    } else if section_y(ds[n - 1]) - shift == ry && section_light(ds[n - 1], name, alt) is Some {
        n - 1
    } else {
        last_light_at(ds, n - 1, ry, shift, name, alt)
    }
}

/// The section (0..16) of column index `f`.
pub open spec fn column_y(f: int) -> int {
    (f / 16) % 16
}

/// The index within its section of column index `f`.
pub open spec fn local_index(f: int) -> int {
    (f % 16) * 256 + ((f / 256) % 16) * 16 + f / 4096
}

/// The column index of block `i` of the section placed at column section `ry`.
pub open spec fn flat_index(i: int, ry: int) -> int {
    ((i % 16) * 16 + (i / 16) % 16) * 256 + ry * 16 + i / 256
}

/// Column block `f` after writing the first `n` sections: the block of the last of
/// them that lands on its section, else air.
pub open spec fn column_block(ds: Seq<Seq<(Seq<char>, NbtValue)>>, shift: int, n: int, f: int) -> u8 {
    let j = last_at(ds, n, column_y(f), shift);
    if j >= 0 { section_block_id(ds[j], local_index(f)) } else { 0 }
}

/// Column data nibble `f` after writing the first `n` sections.
pub open spec fn column_nibble(ds: Seq<Seq<(Seq<char>, NbtValue)>>, shift: int, n: int, f: int) -> u8 {
    let j = last_at(ds, n, column_y(f), shift);
    if j >= 0 { section_nibble(ds[j], local_index(f)) } else { 0 }
}

/// Column light nibble `f` after writing the first `n` sections: from the last of
/// them that lands on its section and has the light array, else `default`.
pub open spec fn column_light(ds: Seq<Seq<(Seq<char>, NbtValue)>>, shift: int, n: int, f: int, name: Seq<char>, alt: Seq<char>, default: u8) -> u8 {
    let j = last_light_at(ds, n, column_y(f), shift, name, alt);
    if j >= 0 { nibble(section_light(ds[j], name, alt)->0, local_index(f)) } else { default }
}

/// The four column arrays hold what writing the first `n` sections gives.
pub open spec fn column_written(
    blocks: Seq<u8>,
    data: Seq<u8>,
    sky: Seq<u8>,
    block_light: Seq<u8>,
    ds: Seq<Seq<(Seq<char>, NbtValue)>>,
    shift: int,
    n: int,
) -> bool {
    &&& blocks.len() == 65536
    &&& data.len() == 32768
    &&& sky.len() == 32768
    &&& block_light.len() == 32768
    &&& forall|f: int| #![trigger blocks[f]] #![trigger nibble(data, f)] #![trigger nibble(sky, f)] #![trigger nibble(block_light, f)]
        0 <= f < 65536 ==> {
            &&& blocks[f] == column_block(ds, shift, n, f)
            &&& nibble(data, f) == column_nibble(ds, shift, n, f)
            &&& nibble(sky, f) == column_light(ds, shift, n, f, "SkyLight"@, "sky_light"@, 15)
            &&& nibble(block_light, f) == column_light(ds, shift, n, f, "BlockLight"@, "block_light"@, 0)
        }
}

/// A light array as decoded, against the one a section holds.
pub open spec fn light_matches(l: Option<Vec<u8>>, s: Option<Seq<u8>>) -> bool {
    match l {
        Some(v) => s == Some(v@),
        None => s is None,
    }
}

/// A decoded section holds what decoding section `sec` gives.
pub open spec fn models_section(d: DecodedSection, sec: Seq<(Seq<char>, NbtValue)>) -> bool {
    &&& d.section_y == section_y(sec)
    &&& d.blocks@.len() == 4096
    &&& d.data@.len() == 2048
    &&& forall|i: int| 0 <= i < 4096 ==> #[trigger] d.blocks@[i] == section_block_id(sec, i) && nibble(d.data@, i) == section_nibble(sec, i)
    &&& light_matches(d.sky_light, section_light(sec, "SkyLight"@, "sky_light"@))
    &&& light_matches(d.block_light, section_light(sec, "BlockLight"@, "block_light"@))
    &&& d.non_air_count == non_air_upto(sec, 4096)
}

/// The column arrays after writing sections `0..k` and blocks `0..i` of section `k`,
/// which lands on column section `ry`.
pub open spec fn column_partial(
    blocks: Seq<u8>,
    data: Seq<u8>,
    sky: Seq<u8>,
    block_light: Seq<u8>,
    ds: Seq<Seq<(Seq<char>, NbtValue)>>,
    shift: int,
    k: int,
    ry: int,
    i: int,
) -> bool {
    &&& blocks.len() == 65536
    &&& data.len() == 32768
    &&& sky.len() == 32768
    &&& block_light.len() == 32768
    &&& forall|f: int| #![trigger blocks[f]] #![trigger nibble(data, f)] #![trigger nibble(sky, f)] #![trigger nibble(block_light, f)]
        0 <= f < 65536 ==> {
            let inside = column_y(f) == ry && local_index(f) < i;
            let sl = section_light(ds[k], "SkyLight"@, "sky_light"@);
            let bl = section_light(ds[k], "BlockLight"@, "block_light"@);
            &&& blocks[f] == if inside { section_block_id(ds[k], local_index(f)) } else { column_block(ds, shift, k, f) }
            &&& nibble(data, f) == if inside { section_nibble(ds[k], local_index(f)) } else { column_nibble(ds, shift, k, f) }
            &&& nibble(sky, f) == if inside && sl is Some {
                nibble(sl->0, local_index(f))
            } else {
                column_light(ds, shift, k, f, "SkyLight"@, "sky_light"@, 15)
            }
            &&& nibble(block_light, f) == if inside && bl is Some {
                nibble(bl->0, local_index(f))
            } else {
                column_light(ds, shift, k, f, "BlockLight"@, "block_light"@, 0)
            }
        }
}

proof fn lemma_flat_index(i: int, ry: int)
    requires
        0 <= i < 4096,
        0 <= ry < 16,
    ensures
        0 <= flat_index(i, ry) < 65536,
        column_y(flat_index(i, ry)) == ry,
        local_index(flat_index(i, ry)) == i,
{
    let x = i % 16;
    let z = (i / 16) % 16;
    let y = i / 256;
    assert(i == x + 16 * z + 256 * y && 0 <= x < 16 && 0 <= z < 16 && 0 <= y < 16) by (nonlinear_arith)
        requires
            0 <= i < 4096,
            x == i % 16,
            z == (i / 16) % 16,
            y == i / 256;
    let f = flat_index(i, ry);
    assert(f == x * 4096 + z * 256 + ry * 16 + y);
    assert(f % 16 == y && (f / 16) % 16 == ry && (f / 256) % 16 == z && f / 4096 == x && 0 <= f < 65536) by (nonlinear_arith)
        requires
            f == x * 4096 + z * 256 + ry * 16 + y,
            0 <= x < 16,
            0 <= z < 16,
            0 <= ry < 16,
            0 <= y < 16;
}

proof fn lemma_local_index(f: int)
    requires
        0 <= f < 65536,
    ensures
        0 <= local_index(f) < 4096,
        0 <= column_y(f) < 16,
        flat_index(local_index(f), column_y(f)) == f,
{
    let y = f % 16;
    let ry = (f / 16) % 16;
    let z = (f / 256) % 16;
    let x = f / 4096;
    assert(f == x * 4096 + z * 256 + ry * 16 + y && 0 <= x < 16 && 0 <= z < 16 && 0 <= ry < 16 && 0 <= y < 16) by (nonlinear_arith)
        requires
            0 <= f < 65536,
            y == f % 16,
            ry == (f / 16) % 16,
            z == (f / 256) % 16,
            x == f / 4096;
    let i = local_index(f);
    assert(i == y * 256 + z * 16 + x);
    assert(i % 16 == x && (i / 16) % 16 == z && i / 256 == y && 0 <= i < 4096) by (nonlinear_arith)
        requires
            i == y * 256 + z * 16 + x,
            0 <= x < 16,
            0 <= z < 16,
            0 <= y < 16;
}

proof fn lemma_column_start(blocks: Seq<u8>, data: Seq<u8>, sky: Seq<u8>, block_light: Seq<u8>, ds: Seq<Seq<(Seq<char>, NbtValue)>>, shift: int)
    requires
        blocks.len() == 65536,
        data.len() == 32768,
        sky.len() == 32768,
        block_light.len() == 32768,
        forall|j: int| 0 <= j < 65536 ==> blocks[j] == 0,
        forall|j: int| 0 <= j < 32768 ==> data[j] == 0 && sky[j] == 0xFF && block_light[j] == 0,
    ensures
        column_written(blocks, data, sky, block_light, ds, shift, 0),
{
    assert((0u8 & 0x0F) == 0 && ((0u8 >> 4u8) & 0x0F) == 0 && (0xFFu8 & 0x0F) == 15 && ((0xFFu8 >> 4u8) & 0x0F) == 15) by (bit_vector);
    assert forall|f: int| 0 <= f < 65536 implies {
        &&& blocks[f] == column_block(ds, shift, 0, f)
        &&& nibble(data, f) == column_nibble(ds, shift, 0, f)
        &&& nibble(sky, f) == column_light(ds, shift, 0, f, "SkyLight"@, "sky_light"@, 15)
        &&& nibble(block_light, f) == column_light(ds, shift, 0, f, "BlockLight"@, "block_light"@, 0)
    } by {
        assert(data[f / 2] == 0 && sky[f / 2] == 0xFF && block_light[f / 2] == 0);
    }
}

proof fn lemma_column_skip(blocks: Seq<u8>, data: Seq<u8>, sky: Seq<u8>, block_light: Seq<u8>, ds: Seq<Seq<(Seq<char>, NbtValue)>>, shift: int, k: int)
    requires
        0 <= k < ds.len(),
        column_written(blocks, data, sky, block_light, ds, shift, k),
        section_y(ds[k]) - shift < 0 || section_y(ds[k]) - shift > 15,
    ensures
        column_written(blocks, data, sky, block_light, ds, shift, k + 1),
{
    assert forall|f: int| 0 <= f < 65536 implies {
        &&& blocks[f] == column_block(ds, shift, k + 1, f)
        &&& nibble(data, f) == column_nibble(ds, shift, k + 1, f)
        &&& nibble(sky, f) == column_light(ds, shift, k + 1, f, "SkyLight"@, "sky_light"@, 15)
        &&& nibble(block_light, f) == column_light(ds, shift, k + 1, f, "BlockLight"@, "block_light"@, 0)
    } by {
        lemma_local_index(f);
        assert(blocks[f] == column_block(ds, shift, k, f));
    }
}

proof fn lemma_partial_start(blocks: Seq<u8>, data: Seq<u8>, sky: Seq<u8>, block_light: Seq<u8>, ds: Seq<Seq<(Seq<char>, NbtValue)>>, shift: int, k: int, ry: int)
    requires
        column_written(blocks, data, sky, block_light, ds, shift, k),
    ensures
        column_partial(blocks, data, sky, block_light, ds, shift, k, ry, 0),
{
    assert forall|f: int| 0 <= f < 65536 implies blocks[f] == column_block(ds, shift, k, f) by {}
}

proof fn lemma_partial_end(blocks: Seq<u8>, data: Seq<u8>, sky: Seq<u8>, block_light: Seq<u8>, ds: Seq<Seq<(Seq<char>, NbtValue)>>, shift: int, k: int, ry: int)
    requires
        0 <= k < ds.len(),
        0 <= ry < 16,
        section_y(ds[k]) - shift == ry,
        column_partial(blocks, data, sky, block_light, ds, shift, k, ry, 4096),
    ensures
        column_written(blocks, data, sky, block_light, ds, shift, k + 1),
{
    assert forall|f: int| 0 <= f < 65536 implies {
        &&& blocks[f] == column_block(ds, shift, k + 1, f)
        &&& nibble(data, f) == column_nibble(ds, shift, k + 1, f)
        &&& nibble(sky, f) == column_light(ds, shift, k + 1, f, "SkyLight"@, "sky_light"@, 15)
        &&& nibble(block_light, f) == column_light(ds, shift, k + 1, f, "BlockLight"@, "block_light"@, 0)
    } by {
        lemma_local_index(f);
        assert(blocks[f] == blocks[f]);
    }
}

proof fn lemma_partial_step(
    b0: Seq<u8>, d0: Seq<u8>, s0: Seq<u8>, l0: Seq<u8>,
    b1: Seq<u8>, d1: Seq<u8>, s1: Seq<u8>, l1: Seq<u8>,
    ds: Seq<Seq<(Seq<char>, NbtValue)>>, shift: int, k: int, ry: int, i: int,
)
    requires
        0 <= k < ds.len(),
        0 <= ry < 16,
        0 <= i < 4096,
        column_partial(b0, d0, s0, l0, ds, shift, k, ry, i),
        b1 == b0.update(flat_index(i, ry), section_block_id(ds[k], i)),
        d1.len() == 32768,
        s1.len() == 32768,
        l1.len() == 32768,
        nibble(d1, flat_index(i, ry)) == section_nibble(ds[k], i),
        forall|g: int| 0 <= g < 65536 && g != flat_index(i, ry) ==> #[trigger] nibble(d1, g) == nibble(d0, g),
        section_light(ds[k], "SkyLight"@, "sky_light"@) matches Some(sl) ==> nibble(s1, flat_index(i, ry)) == nibble(sl, i)
            && forall|g: int| 0 <= g < 65536 && g != flat_index(i, ry) ==> #[trigger] nibble(s1, g) == nibble(s0, g),
        section_light(ds[k], "SkyLight"@, "sky_light"@) is None ==> s1 == s0,
        section_light(ds[k], "BlockLight"@, "block_light"@) matches Some(bl) ==> nibble(l1, flat_index(i, ry)) == nibble(bl, i)
            && forall|g: int| 0 <= g < 65536 && g != flat_index(i, ry) ==> #[trigger] nibble(l1, g) == nibble(l0, g),
        section_light(ds[k], "BlockLight"@, "block_light"@) is None ==> l1 == l0,
    ensures
        column_partial(b1, d1, s1, l1, ds, shift, k, ry, i + 1),
{
    lemma_flat_index(i, ry);
    let f0 = flat_index(i, ry);
    assert forall|f: int| #![trigger b1[f]] 0 <= f < 65536 implies {
        let inside = column_y(f) == ry && local_index(f) < i + 1;
        let sl = section_light(ds[k], "SkyLight"@, "sky_light"@);
        let bl = section_light(ds[k], "BlockLight"@, "block_light"@);
        &&& b1[f] == if inside { section_block_id(ds[k], local_index(f)) } else { column_block(ds, shift, k, f) }
        &&& nibble(d1, f) == if inside { section_nibble(ds[k], local_index(f)) } else { column_nibble(ds, shift, k, f) }
        &&& nibble(s1, f) == if inside && sl is Some {
            nibble(sl->0, local_index(f))
        } else {
            column_light(ds, shift, k, f, "SkyLight"@, "sky_light"@, 15)
        }
        &&& nibble(l1, f) == if inside && bl is Some {
            nibble(bl->0, local_index(f))
        } else {
            column_light(ds, shift, k, f, "BlockLight"@, "block_light"@, 0)
        }
    } by {
        lemma_local_index(f);
        if f != f0 {
            assert(b0[f] == b0[f]);
            assert(nibble(d1, f) == nibble(d0, f));
            if column_y(f) == ry && local_index(f) == i {
                assert(flat_index(local_index(f), column_y(f)) == f0);
            }
        }
    }
}

fn fit_light(v: Vec<u8>) -> (r: Vec<u8>)
    ensures
        r@ == fitted(v@, 2048),
{
    let mut arr: Vec<u8> = vec![0u8; 2048];
    let len = if v.len() < 2048 { v.len() } else { 2048 };
    let mut i: usize = 0;
    while i < len
        invariant
            len <= 2048,
            len <= v@.len(),
            len == v@.len() || len == 2048,
            i <= len,
            arr@.len() == 2048,
            forall|j: int| 0 <= j < i ==> arr@[j] == v@[j],
            forall|j: int| i <= j < 2048 ==> arr@[j] == 0,
        decreases len - i,
    {
        arr.set(i, v[i]);
        i += 1;
    }
    assert(arr@ =~= fitted(v@, 2048));
    arr
}

fn get_light(section: &Vec<(String, NbtTag)>, name: &str, alt: &str) -> (r: Option<Vec<u8>>)
    ensures
        light_matches(r, section_light(items_view(section@), name@, alt@)),
{
    match NbtHelper::get_byte_array(section, name) {
        Some(v) => Some(fit_light(v)),
        None => match NbtHelper::get_byte_array(section, alt) {
            Some(v) => Some(fit_light(v)),
            None => None,
        },
    }
}

fn count_non_air(blocks: &Vec<u8>, Ghost(sec): Ghost<Seq<(Seq<char>, NbtValue)>>) -> (r: i32)
    requires
        blocks@.len() == 4096,
        forall|i: int| 0 <= i < 4096 ==> #[trigger] blocks@[i] == section_block_id(sec, i),
    ensures
        r == non_air_upto(sec, 4096),
{
    let mut count: i32 = 0;
    let mut i: usize = 0;
    while i < 4096
        invariant
            i <= 4096,
            blocks@.len() == 4096,
            forall|j: int| 0 <= j < 4096 ==> #[trigger] blocks@[j] == section_block_id(sec, j),
            count == non_air_upto(sec, i as int),
            count <= i,
        decreases 4096 - i,
    {
        if blocks[i] != 0 {
            count += 1;
        }
        i += 1;
    }
    count
}

fn decode_section(section: &Vec<(String, NbtTag)>, context: &mut ChunkConversionContext) -> (r: Option<DecodedSection>)
    requires
        section_readable(items_view(section@)),
    ensures
        r is Some <==> section_decodes(items_view(section@)),
        r matches Some(d) ==> models_section(d, items_view(section@)),
        final(context).preserve_dynamic_chunk_data == old(context).preserve_dynamic_chunk_data,
        final(context).global_modern_section_shift == old(context).global_modern_section_shift,
        strings_view(final(context).unknown_blocks@) == section_unknowns(strings_view(old(context).unknown_blocks@), items_view(section@)),
{
    let section_y: i32 = match NbtHelper::get_byte(section, "Y") {
        Some(b) => b as i32,
        None => match NbtHelper::get_int(section, "y") {
            Some(v) => (v as i8) as i32,
            None => 0,
        },
    };
    let (sblocks, sdata) = match try_decode_section_blocks(section, context) {
        Some(r) => r,
        None => return None,
    };
    let sky = get_light(section, "SkyLight", "sky_light");
    let block = get_light(section, "BlockLight", "block_light");
    let non_air = count_non_air(&sblocks, Ghost(items_view(section@)));
    Some(DecodedSection { section_y, blocks: sblocks, data: sdata, sky_light: sky, block_light: block, non_air_count: non_air })
}

/// Flattens the sections of a chunk's level compound into one legacy column: 65536
/// block ids and three nibble arrays (data, sky light, block light) of 32768 bytes.
/// Sections that decode are placed at their height index minus the shift (the one
/// given, or else one derived from the highest-ranked section); those that land
/// outside the column are dropped, and a later section replaces an earlier one at the
/// same place. Missing sky light reads as 15, missing block light as 0.
pub fn flatten_anvil_sections(
    level: &Vec<(String, NbtTag)>,
    section_shift: Option<i32>,
    context: &mut ChunkConversionContext,
) -> (r: (Vec<u8>, Vec<u8>, Vec<u8>, Vec<u8>))
    requires
        level_readable(items_view(level@)),
    ensures
        column_written(r.0@, r.1@, r.2@, r.3@, level_decoded(items_view(level@)),
            effective_shift(level_decoded(items_view(level@)), section_shift), level_decoded(items_view(level@)).len() as int),
        final(context).preserve_dynamic_chunk_data == old(context).preserve_dynamic_chunk_data,
        final(context).global_modern_section_shift == old(context).global_modern_section_shift,
        strings_view(final(context).unknown_blocks@) == level_unknowns(strings_view(old(context).unknown_blocks@), items_view(level@)),
{
    let ghost lv = items_view(level@);
    let ghost u0 = strings_view(context.unknown_blocks@);
    let mut blocks: Vec<u8> = vec![0u8; 65536];
    let mut data: Vec<u8> = vec![0u8; 32768];
    let mut sky_light: Vec<u8> = vec![0xFFu8; 32768];
    let mut block_light: Vec<u8> = vec![0u8; 32768];
    proof {
        let ds = level_decoded(lv);
        lemma_column_start(blocks@, data@, sky_light@, block_light@, ds, effective_shift(ds, section_shift));
    }
    let sections = match NbtHelper::get_list(level, "Sections") {
        Some(s) => s,
        None => match NbtHelper::get_list(level, "sections") {
            Some(s) => s,
            None => return (blocks, data, sky_light, block_light),
        },
    };
    let ghost secs = tags_view(sections@);
    proof {
        lemma_tags_view(sections@);
        assert(level_sections(lv) == Some(secs));
        assert(secs.subrange(0, 0) =~= Seq::<NbtValue>::empty());
    }
    let mut decoded: Vec<DecodedSection> = Vec::new();
    let mut k: usize = 0;
    while k < sections.len()
        invariant
            k <= sections@.len(),
            secs == tags_view(sections@),
            secs.len() == sections@.len(),
            forall|m: int| 0 <= m < sections@.len() ==> #[trigger] secs[m] == sections@[m]@,
            forall|m: int| 0 <= m < secs.len() ==> (#[trigger] secs[m] matches NbtValue::Compound(s) ==> section_readable(s)),
            decoded@.len() == decoded_of(secs.subrange(0, k as int)).len(),
            forall|m: int| 0 <= m < decoded@.len() ==> models_section(#[trigger] decoded@[m], decoded_of(secs.subrange(0, k as int))[m]),
            context.preserve_dynamic_chunk_data == old(context).preserve_dynamic_chunk_data,
            context.global_modern_section_shift == old(context).global_modern_section_shift,
            strings_view(context.unknown_blocks@) == sections_unknowns(u0, secs.subrange(0, k as int)),
        decreases sections@.len() - k,
    {
        proof {
            assert(secs.subrange(0, k + 1).drop_last() =~= secs.subrange(0, k as int));
            assert(secs.subrange(0, k + 1).last() == secs[k as int]);
        }
        let ghost before = decoded@;
        let section = match sections[k].as_compound() {
            Some(s) => s,
            None => {
                k += 1;
                continue;
            },
        };
        assert(secs[k as int] == NbtValue::Compound(items_view(section@)));
        match decode_section(section, context) {
            Some(d) => {
                decoded.push(d);
                proof {
                    assert forall|m: int| 0 <= m < decoded@.len() implies models_section(#[trigger] decoded@[m], decoded_of(secs.subrange(0, k + 1))[m]) by {
                        if m < before.len() {
                            assert(decoded@[m] == before[m]);
                        }
                    }
                }
            },
            None => {},
        }
        k += 1;
    }
    proof {
        assert(secs.subrange(0, secs.len() as int) =~= secs);
    }
    let ghost ds = decoded_of(secs);
    if decoded.len() == 0 {
        return (blocks, data, sky_light, block_light);
    }
    let mut uses_negative_y = false;
    let mut best: usize = 0;
    let mut k: usize = 0;
    while k < decoded.len()
        invariant
            0 < decoded@.len() == ds.len(),
            forall|m: int| 0 <= m < decoded@.len() ==> models_section(#[trigger] decoded@[m], ds[m]),
            k <= decoded@.len(),
            uses_negative_y == exists|j: int| 0 <= j < k && #[trigger] section_y(ds[j]) < 0,
            k > 0 ==> best == best_upto(ds, k as int),
            k == 0 ==> best == 0,
            best < decoded@.len(),
        decreases decoded@.len() - k,
    {
        let y = decoded[k].section_y;
        assert(models_section(decoded@[k as int], ds[k as int]));
        if y < 0 {
            uses_negative_y = true;
        }
        if k > 0 {
            let a_count = decoded[k].non_air_count;
            let b_count = decoded[best].non_air_count;
            let a_y = decoded[k].section_y;
            let b_y = decoded[best].section_y;
            assert(models_section(decoded@[best as int], ds[best as int]));
            let a_dist: i32 = if a_y - 4 < 0 { 4 - a_y } else { a_y - 4 };
            let b_dist: i32 = if b_y - 4 < 0 { 4 - b_y } else { b_y - 4 };
            if a_count > b_count || (a_count == b_count && a_dist >= b_dist) {
                best = k;
            }
        }
        k += 1;
    }
    assert(models_section(decoded@[best as int], ds[best as int]));
    let anchor = decoded[best].section_y;
    let effective_shift: i32 = match section_shift {
        Some(s) => s,
        None => if uses_negative_y { anchor + 4 } else { anchor - 4 },
    };
    let ghost sh = effective_shift as int;
    assert(sh == crate::modern_chunk_writer::effective_shift(ds, section_shift));
    let mut k: usize = 0;
    while k < decoded.len()
        invariant
            decoded@.len() == ds.len(),
            forall|m: int| 0 <= m < decoded@.len() ==> models_section(#[trigger] decoded@[m], ds[m]),
            k <= decoded@.len(),
            sh == effective_shift as int,
            column_written(blocks@, data@, sky_light@, block_light@, ds, sh, k as int),
        decreases decoded@.len() - k,
    {
        let section = &decoded[k];
        assert(models_section(*section, ds[k as int]));
        let remapped_y: i64 = section.section_y as i64 - effective_shift as i64;
        if remapped_y < 0 || remapped_y > 15 {
            proof {
                lemma_column_skip(blocks@, data@, sky_light@, block_light@, ds, sh, k as int);
            }
            k += 1;
            continue;
        }
        let ghost ry = remapped_y as int;
        proof {
            lemma_partial_start(blocks@, data@, sky_light@, block_light@, ds, sh, k as int, ry);
        }
        let base_y = remapped_y as usize * 16;
        let mut i: usize = 0;
        while i < 4096
            invariant
                0 <= ry < 16,
                base_y == ry * 16,
                k < ds.len(),
                models_section(*section, ds[k as int]),
                i <= 4096,
                column_partial(blocks@, data@, sky_light@, block_light@, ds, sh, k as int, ry, i as int),
            decreases 4096 - i,
        {
            let x = i & 0x0F;
            let z = (i >> 4) & 0x0F;
            let y = (i >> 8) & 0x0F;
            proof {
                assert(i < 4096 ==> x == i % 16 && z == (i / 16) % 16 && y == i / 256) by (bit_vector)
                    requires
                        x == i & 0x0F,
                        z == (i >> 4) & 0x0F,
                        y == (i >> 8) & 0x0F;
                lemma_flat_index(i as int, ry);
            }
            let global_y = base_y + y;
            let flat_index = ((x * 16) + z) * 256 + global_y;
            assert(flat_index == crate::modern_chunk_writer::flat_index(i as int, ry));
            let ghost (b0, d0, s0, l0) = (blocks@, data@, sky_light@, block_light@);
            blocks.set(flat_index, section.blocks[i]);
            let n = get_nibble(section.data.as_slice(), i);
            set_nibble(&mut data, flat_index, n);
            proof {
                assert((n & 0x0F) == n) by (bit_vector)
                    requires
                        n < 16;
            }
            match &section.sky_light {
                Some(sk) => {
                    let v = get_nibble(sk.as_slice(), i);
                    set_nibble(&mut sky_light, flat_index, v);
                    proof {
                        assert((v & 0x0F) == v) by (bit_vector)
                            requires
                                v < 16;
                    }
                },
                None => {},
            }
            match &section.block_light {
                Some(bl) => {
                    let v = get_nibble(bl.as_slice(), i);
                    set_nibble(&mut block_light, flat_index, v);
                    proof {
                        assert((v & 0x0F) == v) by (bit_vector)
                            requires
                                v < 16;
                    }
                },
                None => {},
            }
            proof {
                lemma_partial_step(b0, d0, s0, l0, blocks@, data@, sky_light@, block_light@, ds, sh, k as int, ry, i as int);
            }
            i += 1;
        }
        proof {
            lemma_partial_end(blocks@, data@, sky_light@, block_light@, ds, sh, k as int, ry);
        }
        k += 1;
    }
    (blocks, data, sky_light, block_light)
}

fn find_palette(section: &Vec<(String, NbtTag)>) -> (r: Option<Vec<NbtTag>>)
    ensures
        r is Some <==> section_palette(items_view(section@)) is Some,
        r matches Some(p) ==> section_palette(items_view(section@)) == Some(tags_view(p@)),
{
    match NbtHelper::get_list(section, "Palette") {
        Some(p) => Some(p),
        None => match NbtHelper::get_compound(section, "block_states") {
            Some(c) => NbtHelper::get_list(&c, "palette"),
            None => None,
        },
    }
}

fn find_block_states_len(section: &Vec<(String, NbtTag)>) -> (r: Option<usize>)
    ensures
        r is Some <==> section_states(items_view(section@)) is Some,
        r matches Some(n) ==> (section_states(items_view(section@))->0).len() == n,
{
    let container = NbtHelper::get_compound(section, "block_states");
    match NbtHelper::get_entry(section, "BlockStates") {
        Some(t) => match t.get_long_array() {
            Some(a) => return Some(a.len()),
            None => {},
        },
        None => {},
    }
    match &container {
        Some(c) => match NbtHelper::get_entry(c, "data") {
            Some(t) => match t.get_long_array() {
                Some(a) => Some(a.len()),
                None => None,
            },
            None => None,
        },
        None => None,
    }
}

fn section_is_readable(section: &Vec<(String, NbtTag)>) -> (r: bool)
    ensures
        r == section_readable(items_view(section@)),
{
    if let Some(b) = NbtHelper::get_byte_array(section, "Blocks") {
        if b.len() >= 4096 {
            return true;
        }
    }
    let palette = match find_palette(section) {
        Some(p) => p,
        None => return true,
    };
    let states_len = match find_block_states_len(section) {
        Some(n) => n,
        None => return true,
    };
    proof {
        lemma_tags_view(palette@);
    }
    if palette.len() < 2 || states_len == 0 {
        return true;
    }
    let needed = bits_required(palette.len() - 1);
    let bits_per_block: i32 = if needed > 4 { needed } else { 4 };
    if bits_per_block >= 64 {
        return false;
    }
    let per_long: i32 = if 64 / bits_per_block > 1 { 64 / bits_per_block } else { 1 };
    let expected_long_count: i32 = (4096 + per_long - 1) / per_long;
    states_len == expected_long_count as usize || (((4095 * bits_per_block) / 64) as usize) < states_len
}

/// Whether every section of a chunk's level compound decodes within its arrays, as
/// `flatten_anvil_sections` requires of its input.
pub fn level_sections_readable(level: &Vec<(String, NbtTag)>) -> (r: bool)
    ensures
        r == level_readable(items_view(level@)),
{
    let sections = match NbtHelper::get_list(level, "Sections") {
        Some(s) => s,
        None => match NbtHelper::get_list(level, "sections") {
            Some(s) => s,
            None => return true,
        },
    };
    let ghost secs = tags_view(sections@);
    proof {
        lemma_tags_view(sections@);
        assert(level_sections(items_view(level@)) == Some(secs));
    }
    let mut k: usize = 0;
    while k < sections.len()
        invariant
            k <= sections@.len(),
            level_sections(items_view(level@)) == Some(secs),
            secs == tags_view(sections@),
            secs.len() == sections@.len(),
            forall|m: int| 0 <= m < sections@.len() ==> #[trigger] secs[m] == sections@[m]@,
            forall|m: int| 0 <= m < k ==> (#[trigger] secs[m] matches NbtValue::Compound(s) ==> section_readable(s)),
        decreases sections@.len() - k,
    {
        if let Some(section) = sections[k].as_compound() {
            if !section_is_readable(section) {
                assert(secs[k as int] == NbtValue::Compound(items_view(section@)));
                return false;
            }
        }
        k += 1;
    }
    true
}

proof fn lemma_extends_refl(u: Seq<Seq<char>>)
    requires
        u.no_duplicates(),
    ensures
        extends_unique(u, u),
{
    assert(u.subrange(0, u.len() as int) =~= u);
}

proof fn lemma_packed_unknowns_extend(u: Seq<Seq<char>>, pal: Seq<NbtValue>, states: Seq<i64>, n: int)
    requires
        u.no_duplicates(),
    ensures
        extends_unique(u, packed_unknowns(u, pal, states, n)),
    decreases n,
{
    if n <= 0 {
        lemma_extends_refl(u);
    } else {
        lemma_packed_unknowns_extend(u, pal, states, n - 1);
        let prev = packed_unknowns(u, pal, states, n - 1);
        match packed_entry(pal, states, n - 1) {
            Some(e) => {
                if palette_state(e) is None {
                    lemma_with_unknown(prev, strip_namespace(entry_name(e)));
                    lemma_extends_trans(u, prev, entry_unknowns(prev, e));
                }
            },
            None => {},
        }
    }
}

proof fn lemma_section_unknowns_extend(u: Seq<Seq<char>>, sec: Seq<(Seq<char>, NbtValue)>)
    requires
        u.no_duplicates(),
    ensures
        extends_unique(u, section_unknowns(u, sec)),
{
    lemma_extends_refl(u);
    if old_blocks(sec) is None && palette_decodes(sec) {
        let pal = section_palette(sec)->0;
        if pal.len() == 1 {
            let e = pal[0]->Compound_0;
            if palette_state(e) is None {
                lemma_with_unknown(u, strip_namespace(entry_name(e)));
            }
        } else {
            lemma_packed_unknowns_extend(u, pal, section_states(sec)->0, 4096);
        }
    }
}

proof fn lemma_sections_unknowns_extend(u: Seq<Seq<char>>, secs: Seq<NbtValue>)
    requires
        u.no_duplicates(),
    ensures
        extends_unique(u, sections_unknowns(u, secs)),
    decreases secs.len(),
{
    if secs.len() == 0 {
        lemma_extends_refl(u);
    } else {
        lemma_sections_unknowns_extend(u, secs.drop_last());
        let p = sections_unknowns(u, secs.drop_last());
        match secs.last() {
            NbtValue::Compound(s) => {
                lemma_section_unknowns_extend(p, s);
                lemma_extends_trans(u, p, section_unknowns(p, s));
            },
            _ => {},
        }
    }
}

/// Flattening a chunk records each unknown block once, in the order first met: the
/// list afterwards holds no name twice and begins with the list before.
pub proof fn lemma_level_unknowns_extend(u: Seq<Seq<char>>, level: Seq<(Seq<char>, NbtValue)>)
    requires
        u.no_duplicates(),
    ensures
        extends_unique(u, level_unknowns(u, level)),
{
    match level_sections(level) {
        Some(secs) => lemma_sections_unknowns_extend(u, secs),
        None => lemma_extends_refl(u),
    }
}

} // verus!
