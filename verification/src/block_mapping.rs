//! Tables that relate modern block names, colours and wood kinds to legacy values.
use vstd::prelude::*;
use crate::models::LegacyBlockState;
use crate::text::str_eq;

verus! {

/// The legacy `(id, data)` of the modern block names that map one-to-one.
pub open spec fn spec_modern_direct(name: Seq<char>) -> Option<(u8, u8)> {
    if name == "stone"@ {
        Some((1, 0))
    } else if name == "granite"@ {
        Some((1, 1))
    } else if name == "polished_granite"@ {
        Some((1, 2))
    } else if name == "diorite"@ {
        Some((1, 3))
    } else if name == "polished_diorite"@ {
        Some((1, 4))
    } else if name == "andesite"@ {
        Some((1, 5))
    } else if name == "polished_andesite"@ {
        Some((1, 6))
    } else if name == "grass_block"@ {
        Some((2, 0))
    } else if name == "dirt"@ {
        Some((3, 0))
    } else if name == "coarse_dirt"@ {
        Some((3, 1))
    } else if name == "podzol"@ {
        Some((3, 2))
    } else if name == "cobblestone"@ {
        Some((4, 0))
    } else if name == "bedrock"@ {
        Some((7, 0))
    } else if name == "sand"@ {
        Some((12, 0))
    } else if name == "red_sand"@ {
        Some((12, 1))
    } else if name == "gravel"@ {
        Some((13, 0))
    } else if name == "gold_ore"@ {
        Some((14, 0))
    } else if name == "iron_ore"@ {
        Some((15, 0))
    } else if name == "coal_ore"@ {
        Some((16, 0))
    } else if name == "sponge"@ {
        Some((19, 0))
    } else if name == "wet_sponge"@ {
        Some((19, 1))
    } else if name == "glass"@ {
        Some((20, 0))
    } else if name == "lapis_ore"@ {
        Some((21, 0))
    } else if name == "lapis_block"@ {
        Some((22, 0))
    } else if name == "sandstone"@ {
        Some((24, 0))
    } else if name == "chiseled_sandstone"@ {
        Some((24, 1))
    } else if name == "smooth_sandstone"@ {
        Some((24, 2))
    } else if name == "note_block"@ {
        Some((25, 0))
    } else if name == "cobweb"@ {
        Some((30, 0))
    } else if name == "short_grass"@ {
        Some((31, 0))
    } else if name == "fern"@ {
        Some((31, 1))
    } else if name == "dead_bush"@ {
        Some((32, 0))
    } else if name == "dandelion"@ {
        Some((37, 0))
    } else if name == "brown_mushroom"@ {
        Some((39, 0))
    } else if name == "red_mushroom"@ {
        Some((40, 0))
    } else if name == "gold_block"@ {
        Some((41, 0))
    } else if name == "iron_block"@ {
        Some((42, 0))
    } else if name == "bricks"@ {
        Some((45, 0))
    } else if name == "tnt"@ {
        Some((46, 0))
    } else if name == "bookshelf"@ {
        Some((47, 0))
    } else if name == "mossy_cobblestone"@ {
        Some((48, 0))
    } else if name == "obsidian"@ {
        Some((49, 0))
    } else if name == "torch"@ {
        Some((50, 0))
    } else if name == "fire"@ {
        Some((51, 0))
    } else if name == "mob_spawner"@ {
        Some((52, 0))
    } else if name == "chest"@ {
        Some((54, 0))
    } else if name == "trapped_chest"@ {
        Some((146, 0))
    } else if name == "diamond_ore"@ {
        Some((56, 0))
    } else if name == "diamond_block"@ {
        Some((57, 0))
    } else if name == "crafting_table"@ {
        Some((58, 0))
    } else if name == "wheat"@ {
        Some((59, 0))
    } else if name == "farmland"@ {
        Some((60, 0))
    } else if name == "furnace"@ {
        Some((61, 0))
    } else if name == "ladder"@ {
        Some((65, 0))
    } else if name == "rail"@ {
        Some((66, 0))
    } else if name == "snow"@ {
        Some((78, 0))
    } else if name == "ice"@ {
        Some((79, 0))
    } else if name == "snow_block"@ {
        Some((80, 0))
    } else if name == "cactus"@ {
        Some((81, 0))
    } else if name == "clay"@ {
        Some((82, 0))
    } else if name == "sugar_cane"@ {
        Some((83, 0))
    } else if name == "jukebox"@ {
        Some((84, 0))
    } else if name == "pumpkin"@ {
        Some((86, 0))
    } else if name == "netherrack"@ {
        Some((87, 0))
    } else if name == "soul_sand"@ {
        Some((88, 0))
    } else if name == "glowstone"@ {
        Some((89, 0))
    } else if name == "jack_o_lantern"@ {
        Some((91, 0))
    } else if name == "cake"@ {
        Some((92, 0))
    } else if name == "melon"@ {
        Some((103, 0))
    } else if name == "vine"@ {
        Some((106, 0))
    } else if name == "mycelium"@ {
        Some((110, 0))
    } else if name == "lily_pad"@ {
        Some((111, 0))
    } else if name == "nether_bricks"@ {
        Some((112, 0))
    } else if name == "nether_brick_fence"@ {
        Some((113, 0))
    } else if name == "enchanting_table"@ {
        Some((116, 0))
    } else if name == "brewing_stand"@ {
        Some((117, 0))
    } else if name == "cauldron"@ {
        Some((118, 0))
    } else if name == "end_portal"@ {
        Some((119, 0))
    } else if name == "end_portal_frame"@ {
        Some((120, 0))
    } else if name == "end_stone"@ {
        Some((121, 0))
    } else if name == "dragon_egg"@ {
        Some((122, 0))
    } else if name == "cocoa"@ {
        Some((127, 0))
    } else if name == "emerald_ore"@ {
        Some((129, 0))
    } else if name == "ender_chest"@ {
        Some((130, 0))
    } else if name == "tripwire_hook"@ {
        Some((131, 0))
    } else if name == "tripwire"@ {
        Some((132, 0))
    } else if name == "emerald_block"@ {
        Some((133, 0))
    } else if name == "command_block"@ {
        Some((137, 0))
    } else if name == "beacon"@ {
        Some((138, 0))
    } else if name == "flower_pot"@ {
        Some((140, 0))
    } else if name == "carrots"@ {
        Some((141, 0))
    } else if name == "potatoes"@ {
        Some((142, 0))
    } else if name == "anvil"@ {
        Some((145, 0))
    } else if name == "daylight_detector"@ {
        Some((151, 0))
    } else if name == "redstone_block"@ {
        Some((152, 0))
    } else if name == "nether_quartz_ore"@ {
        Some((153, 0))
    } else if name == "hopper"@ {
        Some((154, 0))
    } else if name == "slime_block"@ {
        Some((165, 0))
    } else if name == "iron_trapdoor"@ {
        Some((167, 0))
    } else if name == "sea_lantern"@ {
        Some((169, 0))
    } else if name == "hay_block"@ {
        Some((170, 0))
    } else if name == "dispenser"@ {
        Some((23, 0))
    } else if name == "dropper"@ {
        Some((158, 0))
    } else if name == "sticky_piston"@ {
        Some((29, 0))
    } else if name == "piston"@ {
        Some((33, 0))
    } else if name == "piston_head"@ {
        Some((34, 0))
    } else if name == "redstone_lamp"@ {
        Some((123, 0))
    } else if name == "red_nether_bricks"@ {
        Some((112, 0))
    } else if name == "bone_block"@ {
        Some((1, 0))
    } else if name == "observer"@ {
        Some((1, 0))
    } else if name == "shulker_box"@ {
        Some((35, 0))
    } else if name == "white_shulker_box"@ {
        Some((35, 0))
    } else if name == "orange_shulker_box"@ {
        Some((35, 1))
    } else if name == "magenta_shulker_box"@ {
        Some((35, 2))
    } else if name == "light_blue_shulker_box"@ {
        Some((35, 3))
    } else if name == "yellow_shulker_box"@ {
        Some((35, 4))
    } else if name == "lime_shulker_box"@ {
        Some((35, 5))
    } else if name == "pink_shulker_box"@ {
        Some((35, 6))
    } else if name == "gray_shulker_box"@ {
        Some((35, 7))
    } else if name == "light_gray_shulker_box"@ {
        Some((35, 8))
    } else if name == "cyan_shulker_box"@ {
        Some((35, 9))
    } else if name == "purple_shulker_box"@ {
        Some((35, 10))
    } else if name == "blue_shulker_box"@ {
        Some((35, 11))
    } else if name == "brown_shulker_box"@ {
        Some((35, 12))
    } else if name == "green_shulker_box"@ {
        Some((35, 13))
    } else if name == "red_shulker_box"@ {
        Some((35, 14))
    } else if name == "black_shulker_box"@ {
        Some((35, 15))
    } else {
        None
    }
}

/// The lengths of the names of the one-to-one table.
proof fn lemma_direct_name_lengths()
    ensures
        "stone"@.len() == 5,
        "granite"@.len() == 7,
        "polished_granite"@.len() == 16,
        "diorite"@.len() == 7,
        "polished_diorite"@.len() == 16,
        "andesite"@.len() == 8,
        "polished_andesite"@.len() == 17,
        "grass_block"@.len() == 11,
        "dirt"@.len() == 4,
        "coarse_dirt"@.len() == 11,
        "podzol"@.len() == 6,
        "cobblestone"@.len() == 11,
        "bedrock"@.len() == 7,
        "sand"@.len() == 4,
        "red_sand"@.len() == 8,
        "gravel"@.len() == 6,
        "gold_ore"@.len() == 8,
        "iron_ore"@.len() == 8,
        "coal_ore"@.len() == 8,
        "sponge"@.len() == 6,
        "wet_sponge"@.len() == 10,
        "glass"@.len() == 5,
        "lapis_ore"@.len() == 9,
        "lapis_block"@.len() == 11,
        "sandstone"@.len() == 9,
        "chiseled_sandstone"@.len() == 18,
        "smooth_sandstone"@.len() == 16,
        "note_block"@.len() == 10,
        "cobweb"@.len() == 6,
        "short_grass"@.len() == 11,
        "fern"@.len() == 4,
        "dead_bush"@.len() == 9,
        "dandelion"@.len() == 9,
        "brown_mushroom"@.len() == 14,
        "red_mushroom"@.len() == 12,
        "gold_block"@.len() == 10,
        "iron_block"@.len() == 10,
        "bricks"@.len() == 6,
        "tnt"@.len() == 3,
        "bookshelf"@.len() == 9,
        "mossy_cobblestone"@.len() == 17,
        "obsidian"@.len() == 8,
        "torch"@.len() == 5,
        "fire"@.len() == 4,
        "mob_spawner"@.len() == 11,
        "chest"@.len() == 5,
        "trapped_chest"@.len() == 13,
        "diamond_ore"@.len() == 11,
        "diamond_block"@.len() == 13,
        "crafting_table"@.len() == 14,
        "wheat"@.len() == 5,
        "farmland"@.len() == 8,
        "furnace"@.len() == 7,
        "ladder"@.len() == 6,
        "rail"@.len() == 4,
        "snow"@.len() == 4,
        "ice"@.len() == 3,
        "snow_block"@.len() == 10,
        "cactus"@.len() == 6,
        "clay"@.len() == 4,
        "sugar_cane"@.len() == 10,
        "jukebox"@.len() == 7,
        "pumpkin"@.len() == 7,
        "netherrack"@.len() == 10,
        "soul_sand"@.len() == 9,
        "glowstone"@.len() == 9,
        "jack_o_lantern"@.len() == 14,
        "cake"@.len() == 4,
        "melon"@.len() == 5,
        "vine"@.len() == 4,
        "mycelium"@.len() == 8,
        "lily_pad"@.len() == 8,
        "nether_bricks"@.len() == 13,
        "nether_brick_fence"@.len() == 18,
        "enchanting_table"@.len() == 16,
        "brewing_stand"@.len() == 13,
        "cauldron"@.len() == 8,
        "end_portal"@.len() == 10,
        "end_portal_frame"@.len() == 16,
        "end_stone"@.len() == 9,
        "dragon_egg"@.len() == 10,
        "cocoa"@.len() == 5,
        "emerald_ore"@.len() == 11,
        "ender_chest"@.len() == 11,
        "tripwire_hook"@.len() == 13,
        "tripwire"@.len() == 8,
        "emerald_block"@.len() == 13,
        "command_block"@.len() == 13,
        "beacon"@.len() == 6,
        "flower_pot"@.len() == 10,
        "carrots"@.len() == 7,
        "potatoes"@.len() == 8,
        "anvil"@.len() == 5,
        "daylight_detector"@.len() == 17,
        "redstone_block"@.len() == 14,
        "nether_quartz_ore"@.len() == 17,
        "hopper"@.len() == 6,
        "slime_block"@.len() == 11,
        "iron_trapdoor"@.len() == 13,
        "sea_lantern"@.len() == 11,
        "hay_block"@.len() == 9,
        "dispenser"@.len() == 9,
        "dropper"@.len() == 7,
        "sticky_piston"@.len() == 13,
        "piston"@.len() == 6,
        "piston_head"@.len() == 11,
        "redstone_lamp"@.len() == 13,
        "red_nether_bricks"@.len() == 17,
        "bone_block"@.len() == 10,
        "observer"@.len() == 8,
        "shulker_box"@.len() == 11,
        "white_shulker_box"@.len() == 17,
        "orange_shulker_box"@.len() == 18,
        "magenta_shulker_box"@.len() == 19,
        "light_blue_shulker_box"@.len() == 22,
        "yellow_shulker_box"@.len() == 18,
        "lime_shulker_box"@.len() == 16,
        "pink_shulker_box"@.len() == 16,
        "gray_shulker_box"@.len() == 16,
        "light_gray_shulker_box"@.len() == 22,
        "cyan_shulker_box"@.len() == 16,
        "purple_shulker_box"@.len() == 18,
        "blue_shulker_box"@.len() == 16,
        "brown_shulker_box"@.len() == 17,
        "green_shulker_box"@.len() == 17,
        "red_shulker_box"@.len() == 15,
        "black_shulker_box"@.len() == 17,
{
    reveal_strlit("stone");
    reveal_strlit("granite");
    reveal_strlit("polished_granite");
    reveal_strlit("diorite");
    reveal_strlit("polished_diorite");
    reveal_strlit("andesite");
    reveal_strlit("polished_andesite");
    reveal_strlit("grass_block");
    reveal_strlit("dirt");
    reveal_strlit("coarse_dirt");
    reveal_strlit("podzol");
    reveal_strlit("cobblestone");
    reveal_strlit("bedrock");
    reveal_strlit("sand");
    reveal_strlit("red_sand");
    reveal_strlit("gravel");
    reveal_strlit("gold_ore");
    reveal_strlit("iron_ore");
    reveal_strlit("coal_ore");
    reveal_strlit("sponge");
    reveal_strlit("wet_sponge");
    reveal_strlit("glass");
    reveal_strlit("lapis_ore");
    reveal_strlit("lapis_block");
    reveal_strlit("sandstone");
    reveal_strlit("chiseled_sandstone");
    reveal_strlit("smooth_sandstone");
    reveal_strlit("note_block");
    reveal_strlit("cobweb");
    reveal_strlit("short_grass");
    reveal_strlit("fern");
    reveal_strlit("dead_bush");
    reveal_strlit("dandelion");
    reveal_strlit("brown_mushroom");
    reveal_strlit("red_mushroom");
    reveal_strlit("gold_block");
    reveal_strlit("iron_block");
    reveal_strlit("bricks");
    reveal_strlit("tnt");
    reveal_strlit("bookshelf");
    reveal_strlit("mossy_cobblestone");
    reveal_strlit("obsidian");
    reveal_strlit("torch");
    reveal_strlit("fire");
    reveal_strlit("mob_spawner");
    reveal_strlit("chest");
    reveal_strlit("trapped_chest");
    reveal_strlit("diamond_ore");
    reveal_strlit("diamond_block");
    reveal_strlit("crafting_table");
    reveal_strlit("wheat");
    reveal_strlit("farmland");
    reveal_strlit("furnace");
    reveal_strlit("ladder");
    reveal_strlit("rail");
    reveal_strlit("snow");
    reveal_strlit("ice");
    reveal_strlit("snow_block");
    reveal_strlit("cactus");
    reveal_strlit("clay");
    reveal_strlit("sugar_cane");
    reveal_strlit("jukebox");
    reveal_strlit("pumpkin");
    reveal_strlit("netherrack");
    reveal_strlit("soul_sand");
    reveal_strlit("glowstone");
    reveal_strlit("jack_o_lantern");
    reveal_strlit("cake");
    reveal_strlit("melon");
    reveal_strlit("vine");
    reveal_strlit("mycelium");
    reveal_strlit("lily_pad");
    reveal_strlit("nether_bricks");
    reveal_strlit("nether_brick_fence");
    reveal_strlit("enchanting_table");
    reveal_strlit("brewing_stand");
    reveal_strlit("cauldron");
    reveal_strlit("end_portal");
    reveal_strlit("end_portal_frame");
    reveal_strlit("end_stone");
    reveal_strlit("dragon_egg");
    reveal_strlit("cocoa");
    reveal_strlit("emerald_ore");
    reveal_strlit("ender_chest");
    reveal_strlit("tripwire_hook");
    reveal_strlit("tripwire");
    reveal_strlit("emerald_block");
    reveal_strlit("command_block");
    reveal_strlit("beacon");
    reveal_strlit("flower_pot");
    reveal_strlit("carrots");
    reveal_strlit("potatoes");
    reveal_strlit("anvil");
    reveal_strlit("daylight_detector");
    reveal_strlit("redstone_block");
    reveal_strlit("nether_quartz_ore");
    reveal_strlit("hopper");
    reveal_strlit("slime_block");
    reveal_strlit("iron_trapdoor");
    reveal_strlit("sea_lantern");
    reveal_strlit("hay_block");
    reveal_strlit("dispenser");
    reveal_strlit("dropper");
    reveal_strlit("sticky_piston");
    reveal_strlit("piston");
    reveal_strlit("piston_head");
    reveal_strlit("redstone_lamp");
    reveal_strlit("red_nether_bricks");
    reveal_strlit("bone_block");
    reveal_strlit("observer");
    reveal_strlit("shulker_box");
    reveal_strlit("white_shulker_box");
    reveal_strlit("orange_shulker_box");
    reveal_strlit("magenta_shulker_box");
    reveal_strlit("light_blue_shulker_box");
    reveal_strlit("yellow_shulker_box");
    reveal_strlit("lime_shulker_box");
    reveal_strlit("pink_shulker_box");
    reveal_strlit("gray_shulker_box");
    reveal_strlit("light_gray_shulker_box");
    reveal_strlit("cyan_shulker_box");
    reveal_strlit("purple_shulker_box");
    reveal_strlit("blue_shulker_box");
    reveal_strlit("brown_shulker_box");
    reveal_strlit("green_shulker_box");
    reveal_strlit("red_shulker_box");
    reveal_strlit("black_shulker_box");
}

/// For each two names of the one-to-one table of 3 to 5 characters, a
/// position where they differ.
proof fn lemma_direct_names_differ_3_to_5()
    ensures
        "tnt"@[0] != "ice"@[0],
        "dirt"@[0] != "sand"@[0],
        "dirt"@[0] != "fern"@[0],
        "sand"@[0] != "fern"@[0],
        "dirt"@[0] != "fire"@[0],
        "sand"@[0] != "fire"@[0],
        "fern"@[1] != "fire"@[1],
        "dirt"@[0] != "rail"@[0],
        "sand"@[0] != "rail"@[0],
        "fern"@[0] != "rail"@[0],
        "fire"@[0] != "rail"@[0],
        "dirt"@[0] != "snow"@[0],
        "sand"@[1] != "snow"@[1],
        "fern"@[0] != "snow"@[0],
        "fire"@[0] != "snow"@[0],
        "rail"@[0] != "snow"@[0],
        "dirt"@[0] != "clay"@[0],
        "sand"@[0] != "clay"@[0],
        "fern"@[0] != "clay"@[0],
        "fire"@[0] != "clay"@[0],
        "rail"@[0] != "clay"@[0],
        "snow"@[0] != "clay"@[0],
        "dirt"@[0] != "cake"@[0],
        "sand"@[0] != "cake"@[0],
        "fern"@[0] != "cake"@[0],
        "fire"@[0] != "cake"@[0],
        "rail"@[0] != "cake"@[0],
        "snow"@[0] != "cake"@[0],
        "clay"@[1] != "cake"@[1],
        "dirt"@[0] != "vine"@[0],
        "sand"@[0] != "vine"@[0],
        "fern"@[0] != "vine"@[0],
        "fire"@[0] != "vine"@[0],
        "rail"@[0] != "vine"@[0],
        "snow"@[0] != "vine"@[0],
        "clay"@[0] != "vine"@[0],
        "cake"@[0] != "vine"@[0],
        "stone"@[0] != "glass"@[0],
        "stone"@[0] != "torch"@[0],
        "glass"@[0] != "torch"@[0],
        "stone"@[0] != "chest"@[0],
        "glass"@[0] != "chest"@[0],
        "torch"@[0] != "chest"@[0],
        "stone"@[0] != "wheat"@[0],
        "glass"@[0] != "wheat"@[0],
        "torch"@[0] != "wheat"@[0],
        "chest"@[0] != "wheat"@[0],
        "stone"@[0] != "melon"@[0],
        "glass"@[0] != "melon"@[0],
        "torch"@[0] != "melon"@[0],
        "chest"@[0] != "melon"@[0],
        "wheat"@[0] != "melon"@[0],
        "stone"@[0] != "cocoa"@[0],
        "glass"@[0] != "cocoa"@[0],
        "torch"@[0] != "cocoa"@[0],
        "chest"@[1] != "cocoa"@[1],
        "wheat"@[0] != "cocoa"@[0],
        "melon"@[0] != "cocoa"@[0],
        "stone"@[0] != "anvil"@[0],
        "glass"@[0] != "anvil"@[0],
        "torch"@[0] != "anvil"@[0],
        "chest"@[0] != "anvil"@[0],
        "wheat"@[0] != "anvil"@[0],
        "melon"@[0] != "anvil"@[0],
        "cocoa"@[0] != "anvil"@[0],
{
    reveal_strlit("stone");
    reveal_strlit("dirt");
    reveal_strlit("sand");
    reveal_strlit("glass");
    reveal_strlit("fern");
    reveal_strlit("tnt");
    reveal_strlit("torch");
    reveal_strlit("fire");
    reveal_strlit("chest");
    reveal_strlit("wheat");
    reveal_strlit("rail");
    reveal_strlit("snow");
    reveal_strlit("ice");
    reveal_strlit("clay");
    reveal_strlit("cake");
    reveal_strlit("melon");
    reveal_strlit("vine");
    reveal_strlit("cocoa");
    reveal_strlit("anvil");
}

/// For each two names of the one-to-one table of 6 to 7 characters, a
/// position where they differ.
proof fn lemma_direct_names_differ_6_to_7()
    ensures
        "podzol"@[0] != "gravel"@[0],
        "podzol"@[0] != "sponge"@[0],
        "gravel"@[0] != "sponge"@[0],
        "podzol"@[0] != "cobweb"@[0],
        "gravel"@[0] != "cobweb"@[0],
        "sponge"@[0] != "cobweb"@[0],
        "podzol"@[0] != "bricks"@[0],
        "gravel"@[0] != "bricks"@[0],
        "sponge"@[0] != "bricks"@[0],
        "cobweb"@[0] != "bricks"@[0],
        "podzol"@[0] != "ladder"@[0],
        "gravel"@[0] != "ladder"@[0],
        "sponge"@[0] != "ladder"@[0],
        "cobweb"@[0] != "ladder"@[0],
        "bricks"@[0] != "ladder"@[0],
        "podzol"@[0] != "cactus"@[0],
        "gravel"@[0] != "cactus"@[0],
        "sponge"@[0] != "cactus"@[0],
        "cobweb"@[1] != "cactus"@[1],
        "bricks"@[0] != "cactus"@[0],
        "ladder"@[0] != "cactus"@[0],
        "podzol"@[0] != "beacon"@[0],
        "gravel"@[0] != "beacon"@[0],
        "sponge"@[0] != "beacon"@[0],
        "cobweb"@[0] != "beacon"@[0],
        "bricks"@[1] != "beacon"@[1],
        "ladder"@[0] != "beacon"@[0],
        "cactus"@[0] != "beacon"@[0],
        "podzol"@[0] != "hopper"@[0],
        "gravel"@[0] != "hopper"@[0],
        "sponge"@[0] != "hopper"@[0],
        "cobweb"@[0] != "hopper"@[0],
        "bricks"@[0] != "hopper"@[0],
        "ladder"@[0] != "hopper"@[0],
        "cactus"@[0] != "hopper"@[0],
        "beacon"@[0] != "hopper"@[0],
        "podzol"@[1] != "piston"@[1],
        "gravel"@[0] != "piston"@[0],
        "sponge"@[0] != "piston"@[0],
        "cobweb"@[0] != "piston"@[0],
        "bricks"@[0] != "piston"@[0],
        "ladder"@[0] != "piston"@[0],
        "cactus"@[0] != "piston"@[0],
        "beacon"@[0] != "piston"@[0],
        "hopper"@[0] != "piston"@[0],
        "granite"@[0] != "diorite"@[0],
        "granite"@[0] != "bedrock"@[0],
        "diorite"@[0] != "bedrock"@[0],
        "granite"@[0] != "furnace"@[0],
        "diorite"@[0] != "furnace"@[0],
        "bedrock"@[0] != "furnace"@[0],
        "granite"@[0] != "jukebox"@[0],
        "diorite"@[0] != "jukebox"@[0],
        "bedrock"@[0] != "jukebox"@[0],
        "furnace"@[0] != "jukebox"@[0],
        "granite"@[0] != "pumpkin"@[0],
        "diorite"@[0] != "pumpkin"@[0],
        "bedrock"@[0] != "pumpkin"@[0],
        "furnace"@[0] != "pumpkin"@[0],
        "jukebox"@[0] != "pumpkin"@[0],
        "granite"@[0] != "carrots"@[0],
        "diorite"@[0] != "carrots"@[0],
        "bedrock"@[0] != "carrots"@[0],
        "furnace"@[0] != "carrots"@[0],
        "jukebox"@[0] != "carrots"@[0],
        "pumpkin"@[0] != "carrots"@[0],
        "granite"@[0] != "dropper"@[0],
        "diorite"@[1] != "dropper"@[1],
        "bedrock"@[0] != "dropper"@[0],
        "furnace"@[0] != "dropper"@[0],
        "jukebox"@[0] != "dropper"@[0],
        "pumpkin"@[0] != "dropper"@[0],
        "carrots"@[0] != "dropper"@[0],
{
    reveal_strlit("granite");
    reveal_strlit("diorite");
    reveal_strlit("podzol");
    reveal_strlit("bedrock");
    reveal_strlit("gravel");
    reveal_strlit("sponge");
    reveal_strlit("cobweb");
    reveal_strlit("bricks");
    reveal_strlit("furnace");
    reveal_strlit("ladder");
    reveal_strlit("cactus");
    reveal_strlit("jukebox");
    reveal_strlit("pumpkin");
    reveal_strlit("beacon");
    reveal_strlit("carrots");
    reveal_strlit("hopper");
    reveal_strlit("dropper");
    reveal_strlit("piston");
}

/// For each two names of the one-to-one table of 8 characters, a
/// position where they differ.
proof fn lemma_direct_names_differ_8()
    ensures
        "andesite"@[0] != "red_sand"@[0],
        "andesite"@[0] != "gold_ore"@[0],
        "red_sand"@[0] != "gold_ore"@[0],
        "andesite"@[0] != "iron_ore"@[0],
        "red_sand"@[0] != "iron_ore"@[0],
        "gold_ore"@[0] != "iron_ore"@[0],
        "andesite"@[0] != "coal_ore"@[0],
        "red_sand"@[0] != "coal_ore"@[0],
        "gold_ore"@[0] != "coal_ore"@[0],
        "iron_ore"@[0] != "coal_ore"@[0],
        "andesite"@[0] != "obsidian"@[0],
        "red_sand"@[0] != "obsidian"@[0],
        "gold_ore"@[0] != "obsidian"@[0],
        "iron_ore"@[0] != "obsidian"@[0],
        "coal_ore"@[0] != "obsidian"@[0],
        "andesite"@[0] != "farmland"@[0],
        "red_sand"@[0] != "farmland"@[0],
        "gold_ore"@[0] != "farmland"@[0],
        "iron_ore"@[0] != "farmland"@[0],
        "coal_ore"@[0] != "farmland"@[0],
        "obsidian"@[0] != "farmland"@[0],
        "andesite"@[0] != "mycelium"@[0],
        "red_sand"@[0] != "mycelium"@[0],
        "gold_ore"@[0] != "mycelium"@[0],
        "iron_ore"@[0] != "mycelium"@[0],
        "coal_ore"@[0] != "mycelium"@[0],
        "obsidian"@[0] != "mycelium"@[0],
        "farmland"@[0] != "mycelium"@[0],
        "andesite"@[0] != "lily_pad"@[0],
        "red_sand"@[0] != "lily_pad"@[0],
        "gold_ore"@[0] != "lily_pad"@[0],
        "iron_ore"@[0] != "lily_pad"@[0],
        "coal_ore"@[0] != "lily_pad"@[0],
        "obsidian"@[0] != "lily_pad"@[0],
        "farmland"@[0] != "lily_pad"@[0],
        "mycelium"@[0] != "lily_pad"@[0],
        "andesite"@[0] != "cauldron"@[0],
        "red_sand"@[0] != "cauldron"@[0],
        "gold_ore"@[0] != "cauldron"@[0],
        "iron_ore"@[0] != "cauldron"@[0],
        "coal_ore"@[1] != "cauldron"@[1],
        "obsidian"@[0] != "cauldron"@[0],
        "farmland"@[0] != "cauldron"@[0],
        "mycelium"@[0] != "cauldron"@[0],
        "lily_pad"@[0] != "cauldron"@[0],
        "andesite"@[0] != "tripwire"@[0],
        "red_sand"@[0] != "tripwire"@[0],
        "gold_ore"@[0] != "tripwire"@[0],
        "iron_ore"@[0] != "tripwire"@[0],
        "coal_ore"@[0] != "tripwire"@[0],
        "obsidian"@[0] != "tripwire"@[0],
        "farmland"@[0] != "tripwire"@[0],
        "mycelium"@[0] != "tripwire"@[0],
        "lily_pad"@[0] != "tripwire"@[0],
        "cauldron"@[0] != "tripwire"@[0],
        "andesite"@[0] != "potatoes"@[0],
        "red_sand"@[0] != "potatoes"@[0],
        "gold_ore"@[0] != "potatoes"@[0],
        "iron_ore"@[0] != "potatoes"@[0],
        "coal_ore"@[0] != "potatoes"@[0],
        "obsidian"@[0] != "potatoes"@[0],
        "farmland"@[0] != "potatoes"@[0],
        "mycelium"@[0] != "potatoes"@[0],
        "lily_pad"@[0] != "potatoes"@[0],
        "cauldron"@[0] != "potatoes"@[0],
        "tripwire"@[0] != "potatoes"@[0],
        "andesite"@[0] != "observer"@[0],
        "red_sand"@[0] != "observer"@[0],
        "gold_ore"@[0] != "observer"@[0],
        "iron_ore"@[0] != "observer"@[0],
        "coal_ore"@[0] != "observer"@[0],
        "obsidian"@[3] != "observer"@[3],
        "farmland"@[0] != "observer"@[0],
        "mycelium"@[0] != "observer"@[0],
        "lily_pad"@[0] != "observer"@[0],
        "cauldron"@[0] != "observer"@[0],
        "tripwire"@[0] != "observer"@[0],
        "potatoes"@[0] != "observer"@[0],
{
    reveal_strlit("andesite");
    reveal_strlit("red_sand");
    reveal_strlit("gold_ore");
    reveal_strlit("iron_ore");
    reveal_strlit("coal_ore");
    reveal_strlit("obsidian");
    reveal_strlit("farmland");
    reveal_strlit("mycelium");
    reveal_strlit("lily_pad");
    reveal_strlit("cauldron");
    reveal_strlit("tripwire");
    reveal_strlit("potatoes");
    reveal_strlit("observer");
}

/// For each two names of the one-to-one table of 9 to 10 characters, a
/// position where they differ.
proof fn lemma_direct_names_differ_9_to_10()
    ensures
        "lapis_ore"@[0] != "sandstone"@[0],
        "lapis_ore"@[0] != "dead_bush"@[0],
        "sandstone"@[0] != "dead_bush"@[0],
        "lapis_ore"@[0] != "dandelion"@[0],
        "sandstone"@[0] != "dandelion"@[0],
        "dead_bush"@[1] != "dandelion"@[1],
        "lapis_ore"@[0] != "bookshelf"@[0],
        "sandstone"@[0] != "bookshelf"@[0],
        "dead_bush"@[0] != "bookshelf"@[0],
        "dandelion"@[0] != "bookshelf"@[0],
        "lapis_ore"@[0] != "soul_sand"@[0],
        "sandstone"@[1] != "soul_sand"@[1],
        "dead_bush"@[0] != "soul_sand"@[0],
        "dandelion"@[0] != "soul_sand"@[0],
        "bookshelf"@[0] != "soul_sand"@[0],
        "lapis_ore"@[0] != "glowstone"@[0],
        "sandstone"@[0] != "glowstone"@[0],
        "dead_bush"@[0] != "glowstone"@[0],
        "dandelion"@[0] != "glowstone"@[0],
        "bookshelf"@[0] != "glowstone"@[0],
        "soul_sand"@[0] != "glowstone"@[0],
        "lapis_ore"@[0] != "end_stone"@[0],
        "sandstone"@[0] != "end_stone"@[0],
        "dead_bush"@[0] != "end_stone"@[0],
        "dandelion"@[0] != "end_stone"@[0],
        "bookshelf"@[0] != "end_stone"@[0],
        "soul_sand"@[0] != "end_stone"@[0],
        "glowstone"@[0] != "end_stone"@[0],
        "lapis_ore"@[0] != "hay_block"@[0],
        "sandstone"@[0] != "hay_block"@[0],
        "dead_bush"@[0] != "hay_block"@[0],
        "dandelion"@[0] != "hay_block"@[0],
        "bookshelf"@[0] != "hay_block"@[0],
        "soul_sand"@[0] != "hay_block"@[0],
        "glowstone"@[0] != "hay_block"@[0],
        "end_stone"@[0] != "hay_block"@[0],
        "lapis_ore"@[0] != "dispenser"@[0],
        "sandstone"@[0] != "dispenser"@[0],
        "dead_bush"@[1] != "dispenser"@[1],
        "dandelion"@[1] != "dispenser"@[1],
        "bookshelf"@[0] != "dispenser"@[0],
        "soul_sand"@[0] != "dispenser"@[0],
        "glowstone"@[0] != "dispenser"@[0],
        "end_stone"@[0] != "dispenser"@[0],
        "hay_block"@[0] != "dispenser"@[0],
        "wet_sponge"@[0] != "note_block"@[0],
        "wet_sponge"@[0] != "gold_block"@[0],
        "note_block"@[0] != "gold_block"@[0],
        "wet_sponge"@[0] != "iron_block"@[0],
        "note_block"@[0] != "iron_block"@[0],
        "gold_block"@[0] != "iron_block"@[0],
        "wet_sponge"@[0] != "snow_block"@[0],
        "note_block"@[0] != "snow_block"@[0],
        "gold_block"@[0] != "snow_block"@[0],
        "iron_block"@[0] != "snow_block"@[0],
        "wet_sponge"@[0] != "sugar_cane"@[0],
        "note_block"@[0] != "sugar_cane"@[0],
        "gold_block"@[0] != "sugar_cane"@[0],
        "iron_block"@[0] != "sugar_cane"@[0],
        "snow_block"@[1] != "sugar_cane"@[1],
        "wet_sponge"@[0] != "netherrack"@[0],
        "note_block"@[1] != "netherrack"@[1],
        "gold_block"@[0] != "netherrack"@[0],
        "iron_block"@[0] != "netherrack"@[0],
        "snow_block"@[0] != "netherrack"@[0],
        "sugar_cane"@[0] != "netherrack"@[0],
        "wet_sponge"@[0] != "end_portal"@[0],
        "note_block"@[0] != "end_portal"@[0],
        "gold_block"@[0] != "end_portal"@[0],
        "iron_block"@[0] != "end_portal"@[0],
        "snow_block"@[0] != "end_portal"@[0],
        "sugar_cane"@[0] != "end_portal"@[0],
        "netherrack"@[0] != "end_portal"@[0],
        "wet_sponge"@[0] != "dragon_egg"@[0],
        "note_block"@[0] != "dragon_egg"@[0],
        "gold_block"@[0] != "dragon_egg"@[0],
        "iron_block"@[0] != "dragon_egg"@[0],
        "snow_block"@[0] != "dragon_egg"@[0],
        "sugar_cane"@[0] != "dragon_egg"@[0],
        "netherrack"@[0] != "dragon_egg"@[0],
        "end_portal"@[0] != "dragon_egg"@[0],
        "wet_sponge"@[0] != "flower_pot"@[0],
        "note_block"@[0] != "flower_pot"@[0],
        "gold_block"@[0] != "flower_pot"@[0],
        "iron_block"@[0] != "flower_pot"@[0],
        "snow_block"@[0] != "flower_pot"@[0],
        "sugar_cane"@[0] != "flower_pot"@[0],
        "netherrack"@[0] != "flower_pot"@[0],
        "end_portal"@[0] != "flower_pot"@[0],
        "dragon_egg"@[0] != "flower_pot"@[0],
        "wet_sponge"@[0] != "bone_block"@[0],
        "note_block"@[0] != "bone_block"@[0],
        "gold_block"@[0] != "bone_block"@[0],
        "iron_block"@[0] != "bone_block"@[0],
        "snow_block"@[0] != "bone_block"@[0],
        "sugar_cane"@[0] != "bone_block"@[0],
        "netherrack"@[0] != "bone_block"@[0],
        "end_portal"@[0] != "bone_block"@[0],
        "dragon_egg"@[0] != "bone_block"@[0],
        "flower_pot"@[0] != "bone_block"@[0],
{
    reveal_strlit("wet_sponge");
    reveal_strlit("lapis_ore");
    reveal_strlit("sandstone");
    reveal_strlit("note_block");
    reveal_strlit("dead_bush");
    reveal_strlit("dandelion");
    reveal_strlit("gold_block");
    reveal_strlit("iron_block");
    reveal_strlit("bookshelf");
    reveal_strlit("snow_block");
    reveal_strlit("sugar_cane");
    reveal_strlit("netherrack");
    reveal_strlit("soul_sand");
    reveal_strlit("glowstone");
    reveal_strlit("end_portal");
    reveal_strlit("end_stone");
    reveal_strlit("dragon_egg");
    reveal_strlit("flower_pot");
    reveal_strlit("hay_block");
    reveal_strlit("dispenser");
    reveal_strlit("bone_block");
}

/// For each two names of the one-to-one table of 11 characters, a
/// position where they differ.
proof fn lemma_direct_names_differ_11()
    ensures
        "grass_block"@[0] != "coarse_dirt"@[0],
        "grass_block"@[0] != "cobblestone"@[0],
        "coarse_dirt"@[2] != "cobblestone"@[2],
        "grass_block"@[0] != "lapis_block"@[0],
        "coarse_dirt"@[0] != "lapis_block"@[0],
        "cobblestone"@[0] != "lapis_block"@[0],
        "grass_block"@[0] != "short_grass"@[0],
        "coarse_dirt"@[0] != "short_grass"@[0],
        "cobblestone"@[0] != "short_grass"@[0],
        "lapis_block"@[0] != "short_grass"@[0],
        "grass_block"@[0] != "mob_spawner"@[0],
        "coarse_dirt"@[0] != "mob_spawner"@[0],
        "cobblestone"@[0] != "mob_spawner"@[0],
        "lapis_block"@[0] != "mob_spawner"@[0],
        "short_grass"@[0] != "mob_spawner"@[0],
        "grass_block"@[0] != "diamond_ore"@[0],
        "coarse_dirt"@[0] != "diamond_ore"@[0],
        "cobblestone"@[0] != "diamond_ore"@[0],
        "lapis_block"@[0] != "diamond_ore"@[0],
        "short_grass"@[0] != "diamond_ore"@[0],
        "mob_spawner"@[0] != "diamond_ore"@[0],
        "grass_block"@[0] != "emerald_ore"@[0],
        "coarse_dirt"@[0] != "emerald_ore"@[0],
        "cobblestone"@[0] != "emerald_ore"@[0],
        "lapis_block"@[0] != "emerald_ore"@[0],
        "short_grass"@[0] != "emerald_ore"@[0],
        "mob_spawner"@[0] != "emerald_ore"@[0],
        "diamond_ore"@[0] != "emerald_ore"@[0],
        "grass_block"@[0] != "ender_chest"@[0],
        "coarse_dirt"@[0] != "ender_chest"@[0],
        "cobblestone"@[0] != "ender_chest"@[0],
        "lapis_block"@[0] != "ender_chest"@[0],
        "short_grass"@[0] != "ender_chest"@[0],
        "mob_spawner"@[0] != "ender_chest"@[0],
        "diamond_ore"@[0] != "ender_chest"@[0],
        "emerald_ore"@[1] != "ender_chest"@[1],
        "grass_block"@[0] != "slime_block"@[0],
        "coarse_dirt"@[0] != "slime_block"@[0],
        "cobblestone"@[0] != "slime_block"@[0],
        "lapis_block"@[0] != "slime_block"@[0],
        "short_grass"@[1] != "slime_block"@[1],
        "mob_spawner"@[0] != "slime_block"@[0],
        "diamond_ore"@[0] != "slime_block"@[0],
        "emerald_ore"@[0] != "slime_block"@[0],
        "ender_chest"@[0] != "slime_block"@[0],
        "grass_block"@[0] != "sea_lantern"@[0],
        "coarse_dirt"@[0] != "sea_lantern"@[0],
        "cobblestone"@[0] != "sea_lantern"@[0],
        "lapis_block"@[0] != "sea_lantern"@[0],
        "short_grass"@[1] != "sea_lantern"@[1],
        "mob_spawner"@[0] != "sea_lantern"@[0],
        "diamond_ore"@[0] != "sea_lantern"@[0],
        "emerald_ore"@[0] != "sea_lantern"@[0],
        "ender_chest"@[0] != "sea_lantern"@[0],
        "slime_block"@[1] != "sea_lantern"@[1],
        "grass_block"@[0] != "piston_head"@[0],
        "coarse_dirt"@[0] != "piston_head"@[0],
        "cobblestone"@[0] != "piston_head"@[0],
        "lapis_block"@[0] != "piston_head"@[0],
        "short_grass"@[0] != "piston_head"@[0],
        "mob_spawner"@[0] != "piston_head"@[0],
        "diamond_ore"@[0] != "piston_head"@[0],
        "emerald_ore"@[0] != "piston_head"@[0],
        "ender_chest"@[0] != "piston_head"@[0],
        "slime_block"@[0] != "piston_head"@[0],
        "sea_lantern"@[0] != "piston_head"@[0],
        "grass_block"@[0] != "shulker_box"@[0],
        "coarse_dirt"@[0] != "shulker_box"@[0],
        "cobblestone"@[0] != "shulker_box"@[0],
        "lapis_block"@[0] != "shulker_box"@[0],
        "short_grass"@[2] != "shulker_box"@[2],
        "mob_spawner"@[0] != "shulker_box"@[0],
        "diamond_ore"@[0] != "shulker_box"@[0],
        "emerald_ore"@[0] != "shulker_box"@[0],
        "ender_chest"@[0] != "shulker_box"@[0],
        "slime_block"@[1] != "shulker_box"@[1],
        "sea_lantern"@[1] != "shulker_box"@[1],
        "piston_head"@[0] != "shulker_box"@[0],
{
    reveal_strlit("grass_block");
    reveal_strlit("coarse_dirt");
    reveal_strlit("cobblestone");
    reveal_strlit("lapis_block");
    reveal_strlit("short_grass");
    reveal_strlit("mob_spawner");
    reveal_strlit("diamond_ore");
    reveal_strlit("emerald_ore");
    reveal_strlit("ender_chest");
    reveal_strlit("slime_block");
    reveal_strlit("sea_lantern");
    reveal_strlit("piston_head");
    reveal_strlit("shulker_box");
}

/// For each two names of the one-to-one table of 13 to 16 characters, a
/// position where they differ.
proof fn lemma_direct_names_differ_13_to_16()
    ensures
        "trapped_chest"@[0] != "diamond_block"@[0],
        "trapped_chest"@[0] != "nether_bricks"@[0],
        "diamond_block"@[0] != "nether_bricks"@[0],
        "trapped_chest"@[0] != "brewing_stand"@[0],
        "diamond_block"@[0] != "brewing_stand"@[0],
        "nether_bricks"@[0] != "brewing_stand"@[0],
        "trapped_chest"@[2] != "tripwire_hook"@[2],
        "diamond_block"@[0] != "tripwire_hook"@[0],
        "nether_bricks"@[0] != "tripwire_hook"@[0],
        "brewing_stand"@[0] != "tripwire_hook"@[0],
        "trapped_chest"@[0] != "emerald_block"@[0],
        "diamond_block"@[0] != "emerald_block"@[0],
        "nether_bricks"@[0] != "emerald_block"@[0],
        "brewing_stand"@[0] != "emerald_block"@[0],
        "tripwire_hook"@[0] != "emerald_block"@[0],
        "trapped_chest"@[0] != "command_block"@[0],
        "diamond_block"@[0] != "command_block"@[0],
        "nether_bricks"@[0] != "command_block"@[0],
        "brewing_stand"@[0] != "command_block"@[0],
        "tripwire_hook"@[0] != "command_block"@[0],
        "emerald_block"@[0] != "command_block"@[0],
        "trapped_chest"@[0] != "iron_trapdoor"@[0],
        "diamond_block"@[0] != "iron_trapdoor"@[0],
        "nether_bricks"@[0] != "iron_trapdoor"@[0],
        "brewing_stand"@[0] != "iron_trapdoor"@[0],
        "tripwire_hook"@[0] != "iron_trapdoor"@[0],
        "emerald_block"@[0] != "iron_trapdoor"@[0],
        "command_block"@[0] != "iron_trapdoor"@[0],
        "trapped_chest"@[0] != "sticky_piston"@[0],
        "diamond_block"@[0] != "sticky_piston"@[0],
        "nether_bricks"@[0] != "sticky_piston"@[0],
        "brewing_stand"@[0] != "sticky_piston"@[0],
        "tripwire_hook"@[0] != "sticky_piston"@[0],
        "emerald_block"@[0] != "sticky_piston"@[0],
        "command_block"@[0] != "sticky_piston"@[0],
        "iron_trapdoor"@[0] != "sticky_piston"@[0],
        "trapped_chest"@[0] != "redstone_lamp"@[0],
        "diamond_block"@[0] != "redstone_lamp"@[0],
        "nether_bricks"@[0] != "redstone_lamp"@[0],
        "brewing_stand"@[0] != "redstone_lamp"@[0],
        "tripwire_hook"@[0] != "redstone_lamp"@[0],
        "emerald_block"@[0] != "redstone_lamp"@[0],
        "command_block"@[0] != "redstone_lamp"@[0],
        "iron_trapdoor"@[0] != "redstone_lamp"@[0],
        "sticky_piston"@[0] != "redstone_lamp"@[0],
        "brown_mushroom"@[0] != "crafting_table"@[0],
        "brown_mushroom"@[0] != "jack_o_lantern"@[0],
        "crafting_table"@[0] != "jack_o_lantern"@[0],
        "brown_mushroom"@[0] != "redstone_block"@[0],
        "crafting_table"@[0] != "redstone_block"@[0],
        "jack_o_lantern"@[0] != "redstone_block"@[0],
        "polished_granite"@[9] != "polished_diorite"@[9],
        "polished_granite"@[0] != "smooth_sandstone"@[0],
        "polished_diorite"@[0] != "smooth_sandstone"@[0],
        "polished_granite"@[0] != "enchanting_table"@[0],
        "polished_diorite"@[0] != "enchanting_table"@[0],
        "smooth_sandstone"@[0] != "enchanting_table"@[0],
        "polished_granite"@[0] != "end_portal_frame"@[0],
        "polished_diorite"@[0] != "end_portal_frame"@[0],
        "smooth_sandstone"@[0] != "end_portal_frame"@[0],
        "enchanting_table"@[2] != "end_portal_frame"@[2],
        "polished_granite"@[0] != "lime_shulker_box"@[0],
        "polished_diorite"@[0] != "lime_shulker_box"@[0],
        "smooth_sandstone"@[0] != "lime_shulker_box"@[0],
        "enchanting_table"@[0] != "lime_shulker_box"@[0],
        "end_portal_frame"@[0] != "lime_shulker_box"@[0],
        "polished_granite"@[1] != "pink_shulker_box"@[1],
        "polished_diorite"@[1] != "pink_shulker_box"@[1],
        "smooth_sandstone"@[0] != "pink_shulker_box"@[0],
        "enchanting_table"@[0] != "pink_shulker_box"@[0],
        "end_portal_frame"@[0] != "pink_shulker_box"@[0],
        "lime_shulker_box"@[0] != "pink_shulker_box"@[0],
        "polished_granite"@[0] != "gray_shulker_box"@[0],
        "polished_diorite"@[0] != "gray_shulker_box"@[0],
        "smooth_sandstone"@[0] != "gray_shulker_box"@[0],
        "enchanting_table"@[0] != "gray_shulker_box"@[0],
        "end_portal_frame"@[0] != "gray_shulker_box"@[0],
        "lime_shulker_box"@[0] != "gray_shulker_box"@[0],
        "pink_shulker_box"@[0] != "gray_shulker_box"@[0],
        "polished_granite"@[0] != "cyan_shulker_box"@[0],
        "polished_diorite"@[0] != "cyan_shulker_box"@[0],
        "smooth_sandstone"@[0] != "cyan_shulker_box"@[0],
        "enchanting_table"@[0] != "cyan_shulker_box"@[0],
        "end_portal_frame"@[0] != "cyan_shulker_box"@[0],
        "lime_shulker_box"@[0] != "cyan_shulker_box"@[0],
        "pink_shulker_box"@[0] != "cyan_shulker_box"@[0],
        "gray_shulker_box"@[0] != "cyan_shulker_box"@[0],
        "polished_granite"@[0] != "blue_shulker_box"@[0],
        "polished_diorite"@[0] != "blue_shulker_box"@[0],
        "smooth_sandstone"@[0] != "blue_shulker_box"@[0],
        "enchanting_table"@[0] != "blue_shulker_box"@[0],
        "end_portal_frame"@[0] != "blue_shulker_box"@[0],
        "lime_shulker_box"@[0] != "blue_shulker_box"@[0],
        "pink_shulker_box"@[0] != "blue_shulker_box"@[0],
        "gray_shulker_box"@[0] != "blue_shulker_box"@[0],
        "cyan_shulker_box"@[0] != "blue_shulker_box"@[0],
{
    reveal_strlit("polished_granite");
    reveal_strlit("polished_diorite");
    reveal_strlit("smooth_sandstone");
    reveal_strlit("brown_mushroom");
    reveal_strlit("trapped_chest");
    reveal_strlit("diamond_block");
    reveal_strlit("crafting_table");
    reveal_strlit("jack_o_lantern");
    reveal_strlit("nether_bricks");
    reveal_strlit("enchanting_table");
    reveal_strlit("brewing_stand");
    reveal_strlit("end_portal_frame");
    reveal_strlit("tripwire_hook");
    reveal_strlit("emerald_block");
    reveal_strlit("command_block");
    reveal_strlit("redstone_block");
    reveal_strlit("iron_trapdoor");
    reveal_strlit("sticky_piston");
    reveal_strlit("redstone_lamp");
    reveal_strlit("lime_shulker_box");
    reveal_strlit("pink_shulker_box");
    reveal_strlit("gray_shulker_box");
    reveal_strlit("cyan_shulker_box");
    reveal_strlit("blue_shulker_box");
}

/// For each two names of the one-to-one table of 17 to 22 characters, a
/// position where they differ.
proof fn lemma_direct_names_differ_17_to_22()
    ensures
        "polished_andesite"@[0] != "mossy_cobblestone"@[0],
        "polished_andesite"@[0] != "daylight_detector"@[0],
        "mossy_cobblestone"@[0] != "daylight_detector"@[0],
        "polished_andesite"@[0] != "nether_quartz_ore"@[0],
        "mossy_cobblestone"@[0] != "nether_quartz_ore"@[0],
        "daylight_detector"@[0] != "nether_quartz_ore"@[0],
        "polished_andesite"@[0] != "red_nether_bricks"@[0],
        "mossy_cobblestone"@[0] != "red_nether_bricks"@[0],
        "daylight_detector"@[0] != "red_nether_bricks"@[0],
        "nether_quartz_ore"@[0] != "red_nether_bricks"@[0],
        "polished_andesite"@[0] != "white_shulker_box"@[0],
        "mossy_cobblestone"@[0] != "white_shulker_box"@[0],
        "daylight_detector"@[0] != "white_shulker_box"@[0],
        "nether_quartz_ore"@[0] != "white_shulker_box"@[0],
        "red_nether_bricks"@[0] != "white_shulker_box"@[0],
        "polished_andesite"@[0] != "brown_shulker_box"@[0],
        "mossy_cobblestone"@[0] != "brown_shulker_box"@[0],
        "daylight_detector"@[0] != "brown_shulker_box"@[0],
        "nether_quartz_ore"@[0] != "brown_shulker_box"@[0],
        "red_nether_bricks"@[0] != "brown_shulker_box"@[0],
        "white_shulker_box"@[0] != "brown_shulker_box"@[0],
        "polished_andesite"@[0] != "green_shulker_box"@[0],
        "mossy_cobblestone"@[0] != "green_shulker_box"@[0],
        "daylight_detector"@[0] != "green_shulker_box"@[0],
        "nether_quartz_ore"@[0] != "green_shulker_box"@[0],
        "red_nether_bricks"@[0] != "green_shulker_box"@[0],
        "white_shulker_box"@[0] != "green_shulker_box"@[0],
        "brown_shulker_box"@[0] != "green_shulker_box"@[0],
        "polished_andesite"@[0] != "black_shulker_box"@[0],
        "mossy_cobblestone"@[0] != "black_shulker_box"@[0],
        "daylight_detector"@[0] != "black_shulker_box"@[0],
        "nether_quartz_ore"@[0] != "black_shulker_box"@[0],
        "red_nether_bricks"@[0] != "black_shulker_box"@[0],
        "white_shulker_box"@[0] != "black_shulker_box"@[0],
        "brown_shulker_box"@[1] != "black_shulker_box"@[1],
        "green_shulker_box"@[0] != "black_shulker_box"@[0],
        "chiseled_sandstone"@[0] != "nether_brick_fence"@[0],
        "chiseled_sandstone"@[0] != "orange_shulker_box"@[0],
        "nether_brick_fence"@[0] != "orange_shulker_box"@[0],
        "chiseled_sandstone"@[0] != "yellow_shulker_box"@[0],
        "nether_brick_fence"@[0] != "yellow_shulker_box"@[0],
        "orange_shulker_box"@[0] != "yellow_shulker_box"@[0],
        "chiseled_sandstone"@[0] != "purple_shulker_box"@[0],
        "nether_brick_fence"@[0] != "purple_shulker_box"@[0],
        "orange_shulker_box"@[0] != "purple_shulker_box"@[0],
        "yellow_shulker_box"@[0] != "purple_shulker_box"@[0],
        "light_blue_shulker_box"@[6] != "light_gray_shulker_box"@[6],
{
    reveal_strlit("polished_andesite");
    reveal_strlit("chiseled_sandstone");
    reveal_strlit("mossy_cobblestone");
    reveal_strlit("nether_brick_fence");
    reveal_strlit("daylight_detector");
    reveal_strlit("nether_quartz_ore");
    reveal_strlit("red_nether_bricks");
    reveal_strlit("white_shulker_box");
    reveal_strlit("orange_shulker_box");
    reveal_strlit("light_blue_shulker_box");
    reveal_strlit("yellow_shulker_box");
    reveal_strlit("light_gray_shulker_box");
    reveal_strlit("purple_shulker_box");
    reveal_strlit("brown_shulker_box");
    reveal_strlit("green_shulker_box");
    reveal_strlit("black_shulker_box");
}

/// The blocks that map one-to-one: each modern block name of the table maps to the
/// legacy `(id, data)` listed for it, so that, for example, dirt is `(3, 0)`, coarse
/// dirt `(3, 1)` and podzol `(3, 2)`.
#[verifier::rlimit(100)]
pub proof fn lemma_direct_table()
    ensures
        spec_modern_direct("stone"@) == Some((1u8, 0u8)),
        spec_modern_direct("granite"@) == Some((1u8, 1u8)),
        spec_modern_direct("polished_granite"@) == Some((1u8, 2u8)),
        spec_modern_direct("diorite"@) == Some((1u8, 3u8)),
        spec_modern_direct("polished_diorite"@) == Some((1u8, 4u8)),
        spec_modern_direct("andesite"@) == Some((1u8, 5u8)),
        spec_modern_direct("polished_andesite"@) == Some((1u8, 6u8)),
        spec_modern_direct("grass_block"@) == Some((2u8, 0u8)),
        spec_modern_direct("dirt"@) == Some((3u8, 0u8)),
        spec_modern_direct("coarse_dirt"@) == Some((3u8, 1u8)),
        spec_modern_direct("podzol"@) == Some((3u8, 2u8)),
        spec_modern_direct("cobblestone"@) == Some((4u8, 0u8)),
        spec_modern_direct("bedrock"@) == Some((7u8, 0u8)),
        spec_modern_direct("sand"@) == Some((12u8, 0u8)),
        spec_modern_direct("red_sand"@) == Some((12u8, 1u8)),
        spec_modern_direct("gravel"@) == Some((13u8, 0u8)),
        spec_modern_direct("gold_ore"@) == Some((14u8, 0u8)),
        spec_modern_direct("iron_ore"@) == Some((15u8, 0u8)),
        spec_modern_direct("coal_ore"@) == Some((16u8, 0u8)),
        spec_modern_direct("sponge"@) == Some((19u8, 0u8)),
        spec_modern_direct("wet_sponge"@) == Some((19u8, 1u8)),
        spec_modern_direct("glass"@) == Some((20u8, 0u8)),
        spec_modern_direct("lapis_ore"@) == Some((21u8, 0u8)),
        spec_modern_direct("lapis_block"@) == Some((22u8, 0u8)),
        spec_modern_direct("sandstone"@) == Some((24u8, 0u8)),
        spec_modern_direct("chiseled_sandstone"@) == Some((24u8, 1u8)),
        spec_modern_direct("smooth_sandstone"@) == Some((24u8, 2u8)),
        spec_modern_direct("note_block"@) == Some((25u8, 0u8)),
        spec_modern_direct("cobweb"@) == Some((30u8, 0u8)),
        spec_modern_direct("short_grass"@) == Some((31u8, 0u8)),
        spec_modern_direct("fern"@) == Some((31u8, 1u8)),
        spec_modern_direct("dead_bush"@) == Some((32u8, 0u8)),
        spec_modern_direct("dandelion"@) == Some((37u8, 0u8)),
        spec_modern_direct("brown_mushroom"@) == Some((39u8, 0u8)),
        spec_modern_direct("red_mushroom"@) == Some((40u8, 0u8)),
        spec_modern_direct("gold_block"@) == Some((41u8, 0u8)),
        spec_modern_direct("iron_block"@) == Some((42u8, 0u8)),
        spec_modern_direct("bricks"@) == Some((45u8, 0u8)),
        spec_modern_direct("tnt"@) == Some((46u8, 0u8)),
        spec_modern_direct("bookshelf"@) == Some((47u8, 0u8)),
        spec_modern_direct("mossy_cobblestone"@) == Some((48u8, 0u8)),
        spec_modern_direct("obsidian"@) == Some((49u8, 0u8)),
        spec_modern_direct("torch"@) == Some((50u8, 0u8)),
        spec_modern_direct("fire"@) == Some((51u8, 0u8)),
        spec_modern_direct("mob_spawner"@) == Some((52u8, 0u8)),
        spec_modern_direct("chest"@) == Some((54u8, 0u8)),
        spec_modern_direct("trapped_chest"@) == Some((146u8, 0u8)),
        spec_modern_direct("diamond_ore"@) == Some((56u8, 0u8)),
        spec_modern_direct("diamond_block"@) == Some((57u8, 0u8)),
        spec_modern_direct("crafting_table"@) == Some((58u8, 0u8)),
        spec_modern_direct("wheat"@) == Some((59u8, 0u8)),
        spec_modern_direct("farmland"@) == Some((60u8, 0u8)),
        spec_modern_direct("furnace"@) == Some((61u8, 0u8)),
        spec_modern_direct("ladder"@) == Some((65u8, 0u8)),
        spec_modern_direct("rail"@) == Some((66u8, 0u8)),
        spec_modern_direct("snow"@) == Some((78u8, 0u8)),
        spec_modern_direct("ice"@) == Some((79u8, 0u8)),
        spec_modern_direct("snow_block"@) == Some((80u8, 0u8)),
        spec_modern_direct("cactus"@) == Some((81u8, 0u8)),
        spec_modern_direct("clay"@) == Some((82u8, 0u8)),
        spec_modern_direct("sugar_cane"@) == Some((83u8, 0u8)),
        spec_modern_direct("jukebox"@) == Some((84u8, 0u8)),
        spec_modern_direct("pumpkin"@) == Some((86u8, 0u8)),
        spec_modern_direct("netherrack"@) == Some((87u8, 0u8)),
        spec_modern_direct("soul_sand"@) == Some((88u8, 0u8)),
        spec_modern_direct("glowstone"@) == Some((89u8, 0u8)),
        spec_modern_direct("jack_o_lantern"@) == Some((91u8, 0u8)),
        spec_modern_direct("cake"@) == Some((92u8, 0u8)),
        spec_modern_direct("melon"@) == Some((103u8, 0u8)),
        spec_modern_direct("vine"@) == Some((106u8, 0u8)),
        spec_modern_direct("mycelium"@) == Some((110u8, 0u8)),
        spec_modern_direct("lily_pad"@) == Some((111u8, 0u8)),
        spec_modern_direct("nether_bricks"@) == Some((112u8, 0u8)),
        spec_modern_direct("nether_brick_fence"@) == Some((113u8, 0u8)),
        spec_modern_direct("enchanting_table"@) == Some((116u8, 0u8)),
        spec_modern_direct("brewing_stand"@) == Some((117u8, 0u8)),
        spec_modern_direct("cauldron"@) == Some((118u8, 0u8)),
        spec_modern_direct("end_portal"@) == Some((119u8, 0u8)),
        spec_modern_direct("end_portal_frame"@) == Some((120u8, 0u8)),
        spec_modern_direct("end_stone"@) == Some((121u8, 0u8)),
        spec_modern_direct("dragon_egg"@) == Some((122u8, 0u8)),
        spec_modern_direct("cocoa"@) == Some((127u8, 0u8)),
        spec_modern_direct("emerald_ore"@) == Some((129u8, 0u8)),
        spec_modern_direct("ender_chest"@) == Some((130u8, 0u8)),
        spec_modern_direct("tripwire_hook"@) == Some((131u8, 0u8)),
        spec_modern_direct("tripwire"@) == Some((132u8, 0u8)),
        spec_modern_direct("emerald_block"@) == Some((133u8, 0u8)),
        spec_modern_direct("command_block"@) == Some((137u8, 0u8)),
        spec_modern_direct("beacon"@) == Some((138u8, 0u8)),
        spec_modern_direct("flower_pot"@) == Some((140u8, 0u8)),
        spec_modern_direct("carrots"@) == Some((141u8, 0u8)),
        spec_modern_direct("potatoes"@) == Some((142u8, 0u8)),
        spec_modern_direct("anvil"@) == Some((145u8, 0u8)),
        spec_modern_direct("daylight_detector"@) == Some((151u8, 0u8)),
        spec_modern_direct("redstone_block"@) == Some((152u8, 0u8)),
        spec_modern_direct("nether_quartz_ore"@) == Some((153u8, 0u8)),
        spec_modern_direct("hopper"@) == Some((154u8, 0u8)),
        spec_modern_direct("slime_block"@) == Some((165u8, 0u8)),
        spec_modern_direct("iron_trapdoor"@) == Some((167u8, 0u8)),
        spec_modern_direct("sea_lantern"@) == Some((169u8, 0u8)),
        spec_modern_direct("hay_block"@) == Some((170u8, 0u8)),
        spec_modern_direct("dispenser"@) == Some((23u8, 0u8)),
        spec_modern_direct("dropper"@) == Some((158u8, 0u8)),
        spec_modern_direct("sticky_piston"@) == Some((29u8, 0u8)),
        spec_modern_direct("piston"@) == Some((33u8, 0u8)),
        spec_modern_direct("piston_head"@) == Some((34u8, 0u8)),
        spec_modern_direct("redstone_lamp"@) == Some((123u8, 0u8)),
        spec_modern_direct("red_nether_bricks"@) == Some((112u8, 0u8)),
        spec_modern_direct("bone_block"@) == Some((1u8, 0u8)),
        spec_modern_direct("observer"@) == Some((1u8, 0u8)),
        spec_modern_direct("shulker_box"@) == Some((35u8, 0u8)),
        spec_modern_direct("white_shulker_box"@) == Some((35u8, 0u8)),
        spec_modern_direct("orange_shulker_box"@) == Some((35u8, 1u8)),
        spec_modern_direct("magenta_shulker_box"@) == Some((35u8, 2u8)),
        spec_modern_direct("light_blue_shulker_box"@) == Some((35u8, 3u8)),
        spec_modern_direct("yellow_shulker_box"@) == Some((35u8, 4u8)),
        spec_modern_direct("lime_shulker_box"@) == Some((35u8, 5u8)),
        spec_modern_direct("pink_shulker_box"@) == Some((35u8, 6u8)),
        spec_modern_direct("gray_shulker_box"@) == Some((35u8, 7u8)),
        spec_modern_direct("light_gray_shulker_box"@) == Some((35u8, 8u8)),
        spec_modern_direct("cyan_shulker_box"@) == Some((35u8, 9u8)),
        spec_modern_direct("purple_shulker_box"@) == Some((35u8, 10u8)),
        spec_modern_direct("blue_shulker_box"@) == Some((35u8, 11u8)),
        spec_modern_direct("brown_shulker_box"@) == Some((35u8, 12u8)),
        spec_modern_direct("green_shulker_box"@) == Some((35u8, 13u8)),
        spec_modern_direct("red_shulker_box"@) == Some((35u8, 14u8)),
        spec_modern_direct("black_shulker_box"@) == Some((35u8, 15u8)),
{
    lemma_direct_name_lengths();
    lemma_direct_names_differ_3_to_5();
    lemma_direct_names_differ_6_to_7();
    lemma_direct_names_differ_8();
    lemma_direct_names_differ_9_to_10();
    lemma_direct_names_differ_11();
    lemma_direct_names_differ_13_to_16();
    lemma_direct_names_differ_17_to_22();
}

/// Looks up a modern block name among the blocks that map one-to-one to a legacy
/// block.
pub fn modern_direct_lookup(name: &str) -> (r: Option<LegacyBlockState>)
    ensures
        r matches Some(b) ==> spec_modern_direct(name@) == Some((b.id, b.data)),
        r is None ==> spec_modern_direct(name@) is None,
{
    if str_eq(name, "stone") {
        return Some(LegacyBlockState::new(1, 0));
    }
    if str_eq(name, "granite") {
        return Some(LegacyBlockState::new(1, 1));
    }
    if str_eq(name, "polished_granite") {
        return Some(LegacyBlockState::new(1, 2));
    }
    if str_eq(name, "diorite") {
        return Some(LegacyBlockState::new(1, 3));
    }
    if str_eq(name, "polished_diorite") {
        return Some(LegacyBlockState::new(1, 4));
    }
    if str_eq(name, "andesite") {
        return Some(LegacyBlockState::new(1, 5));
    }
    if str_eq(name, "polished_andesite") {
        return Some(LegacyBlockState::new(1, 6));
    }
    if str_eq(name, "grass_block") {
        return Some(LegacyBlockState::new(2, 0));
    }
    if str_eq(name, "dirt") {
        return Some(LegacyBlockState::new(3, 0));
    }
    if str_eq(name, "coarse_dirt") {
        return Some(LegacyBlockState::new(3, 1));
    }
    if str_eq(name, "podzol") {
        return Some(LegacyBlockState::new(3, 2));
    }
    if str_eq(name, "cobblestone") {
        return Some(LegacyBlockState::new(4, 0));
    }
    if str_eq(name, "bedrock") {
        return Some(LegacyBlockState::new(7, 0));
    }
    if str_eq(name, "sand") {
        return Some(LegacyBlockState::new(12, 0));
    }
    if str_eq(name, "red_sand") {
        return Some(LegacyBlockState::new(12, 1));
    }
    if str_eq(name, "gravel") {
        return Some(LegacyBlockState::new(13, 0));
    }
    if str_eq(name, "gold_ore") {
        return Some(LegacyBlockState::new(14, 0));
    }
    if str_eq(name, "iron_ore") {
        return Some(LegacyBlockState::new(15, 0));
    }
    if str_eq(name, "coal_ore") {
        return Some(LegacyBlockState::new(16, 0));
    }
    if str_eq(name, "sponge") {
        return Some(LegacyBlockState::new(19, 0));
    }
    if str_eq(name, "wet_sponge") {
        return Some(LegacyBlockState::new(19, 1));
    }
    if str_eq(name, "glass") {
        return Some(LegacyBlockState::new(20, 0));
    }
    if str_eq(name, "lapis_ore") {
        return Some(LegacyBlockState::new(21, 0));
    }
    if str_eq(name, "lapis_block") {
        return Some(LegacyBlockState::new(22, 0));
    }
    if str_eq(name, "sandstone") {
        return Some(LegacyBlockState::new(24, 0));
    }
    if str_eq(name, "chiseled_sandstone") {
        return Some(LegacyBlockState::new(24, 1));
    }
    if str_eq(name, "smooth_sandstone") {
        return Some(LegacyBlockState::new(24, 2));
    }
    if str_eq(name, "note_block") {
        return Some(LegacyBlockState::new(25, 0));
    }
    if str_eq(name, "cobweb") {
        return Some(LegacyBlockState::new(30, 0));
    }
    if str_eq(name, "short_grass") {
        return Some(LegacyBlockState::new(31, 0));
    }
    if str_eq(name, "fern") {
        return Some(LegacyBlockState::new(31, 1));
    }
    if str_eq(name, "dead_bush") {
        return Some(LegacyBlockState::new(32, 0));
    }
    if str_eq(name, "dandelion") {
        return Some(LegacyBlockState::new(37, 0));
    }
    if str_eq(name, "brown_mushroom") {
        return Some(LegacyBlockState::new(39, 0));
    }
    if str_eq(name, "red_mushroom") {
        return Some(LegacyBlockState::new(40, 0));
    }
    if str_eq(name, "gold_block") {
        return Some(LegacyBlockState::new(41, 0));
    }
    if str_eq(name, "iron_block") {
        return Some(LegacyBlockState::new(42, 0));
    }
    if str_eq(name, "bricks") {
        return Some(LegacyBlockState::new(45, 0));
    }
    if str_eq(name, "tnt") {
        return Some(LegacyBlockState::new(46, 0));
    }
    if str_eq(name, "bookshelf") {
        return Some(LegacyBlockState::new(47, 0));
    }
    if str_eq(name, "mossy_cobblestone") {
        return Some(LegacyBlockState::new(48, 0));
    }
    if str_eq(name, "obsidian") {
        return Some(LegacyBlockState::new(49, 0));
    }
    if str_eq(name, "torch") {
        return Some(LegacyBlockState::new(50, 0));
    }
    if str_eq(name, "fire") {
        return Some(LegacyBlockState::new(51, 0));
    }
    if str_eq(name, "mob_spawner") {
        return Some(LegacyBlockState::new(52, 0));
    }
    if str_eq(name, "chest") {
        return Some(LegacyBlockState::new(54, 0));
    }
    if str_eq(name, "trapped_chest") {
        return Some(LegacyBlockState::new(146, 0));
    }
    if str_eq(name, "diamond_ore") {
        return Some(LegacyBlockState::new(56, 0));
    }
    if str_eq(name, "diamond_block") {
        return Some(LegacyBlockState::new(57, 0));
    }
    if str_eq(name, "crafting_table") {
        return Some(LegacyBlockState::new(58, 0));
    }
    if str_eq(name, "wheat") {
        return Some(LegacyBlockState::new(59, 0));
    }
    if str_eq(name, "farmland") {
        return Some(LegacyBlockState::new(60, 0));
    }
    if str_eq(name, "furnace") {
        return Some(LegacyBlockState::new(61, 0));
    }
    if str_eq(name, "ladder") {
        return Some(LegacyBlockState::new(65, 0));
    }
    if str_eq(name, "rail") {
        return Some(LegacyBlockState::new(66, 0));
    }
    if str_eq(name, "snow") {
        return Some(LegacyBlockState::new(78, 0));
    }
    if str_eq(name, "ice") {
        return Some(LegacyBlockState::new(79, 0));
    }
    if str_eq(name, "snow_block") {
        return Some(LegacyBlockState::new(80, 0));
    }
    if str_eq(name, "cactus") {
        return Some(LegacyBlockState::new(81, 0));
    }
    if str_eq(name, "clay") {
        return Some(LegacyBlockState::new(82, 0));
    }
    if str_eq(name, "sugar_cane") {
        return Some(LegacyBlockState::new(83, 0));
    }
    if str_eq(name, "jukebox") {
        return Some(LegacyBlockState::new(84, 0));
    }
    if str_eq(name, "pumpkin") {
        return Some(LegacyBlockState::new(86, 0));
    }
    if str_eq(name, "netherrack") {
        return Some(LegacyBlockState::new(87, 0));
    }
    if str_eq(name, "soul_sand") {
        return Some(LegacyBlockState::new(88, 0));
    }
    if str_eq(name, "glowstone") {
        return Some(LegacyBlockState::new(89, 0));
    }
    if str_eq(name, "jack_o_lantern") {
        return Some(LegacyBlockState::new(91, 0));
    }
    if str_eq(name, "cake") {
        return Some(LegacyBlockState::new(92, 0));
    }
    if str_eq(name, "melon") {
        return Some(LegacyBlockState::new(103, 0));
    }
    if str_eq(name, "vine") {
        return Some(LegacyBlockState::new(106, 0));
    }
    if str_eq(name, "mycelium") {
        return Some(LegacyBlockState::new(110, 0));
    }
    if str_eq(name, "lily_pad") {
        return Some(LegacyBlockState::new(111, 0));
    }
    if str_eq(name, "nether_bricks") {
        return Some(LegacyBlockState::new(112, 0));
    }
    if str_eq(name, "nether_brick_fence") {
        return Some(LegacyBlockState::new(113, 0));
    }
    if str_eq(name, "enchanting_table") {
        return Some(LegacyBlockState::new(116, 0));
    }
    if str_eq(name, "brewing_stand") {
        return Some(LegacyBlockState::new(117, 0));
    }
    if str_eq(name, "cauldron") {
        return Some(LegacyBlockState::new(118, 0));
    }
    if str_eq(name, "end_portal") {
        return Some(LegacyBlockState::new(119, 0));
    }
    if str_eq(name, "end_portal_frame") {
        return Some(LegacyBlockState::new(120, 0));
    }
    if str_eq(name, "end_stone") {
        return Some(LegacyBlockState::new(121, 0));
    }
    if str_eq(name, "dragon_egg") {
        return Some(LegacyBlockState::new(122, 0));
    }
    if str_eq(name, "cocoa") {
        return Some(LegacyBlockState::new(127, 0));
    }
    if str_eq(name, "emerald_ore") {
        return Some(LegacyBlockState::new(129, 0));
    }
    if str_eq(name, "ender_chest") {
        return Some(LegacyBlockState::new(130, 0));
    }
    if str_eq(name, "tripwire_hook") {
        return Some(LegacyBlockState::new(131, 0));
    }
    if str_eq(name, "tripwire") {
        return Some(LegacyBlockState::new(132, 0));
    }
    if str_eq(name, "emerald_block") {
        return Some(LegacyBlockState::new(133, 0));
    }
    if str_eq(name, "command_block") {
        return Some(LegacyBlockState::new(137, 0));
    }
    if str_eq(name, "beacon") {
        return Some(LegacyBlockState::new(138, 0));
    }
    if str_eq(name, "flower_pot") {
        return Some(LegacyBlockState::new(140, 0));
    }
    if str_eq(name, "carrots") {
        return Some(LegacyBlockState::new(141, 0));
    }
    if str_eq(name, "potatoes") {
        return Some(LegacyBlockState::new(142, 0));
    }
    if str_eq(name, "anvil") {
        return Some(LegacyBlockState::new(145, 0));
    }
    if str_eq(name, "daylight_detector") {
        return Some(LegacyBlockState::new(151, 0));
    }
    if str_eq(name, "redstone_block") {
        return Some(LegacyBlockState::new(152, 0));
    }
    if str_eq(name, "nether_quartz_ore") {
        return Some(LegacyBlockState::new(153, 0));
    }
    if str_eq(name, "hopper") {
        return Some(LegacyBlockState::new(154, 0));
    }
    if str_eq(name, "slime_block") {
        return Some(LegacyBlockState::new(165, 0));
    }
    if str_eq(name, "iron_trapdoor") {
        return Some(LegacyBlockState::new(167, 0));
    }
    if str_eq(name, "sea_lantern") {
        return Some(LegacyBlockState::new(169, 0));
    }
    if str_eq(name, "hay_block") {
        return Some(LegacyBlockState::new(170, 0));
    }
    if str_eq(name, "dispenser") {
        return Some(LegacyBlockState::new(23, 0));
    }
    if str_eq(name, "dropper") {
        return Some(LegacyBlockState::new(158, 0));
    }
    if str_eq(name, "sticky_piston") {
        return Some(LegacyBlockState::new(29, 0));
    }
    if str_eq(name, "piston") {
        return Some(LegacyBlockState::new(33, 0));
    }
    if str_eq(name, "piston_head") {
        return Some(LegacyBlockState::new(34, 0));
    }
    if str_eq(name, "redstone_lamp") {
        return Some(LegacyBlockState::new(123, 0));
    }
    if str_eq(name, "red_nether_bricks") {
        return Some(LegacyBlockState::new(112, 0));
    }
    if str_eq(name, "bone_block") {
        return Some(LegacyBlockState::new(1, 0));
    }
    if str_eq(name, "observer") {
        return Some(LegacyBlockState::new(1, 0));
    }
    if str_eq(name, "shulker_box") {
        return Some(LegacyBlockState::new(35, 0));
    }
    if str_eq(name, "white_shulker_box") {
        return Some(LegacyBlockState::new(35, 0));
    }
    if str_eq(name, "orange_shulker_box") {
        return Some(LegacyBlockState::new(35, 1));
    }
    if str_eq(name, "magenta_shulker_box") {
        return Some(LegacyBlockState::new(35, 2));
    }
    if str_eq(name, "light_blue_shulker_box") {
        return Some(LegacyBlockState::new(35, 3));
    }
    if str_eq(name, "yellow_shulker_box") {
        return Some(LegacyBlockState::new(35, 4));
    }
    if str_eq(name, "lime_shulker_box") {
        return Some(LegacyBlockState::new(35, 5));
    }
    if str_eq(name, "pink_shulker_box") {
        return Some(LegacyBlockState::new(35, 6));
    }
    if str_eq(name, "gray_shulker_box") {
        return Some(LegacyBlockState::new(35, 7));
    }
    if str_eq(name, "light_gray_shulker_box") {
        return Some(LegacyBlockState::new(35, 8));
    }
    if str_eq(name, "cyan_shulker_box") {
        return Some(LegacyBlockState::new(35, 9));
    }
    if str_eq(name, "purple_shulker_box") {
        return Some(LegacyBlockState::new(35, 10));
    }
    if str_eq(name, "blue_shulker_box") {
        return Some(LegacyBlockState::new(35, 11));
    }
    if str_eq(name, "brown_shulker_box") {
        return Some(LegacyBlockState::new(35, 12));
    }
    if str_eq(name, "green_shulker_box") {
        return Some(LegacyBlockState::new(35, 13));
    }
    if str_eq(name, "red_shulker_box") {
        return Some(LegacyBlockState::new(35, 14));
    }
    if str_eq(name, "black_shulker_box") {
        return Some(LegacyBlockState::new(35, 15));
    }
    None
}

/// The legacy colour number of a colour name (`silver` is the old name of
/// `light_gray`); unknown names give 0.
pub open spec fn spec_color_name(color: Seq<char>) -> u8 {
    if color == "white"@ {
        0
    } else if color == "orange"@ {
        1
    } else if color == "magenta"@ {
        2
    } else if color == "light_blue"@ {
        3
    } else if color == "yellow"@ {
        4
    } else if color == "lime"@ {
        5
    } else if color == "pink"@ {
        6
    } else if color == "gray"@ {
        7
    } else if color == "light_gray"@ || color == "silver"@ {
        8
    } else if color == "cyan"@ {
        9
    } else if color == "purple"@ {
        10
    } else if color == "blue"@ {
        11
    } else if color == "brown"@ {
        12
    } else if color == "green"@ {
        13
    } else if color == "red"@ {
        14
    } else if color == "black"@ {
        15
    } else {
        0
    }
}

/// The legacy colour number of a colour name.
pub fn get_color_name(color: &str) -> (r: u8)
    ensures
        r == spec_color_name(color@),
        r < 16,
{
    if str_eq(color, "white") {
        return 0;
    }
    if str_eq(color, "orange") {
        return 1;
    }
    if str_eq(color, "magenta") {
        return 2;
    }
    if str_eq(color, "light_blue") {
        return 3;
    }
    if str_eq(color, "yellow") {
        return 4;
    }
    if str_eq(color, "lime") {
        return 5;
    }
    if str_eq(color, "pink") {
        return 6;
    }
    if str_eq(color, "gray") {
        return 7;
    }
    if str_eq(color, "light_gray") || str_eq(color, "silver") {
        return 8;
    }
    if str_eq(color, "cyan") {
        return 9;
    }
    if str_eq(color, "purple") {
        return 10;
    }
    if str_eq(color, "blue") {
        return 11;
    }
    if str_eq(color, "brown") {
        return 12;
    }
    if str_eq(color, "green") {
        return 13;
    }
    if str_eq(color, "red") {
        return 14;
    }
    if str_eq(color, "black") {
        return 15;
    }
    0
}

/// The legacy data value of a colour name; the same as its colour number.
pub fn get_color_data(color: &str) -> (r: u8)
    ensures
        r == spec_color_name(color@),
        r < 16,
{
    get_color_name(color)
}

/// The legacy data value of a wood kind; `oak` and unknown kinds give 0.
pub open spec fn spec_wood_data(wood: Seq<char>) -> u8 {
    if wood == "spruce"@ {
        1
    } else if wood == "birch"@ {
        2
    } else if wood == "jungle"@ {
        3
    } else if wood == "acacia"@ {
        4
    } else if wood == "dark_oak"@ {
        5
    } else {
        0
    }
}

/// The legacy data value of a wood kind.
pub fn get_wood_data(wood_type: &str) -> (r: u8)
    ensures
        r == spec_wood_data(wood_type@),
        r <= 5,
{
    if str_eq(wood_type, "spruce") {
        return 1;
    }
    if str_eq(wood_type, "birch") {
        return 2;
    }
    if str_eq(wood_type, "jungle") {
        return 3;
    }
    if str_eq(wood_type, "acacia") {
        return 4;
    }
    if str_eq(wood_type, "dark_oak") {
        return 5;
    }
    0
}

/// The colour names in the order of their colour numbers.
pub open spec fn spec_color_names() -> Seq<Seq<char>> {
    seq!["white"@, "orange"@, "magenta"@, "light_blue"@, "yellow"@, "lime"@, "pink"@, "gray"@, "light_gray"@, "cyan"@, "purple"@, "blue"@, "brown"@, "green"@, "red"@, "black"@]
}

/// The characters of each string slice.
pub open spec fn strs_view(v: Seq<&str>) -> Seq<Seq<char>> {
    v.map_values(|s: &str| s@)
}

/// The colour names in the order of their colour numbers.
pub fn color_names() -> (r: Vec<&'static str>)
    ensures
        strs_view(r@) == spec_color_names(),
{
    let r: Vec<&'static str> = vec!["white", "orange", "magenta", "light_blue", "yellow", "lime", "pink", "gray", "light_gray", "cyan", "purple", "blue", "brown", "green", "red", "black"];
    proof {
        assert(strs_view(r@) =~= spec_color_names());
    }
    r
}

} // verus!
