//! Plain data shared by the conversion steps.
use vstd::prelude::*;
use crate::text::str_eq;

verus! {

/// A block of the legacy (numeric id + 4-bit data) block model.
#[derive(Debug, Clone, Copy, PartialEq, Eq, Structural)]
pub struct LegacyBlockState {
    pub id: u8,
    pub data: u8,
}

impl LegacyBlockState {
    pub fn new(id: u8, data: u8) -> (r: Self)
        ensures
            r.id == id,
            r.data == data,
    {
        LegacyBlockState { id, data }
    }
}

/// The character sequences of a vector of strings.
pub open spec fn strings_view(v: Seq<String>) -> Seq<Seq<char>> {
    v.map_values(|s: String| s@)
}

/// `u` with `name` added at the end unless it is already there.
pub open spec fn with_unknown(u: Seq<Seq<char>>, name: Seq<char>) -> Seq<Seq<char>> {
    if u.contains(name) { u } else { u.push(name) }
}

/// `v` holds no name twice and begins with `u`: what recording unknown blocks onto `u`
/// may give.
pub open spec fn extends_unique(u: Seq<Seq<char>>, v: Seq<Seq<char>>) -> bool {
    &&& v.no_duplicates()
    &&& u.len() <= v.len()
    &&& v.subrange(0, u.len() as int) == u
}

/// Recording an unknown block keeps the list free of repeats and in the order first
/// met: the list afterwards begins with the list before and holds the name, and
/// recording the same name again changes nothing.
pub proof fn lemma_with_unknown(u: Seq<Seq<char>>, name: Seq<char>)
    requires
        u.no_duplicates(),
    ensures
        extends_unique(u, with_unknown(u, name)),
        with_unknown(u, name).contains(name),
        with_unknown(with_unknown(u, name), name) == with_unknown(u, name),
{
    if !u.contains(name) {
        let v = u.push(name);
        assert(v.subrange(0, u.len() as int) =~= u);
        assert(v[u.len() as int] == name);
        assert forall|i: int, j: int| 0 <= i < v.len() && 0 <= j < v.len() && i != j implies v[i] != v[j] by {
            if i < u.len() && j < u.len() {
                assert(v[i] == u[i] && v[j] == u[j]);
            } else if i < u.len() {
                assert(v[i] == u[i]);
                assert(u.contains(v[i]));
            } else {
                assert(v[j] == u[j]);
                assert(u.contains(v[j]));
            }
        }
        assert(v.contains(name));
    } else {
        assert(u.subrange(0, u.len() as int) =~= u);
    }
}

/// Extending without repeats is transitive.
pub proof fn lemma_extends_trans(a: Seq<Seq<char>>, b: Seq<Seq<char>>, c: Seq<Seq<char>>)
    requires
        extends_unique(a, b),
        extends_unique(b, c),
    ensures
        extends_unique(a, c),
{
    assert(c.subrange(0, a.len() as int) =~= c.subrange(0, b.len() as int).subrange(0, a.len() as int));
}

/// State carried across the chunks of one conversion.
#[derive(Debug, Clone)]
pub struct ChunkConversionContext {
    pub preserve_dynamic_chunk_data: bool,
    pub global_modern_section_shift: Option<i32>,
    /// Modern block names met that have no legacy counterpart, each recorded once,
    /// in the order first met.
    pub unknown_blocks: Vec<String>,
}

impl ChunkConversionContext {
    pub fn new() -> (r: Self)
        ensures
            !r.preserve_dynamic_chunk_data,
            r.global_modern_section_shift is None,
            r.unknown_blocks@.len() == 0,
    {
        ChunkConversionContext {
            preserve_dynamic_chunk_data: false,
            global_modern_section_shift: None,
            unknown_blocks: Vec::new(),
        }
    }

    /// Records `name` as an unknown block unless it is already recorded.
    pub fn record_unknown_modern_block(&mut self, name: &str)
        ensures
            final(self).preserve_dynamic_chunk_data == old(self).preserve_dynamic_chunk_data,
            final(self).global_modern_section_shift == old(self).global_modern_section_shift,
            strings_view(final(self).unknown_blocks@) == with_unknown(strings_view(old(self).unknown_blocks@), name@),
    {
        let n = self.unknown_blocks.len();
        let mut i: usize = 0;
        while i < n
            invariant
                n == self.unknown_blocks@.len(),
                0 <= i <= n,
                forall|j: int| 0 <= j < i ==> self.unknown_blocks@[j]@ != name@,
            decreases n - i,
        {
            if str_eq(self.unknown_blocks[i].as_str(), name) {
                proof {
                    assert(strings_view(self.unknown_blocks@)[i as int] == name@);
                }
                return;
            }
            i += 1;
        }
        proof {
            assert forall|j: int| 0 <= j < strings_view(self.unknown_blocks@).len()
                implies strings_view(self.unknown_blocks@)[j] != name@ by {
                assert(strings_view(self.unknown_blocks@)[j] == self.unknown_blocks@[j]@);
            }
        }
        let ghost before = self.unknown_blocks@;
        self.unknown_blocks.push(crate::text::to_owned_string(name));
        proof {
            assert(strings_view(self.unknown_blocks@) =~= strings_view(before).push(name@));
        }
    }
}

/// The settings a conversion runs with.
#[derive(Debug, Clone)]
pub struct ConversionOptions {
    pub profile: String,
    pub target_version: String,
    pub game_version: String,
    pub preserve_entities: bool,
    pub preview: bool,
}

impl Default for ConversionOptions {
    fn default() -> (r: Self)
        ensures
            r.profile@ == "large"@,
            r.target_version@ == "TU19"@,
            r.game_version@ == "1.13"@,
            !r.preserve_entities,
            !r.preview,
    {
        ConversionOptions {
            profile: crate::text::to_owned_string("large"),
            target_version: crate::text::to_owned_string("TU19"),
            game_version: crate::text::to_owned_string("1.13"),
            preserve_entities: false,
            preview: false,
        }
    }
}

/// The outcome of a whole conversion.
#[derive(Debug, Clone)]
pub struct ConversionResult {
    pub success: bool,
    pub message: String,
    pub chunk_count: usize,
    pub unknown_blocks: Vec<String>,
}

/// A Java world read into memory.
#[derive(Debug, Clone)]
pub struct PreparedJavaWorld {
    /// The files of the world's `level.dat` set, by name.
    pub level_dat: Vec<(String, Vec<u8>)>,
    pub region_files: Vec<JavaRegionFile>,
    pub dimension_dirs: Vec<String>,
}

/// One region file of a Java world.
#[derive(Debug, Clone)]
pub struct JavaRegionFile {
    pub path: String,
    pub dimension: String,
    pub data: Vec<u8>,
    pub chunk_count: usize,
}

/// One entry of the Xbox 360 archive index.
#[derive(Debug, Clone)]
pub struct ArchiveEntry {
    pub name: String,
    pub offset: u64,
    pub length: u32,
    pub timestamp: u64,
}

/// The leading fields of an STFS package.
#[derive(Debug, Clone)]
pub struct StfsPackageDescriptor {
    pub magic: u32,
    pub content_type: u32,
    pub meta_data_size: u32,
    pub total_block_count: u32,
    pub block_allocation_table_size: u32,
}

/// A compressed savegame with its header fields.
#[derive(Debug, Clone)]
pub struct SavegameEnvelope {
    pub data: Vec<u8>,
    pub decompressed_size: u32,
    pub compression_type: String,
}

/// One 16-block-high section of a chunk, decoded: 4096 block ids and 2048 bytes of
/// data nibbles, light arrays of 2048 bytes where the section has them, and the
/// number of blocks that are not air.
pub struct DecodedSection {
    pub section_y: i32,
    pub blocks: Vec<u8>,
    pub data: Vec<u8>,
    pub sky_light: Option<Vec<u8>>,
    pub block_light: Option<Vec<u8>>,
    pub non_air_count: i32,
}

/// Number of blocks in a legacy chunk column (16 x 16 x 256).
pub const CHUNK_BLOCKS: usize = 65536;
/// Number of bytes of a per-block nibble array of a legacy chunk column.
pub const CHUNK_NIBBLES: usize = 32768;
pub const HEIGHTMAP_SIZE: usize = 256;
pub const BIOMES_SIZE: usize = 256;

/// The header of a save-data container.
pub struct SaveDataContainerHeader {
    pub magic: [u8; 6],
    pub version: u32,
    pub file_count: u32,
}

/// One file record of a save-data container.
pub struct SaveDataContainerFileEntry {
    pub offset: u64,
    pub length: u64,
    pub timestamp: u64,
    pub name: String,
}

} // verus!
