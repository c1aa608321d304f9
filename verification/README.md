# console2lce

A verified library for converting Minecraft worlds into the save format of the Legacy
Console Edition: Xbox 360 saves (STFS packages and raw `savegame.dat` files) and Java
Edition world directories become a `saveData.ms` container.

`src/` is the library, written in Verus and checked by it: the public functions state
what they return in their contracts, and Verus proves the code against them. It covers
the binary formats (NBT in both byte orders, region files, the save container, STFS
packages and their hash tables, the run-length and compressed chunk encodings), the
mapping of modern block states to legacy ids, the flattening of section-based chunks,
`level.dat` conversion, the conversion of whole saves, and the small protocols around
it (Git hosting URLs and directory listings for downloadable content, the relay
proxy's request lines). Compression goes through `flate2`, LZX decoding through
`lzxd` and JSON through `serde_json`, behind wrappers whose contracts say what is
relied on.

`app/` holds the parts that do I/O: reading and writing files, walking world
directories, HTTP requests for downloadable content and the relay's TCP connections.

`tests/` exercises the library on concrete inputs.
