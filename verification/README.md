# jubako

Reading the building blocks of the Jubako container format, verified with Verus.

Jubako stores contents in packs: a main pack that lists the other packs, directory
packs that hold entries, indexes and value stores, and content packs that hold
clusters of (possibly compressed) blobs. This library reads those structures from
bytes held in memory. Every parser states, as a spec function over the input bytes,
exactly what it returns and on which inputs it fails.

Layout:

- `src/bases.rs`, `src/primitive.rs`, `src/ints.rs`: byte sizes and the reading of
  little- and big-endian integers.
- `src/pack.rs`, `src/main_pack.rs`: pack headers (read and written), check
  information, the main pack and its pack information blocks.
- `src/reader/`: regions and streams of bytes, clusters (decompressed once and kept),
  content packs, manifest packs and their pack information, container packs (packs of
  packs, found at the start or at the end of a file), the shared pack header fields, locators (and the steps
  of a chain of them) and packs that may be missing.
- `src/directory_pack/`: property layouts, entry stores, value and key stores, the
  builders that read the values of entries, value comparison, ranges, indexes, the
  search of entries and the directory pack itself.
- `tests/`: the tests, run against the compiled library.
- `app/`: file access around the library (opening packs, locating them on disk and
  asking a chain of locators in turn).

Outside crates are reached through a few trusted wrappers: `blake3` (hashing),
`uuid` (random identifiers), `zerocopy` (little-endian reads), and `lz4`, `xz2` and
`zstd` (decompression).
