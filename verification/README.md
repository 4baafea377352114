# dirtydata

The forensic core of DirtyData, a headless audio workbench, written in Verus:
the canonical graph IR, patches and their deterministic digests, replay and
diff, three-way merge, topological ordering, the surface DSL, user actions,
intents, freezing, the workspace audit, the plugin worker's wire frames,
OSC node addresses, and the planning done by the JIT compiler and the
interpreted runner. Verus checks every function in `src/` against its
contract; `Timestamp::now` reads the clock and promises nothing of the value.

- `src/` — the verified library. Floating-point values are held as their
  IEEE-754 bit patterns; identifiers as 128-bit integers written as 32
  lowercase hexadecimal digits.
- `tests/` — tests of the library on concrete graphs and patches.
- `app/` — the `dirty` command line: opening and saving a workspace as
  JSON files, and the floating-point arithmetic (formatting numbers,
  comparing against constraint ranges, random mutation steps).

The outside calls the library makes are few and named in `src/`: BLAKE3
digests (`hash::blake3_of`), fresh random identifiers (`ir::fresh_id`) and
the system clock (`types::Timestamp::now`). The contracts of those calls
(the wrappers in `hash.rs`, `ir.rs` and `types.rs`) are trusted, not proved.
