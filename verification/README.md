# interoptopus_c

A C header generator for FFI inventories, written in Verus. Given the types
and functions a Rust library exports, it writes a single `.h` file with the
type definitions (in dependency order), the function declarations, a
dispatch table struct, a dynamic loader for Windows and POSIX, and a static
loader.

Layout:

- `src/model.rs` — the inventory as plain values, and what makes it usable.
- `src/topo.rs` — the dependency order of types, with its proof.
- `src/sorting.rs` — the order of functions (stable by name).
- `src/text.rs` — C identifiers, decimal numbers, joining, string order.
- `src/codegen.rs` — the header, specified construct by construct.
- `src/functions.rs` — declarations, dispatch table and loader written line by
  line with indentation.
- `src/validate.rs` — deciding whether a header can be generated.
- `app/lib.rs` — reading an `interoptopus` inventory and writing files,
  `std::io::Write` sinks and `IndentWriter`s.
