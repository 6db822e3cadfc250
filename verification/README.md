# bevy_auto_sys

Macros that write the parameter lists of Bevy systems. A system body calls
shorthands (`spawn!`, `load!`, `time!`, `delta_time!`, `windows!`, `res!`,
`query!`); `#[auto_system]` reads the body, renames each shorthand to the
macro that expands it inside the system, and gives the function the
parameters that the shorthands need.

Layout:

- `src/` — the verified library. Token trees are plain values
  (`token.rs`); `scan.rs` reads a body, `flags.rs` holds what it asks for,
  `params.rs` writes the parameter list, `query_text.rs` reads the query
  language, `macros.rs` holds each macro's expansion, `laws.rs` the
  properties that hold across them. Each expansion that needs names to be
  identifiers has a checked form (`try_query`, `try_auto_system`, ...) that
  tests the condition and gives `None` where it fails.
- `app/` — the macro entry points: they turn the compiler's token streams
  into the library's values, call the checked forms, and turn the trees
  back into token streams.
- `tests/` — expansions checked end to end on real token streams.
