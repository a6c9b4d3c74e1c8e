# zephyr

The front end of Zephyr, a small dynamically typed language, as a verified
library: the functions in `src/` are checked by Verus against their contracts,
except the few `#[verifier::external_body]` wrappers around `std` and `uuid`
calls (`text.rs`, `symbols.rs`), whose contracts are trusted.

- `lexer` turns source text into tokens; `grammar` states, over plain values,
  what the parser reads, and `parser` reads tokens into the syntax tree of
  `nodes`.
- `errors` holds the language's errors and how they are shown.
- `scope`, `memory_store`, `prototype_store`, `timings` and `symbols` are the
  stores that the runtime keeps; `package` answers for a package's
  `package.toml`.
- `app/` is the command: it reads files and standard input, and prints.
