# celeste

A compiler for the small Celeste language: `.cel` source goes through a
lexer, a recursive-descent parser and a type checker, and a Cranelift
backend writes a native object file that `clang` links.

- `src/` is the library, verified with Verus. `tokens` and `ast` hold the
  data; `lexer`, `parser` (with its grammar in `grammar`), `typechecker` and
  `codegen` each state what they do as a function of their input, over the
  spec functions beside them. `compiler` holds the shared state and its name
  tables; `clif` declares the Cranelift items the backend calls.
- `app/` is the `celeste` command: argument handling, reading the source and
  the files it includes, error messages, writing the object file, linking.
- `tests/` runs the library on concrete programs.
