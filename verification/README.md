# dayum

A small C-like language: a scanner, a Pratt parser, a type checker, a
bytecode compiler and a stack machine, written in Verus with their
behaviour stated in contracts and proved.

- `src/lexer` — tokens and the scanner (`Scanner::next` is specified by
  `spec_next`).
- `src/parser` — the syntax tree (`ast`), its mathematical model (`model`),
  the grammar as spec functions (`grammar`) and the parser, whose results
  are exactly what the grammar reads.
- `src/type_checker` — types, the checker's rules as a state transformer
  (`rules`), the checker and properties of the walk (`laws`).
- `src/compiler` — chunks and values (`chunk`), compiling rules (`rules`),
  the compiler and properties of its output (`laws`).
- `src/vm` — the stack machine (`step` runs one instruction; `rules` states
  it), its heap and globals, and a NaN-boxed value type with its arithmetic
  (`types`, `ops`).
- `app/` — the command-line program: reading the file, logging, printing,
  and the floating-point arithmetic the library hands back.
