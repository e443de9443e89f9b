# kitlang

The core of a compiler for the Kit language, written and verified in Verus. Kit source is compiled
to C.

- `src/` is the verified library. Each file holds one part: the lexer and the expression parser,
  the grammar and the syntax tree, the declarations, module paths, the dependency graph and the
  registry of modules, the reading of C headers, the type store and type inference, the
  realization of generic definitions, and the generation of C code. `compiler.rs` puts the parts
  together. The `kept_*` files prove what type inference leaves as it was.
- `tests/` holds tests of the library.
- `app/` is what surrounds the library: it reads files and headers, tells which values the machine
  holds for floating-point literals, and runs the C compiler.

Every type of the library that holds texts or lists has a mathematical model, whose name ends in
`V`; contracts speak of the models. A public proof function whose name starts with `law_` states a
property of several functions at once.
